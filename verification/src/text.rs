//! Character-level helpers shared by the parsers and formatters of the crate.
use vstd::prelude::*;

verus! {

/// The characters of `s`, in order.
pub fn chars_of(s: &str) -> (v: Vec<char>)
    ensures
        v@ == s@,
{
    let mut v: Vec<char> = Vec::new();
    for c in iter: s.chars()
        invariant
            v@ == iter.seq().take(iter.index() as int),
    {
        v.push(c);
    }
    v
}

/// Appends `c` to `s`: std's `String::push`, which adds exactly one character
/// at the end.
#[verifier::external_body]
pub(crate) fn push_char(s: &mut String, c: char)
    ensures
        final(s)@ == old(s)@.push(c),
{
    s.push(c);
}

/// Appends the characters of `v` to `s`.
pub(crate) fn push_chars(s: &mut String, v: &[char])
    ensures
        final(s)@ == old(s)@ + v@,
{
    let ghost start = s@;
    let mut i: usize = 0;
    while i < v.len()
        invariant
            i <= v@.len(),
            s@ == start + v@.take(i as int),
        decreases v.len() - i,
    {
        push_char(s, v[i]);
        i = i + 1;
        assert(v@.take(i as int) == v@.take(i - 1).push(v@[i - 1]));
    }
    assert(v@.take(i as int) == v@);
}

/// A `String` holding exactly the characters of `v`.
pub fn string_from_chars(v: &[char]) -> (s: String)
    ensures
        s@ == v@,
{
    let mut s = String::new();
    push_chars(&mut s, v);
    s
}

/// Whether `p` occurs in `s` at position `i`.
pub open spec fn occurs_at(s: Seq<char>, p: Seq<char>, i: int) -> bool {
    0 <= i && i + p.len() <= s.len() && s.subrange(i, i + p.len()) == p
}

/// The first position at or after `i` where `p` occurs in `s`.
pub open spec fn find_from(s: Seq<char>, p: Seq<char>, i: int) -> Option<int>
    decreases s.len() - i + 1,
{
    if i < 0 || i + p.len() > s.len() {
        None
    } else if occurs_at(s, p, i) {
        Some(i)
    } else {
        find_from(s, p, i + 1)
    }
}

/// The first position where `p` occurs in `s` (std's `str::find` on text).
pub open spec fn find_first(s: Seq<char>, p: Seq<char>) -> Option<int> {
    find_from(s, p, 0)
}

pub proof fn lemma_find_from_bounds(s: Seq<char>, p: Seq<char>, i: int)
    ensures
        find_from(s, p, i) matches Some(j) ==> i <= j && occurs_at(s, p, j),
    decreases s.len() - i + 1,
{
    if !(i < 0 || i + p.len() > s.len()) && !occurs_at(s, p, i) {
        lemma_find_from_bounds(s, p, i + 1);
    }
}

/// Searching from `i` finds the first occurrence at or after `i`.
pub proof fn lemma_find_from_first(s: Seq<char>, p: Seq<char>, i: int)
    requires
        0 <= i,
    ensures
        find_from(s, p, i) matches Some(j) ==> forall|k: int| i <= k < j ==> !occurs_at(s, p, k),
        find_from(s, p, i) is None ==> forall|k: int| i <= k ==> !occurs_at(s, p, k),
    decreases s.len() - i + 1,
{
    if !(i + p.len() > s.len()) && !occurs_at(s, p, i) {
        lemma_find_from_first(s, p, i + 1);
    }
}

/// Whether `p` occurs in `s` at position `i` (executable).
pub fn occurs_at_exec(s: &[char], p: &[char], i: usize) -> (b: bool)
    ensures
        b == occurs_at(s@, p@, i as int),
{
    if i > s.len() || p.len() > s.len() - i {
        return false;
    }
    let mut k: usize = 0;
    while k < p.len()
        invariant
            i + p@.len() <= s@.len(),
            k <= p@.len(),
            forall|j: int| 0 <= j < k ==> s@[i + j] == p@[j],
        decreases p.len() - k,
    {
        assert(i + k < s.len());
        if s[i + k] != p[k] {
            assert(s@.subrange(i as int, i + p@.len())[k as int] != p@[k as int]);
            return false;
        }
        k = k + 1;
    }
    assert(s@.subrange(i as int, i + p@.len()) =~= p@);
    true
}

/// The first position at or after `from` where `p` occurs in `s`.
pub fn find_from_exec(s: &[char], p: &[char], from: usize) -> (r: Option<usize>)
    ensures
        r matches Some(j) ==> find_from(s@, p@, from as int) == Some(j as int),
        r is None ==> find_from(s@, p@, from as int) is None,
{
    if from > s.len() || p.len() > s.len() - from {
        return None;
    }
    let last = s.len() - p.len();
    let mut i = from;
    while i <= last
        invariant
            from <= i <= last,
            last + p@.len() == s@.len(),
            find_from(s@, p@, from as int) == find_from(s@, p@, i as int),
        decreases last - i,
    {
        if occurs_at_exec(s, p, i) {
            return Some(i);
        }
        if i == last {
            assert(find_from(s@, p@, i + 1) is None);
            return None;
        }
        i = i + 1;
    }
    None
}

} // verus!

verus! {

/// The text that `{:?}` prints for a string: the string in double quotes with
/// std's debug escapes applied.
pub uninterp spec fn debug_quoted_text(s: Seq<char>) -> Seq<char>;

/// Formats `s` with `{:?}` (std's `Debug` for `str`).
#[verifier::external_body]
pub(crate) fn debug_quoted(s: &str) -> (r: String)
    ensures
        r@ == debug_quoted_text(s@),
{
    format!("{s:?}")
}

} // verus!

verus! {

/// Whether two strings hold the same characters.
pub fn str_eq(a: &str, b: &str) -> (r: bool)
    ensures
        r == (a@ == b@),
{
    let x = chars_of(a);
    let y = chars_of(b);
    if x.len() != y.len() {
        return false;
    }
    let mut i: usize = 0;
    while i < x.len()
        invariant
            x@ == a@,
            y@ == b@,
            x@.len() == y@.len(),
            i <= x@.len(),
            forall|j: int| 0 <= j < i ==> x@[j] == y@[j],
        decreases x.len() - i,
    {
        if x[i] != y[i] {
            return false;
        }
        i = i + 1;
    }
    assert(x@ =~= y@);
    true
}

} // verus!

verus! {

/// The decimal digit for `d < 10`.
pub open spec fn digit_char(d: nat) -> char {
    (48 + d) as char
}

/// The decimal text of a natural number, without leading zeros.
pub open spec fn decimal_text(n: nat) -> Seq<char>
    decreases n,
{
    if n < 10 {
        seq![digit_char(n)]
    } else {
        decimal_text(n / 10).push(digit_char(n % 10))
    }
}

/// The decimal text of an integer, with a leading `-` when it is negative.
pub open spec fn signed_decimal_text(n: int) -> Seq<char> {
    if n < 0 {
        seq!['-'] + decimal_text((-n) as nat)
    } else {
        decimal_text(n as nat)
    }
}

/// Appends the decimal text of `n` to `s`.
pub fn push_decimal(s: &mut String, n: u64)
    ensures
        final(s)@ == old(s)@ + decimal_text(n as nat),
    decreases n,
{
    if n >= 10 {
        push_decimal(s, n / 10);
    }
    let d = (n % 10) as u32;
    let c = char_from_digit(d);
    push_char(s, c);
}

/// The character of decimal digit `d`.
pub fn char_from_digit(d: u32) -> (c: char)
    requires
        d < 10,
    ensures
        c == digit_char(d as nat),
{
    if d == 0 { '0' }
    else if d == 1 { '1' }
    else if d == 2 { '2' }
    else if d == 3 { '3' }
    else if d == 4 { '4' }
    else if d == 5 { '5' }
    else if d == 6 { '6' }
    else if d == 7 { '7' }
    else if d == 8 { '8' }
    else { '9' }
}

/// Appends the decimal text of the signed `n` to `s`.
pub fn push_signed_decimal(s: &mut String, n: i64)
    ensures
        final(s)@ == old(s)@ + signed_decimal_text(n as int),
{
    if n < 0 {
        push_char(s, '-');
        let magnitude: u64 = (0i128 - n as i128) as u64;
        push_decimal(s, magnitude);
    } else {
        push_decimal(s, n as u64);
    }
}

} // verus!

verus! {

/// Whether `c` is a decimal digit.
pub open spec fn is_digit(c: char) -> bool {
    '0' <= c && c <= '9'
}

/// The value of a decimal digit.
pub open spec fn digit_value(c: char) -> nat {
    (c as u32 - 48) as nat
}

/// The value of a sequence of decimal digits.
pub open spec fn digits_value(s: Seq<char>) -> nat
    decreases s.len(),
{
    if s.len() == 0 {
        0
    } else {
        digits_value(s.drop_last()) * 10 + digit_value(s.last())
    }
}

/// Whether `s` is a non-empty run of decimal digits.
pub open spec fn all_digits(s: Seq<char>) -> bool {
    s.len() > 0 && forall|i: int| 0 <= i < s.len() ==> is_digit(#[trigger] s[i])
}

/// The unsigned integer that std's `u32::from_str` reads from `s`: an
/// optional `+` and then digits, whose value must fit in a `u32`.
pub open spec fn parsed_u32(s: Seq<char>) -> Option<u32> {
    let digits = if s.len() > 0 && s[0] == '+' {
        s.drop_first()
    } else {
        s
    };
    if all_digits(digits) && digits_value(digits) <= u32::MAX {
        Some(digits_value(digits) as u32)
    } else {
        None
    }
}

/// The signed integer that std's `i64::from_str` reads from `s`: an optional
/// `+` or `-` and then digits, whose value must fit in an `i64`.
pub open spec fn parsed_i64(s: Seq<char>) -> Option<i64> {
    let negative = s.len() > 0 && s[0] == '-';
    let digits = if s.len() > 0 && (s[0] == '+' || s[0] == '-') {
        s.drop_first()
    } else {
        s
    };
    if !all_digits(digits) {
        None
    } else if negative {
        if digits_value(digits) <= 0x8000_0000_0000_0000 {
            Some((0 - digits_value(digits)) as i64)
        } else {
            None
        }
    } else if digits_value(digits) <= i64::MAX {
        Some(digits_value(digits) as i64)
    } else {
        None
    }
}

proof fn lemma_digits_value_monotone(s: Seq<char>, i: int)
    requires
        0 <= i <= s.len(),
    ensures
        digits_value(s.take(i)) <= digits_value(s),
    decreases s.len(),
{
    if i < s.len() {
        assert(s.drop_last().take(i) =~= s.take(i));
        lemma_digits_value_monotone(s.drop_last(), i);
    } else {
        assert(s.take(i) =~= s);
    }
}

/// The value of the digits `s[from..]`, or `None` when one is not a digit or
/// the value exceeds `limit`.
fn digits_value_upto(s: &[char], from: usize, limit: u64) -> (r: Option<u64>)
    requires
        from <= s@.len(),
        limit >= 9,
    ensures
        r matches Some(v) ==> all_digits(s@.skip(from as int)) && v == digits_value(s@.skip(from as int))
            && v <= limit,
        r is None ==> !all_digits(s@.skip(from as int)) || digits_value(s@.skip(from as int)) > limit,
{
    let ghost d = s@.skip(from as int);
    if from == s.len() {
        return None;
    }
    let mut value: u64 = 0;
    let mut i = from;
    while i < s.len()
        invariant
            from <= i <= s@.len(),
            d == s@.skip(from as int),
            forall|j: int| 0 <= j < i - from ==> is_digit(#[trigger] d[j]),
            value == digits_value(d.take(i - from)),
            value <= limit,
            limit >= 9,
        decreases s.len() - i,
    {
        let c = s[i];
        if !('0' <= c && c <= '9') {
            assert(!is_digit(d[i - from]));
            return None;
        }
        let dv = (c as u32 - 48) as u64;
        assert(d.take(i - from + 1).drop_last() =~= d.take(i - from));
        if value > (limit - dv) / 10 {
            proof {
                assert(digits_value(d.take(i - from + 1)) == value * 10 + dv);
                assert(value * 10 + dv > limit) by (nonlinear_arith)
                    requires
                        value > (limit - dv) / 10,
                        dv <= 9,
                        dv <= limit,
                ;
                lemma_digits_value_monotone(d, i - from + 1);
            }
            return None;
        }
        proof {
            assert(value * 10 + dv <= limit) by (nonlinear_arith)
                requires
                    value <= (limit - dv) / 10,
                    dv <= limit,
            ;
        }
        value = value * 10 + dv;
        i = i + 1;
    }
    assert(d.take(i - from) =~= d);
    Some(value)
}

/// std's `u32::from_str` on text.
pub fn parse_u32(s: &str) -> (r: Option<u32>)
    ensures
        r == parsed_u32(s@),
{
    let chars = chars_of(s);
    let from: usize = if chars.len() > 0 && chars[0] == '+' { 1 } else { 0 };
    assert(chars@.skip(from as int) =~= (if s@.len() > 0 && s@[0] == '+' { s@.drop_first() } else { s@ }));
    match digits_value_upto(chars.as_slice(), from, 0xffff_ffff) {
        Some(v) => Some(v as u32),
        None => None,
    }
}

/// std's `i64::from_str` on text.
pub fn parse_i64(s: &str) -> (r: Option<i64>)
    ensures
        r == parsed_i64(s@),
{
    let chars = chars_of(s);
    let negative = chars.len() > 0 && chars[0] == '-';
    let from: usize = if chars.len() > 0 && (chars[0] == '+' || chars[0] == '-') { 1 } else { 0 };
    assert(chars@.skip(from as int) =~= (if s@.len() > 0 && (s@[0] == '+' || s@[0] == '-') {
        s@.drop_first()
    } else {
        s@
    }));
    let limit: u64 = if negative { 0x8000_0000_0000_0000 } else { 0x7fff_ffff_ffff_ffff };
    match digits_value_upto(chars.as_slice(), from, limit) {
        Some(v) => {
            if negative {
                Some((0i128 - v as i128) as i64)
            } else {
                Some(v as i64)
            }
        },
        None => {
            None
        },
    }
}

} // verus!

verus! {

/// `s` from position `pos` on, with every non-overlapping occurrence of the
/// non-empty `pat`, found left to right, replaced by `rep` (std's
/// `str::replace`).
pub open spec fn replaced_from(s: Seq<char>, pat: Seq<char>, rep: Seq<char>, pos: int) -> Seq<char>
    decreases s.len() - pos,
{
    if pos < 0 || pos > s.len() || pat.len() == 0 {
        s.skip(pos)
    } else {
        match find_from(s, pat, pos) {
            None => s.skip(pos),
            Some(i) => if pos <= i && i + pat.len() <= s.len() {
                s.subrange(pos, i) + rep + replaced_from(s, pat, rep, i + pat.len())
            } else {
                s.skip(pos)
            },
        }
    }
}

/// `s` with every occurrence of `pat` replaced by `rep`.
pub open spec fn replaced(s: Seq<char>, pat: Seq<char>, rep: Seq<char>) -> Seq<char> {
    replaced_from(s, pat, rep, 0)
}

/// std's `str::replace` for a non-empty pattern.
pub fn replace_all(s: &str, pat: &str, rep: &str) -> (r: String)
    requires
        pat@.len() > 0,
    ensures
        r@ == replaced(s@, pat@, rep@),
{
    let sc = chars_of(s);
    let pc = chars_of(pat);
    let rc = chars_of(rep);
    let mut out = String::new();
    let mut pos: usize = 0;
    loop
        invariant
            pos <= sc@.len(),
            sc@ == s@,
            pc@ == pat@,
            rc@ == rep@,
            pat@.len() > 0,
            out@ + replaced_from(sc@, pc@, rc@, pos as int) == replaced(sc@, pc@, rc@),
        decreases sc@.len() - pos,
    {
        match find_from_exec(sc.as_slice(), pc.as_slice(), pos) {
            None => {
                push_chars(&mut out, subslice_vec(sc.as_slice(), pos, sc.len()).as_slice());
                return out;
            },
            Some(i) => {
                proof {
                    lemma_find_from_bounds(sc@, pc@, pos as int);
                }
                push_chars(&mut out, subslice_vec(sc.as_slice(), pos, i).as_slice());
                push_chars(&mut out, rc.as_slice());
                assert(i + pc@.len() <= sc@.len());
                assert(i + pc.len() <= sc.len());
                pos = i + pc.len();
            },
        }
    }
}

/// The characters `v[from..to]`.
pub fn subslice_vec(v: &[char], from: usize, to: usize) -> (r: Vec<char>)
    requires
        from <= to <= v@.len(),
    ensures
        r@ == v@.subrange(from as int, to as int),
{
    let mut r: Vec<char> = Vec::new();
    let mut k = from;
    while k < to
        invariant
            from <= k <= to <= v@.len(),
            r@ == v@.subrange(from as int, k as int),
        decreases to - k,
    {
        r.push(v[k]);
        k = k + 1;
        assert(v@.subrange(from as int, k as int) =~= v@.subrange(from as int, k - 1).push(v@[k - 1]));
    }
    r
}

} // verus!

verus! {

/// The text of an optional string.
pub open spec fn opt_string_view(o: Option<String>) -> Option<Seq<char>> {
    match o {
        Some(s) => Some(s@),
        None => None,
    }
}

} // verus!

verus! {

/// Unicode `White_Space`, as std's `char::is_whitespace` tests it.
pub open spec fn is_whitespace(c: char) -> bool {
    ('\t' <= c && c <= '\r') || c == ' ' || c == '\u{85}' || c == '\u{a0}' || c == '\u{1680}' || ('\u{2000}'
        <= c && c <= '\u{200a}') || c == '\u{2028}' || c == '\u{2029}' || c == '\u{202f}' || c == '\u{205f}'
        || c == '\u{3000}'
}

/// std's `char::is_whitespace`.
pub fn char_is_whitespace(c: char) -> (b: bool)
    ensures
        b == is_whitespace(c),
{
    ('\t' <= c && c <= '\r') || c == ' ' || c == '\u{85}' || c == '\u{a0}' || c == '\u{1680}' || ('\u{2000}'
        <= c && c <= '\u{200a}') || c == '\u{2028}' || c == '\u{2029}' || c == '\u{202f}' || c == '\u{205f}'
        || c == '\u{3000}'
}

/// Whether trimming with `quote` removes `c`: whitespace when `quote` is
/// `None`, otherwise the quote character itself.
pub open spec fn strip_char(c: char, quote: Option<char>) -> bool {
    match quote {
        None => is_whitespace(c),
        Some(q) => c == q,
    }
}

/// `s` without the leading characters that trimming with `quote` removes.
pub open spec fn trim_start_by(s: Seq<char>, quote: Option<char>) -> Seq<char>
    decreases s.len(),
{
    if s.len() > 0 && strip_char(s[0], quote) {
        trim_start_by(s.drop_first(), quote)
    } else {
        s
    }
}

/// `s` without the trailing characters that trimming with `quote` removes.
pub open spec fn trim_end_by(s: Seq<char>, quote: Option<char>) -> Seq<char>
    decreases s.len(),
{
    if s.len() > 0 && strip_char(s.last(), quote) {
        trim_end_by(s.drop_last(), quote)
    } else {
        s
    }
}

/// std's `str::trim`: leading and trailing whitespace removed.
pub open spec fn trimmed(s: Seq<char>) -> Seq<char> {
    trim_end_by(trim_start_by(s, None), None)
}

/// std's `str::trim_start`.
pub open spec fn trimmed_start(s: Seq<char>) -> Seq<char> {
    trim_start_by(s, None)
}

/// std's `str::trim_matches(c)`: leading and trailing `c` removed.
pub open spec fn trimmed_char(s: Seq<char>, c: char) -> Seq<char> {
    trim_end_by(trim_start_by(s, Some(c)), Some(c))
}

/// Whether trimming removes `c`.
fn strips(c: char, quote: Option<char>) -> (b: bool)
    ensures
        b == strip_char(c, quote),
{
    match quote {
        None => char_is_whitespace(c),
        Some(q) => c == q,
    }
}

/// The bounds `[a, b)` of `v[from..to]` trimmed with `quote`.
fn trim_bounds(v: &[char], from: usize, to: usize, quote: Option<char>) -> (r: (usize, usize))
    requires
        from <= to <= v@.len(),
    ensures
        from <= r.0 <= r.1 <= to,
        v@.subrange(r.0 as int, r.1 as int) == trim_end_by(
            trim_start_by(v@.subrange(from as int, to as int), quote),
            quote,
        ),
{
    let mut a = from;
    while a < to && strips(v[a], quote)
        invariant
            from <= a <= to <= v@.len(),
            trim_start_by(v@.subrange(from as int, to as int), quote) == trim_start_by(
                v@.subrange(a as int, to as int),
                quote,
            ),
        decreases to - a,
    {
        assert(v@.subrange(a as int, to as int).drop_first() =~= v@.subrange(a + 1, to as int));
        a = a + 1;
    }
    let mut b = to;
    assert(trim_start_by(v@.subrange(a as int, to as int), quote) == v@.subrange(a as int, to as int));
    while b > a && strips(v[b - 1], quote)
        invariant
            from <= a <= b <= to <= v@.len(),
            trim_end_by(v@.subrange(a as int, to as int), quote) == trim_end_by(
                v@.subrange(a as int, b as int),
                quote,
            ),
        decreases b - a,
    {
        assert(v@.subrange(a as int, b as int).drop_last() =~= v@.subrange(a as int, b - 1));
        b = b - 1;
    }
    (a, b)
}

/// std's `str::trim` on characters.
pub fn trim_chars(v: &[char]) -> (r: Vec<char>)
    ensures
        r@ == trimmed(v@),
{
    let (a, b) = trim_bounds(v, 0, v.len(), None);
    assert(v@.subrange(0, v@.len() as int) =~= v@);
    subslice_vec(v, a, b)
}

/// std's `str::trim`.
pub fn trim(s: &str) -> (r: String)
    ensures
        r@ == trimmed(s@),
{
    let v = chars_of(s);
    string_from_chars(trim_chars(v.as_slice()).as_slice())
}

/// std's `str::trim_matches` with a single character.
pub fn trim_matches_char(v: &[char], c: char) -> (r: Vec<char>)
    ensures
        r@ == trimmed_char(v@, c),
{
    let (a, b) = trim_bounds(v, 0, v.len(), Some(c));
    assert(v@.subrange(0, v@.len() as int) =~= v@);
    subslice_vec(v, a, b)
}

} // verus!

verus! {

/// Searching from `j` in `s.skip(pos)` finds what searching from `j + pos`
/// in `s` finds, shifted by `pos`.
pub proof fn lemma_find_from_skip(s: Seq<char>, p: Seq<char>, pos: int, j: int)
    requires
        0 <= pos <= s.len(),
        0 <= j,
    ensures
        find_from(s.skip(pos), p, j) == (match find_from(s, p, j + pos) {
            Some(x) => Some(x - pos),
            None => None,
        }),
    decreases s.len() - pos - j + 1,
{
    let t = s.skip(pos);
    if j + p.len() <= t.len() {
        assert(t.subrange(j, j + p.len()) =~= s.subrange(j + pos, j + pos + p.len()));
        if !occurs_at(t, p, j) {
            lemma_find_from_skip(s, p, pos, j + 1);
        }
    }
}

/// The pieces of `s` between commas (std's `str::split(',')`).
pub open spec fn comma_segments(s: Seq<char>) -> Seq<Seq<char>>
    decreases s.len(),
{
    match find_first(s, seq![',']) {
        None => seq![s],
        Some(i) => if 0 <= i < s.len() {
            seq![s.take(i)] + comma_segments(s.skip(i + 1))
        } else {
            seq![s]
        },
    }
}

} // verus!

verus! {

/// std's `str::trim_start_matches` with a string pattern: `s` with every
/// leading repetition of `p` removed.
pub open spec fn stripped_prefixes(s: Seq<char>, p: Seq<char>) -> Seq<char>
    decreases s.len(),
{
    if p.len() > 0 && p.len() <= s.len() && s.take(p.len() as int) == p {
        stripped_prefixes(s.skip(p.len() as int), p)
    } else {
        s
    }
}

/// std's `str::trim_start_matches` with a string pattern, on characters.
pub fn trim_start_matches_chars(v: &[char], p: &[char]) -> (r: Vec<char>)
    ensures
        r@ == stripped_prefixes(v@, p@),
{
    let mut i: usize = 0;
    assert(v@.skip(0) =~= v@);
    while p.len() > 0 && occurs_at_exec(v, p, i)
        invariant
            i <= v@.len(),
            stripped_prefixes(v@.skip(i as int), p@) == stripped_prefixes(v@, p@),
        decreases v.len() - i,
    {
        let ghost t = v@.skip(i as int);
        assert(t.take(p@.len() as int) =~= v@.subrange(i as int, i + p@.len()));
        assert(t.skip(p@.len() as int) =~= v@.skip(i + p@.len()));
        i = i + p.len();
    }
    let ghost t = v@.skip(i as int);
    assert(p@.len() > 0 && p@.len() <= t.len() ==> t.take(p@.len() as int) =~= v@.subrange(
        i as int,
        i + p@.len(),
    ));
    let r = subslice_vec(v, i, v.len());
    assert(r@ =~= t);
    r
}

} // verus!

verus! {

/// std's `str::trim_start` on characters.
pub fn trim_start_chars(v: &[char]) -> (r: Vec<char>)
    ensures
        r@ == trimmed_start(v@),
{
    let mut a: usize = 0;
    assert(v@.subrange(0, v@.len() as int) =~= v@);
    while a < v.len() && char_is_whitespace(v[a])
        invariant
            a <= v@.len(),
            trimmed_start(v@) == trim_start_by(v@.subrange(a as int, v@.len() as int), None),
        decreases v.len() - a,
    {
        assert(v@.subrange(a as int, v@.len() as int).drop_first() =~= v@.subrange(a + 1, v@.len() as int));
        a = a + 1;
    }
    subslice_vec(v, a, v.len())
}

} // verus!

verus! {

/// The texts of `parts` with `sep` between each two (std's `join`).
pub open spec fn joined(parts: Seq<Seq<char>>, sep: Seq<char>) -> Seq<char>
    decreases parts.len(),
{
    if parts.len() == 0 {
        seq![]
    } else if parts.len() == 1 {
        parts[0]
    } else {
        joined(parts.drop_last(), sep) + sep + parts.last()
    }
}

/// `parts.join(sep)`.
pub fn join_strings(parts: &Vec<String>, sep: &str) -> (r: String)
    ensures
        r@ == joined(parts@.map_values(|s: String| s@), sep@),
{
    let ghost pv = parts@.map_values(|s: String| s@);
    let mut r = String::new();
    let mut i: usize = 0;
    while i < parts.len()
        invariant
            i <= parts@.len(),
            pv == parts@.map_values(|s: String| s@),
            r@ == joined(pv.take(i as int), sep@),
        decreases parts.len() - i,
    {
        if i > 0 {
            r.append(sep);
        }
        r.append(parts[i].as_str());
        assert(pv.take(i + 1).drop_last() =~= pv.take(i as int));
        i = i + 1;
    }
    assert(pv.take(i as int) =~= pv);
    r
}

} // verus!

verus! {

/// Distinct decimal digits are distinct characters, none of them a `-`.
proof fn lemma_digit_char(a: nat, b: nat)
    requires
        a < 10,
        b < 10,
    ensures
        digit_char(a) == digit_char(b) ==> a == b,
        digit_char(a) != '-',
        digit_char(a) != '"',
{
    assert(digit_char(a) as int == 48 + a);
    assert(digit_char(b) as int == 48 + b);
}

/// Every character of a decimal text is a digit.
pub proof fn lemma_decimal_digits(n: nat)
    ensures
        decimal_text(n).len() >= 1,
        forall|i: int| 0 <= i < decimal_text(n).len() ==> #[trigger] decimal_text(n)[i] != '-',
    decreases n,
{
    if n < 10 {
        lemma_digit_char(n, n);
    } else {
        lemma_decimal_digits(n / 10);
        lemma_digit_char(n % 10, n % 10);
        let d = decimal_text(n);
        assert forall|i: int| 0 <= i < d.len() implies #[trigger] d[i] != '-' by {
            if i < d.len() - 1 {
                assert(d[i] == decimal_text(n / 10)[i]);
            }
        }
    }
}

/// Different numbers have different decimal texts.
pub proof fn lemma_decimal_injective(a: nat, b: nat)
    ensures
        decimal_text(a) == decimal_text(b) ==> a == b,
    decreases a,
{
    if decimal_text(a) == decimal_text(b) {
        lemma_decimal_digits(a);
        lemma_decimal_digits(b);
        if a < 10 && b < 10 {
            lemma_digit_char(a, b);
            assert(decimal_text(a)[0] == digit_char(a));
            assert(decimal_text(b)[0] == digit_char(b));
            assert(a == b);
        } else if a < 10 {
            lemma_decimal_digits(b / 10);
            assert(decimal_text(b).len() >= 2);
            assert(false);
        } else if b < 10 {
            lemma_decimal_digits(a / 10);
            assert(decimal_text(a).len() >= 2);
            assert(false);
        } else {
            let da = decimal_text(a);
            let db = decimal_text(b);
            assert(da.last() == digit_char(a % 10));
            assert(db.last() == digit_char(b % 10));
            lemma_digit_char(a % 10, b % 10);
            assert(da.drop_last() =~= decimal_text(a / 10));
            assert(db.drop_last() =~= decimal_text(b / 10));
            lemma_decimal_injective(a / 10, b / 10);
            assert(a == 10 * (a / 10) + a % 10);
            assert(b == 10 * (b / 10) + b % 10);
        }
    }
}

/// A text that holds no `c`, followed by a text that is empty or starts
/// with `c`, splits in one way only.
pub proof fn lemma_split_before(x: Seq<char>, y: Seq<char>, p: Seq<char>, q: Seq<char>, c: char)
    requires
        forall|i: int| 0 <= i < x.len() ==> x[i] != c,
        forall|i: int| 0 <= i < p.len() ==> p[i] != c,
        y.len() == 0 || y[0] == c,
        q.len() == 0 || q[0] == c,
        x + y == p + q,
    ensures
        x == p,
        y == q,
{
    if x.len() < p.len() {
        assert((p + q)[x.len() as int] == p[x.len() as int]);
        if y.len() == 0 {
            assert((x + y).len() < (p + q).len());
        } else {
            assert((x + y)[x.len() as int] == y[0]);
        }
    } else if p.len() < x.len() {
        assert((x + y)[p.len() as int] == x[p.len() as int]);
        if q.len() == 0 {
            assert((p + q).len() < (x + y).len());
        } else {
            assert((p + q)[p.len() as int] == q[0]);
        }
    } else {
        assert(x =~= (x + y).subrange(0, x.len() as int));
        assert(p =~= (p + q).subrange(0, p.len() as int));
        assert(y =~= (x + y).skip(x.len() as int));
        assert(q =~= (p + q).skip(p.len() as int));
    }
}

} // verus!

verus! {

/// How many occurrences of `pat` [`replaced_from`] replaces from `pos` on.
pub open spec fn occurrence_count(s: Seq<char>, pat: Seq<char>, pos: int) -> nat
    decreases s.len() - pos,
{
    if pos < 0 || pos > s.len() || pat.len() == 0 {
        0
    } else {
        match find_from(s, pat, pos) {
            None => 0,
            Some(i) => if pos <= i && i + pat.len() <= s.len() {
                1 + occurrence_count(s, pat, i + pat.len())
            } else {
                0
            },
        }
    }
}

/// Each replacement changes the length by the difference of the two texts.
proof fn lemma_replaced_len(s: Seq<char>, pat: Seq<char>, rep: Seq<char>, pos: int)
    requires
        0 <= pos <= s.len(),
    ensures
        replaced_from(s, pat, rep, pos).len() == (s.len() - pos) + occurrence_count(s, pat, pos) * (rep.len()
            - pat.len()),
    decreases s.len() - pos,
{
    if pat.len() == 0 {
        assert(occurrence_count(s, pat, pos) == 0);
        assert(0 * (rep.len() - pat.len()) == 0) by (nonlinear_arith);
    } else {
        match find_from(s, pat, pos) {
            None => {
                assert(occurrence_count(s, pat, pos) == 0);
                assert(0 * (rep.len() - pat.len()) == 0) by (nonlinear_arith);
            },
            Some(i) => {
                if pos <= i && i + pat.len() <= s.len() {
                    lemma_replaced_len(s, pat, rep, i + pat.len());
                    let c = occurrence_count(s, pat, i + pat.len());
                    let d = rep.len() - pat.len();
                    assert((1 + c) * d == c * d + d) by (nonlinear_arith);
                    assert(occurrence_count(s, pat, pos) == 1 + c);
                    let rest = replaced_from(s, pat, rep, i + pat.len());
                    assert(replaced_from(s, pat, rep, pos) == s.subrange(pos, i) + rep + rest);
                    assert(rest.len() == (s.len() - (i + pat.len())) + c * d);
                } else {
                    assert(occurrence_count(s, pat, pos) == 0);
                    assert(0 * (rep.len() - pat.len()) == 0) by (nonlinear_arith);
                }
            },
        }
    }
}

/// Where `pat` occurs, replacing it by different texts gives different
/// results.
pub proof fn lemma_replaced_injective(s: Seq<char>, pat: Seq<char>, r1: Seq<char>, r2: Seq<char>)
    requires
        pat.len() > 0,
        find_first(s, pat) is Some,
        replaced(s, pat, r1) == replaced(s, pat, r2),
    ensures
        r1 == r2,
{
    lemma_find_from_bounds(s, pat, 0);
    lemma_replaced_len(s, pat, r1, 0);
    lemma_replaced_len(s, pat, r2, 0);
    let i = find_first(s, pat)->0;
    let c = occurrence_count(s, pat, 0);
    assert(c >= 1);
    let d1 = r1.len() - pat.len();
    let d2 = r2.len() - pat.len();
    assert(c * d1 == c * d2);
    assert(d1 == d2) by (nonlinear_arith)
        requires
            c >= 1,
            c * d1 == c * d2,
    ;
    let x1 = replaced(s, pat, r1);
    let x2 = replaced(s, pat, r2);
    assert(r1 =~= x1.subrange(i, i + r1.len()));
    assert(r2 =~= x2.subrange(i, i + r2.len()));
}

} // verus!
