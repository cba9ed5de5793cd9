//! The input hash of a render: BLAKE3 over the source and the asset manifest,
//! sorted so that the order in which assets are listed does not matter.
use vstd::prelude::*;

use crate::text::{chars_of, push_chars};

verus! {

/// The lowercase hexadecimal BLAKE3 digest of `data`.
pub uninterp spec fn blake3_hex(data: Seq<u8>) -> Seq<char>;

/// `blake3::hash(data).to_hex()`: the 64 lowercase hexadecimal digits of the
/// BLAKE3 digest of `data`.
#[verifier::external_body]
pub(crate) fn blake3_hex_digest(data: &[u8]) -> (r: String)
    ensures
        r@ == blake3_hex(data@),
        r@.len() == 64,
{
    blake3::hash(data).to_hex().to_string()
}

/// Lexicographic order of texts by code point, which is the order of their
/// UTF-8 bytes and so std's order on `String`.
pub open spec fn text_le(a: Seq<char>, b: Seq<char>) -> bool
    decreases a.len(),
{
    if a.len() == 0 {
        true
    } else if b.len() == 0 {
        false
    } else if a[0] != b[0] {
        a[0] < b[0]
    } else {
        text_le(a.drop_first(), b.drop_first())
    }
}

/// std's order on `(String, String)`: by path, then by content hash.
pub open spec fn pair_le(a: (Seq<char>, Seq<char>), b: (Seq<char>, Seq<char>)) -> bool {
    if a.0 == b.0 {
        text_le(a.1, b.1)
    } else {
        text_le(a.0, b.0)
    }
}

/// `x` inserted into `s` before the first element it does not exceed.
pub open spec fn insert_sorted(x: (Seq<char>, Seq<char>), s: Seq<(Seq<char>, Seq<char>)>) -> Seq<(Seq<char>, Seq<char>)>
    decreases s.len(),
{
    if s.len() == 0 {
        seq![x]
    } else if pair_le(x, s[0]) {
        seq![x] + s
    } else {
        seq![s[0]] + insert_sorted(x, s.drop_first())
    }
}

/// The manifest in ascending order.
pub open spec fn sorted_pairs(m: Seq<(Seq<char>, Seq<char>)>) -> Seq<(Seq<char>, Seq<char>)>
    decreases m.len(),
{
    if m.len() == 0 {
        Seq::empty()
    } else {
        insert_sorted(m.last(), sorted_pairs(m.drop_last()))
    }
}

/// Each entry framed as a NUL, its path, a NUL and its content hash.
pub open spec fn framed(m: Seq<(Seq<char>, Seq<char>)>) -> Seq<char>
    decreases m.len(),
{
    if m.len() == 0 {
        Seq::empty()
    } else {
        seq!['\0'] + m[0].0 + seq!['\0'] + m[0].1 + framed(m.drop_first())
    }
}

/// The manifest as texts.
pub open spec fn manifest_view(m: Seq<(String, String)>) -> Seq<(Seq<char>, Seq<char>)> {
    m.map_values(|p: (String, String)| (p.0@, p.1@))
}

/// The text whose UTF-8 bytes are hashed: the source, then the sorted manifest.
pub open spec fn input_preimage(source: Seq<char>, m: Seq<(Seq<char>, Seq<char>)>) -> Seq<char> {
    source + framed(sorted_pairs(m))
}

/// The input hash of a source and an asset manifest.
pub open spec fn input_hash_of(source: Seq<char>, m: Seq<(Seq<char>, Seq<char>)>) -> Seq<char> {
    blake3_hex(vstd::utf8::encode_utf8(input_preimage(source, m)))
}

/// Whether `a` comes no later than `b` in std's order on strings.
pub(crate) fn text_le_exec(a: &[char], b: &[char]) -> (r: bool)
    ensures
        r == text_le(a@, b@),
{
    let mut i: usize = 0;
    assert(a@.skip(0) =~= a@);
    assert(b@.skip(0) =~= b@);
    while i < a.len() && i < b.len()
        invariant
            i <= a@.len(),
            i <= b@.len(),
            text_le(a@, b@) == text_le(a@.skip(i as int), b@.skip(i as int)),
        decreases a.len() - i,
    {
        assert(a@.skip(i as int)[0] == a@[i as int]);
        assert(b@.skip(i as int)[0] == b@[i as int]);
        if a[i] != b[i] {
            return a[i] < b[i];
        }
        assert(a@.skip(i as int).drop_first() =~= a@.skip(i + 1));
        assert(b@.skip(i as int).drop_first() =~= b@.skip(i + 1));
        i = i + 1;
    }
    i == a.len()
}

/// An entry of the manifest with its texts as characters.
struct CharPair {
    path: Vec<char>,
    hash: Vec<char>,
}

spec fn char_pair_view(p: CharPair) -> (Seq<char>, Seq<char>) {
    (p.path@, p.hash@)
}

fn pair_le_exec(a: &CharPair, b: &CharPair) -> (r: bool)
    ensures
        r == pair_le(char_pair_view(*a), char_pair_view(*b)),
{
    let same_path = text_le_exec(a.path.as_slice(), b.path.as_slice()) && text_le_exec(b.path.as_slice(), a.path.as_slice());
    proof {
        lemma_text_le_antisymmetric(a.path@, b.path@);
        lemma_text_le_reflexive(a.path@);
    }
    if same_path {
        text_le_exec(a.hash.as_slice(), b.hash.as_slice())
    } else {
        text_le_exec(a.path.as_slice(), b.path.as_slice())
    }
}

pub proof fn lemma_text_le_reflexive(a: Seq<char>)
    ensures
        text_le(a, a),
    decreases a.len(),
{
    if a.len() > 0 {
        lemma_text_le_reflexive(a.drop_first());
    }
}

pub proof fn lemma_text_le_antisymmetric(a: Seq<char>, b: Seq<char>)
    ensures
        text_le(a, b) && text_le(b, a) ==> a == b,
    decreases a.len(),
{
    if a.len() > 0 && b.len() > 0 && a[0] == b[0] {
        lemma_text_le_antisymmetric(a.drop_first(), b.drop_first());
        if a.drop_first() == b.drop_first() {
            assert(a =~= seq![a[0]] + a.drop_first());
            assert(b =~= seq![b[0]] + b.drop_first());
        }
    }
}

pub proof fn lemma_text_le_total(a: Seq<char>, b: Seq<char>)
    ensures
        text_le(a, b) || text_le(b, a),
    decreases a.len(),
{
    if a.len() > 0 && b.len() > 0 && a[0] == b[0] {
        lemma_text_le_total(a.drop_first(), b.drop_first());
    }
}

pub proof fn lemma_text_le_transitive(a: Seq<char>, b: Seq<char>, c: Seq<char>)
    ensures
        text_le(a, b) && text_le(b, c) ==> text_le(a, c),
    decreases a.len(),
{
    if a.len() > 0 && b.len() > 0 && c.len() > 0 && a[0] == b[0] && b[0] == c[0] {
        lemma_text_le_transitive(a.drop_first(), b.drop_first(), c.drop_first());
    }
}

/// Inserts `x` into the sorted `s` as [`insert_sorted`] does.
fn insert_sorted_exec(s: &mut Vec<CharPair>, x: CharPair)
    ensures
        final(s)@.map_values(|p: CharPair| char_pair_view(p)) == insert_sorted(
            char_pair_view(x),
            old(s)@.map_values(|p: CharPair| char_pair_view(p)),
        ),
{
    let ghost v = old(s)@.map_values(|p: CharPair| char_pair_view(p));
    let ghost xv = char_pair_view(x);
    let mut j: usize = 0;
    let mut found = false;
    assert(v.skip(0) =~= v);
    assert(v.take(0) + insert_sorted(xv, v) =~= insert_sorted(xv, v));
    while j < s.len() && !found
        invariant
            j <= s@.len(),
            s@.map_values(|p: CharPair| char_pair_view(p)) == v,
            insert_sorted(xv, v) == v.take(j as int) + insert_sorted(xv, v.skip(j as int)),
            xv == char_pair_view(x),
            found ==> j < s@.len() && pair_le(xv, v[j as int]),
        decreases s.len() - j + (if found { 0int } else { 1int }),
    {
        assert(v.skip(j as int)[0] == v[j as int]);
        if pair_le_exec(&x, &s[j]) {
            found = true;
        } else {
            assert(v.skip(j as int).drop_first() =~= v.skip(j + 1));
            assert(v.take(j + 1) =~= v.take(j as int) + seq![v[j as int]]);
            j = j + 1;
        }
    }
    assert(insert_sorted(xv, v.skip(j as int)) =~= seq![xv] + v.skip(j as int)) by {
        if j < v.len() {
            assert(v.skip(j as int)[0] == v[j as int]);
        }
    }
    s.insert(j, x);
    assert(s@.map_values(|p: CharPair| char_pair_view(p)) =~= v.take(j as int) + (seq![xv] + v.skip(j as int)));
}

/// The hash of `source` with the sorted asset manifest: the source's UTF-8
/// bytes, then for each entry in ascending order a zero byte, the path, a zero
/// byte and the content hash.
pub fn input_hash(source: &str, asset_manifest: &[(String, String)]) -> (r: String)
    ensures
        r@ == input_hash_of(source@, manifest_view(asset_manifest@)),
        r@.len() == 64,
{
    let preimage = preimage_text(source, asset_manifest);
    blake3_hex_digest(preimage.as_str().as_bytes())
}

/// The input hash of a render as the service records it: the input hash of
/// the text that is compiled (the preamble for `asset_url_prefix`, then the
/// source), so that a change of the asset URL prefix, which the preamble
/// embeds, makes renders stale.
pub open spec fn render_input_hash_of(
    source: Seq<char>,
    m: Seq<(Seq<char>, Seq<char>)>,
    asset_url_prefix: Option<Seq<char>>,
) -> Seq<char> {
    input_hash_of(crate::render::preamble::preamble_text(asset_url_prefix) + source, m)
}

/// The input hash that a render of `source` with these assets and this asset
/// URL prefix records.
pub fn render_input_hash(source: &str, asset_manifest: &[(String, String)], asset_url_prefix: Option<&str>) -> (r: String)
    ensures
        r@ == render_input_hash_of(
            source@,
            manifest_view(asset_manifest@),
            match asset_url_prefix {
                Some(p) => Some(p@),
                None => None,
            },
        ),
{
    let mut compiled = crate::render::preamble::html_preamble(asset_url_prefix);
    compiled.append(source);
    input_hash(compiled.as_str(), asset_manifest)
}

/// The text that [`input_hash`] hashes.
fn preimage_text(source: &str, asset_manifest: &[(String, String)]) -> (r: String)
    ensures
        r@ == input_preimage(source@, manifest_view(asset_manifest@)),
{
    let ghost m = manifest_view(asset_manifest@);
    let mut sorted: Vec<CharPair> = Vec::new();
    let mut i: usize = 0;
    while i < asset_manifest.len()
        invariant
            i <= asset_manifest@.len(),
            m == manifest_view(asset_manifest@),
            sorted@.map_values(|p: CharPair| char_pair_view(p)) == sorted_pairs(m.take(i as int)),
        decreases asset_manifest.len() - i,
    {
        let entry = CharPair {
            path: chars_of(asset_manifest[i].0.as_str()),
            hash: chars_of(asset_manifest[i].1.as_str()),
        };
        assert(m.take(i + 1).drop_last() =~= m.take(i as int));
        assert(m.take(i + 1).last() == m[i as int]);
        insert_sorted_exec(&mut sorted, entry);
        i = i + 1;
    }
    assert(m.take(i as int) =~= m);
    let ghost sv = sorted_pairs(m);
    let mut text = String::new();
    text.append(source);
    assert(sv.skip(0) =~= sv);
    let mut k: usize = 0;
    while k < sorted.len()
        invariant
            k <= sorted@.len(),
            sorted@.map_values(|p: CharPair| char_pair_view(p)) == sv,
            sv == sorted_pairs(m),
            text@ + framed(sv.skip(k as int)) == input_preimage(source@, m),
        decreases sorted.len() - k,
    {
        assert(sv.skip(k as int)[0] == sv[k as int]);
        assert(sv.skip(k as int).drop_first() =~= sv.skip(k + 1));
        crate::text::push_char(&mut text, '\0');
        push_chars(&mut text, sorted[k].path.as_slice());
        crate::text::push_char(&mut text, '\0');
        push_chars(&mut text, sorted[k].hash.as_slice());
        k = k + 1;
    }
    assert(sv.skip(k as int) =~= Seq::<(Seq<char>, Seq<char>)>::empty());
    text
}

/// Whether `s` is in ascending order.
pub open spec fn pairs_sorted(s: Seq<(Seq<char>, Seq<char>)>) -> bool {
    forall|i: int, j: int| 0 <= i < j < s.len() ==> pair_le(#[trigger] s[i], #[trigger] s[j])
}

proof fn lemma_pair_le_total(a: (Seq<char>, Seq<char>), b: (Seq<char>, Seq<char>))
    ensures
        pair_le(a, b) || pair_le(b, a),
{
    lemma_text_le_total(a.0, b.0);
    lemma_text_le_total(a.1, b.1);
}

proof fn lemma_pair_le_antisymmetric(a: (Seq<char>, Seq<char>), b: (Seq<char>, Seq<char>))
    ensures
        pair_le(a, b) && pair_le(b, a) ==> a == b,
{
    lemma_text_le_antisymmetric(a.0, b.0);
    lemma_text_le_antisymmetric(a.1, b.1);
}

proof fn lemma_pair_le_transitive(a: (Seq<char>, Seq<char>), b: (Seq<char>, Seq<char>), c: (Seq<char>, Seq<char>))
    ensures
        pair_le(a, b) && pair_le(b, c) ==> pair_le(a, c),
{
    lemma_text_le_transitive(a.0, b.0, c.0);
    lemma_text_le_transitive(a.1, b.1, c.1);
    lemma_text_le_antisymmetric(a.0, b.0);
    lemma_text_le_antisymmetric(b.0, c.0);
}

proof fn lemma_insert_sorted(x: (Seq<char>, Seq<char>), s: Seq<(Seq<char>, Seq<char>)>)
    requires
        pairs_sorted(s),
    ensures
        pairs_sorted(insert_sorted(x, s)),
        insert_sorted(x, s).to_multiset() == s.to_multiset().insert(x),
    decreases s.len(),
{
    broadcast use vstd::seq_lib::group_to_multiset_ensures;
    let r = insert_sorted(x, s);
    if s.len() == 0 {
        assert(r =~= Seq::<(Seq<char>, Seq<char>)>::empty().push(x));
    } else if pair_le(x, s[0]) {
        assert forall|i: int, j: int| 0 <= i < j < r.len() implies pair_le(#[trigger] r[i], #[trigger] r[j]) by {
            if i == 0 {
                lemma_pair_le_transitive(x, s[0], s[j - 1]);
                lemma_text_le_reflexive(x.0);
                lemma_text_le_reflexive(x.1);
                if j - 1 > 0 {
                    assert(pair_le(s[0], s[j - 1]));
                }
            } else {
                assert(pair_le(s[i - 1], s[j - 1]));
            }
        }
        vstd::seq_lib::lemma_multiset_commutative(seq![x], s);
        assert(seq![x].to_multiset() =~= Seq::<(Seq<char>, Seq<char>)>::empty().push(x).to_multiset()) by {
            assert(seq![x] =~= Seq::<(Seq<char>, Seq<char>)>::empty().push(x));
        }
    } else {
        let rest = s.drop_first();
        assert(pairs_sorted(rest)) by {
            assert forall|i: int, j: int| 0 <= i < j < rest.len() implies pair_le(#[trigger] rest[i], #[trigger] rest[j]) by {
                assert(pair_le(s[i + 1], s[j + 1]));
            }
        }
        lemma_insert_sorted(x, rest);
        let tail = insert_sorted(x, rest);
        lemma_pair_le_total(x, s[0]);
        assert forall|i: int, j: int| 0 <= i < j < r.len() implies pair_le(#[trigger] r[i], #[trigger] r[j]) by {
            if i == 0 {
                let y = tail[j - 1];
                assert(tail.to_multiset().count(y) > 0);
                assert(rest.to_multiset().insert(x).count(y) > 0);
                if y != x {
                    assert(rest.to_multiset().count(y) > 0);
                    assert(rest.contains(y));
                    let k = choose|k: int| 0 <= k < rest.len() && rest[k] == y;
                    assert(pair_le(s[0], s[k + 1]));
                }
            } else {
                assert(pair_le(tail[i - 1], tail[j - 1]));
            }
        }
        vstd::seq_lib::lemma_multiset_commutative(seq![s[0]], tail);
        vstd::seq_lib::lemma_multiset_commutative(seq![s[0]], rest);
        assert(seq![s[0]] + rest =~= s);
    }
}

proof fn lemma_sorted_pairs(m: Seq<(Seq<char>, Seq<char>)>)
    ensures
        pairs_sorted(sorted_pairs(m)),
        sorted_pairs(m).to_multiset() == m.to_multiset(),
    decreases m.len(),
{
    broadcast use vstd::seq_lib::group_to_multiset_ensures;
    if m.len() > 0 {
        lemma_sorted_pairs(m.drop_last());
        lemma_insert_sorted(m.last(), sorted_pairs(m.drop_last()));
        assert(m.drop_last().push(m.last()) =~= m);
    }
}

proof fn lemma_sorted_unique(s1: Seq<(Seq<char>, Seq<char>)>, s2: Seq<(Seq<char>, Seq<char>)>)
    requires
        pairs_sorted(s1),
        pairs_sorted(s2),
        s1.to_multiset() == s2.to_multiset(),
    ensures
        s1 == s2,
    decreases s1.len(),
{
    broadcast use vstd::seq_lib::group_to_multiset_ensures;
    s1.to_multiset_ensures();
    s2.to_multiset_ensures();
    assert(s1.len() == s2.len());
    if s1.len() > 0 {
        let a = s1[0];
        let b = s2[0];
        assert(s1.contains(a));
        assert(s2.to_multiset().count(a) > 0);
        assert(s2.contains(a));
        let k2 = choose|k: int| 0 <= k < s2.len() && s2[k] == a;
        assert(s1.to_multiset().count(b) > 0);
        assert(s1.contains(b));
        let k1 = choose|k: int| 0 <= k < s1.len() && s1[k] == b;
        lemma_text_le_reflexive(a.0);
        lemma_text_le_reflexive(a.1);
        lemma_text_le_reflexive(b.0);
        lemma_text_le_reflexive(b.1);
        if k2 > 0 {
            assert(pair_le(s2[0], s2[k2]));
        }
        if k1 > 0 {
            assert(pair_le(s1[0], s1[k1]));
        }
        lemma_pair_le_antisymmetric(a, b);
        assert(a == b);
        let r1 = s1.remove(0);
        let r2 = s2.remove(0);
        assert(r1.to_multiset() == r2.to_multiset());
        assert(pairs_sorted(r1)) by {
            assert forall|i: int, j: int| 0 <= i < j < r1.len() implies pair_le(#[trigger] r1[i], #[trigger] r1[j]) by {
                assert(pair_le(s1[i + 1], s1[j + 1]));
            }
        }
        assert(pairs_sorted(r2)) by {
            assert forall|i: int, j: int| 0 <= i < j < r2.len() implies pair_le(#[trigger] r2[i], #[trigger] r2[j]) by {
                assert(pair_le(s2[i + 1], s2[j + 1]));
            }
        }
        lemma_sorted_unique(r1, r2);
        assert(s1 =~= s2) by {
            assert forall|i: int| 0 <= i < s1.len() implies s1[i] == s2[i] by {
                if i > 0 {
                    assert(s1[i] == r1[i - 1]);
                    assert(s2[i] == r2[i - 1]);
                }
            }
        }
    }
}

/// The input hash does not depend on the order in which the asset manifest
/// lists its entries: manifests with the same entries hash alike.
pub proof fn lemma_input_hash_order_independent(
    source: Seq<char>,
    m1: Seq<(Seq<char>, Seq<char>)>,
    m2: Seq<(Seq<char>, Seq<char>)>,
)
    requires
        m1.to_multiset() == m2.to_multiset(),
    ensures
        input_hash_of(source, m1) == input_hash_of(source, m2),
{
    lemma_sorted_pairs(m1);
    lemma_sorted_pairs(m2);
    lemma_sorted_unique(sorted_pairs(m1), sorted_pairs(m2));
}

/// Whether `s` holds no NUL character.
pub open spec fn nul_free(s: Seq<char>) -> bool {
    forall|i: int| 0 <= i < s.len() ==> s[i] != '\0'
}

/// Whether no path and no content hash of the manifest holds a NUL
/// character.
pub open spec fn manifest_nul_free(m: Seq<(Seq<char>, Seq<char>)>) -> bool {
    forall|k: int| 0 <= k < m.len() ==> nul_free(#[trigger] m[k].0) && nul_free(m[k].1)
}

/// Whether `s` is empty or starts with a NUL character.
spec fn nul_led(s: Seq<char>) -> bool {
    s.len() == 0 || s[0] == '\0'
}

/// A NUL-free text followed by a NUL-led text splits in one way only.
proof fn lemma_nul_split(x: Seq<char>, y: Seq<char>, p: Seq<char>, q: Seq<char>)
    requires
        nul_free(x),
        nul_free(p),
        nul_led(y),
        nul_led(q),
        x + y == p + q,
    ensures
        x == p,
        y == q,
{
    if x.len() < p.len() {
        assert((p + q)[x.len() as int] == p[x.len() as int]);
        if y.len() == 0 {
            assert((x + y).len() < (p + q).len());
        } else {
            assert((x + y)[x.len() as int] == y[0]);
        }
    } else if p.len() < x.len() {
        assert((x + y)[p.len() as int] == x[p.len() as int]);
        if q.len() == 0 {
            assert((p + q).len() < (x + y).len());
        } else {
            assert((p + q)[p.len() as int] == q[0]);
        }
    } else {
        assert(x =~= (x + y).subrange(0, x.len() as int));
        assert(p =~= (p + q).subrange(0, p.len() as int));
        assert(y =~= (x + y).skip(x.len() as int));
        assert(q =~= (p + q).skip(p.len() as int));
    }
}

proof fn lemma_framed_nul_led(m: Seq<(Seq<char>, Seq<char>)>)
    ensures
        nul_led(framed(m)),
{
    if m.len() > 0 {
        assert(framed(m)[0] == '\0');
    }
}

/// The framing of NUL-free entries can be read back in one way only.
proof fn lemma_framed_injective(a: Seq<(Seq<char>, Seq<char>)>, b: Seq<(Seq<char>, Seq<char>)>)
    requires
        manifest_nul_free(a),
        manifest_nul_free(b),
        framed(a) == framed(b),
    ensures
        a == b,
    decreases a.len(),
{
    if a.len() == 0 {
        if b.len() > 0 {
            assert(framed(b).len() > 0);
        }
        assert(a =~= b);
    } else {
        if b.len() == 0 {
            assert(framed(a).len() > 0);
        }
        let ra = a.drop_first();
        let rb = b.drop_first();
        let ta = seq!['\0'] + a[0].1 + framed(ra);
        let tb = seq!['\0'] + b[0].1 + framed(rb);
        assert(framed(a) =~= seq!['\0'] + (a[0].0 + ta));
        assert(framed(b) =~= seq!['\0'] + (b[0].0 + tb));
        assert(a[0].0 + ta =~= framed(a).drop_first());
        assert(b[0].0 + tb =~= framed(b).drop_first());
        assert(nul_free(a[0].0) && nul_free(a[0].1));
        assert(nul_free(b[0].0) && nul_free(b[0].1));
        lemma_nul_split(a[0].0, ta, b[0].0, tb);
        lemma_framed_nul_led(ra);
        lemma_framed_nul_led(rb);
        assert(a[0].1 + framed(ra) =~= ta.drop_first());
        assert(b[0].1 + framed(rb) =~= tb.drop_first());
        lemma_nul_split(a[0].1, framed(ra), b[0].1, framed(rb));
        assert(manifest_nul_free(ra)) by {
            assert forall|k: int| 0 <= k < ra.len() implies nul_free(#[trigger] ra[k].0) && nul_free(ra[k].1) by {
                assert(ra[k] == a[k + 1]);
            }
        }
        assert(manifest_nul_free(rb)) by {
            assert forall|k: int| 0 <= k < rb.len() implies nul_free(#[trigger] rb[k].0) && nul_free(rb[k].1) by {
                assert(rb[k] == b[k + 1]);
            }
        }
        lemma_framed_injective(ra, rb);
        assert(a[0] == b[0]);
        assert(a =~= seq![a[0]] + ra);
        assert(b =~= seq![b[0]] + rb);
    }
}

/// Sorting keeps the manifest's entries, so it keeps them NUL-free.
proof fn lemma_sorted_nul_free(m: Seq<(Seq<char>, Seq<char>)>)
    requires
        manifest_nul_free(m),
    ensures
        manifest_nul_free(sorted_pairs(m)),
{
    broadcast use vstd::seq_lib::group_to_multiset_ensures;
    lemma_sorted_pairs(m);
    let s = sorted_pairs(m);
    assert forall|k: int| 0 <= k < s.len() implies nul_free(#[trigger] s[k].0) && nul_free(s[k].1) by {
        assert(s.to_multiset().count(s[k]) > 0);
        assert(m.to_multiset().count(s[k]) > 0);
        assert(m.contains(s[k]));
        let j = choose|j: int| 0 <= j < m.len() && m[j] == s[k];
        assert(0 <= j < m.len());
        let e = m[j];
        assert(nul_free(m[j].0));
        assert(nul_free(e.1));
    }
}

/// The bytes that are hashed determine the source: with the same assets, two
/// different sources are never hashed from the same bytes.
pub proof fn lemma_hashed_bytes_determine_source(
    s1: Seq<char>,
    s2: Seq<char>,
    m: Seq<(Seq<char>, Seq<char>)>,
)
    requires
        vstd::utf8::encode_utf8(input_preimage(s1, m)) == vstd::utf8::encode_utf8(input_preimage(s2, m)),
    ensures
        s1 == s2,
{
    vstd::utf8::encode_utf8_decode_utf8(input_preimage(s1, m));
    vstd::utf8::encode_utf8_decode_utf8(input_preimage(s2, m));
    let f = framed(sorted_pairs(m));
    assert(input_preimage(s1, m) == input_preimage(s2, m));
    assert(s1 =~= input_preimage(s1, m).subrange(0, s1.len() as int));
    assert(s2 =~= input_preimage(s2, m).subrange(0, s2.len() as int));
}

/// The bytes that are hashed determine the asset manifest up to order when
/// no path or content hash holds a NUL character: the framing leaves no doubt
/// where one path or hash ends and the next begins, so manifests that differ
/// in their entries are never hashed from the same bytes.
pub proof fn lemma_hashed_bytes_determine_manifest(
    source: Seq<char>,
    m1: Seq<(Seq<char>, Seq<char>)>,
    m2: Seq<(Seq<char>, Seq<char>)>,
)
    requires
        manifest_nul_free(m1),
        manifest_nul_free(m2),
        vstd::utf8::encode_utf8(input_preimage(source, m1)) == vstd::utf8::encode_utf8(input_preimage(source, m2)),
    ensures
        m1.to_multiset() == m2.to_multiset(),
{
    vstd::utf8::encode_utf8_decode_utf8(input_preimage(source, m1));
    vstd::utf8::encode_utf8_decode_utf8(input_preimage(source, m2));
    assert(input_preimage(source, m1) == input_preimage(source, m2));
    let f1 = framed(sorted_pairs(m1));
    let f2 = framed(sorted_pairs(m2));
    assert(f1 =~= input_preimage(source, m1).skip(source.len() as int));
    assert(f2 =~= input_preimage(source, m2).skip(source.len() as int));
    lemma_sorted_nul_free(m1);
    lemma_sorted_nul_free(m2);
    lemma_framed_injective(sorted_pairs(m1), sorted_pairs(m2));
    lemma_sorted_pairs(m1);
    lemma_sorted_pairs(m2);
}

} // verus!
