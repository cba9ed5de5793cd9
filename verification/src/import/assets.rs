//! The assets that a post's sources reference: quoted paths under `assets/`
//! or `./assets/`, gathered into a sorted set, and the content type that each
//! is served with.
use vstd::prelude::*;

use crate::import::files::{last_index_of, last_index_of_exec, lemma_last_index_of_bounds};
use crate::render::hash::{
    lemma_text_le_antisymmetric, lemma_text_le_reflexive, lemma_text_le_total, lemma_text_le_transitive, text_le,
    text_le_exec,
};
use crate::text::{
    chars_of, find_from, find_from_exec, lemma_find_from_bounds, lemma_find_from_first, occurs_at, str_eq,
    string_from_chars, stripped_prefixes,
    subslice_vec, trim_start_matches_chars,
};

verus! {

/// The texts of a sequence of strings.
pub open spec fn strings_view(v: Seq<String>) -> Seq<Seq<char>> {
    v.map_values(|s: String| s@)
}

/// The references that the pattern `pat` (a quote and a path prefix) finds in
/// `s` from position `pos` on: each match runs to the next quote, loses its
/// leading `./` repetitions, and the search goes on from that closing quote.
pub open spec fn references_from(s: Seq<char>, pat: Seq<char>, pos: int) -> Seq<Seq<char>>
    decreases s.len() - pos,
{
    match find_from(s, pat, pos) {
        None => seq![],
        Some(i) => match find_from(s, seq!['"'], i + 1) {
            None => seq![],
            Some(e) => if pos < e <= s.len() {
                seq![stripped_prefixes(s.subrange(i + 1, e), "./"@)] + references_from(s, pat, e)
            } else {
                seq![]
            },
        },
    }
}

/// The asset paths that a source references, in the order they are found:
/// first every `"./assets/...` reference, then every `"assets/...` one.
pub open spec fn asset_references(source: Seq<char>) -> Seq<Seq<char>> {
    references_from(source, "\"./assets/"@, 0) + references_from(source, "\"assets/"@, 0)
}

/// Appends to `out` the references that `pat` finds in `v`.
fn push_references(v: &[char], pat: &[char], out: &mut Vec<String>)
    requires
        pat@.len() > 0,
    ensures
        strings_view(final(out)@) == strings_view(old(out)@) + references_from(v@, pat@, 0),
{
    let ghost target = strings_view(old(out)@) + references_from(v@, pat@, 0);
    let quote: Vec<char> = vec!['"'];
    let dot_slash: Vec<char> = vec!['.', '/'];
    proof {
        reveal_strlit("./");
        assert(dot_slash@ =~= "./"@);
        assert(quote@ =~= seq!['"']);
    }
    let mut pos: usize = 0;
    assert(strings_view(out@) + references_from(v@, pat@, 0) =~= target);
    loop
        invariant
            pos <= v@.len(),
            pat@.len() > 0,
            dot_slash@ == "./"@,
            quote@ == seq!['"'],
            strings_view(out@) + references_from(v@, pat@, pos as int) == target,
        ensures
            strings_view(out@) == target,
        decreases v.len() - pos,
    {
        match find_from_exec(v, pat, pos) {
            None => {
                assert(strings_view(out@) + Seq::<Seq<char>>::empty() =~= strings_view(out@));
                break;
            },
            Some(i) => {
                proof {
                    lemma_find_from_bounds(v@, pat@, pos as int);
                }
                match find_from_exec(v, quote.as_slice(), i + 1) {
                    None => {
                        assert(strings_view(out@) + Seq::<Seq<char>>::empty() =~= strings_view(out@));
                        break;
                    },
                    Some(e) => {
                        proof {
                            lemma_find_from_bounds(v@, quote@, i + 1);
                        }
                        let raw = subslice_vec(v, i + 1, e);
                        let stripped = trim_start_matches_chars(raw.as_slice(), dot_slash.as_slice());
                        let ghost before = strings_view(out@);
                        let ghost item = stripped_prefixes(v@.subrange(i + 1, e as int), "./"@);
                        out.push(string_from_chars(stripped.as_slice()));
                        assert(strings_view(out@) =~= before.push(item));
                        assert(before + references_from(v@, pat@, pos as int) =~= before.push(item)
                            + references_from(v@, pat@, e as int));
                        pos = e;
                    },
                }
            },
        }
    }
}

/// The asset paths that `source` references (`"./assets/...` and
/// `"assets/...` up to the closing quote, with leading `./` removed).
pub fn find_asset_references(source: &str) -> (r: Vec<String>)
    ensures
        strings_view(r@) == asset_references(source@),
{
    let v = chars_of(source);
    let first = chars_of("\"./assets/");
    let second = chars_of("\"assets/");
    let mut out: Vec<String> = Vec::new();
    proof {
        reveal_strlit("\"./assets/");
        reveal_strlit("\"assets/");
        assert(first@.len() == 10);
        assert(second@.len() == 8);
    }
    assert(strings_view(out@) =~= Seq::<Seq<char>>::empty());
    push_references(v.as_slice(), first.as_slice(), &mut out);
    push_references(v.as_slice(), second.as_slice(), &mut out);
    assert(strings_view(out@) =~= asset_references(source@));
    out
}

/// Whether `s` is in strictly ascending order of std's order on strings, so
/// that it holds each text once.
pub open spec fn strictly_ascending(s: Seq<Seq<char>>) -> bool {
    forall|i: int, j: int| 0 <= i < j < s.len() ==> text_le(#[trigger] s[i], #[trigger] s[j]) && s[i] != s[j]
}

/// All references of all sources, in order.
pub open spec fn all_references(sources: Seq<Seq<char>>) -> Seq<Seq<char>>
    decreases sources.len(),
{
    if sources.len() == 0 {
        seq![]
    } else {
        all_references(sources.drop_last()) + asset_references(sources.last())
    }
}

/// The texts of a sequence of character vectors.
spec fn chars_view(v: Seq<Vec<char>>) -> Seq<Seq<char>> {
    v.map_values(|c: Vec<char>| c@)
}

/// Inserts `x` into the strictly ascending `v` unless it is there already.
fn insert_unique_sorted(v: &mut Vec<Vec<char>>, x: Vec<char>)
    requires
        strictly_ascending(chars_view(old(v)@)),
    ensures
        strictly_ascending(chars_view(final(v)@)),
        chars_view(final(v)@).to_set() == chars_view(old(v)@).to_set().insert(x@),
{
    let ghost s = chars_view(v@);
    let mut j: usize = 0;
    while j < v.len() && !text_le_exec(x.as_slice(), v[j].as_slice())
        invariant
            j <= v@.len(),
            s == chars_view(v@),
            strictly_ascending(s),
            forall|k: int| 0 <= k < j ==> text_le(#[trigger] s[k], x@) && s[k] != x@,
        decreases v.len() - j,
    {
        proof {
            lemma_text_le_total(x@, s[j as int]);
            lemma_text_le_reflexive(x@);
        }
        j = j + 1;
    }
    if j < v.len() && str_eq_chars(v[j].as_slice(), x.as_slice()) {
        assert(s.to_set().insert(x@) =~= s.to_set()) by {
            assert(s[j as int] == x@);
            assert(s.contains(x@));
        }
        return;
    }
    let ghost xv = x@;
    v.insert(j, x);
    let ghost t = chars_view(v@);
    assert(t =~= s.take(j as int).push(xv) + s.skip(j as int));
    assert forall|a: int, b: int| 0 <= a < b < t.len() implies text_le(#[trigger] t[a], #[trigger] t[b]) && t[a]
        != t[b] by {
        if b < j {
            assert(t[a] == s[a] && t[b] == s[b]);
        } else if a > j {
            assert(t[a] == s[a - 1] && t[b] == s[b - 1]);
        } else if a == j {
            assert(t[b] == s[b - 1]);
            assert(text_le(xv, s[j as int]) && xv != s[j as int]);
            if b - 1 > j {
                assert(text_le(s[j as int], s[b - 1]));
                lemma_text_le_transitive(xv, s[j as int], s[b - 1]);
                if xv == s[b - 1] {
                    lemma_text_le_antisymmetric(s[j as int], xv);
                }
            }
        } else {
            assert(a < j);
            assert(t[a] == s[a]);
            if b == j {
            } else {
                assert(t[b] == s[b - 1]);
                assert(text_le(s[a], s[b - 1]) && s[a] != s[b - 1]);
            }
        }
    }
    assert(t.to_set() =~= s.to_set().insert(xv)) by {
        assert forall|y: Seq<char>| t.to_set().contains(y) implies s.to_set().insert(xv).contains(y) by {
            let k = choose|k: int| 0 <= k < t.len() && t[k] == y;
            if k < j {
                assert(s[k] == y);
            } else if k > j {
                assert(s[k - 1] == y);
            }
        }
        assert forall|y: Seq<char>| s.to_set().insert(xv).contains(y) implies t.to_set().contains(y) by {
            if y == xv {
                assert(t[j as int] == y);
            } else {
                let k = choose|k: int| 0 <= k < s.len() && s[k] == y;
                if k < j {
                    assert(t[k] == y);
                } else {
                    assert(t[k + 1] == y);
                }
            }
        }
    }
}

/// Whether two character slices are equal.
fn str_eq_chars(a: &[char], b: &[char]) -> (r: bool)
    ensures
        r == (a@ == b@),
{
    if a.len() != b.len() {
        return false;
    }
    let mut i: usize = 0;
    while i < a.len()
        invariant
            a@.len() == b@.len(),
            i <= a@.len(),
            forall|k: int| 0 <= k < i ==> a@[k] == b@[k],
        decreases a.len() - i,
    {
        if a[i] != b[i] {
            return false;
        }
        i = i + 1;
    }
    assert(a@ =~= b@);
    true
}

/// The asset paths that the sources reference together, each once and in
/// ascending order (a sorted set of paths).
pub fn asset_paths(sources: &[String]) -> (r: Vec<String>)
    ensures
        strictly_ascending(strings_view(r@)),
        strings_view(r@).to_set() == all_references(strings_view(sources@)).to_set(),
{
    let ghost sv = strings_view(sources@);
    let mut set: Vec<Vec<char>> = Vec::new();
    let mut k: usize = 0;
    assert(chars_view(set@).to_set() =~= all_references(sv.take(0)).to_set());
    while k < sources.len()
        invariant
            k <= sources@.len(),
            sv == strings_view(sources@),
            strictly_ascending(chars_view(set@)),
            chars_view(set@).to_set() == all_references(sv.take(k as int)).to_set(),
        decreases sources.len() - k,
    {
        let refs = find_asset_references(sources[k].as_str());
        let ghost before = all_references(sv.take(k as int));
        assert(sv.take(k + 1).drop_last() =~= sv.take(k as int));
        assert(sv.take(k + 1).last() == sources@[k as int]@);
        let mut m: usize = 0;
        while m < refs.len()
            invariant
                m <= refs@.len(),
                strictly_ascending(chars_view(set@)),
                chars_view(set@).to_set() == (before + strings_view(refs@).take(m as int)).to_set(),
            decreases refs.len() - m,
        {
            let ghost old_set = chars_view(set@);
            insert_unique_sorted(&mut set, chars_of(refs[m].as_str()));
            assert((before + strings_view(refs@).take(m + 1)) =~= (before + strings_view(refs@).take(
                m as int,
            )).push(refs@[m as int]@));
            proof {
                (before + strings_view(refs@).take(m as int)).lemma_push_to_set_commute(refs@[m as int]@);
            }
            m = m + 1;
        }
        assert(strings_view(refs@).take(m as int) =~= strings_view(refs@));
        k = k + 1;
    }
    assert(sv.take(k as int) =~= sv);
    let mut out: Vec<String> = Vec::new();
    let mut i: usize = 0;
    while i < set.len()
        invariant
            i <= set@.len(),
            strings_view(out@) == chars_view(set@).take(i as int),
        decreases set.len() - i,
    {
        out.push(string_from_chars(set[i].as_slice()));
        assert(chars_view(set@).take(i + 1) =~= chars_view(set@).take(i as int).push(set@[i as int]@));
        i = i + 1;
    }
    assert(chars_view(set@).take(i as int) =~= chars_view(set@));
    out
}

/// The part of a path after its last dot (the whole path when it has none),
/// as `rsplit('.').next()` gives it.
pub open spec fn last_dot_segment(path: Seq<char>) -> Seq<char> {
    match last_index_of(path, '.') {
        None => path,
        Some(i) => path.skip(i + 1),
    }
}

/// The content type an asset is served with, by the text after its last dot.
pub open spec fn content_type_of(path: Seq<char>) -> Seq<char> {
    let e = last_dot_segment(path);
    if e == "png"@ {
        "image/png"@
    } else if e == "jpg"@ || e == "jpeg"@ {
        "image/jpeg"@
    } else if e == "webp"@ {
        "image/webp"@
    } else if e == "gif"@ {
        "image/gif"@
    } else if e == "svg"@ {
        "image/svg+xml"@
    } else {
        "application/octet-stream"@
    }
}

/// The content type for an asset path.
pub fn content_type_for(path: &str) -> (r: &'static str)
    ensures
        r@ == content_type_of(path@),
{
    let v = chars_of(path);
    let seg = match last_index_of_exec(v.as_slice(), '.') {
        None => string_from_chars(v.as_slice()),
        Some(i) => {
            proof {
                lemma_last_index_of_bounds(v@, '.');
                assert(last_index_of(v@, '.') == Some(i as int));
            }
            let tail = subslice_vec(v.as_slice(), i + 1, v.len());
            assert(tail@ =~= v@.skip(i + 1));
            string_from_chars(tail.as_slice())
        },
    };
    let e = seg.as_str();
    if str_eq(e, "png") {
        "image/png"
    } else if str_eq(e, "jpg") || str_eq(e, "jpeg") {
        "image/jpeg"
    } else if str_eq(e, "webp") {
        "image/webp"
    } else if str_eq(e, "gif") {
        "image/gif"
    } else if str_eq(e, "svg") {
        "image/svg+xml"
    } else {
        "application/octet-stream"
    }
}

/// Whether a reference names a file under the post's `assets/` directory.
pub open spec fn under_assets(path: Seq<char>) -> bool {
    path.len() >= 7 && path.take(7) == "assets/"@
}

proof fn lemma_references_under_assets(s: Seq<char>, pat: Seq<char>, pos: int)
    requires
        0 <= pos,
        pat == "\"./assets/"@ || pat == "\"assets/"@,
    ensures
        forall|k: int|
            0 <= k < references_from(s, pat, pos).len() ==> under_assets(#[trigger] references_from(s, pat, pos)[k]),
    decreases s.len() - pos,
{
    reveal_strlit("\"./assets/");
    reveal_strlit("\"assets/");
    reveal_strlit("./");
    reveal_strlit("assets/");
    let q = seq!['"'];
    match find_from(s, pat, pos) {
        None => {},
        Some(i) => {
            lemma_find_from_bounds(s, pat, pos);
            lemma_find_from_first(s, q, i + 1);
            lemma_find_from_bounds(s, q, i + 1);
            match find_from(s, q, i + 1) {
                None => {},
                Some(e) => {
                    if pos < e <= s.len() {
                        let tail = pat.skip(1);
                        assert(s.subrange(i, i + pat.len()) == pat);
                        assert forall|k: int| i + 1 <= k < i + pat.len() implies !occurs_at(s, q, k) by {
                            assert(s[k] == pat[k - i]);
                            assert(s.subrange(k, k + 1)[0] == s[k]);
                        }
                        assert(e >= i + pat.len()) by {
                            if e < i + pat.len() {
                                assert(occurs_at(s, q, e));
                            }
                        }
                        let raw = s.subrange(i + 1, e);
                        assert(raw.take(tail.len() as int) =~= tail);
                        let r = stripped_prefixes(raw, "./"@);
                        if pat == "\"./assets/"@ {
                            assert(raw.take(2) =~= "./"@);
                            assert(raw[2] == tail[2]);
                            assert(tail[2] == pat[3]);
                            assert(pat[3] == 'a');
                            assert(raw.skip(2)[0] == 'a');
                            assert(raw.skip(2).take(2) != "./"@) by {
                                assert(raw.skip(2).take(2)[0] == 'a');
                            }
                            assert("./"@.len() == 2);
                            assert(raw.skip(2).len() >= 7);
                            assert(stripped_prefixes(raw, "./"@) == stripped_prefixes(raw.skip(2), "./"@));
                            assert(stripped_prefixes(raw.skip(2), "./"@) == raw.skip(2));
                            assert(r == raw.skip(2));
                            assert(r.take(7) =~= "assets/"@) by {
                                assert forall|k: int| 0 <= k < 7 implies r[k] == "assets/"@[k] by {
                                    assert(r[k] == raw[k + 2]);
                                    assert(raw[k + 2] == tail[k + 2]);
                                    assert(tail[k + 2] == pat[k + 3]);
                                }
                            }
                        } else {
                            assert(raw[0] == tail[0]);
                            assert(tail[0] == pat[1]);
                            assert(raw.take(2) != "./"@) by {
                                assert(raw.take(2)[0] == 'a');
                            }
                            assert(r == raw);
                            assert(r.take(7) =~= "assets/"@);
                        }
                        lemma_references_under_assets(s, pat, e);
                        let refs = references_from(s, pat, pos);
                        assert(refs == seq![r] + references_from(s, pat, e));
                        assert forall|k: int| 0 <= k < refs.len() implies under_assets(#[trigger] refs[k]) by {
                            if k > 0 {
                                assert(refs[k] == references_from(s, pat, e)[k - 1]);
                            }
                        }
                    }
                },
            }
        },
    }
}

/// Every asset reference that a source yields names a file under the post's
/// `assets/` directory.
pub proof fn lemma_asset_references_under_assets(source: Seq<char>)
    ensures
        forall|k: int|
            0 <= k < asset_references(source).len() ==> under_assets(#[trigger] asset_references(source)[k]),
{
    lemma_references_under_assets(source, "\"./assets/"@, 0);
    lemma_references_under_assets(source, "\"assets/"@, 0);
    let a = references_from(source, "\"./assets/"@, 0);
    let b = references_from(source, "\"assets/"@, 0);
    assert forall|k: int| 0 <= k < asset_references(source).len() implies under_assets(
        #[trigger] asset_references(source)[k],
    ) by {
        if k < a.len() {
            assert(asset_references(source)[k] == a[k]);
        } else {
            assert(asset_references(source)[k] == b[k - a.len()]);
        }
    }
}

} // verus!
