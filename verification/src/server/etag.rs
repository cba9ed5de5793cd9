//! Entity tags of served posts and assets, and `If-None-Match` matching.
use vstd::prelude::*;

use crate::text::{
    decimal_text, lemma_decimal_digits, lemma_decimal_injective, lemma_split_before, chars_of, comma_segments, find_first, find_from_exec, lemma_find_from_bounds, lemma_find_from_skip,
    push_chars, push_signed_decimal, signed_decimal_text, str_eq, subslice_vec, trim_chars, trimmed,
};

verus! {

/// The first sixteen characters of `s`, or all of it when shorter.
pub open spec fn first16(s: Seq<char>) -> Seq<char> {
    if s.len() <= 16 {
        s
    } else {
        s.take(16)
    }
}

/// The entity tag of a post detail: revision, language, the first sixteen
/// characters of the input hash and the renderer version, quoted.
pub open spec fn post_etag_text(revision: i64, language: Seq<char>, input_hash: Seq<char>, renderer_version: Seq<char>) -> Seq<char> {
    seq!['"'] + signed_decimal_text(revision as int) + seq!['-'] + language + seq!['-'] + first16(input_hash)
        + seq!['-'] + renderer_version + seq!['"']
}

/// The entity tag of a post detail.
pub fn post_etag(revision: i64, language: &str, input_hash: &str, renderer_version: &str) -> (r: String)
    ensures
        r@ == post_etag_text(revision, language@, input_hash@, renderer_version@),
{
    let hash = chars_of(input_hash);
    let prefix_len = if hash.len() <= 16 { hash.len() } else { 16 };
    let prefix = subslice_vec(hash.as_slice(), 0, prefix_len);
    assert(hash@.subrange(0, hash@.len() as int) =~= hash@);
    let mut etag = String::new();
    crate::text::push_char(&mut etag, '"');
    push_signed_decimal(&mut etag, revision);
    crate::text::push_char(&mut etag, '-');
    etag.append(language);
    crate::text::push_char(&mut etag, '-');
    push_chars(&mut etag, prefix.as_slice());
    crate::text::push_char(&mut etag, '-');
    etag.append(renderer_version);
    crate::text::push_char(&mut etag, '"');
    assert(etag@ =~= post_etag_text(revision, language@, input_hash@, renderer_version@));
    etag
}

/// The entity tag of an asset: its content hash, quoted.
pub fn asset_etag(content_hash: &str) -> (r: String)
    ensures
        r@ == seq!['"'] + content_hash@ + seq!['"'],
{
    let mut etag = String::new();
    crate::text::push_char(&mut etag, '"');
    etag.append(content_hash);
    crate::text::push_char(&mut etag, '"');
    etag
}

/// Whether an `If-None-Match` value names `etag`: it is `*`, or one of its
/// comma-separated entries, trimmed, is `etag`.
pub open spec fn if_none_match_names(value: Seq<char>, etag: Seq<char>) -> bool {
    value == "*"@ || exists|k: int|
        0 <= k < comma_segments(value).len() && trimmed(#[trigger] comma_segments(value)[k]) == etag
}

/// Whether the request's `If-None-Match` header (absent, or not visible
/// ASCII, when `None`) makes a cached copy with `etag` current.
pub fn if_none_match_hits(header: Option<&str>, etag: &str) -> (b: bool)
    ensures
        b == (header matches Some(v) && if_none_match_names(v@, etag@)),
{
    let value = match header {
        Some(v) => v,
        None => {
            return false;
        },
    };
    if str_eq(value, "*") {
        return true;
    }
    let v = chars_of(value);
    let e = chars_of(etag);
    let comma = chars_of(",");
    proof {
        reveal_strlit(",");
        assert(comma@ =~= seq![',']);
    }
    let ghost segs = comma_segments(v@);
    let mut pos: usize = 0;
    assert(v@.skip(0) =~= v@);
    loop
        invariant
            pos <= v@.len(),
            header == Some(value),
            v@ == value@,
            e@ == etag@,
            comma@ == seq![','],
            value@ != "*"@,
            if_none_match_names(value@, etag@) == (exists|k: int|
                0 <= k < comma_segments(v@.skip(pos as int)).len() && trimmed(
                    #[trigger] comma_segments(v@.skip(pos as int))[k],
                ) == etag@),
        decreases v@.len() - pos,
    {
        let ghost rest = v@.skip(pos as int);
        proof {
            lemma_find_from_skip(v@, comma@, pos as int, 0);
        }
        match find_from_exec(v.as_slice(), comma.as_slice(), pos) {
            None => {
                assert(comma_segments(rest) == seq![rest]);
                let segment = subslice_vec(v.as_slice(), pos, v.len());
                assert(segment@ =~= rest);
                let t = trim_chars(segment.as_slice());
                let hit = vec_eq(&t, &e);
                proof {
                    assert(comma_segments(rest)[0] == rest);
                    if hit {
                        assert(trimmed(comma_segments(rest)[0]) == etag@);
                    }
                }
                return hit;
            },
            Some(i) => {
                proof {
                    lemma_find_from_bounds(v@, comma@, pos as int);
                    assert(find_first(rest, seq![',']) == Some(i - pos));
                }
                let segment = subslice_vec(v.as_slice(), pos, i);
                assert(segment@ =~= rest.take(i - pos));
                assert(rest.skip(i - pos + 1) =~= v@.skip(i + 1));
                let t = trim_chars(segment.as_slice());
                let ghost tail = comma_segments(v@.skip(i + 1));
                assert(comma_segments(rest) == seq![rest.take(i - pos)] + tail);
                if vec_eq(&t, &e) {
                    assert(comma_segments(rest)[0] == segment@);
                    return true;
                }
                proof {
                    assert forall|k: int| 0 <= k < tail.len() implies comma_segments(rest)[k + 1] == #[trigger] tail[k] by {}
                    assert forall|k: int| 0 <= k < comma_segments(rest).len() && k > 0 implies comma_segments(rest)[k] == #[trigger] tail[k - 1] by {}
                }
                assert(i < v.len());
                pos = i + 1;
            },
        }
    }
}

/// Whether two character vectors are equal.
fn vec_eq(a: &Vec<char>, b: &Vec<char>) -> (r: bool)
    ensures
        r == (a@ == b@),
{
    if a.len() != b.len() {
        return false;
    }
    let mut i: usize = 0;
    while i < a.len()
        invariant
            a@.len() == b@.len(),
            i <= a@.len(),
            forall|j: int| 0 <= j < i ==> a@[j] == b@[j],
        decreases a.len() - i,
    {
        if a[i] != b[i] {
            return false;
        }
        i = i + 1;
    }
    assert(a@ =~= b@);
    true
}

/// Post details at different revisions never share an entity tag: every
/// edit bumps the revision, so a cached copy never passes for the edited
/// post.
pub proof fn lemma_post_etag_tracks_revision(
    r1: i64,
    language1: Seq<char>,
    hash1: Seq<char>,
    version1: Seq<char>,
    r2: i64,
    language2: Seq<char>,
    hash2: Seq<char>,
    version2: Seq<char>,
)
    requires
        post_etag_text(r1, language1, hash1, version1) == post_etag_text(r2, language2, hash2, version2),
    ensures
        r1 == r2,
{
    let t1 = seq!['-'] + language1 + seq!['-'] + first16(hash1) + seq!['-'] + version1 + seq!['"'];
    let t2 = seq!['-'] + language2 + seq!['-'] + first16(hash2) + seq!['-'] + version2 + seq!['"'];
    let s1 = signed_decimal_text(r1 as int);
    let s2 = signed_decimal_text(r2 as int);
    assert(post_etag_text(r1, language1, hash1, version1) =~= seq!['"'] + (s1 + t1));
    assert(post_etag_text(r2, language2, hash2, version2) =~= seq!['"'] + (s2 + t2));
    assert(s1 + t1 =~= post_etag_text(r1, language1, hash1, version1).drop_first());
    assert(s2 + t2 =~= post_etag_text(r2, language2, hash2, version2).drop_first());
    assert(s1 + t1 == s2 + t2);
    if r1 >= 0 && r2 >= 0 {
        lemma_decimal_digits(r1 as nat);
        lemma_decimal_digits(r2 as nat);
        lemma_split_before(s1, t1, s2, t2, '-');
        lemma_decimal_injective(r1 as nat, r2 as nat);
    } else if r1 < 0 && r2 < 0 {
        let d1 = decimal_text((-r1) as nat);
        let d2 = decimal_text((-r2) as nat);
        lemma_decimal_digits((-r1) as nat);
        lemma_decimal_digits((-r2) as nat);
        assert(d1 + t1 =~= (s1 + t1).drop_first());
        assert(d2 + t2 =~= (s2 + t2).drop_first());
        lemma_split_before(d1, t1, d2, t2, '-');
        lemma_decimal_injective((-r1) as nat, (-r2) as nat);
    } else if r1 < 0 {
        lemma_decimal_digits(r2 as nat);
        assert((s1 + t1)[0] == '-');
        assert((s2 + t2)[0] == s2[0]);
    } else {
        lemma_decimal_digits(r1 as nat);
        assert((s2 + t2)[0] == '-');
        assert((s1 + t1)[0] == s1[0]);
    }
}

} // verus!
