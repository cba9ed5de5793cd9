//! The file-level rules of an import: which files are posts, which file is a
//! post's Chinese translation, which assets a source references and what
//! content type an asset has.
use vstd::prelude::*;

use crate::render::hash::{lemma_text_le_total, lemma_text_le_transitive, text_le, text_le_exec};
use crate::text::{
    chars_of, occurs_at_exec, str_eq, string_from_chars, stripped_prefixes, subslice_vec, trim_chars,
    trim_start_matches_chars, trimmed,
};

verus! {

/// The position of the last `c` in `s`, if any.
pub open spec fn last_index_of(s: Seq<char>, c: char) -> Option<int>
    decreases s.len(),
{
    if s.len() == 0 {
        None
    } else if s.last() == c {
        Some(s.len() - 1)
    } else {
        last_index_of(s.drop_last(), c)
    }
}

/// The extension of a file name as std's `Path::extension` reads it: what
/// follows the last dot, unless there is no dot, the dot is the first
/// character, or the name is `..`.
pub open spec fn file_extension(name: Seq<char>) -> Option<Seq<char>> {
    match last_index_of(name, '.') {
        None => None,
        Some(i) => if i == 0 || name == ".."@ {
            None
        } else {
            Some(name.skip(i + 1))
        },
    }
}

/// The stem of a file name as std's `Path::file_stem` reads it: the name
/// without its extension.
pub open spec fn file_stem(name: Seq<char>) -> Seq<char> {
    match last_index_of(name, '.') {
        None => name,
        Some(i) => if i == 0 || name == ".."@ {
            name
        } else {
            name.take(i)
        },
    }
}

pub(crate) proof fn lemma_last_index_of_bounds(s: Seq<char>, c: char)
    ensures
        last_index_of(s, c) matches Some(i) ==> 0 <= i < s.len() && s[i] == c && forall|j: int|
            i < j < s.len() ==> #[trigger] s[j] != c,
        last_index_of(s, c) is None ==> forall|j: int| 0 <= j < s.len() ==> #[trigger] s[j] != c,
    decreases s.len(),
{
    if s.len() > 0 && s.last() != c {
        let t = s.drop_last();
        lemma_last_index_of_bounds(t, c);
        assert forall|j: int| 0 <= j < s.len() - 1 implies s[j] == #[trigger] t[j] by {}
        assert forall|j: int| 0 <= j < s.len() && s[j] == c implies j < s.len() - 1 by {}
        if last_index_of(s, c) is Some {
            let i = last_index_of(s, c)->0;
            assert forall|j: int| i < j < s.len() implies #[trigger] s[j] != c by {
                if j < s.len() - 1 {
                    assert(t[j] != c);
                }
            }
        }
        if last_index_of(s, c) is None {
            assert forall|j: int| 0 <= j < s.len() implies #[trigger] s[j] != c by {
                if j < s.len() - 1 {
                    assert(t[j] != c);
                }
            }
        }
    }
}

/// The position of the last `c` in `v`.
pub(crate) fn last_index_of_exec(v: &[char], c: char) -> (r: Option<usize>)
    ensures
        r matches Some(i) ==> last_index_of(v@, c) == Some(i as int),
        r is None ==> last_index_of(v@, c) is None,
{
    let mut k = v.len();
    assert(v@.take(k as int) =~= v@);
    while k > 0
        invariant
            k <= v@.len(),
            last_index_of(v@, c) == last_index_of(v@.take(k as int), c),
        decreases k,
    {
        assert(v@.take(k as int).last() == v@[k - 1]);
        assert(v@.take(k as int).drop_last() =~= v@.take(k - 1));
        if v[k - 1] == c {
            return Some(k - 1);
        }
        k = k - 1;
    }
    None
}

/// The stem and extension of a file name.
fn split_file_name(name: &str) -> (r: (Vec<char>, Option<Vec<char>>))
    ensures
        r.0@ == file_stem(name@),
        r.1 matches Some(e) ==> file_extension(name@) == Some(e@),
        r.1 is None ==> file_extension(name@) is None,
{
    let v = chars_of(name);
    let dotdot = str_eq(name, "..");
    match last_index_of_exec(v.as_slice(), '.') {
        None => (v, None),
        Some(i) => {
            proof {
                lemma_last_index_of_bounds(v@, '.');
            }
            if i == 0 || dotdot {
                (v, None)
            } else {
                let stem = subslice_vec(v.as_slice(), 0, i);
                let ext = subslice_vec(v.as_slice(), i + 1, v.len());
                assert(stem@ =~= v@.take(i as int));
                assert(ext@ =~= v@.skip(i + 1));
                (stem, Some(ext))
            }
        },
    }
}

/// Whether a file in the import directory is a post: its extension is
/// `typ` and its name does not end in `.zh.typ`.
pub open spec fn is_base_file(name: Seq<char>) -> bool {
    file_extension(name) == Some("typ"@) && !(name.len() >= 7 && name.skip(name.len() - 7) == ".zh.typ"@)
}

/// Whether the file `name` is a post of the import directory.
pub fn is_base_file_name(name: &str) -> (b: bool)
    ensures
        b == is_base_file(name@),
{
    let (_stem, ext) = split_file_name(name);
    let is_typ = match &ext {
        Some(e) => str_eq(string_from_chars(e.as_slice()).as_str(), "typ"),
        None => false,
    };
    let v = chars_of(name);
    let suffix = chars_of(".zh.typ");
    proof {
        reveal_strlit(".zh.typ");
        assert(suffix@.len() == 7);
    }
    let zh = v.len() >= 7 && occurs_at_exec(v.as_slice(), suffix.as_slice(), v.len() - 7);
    proof {
        if v@.len() >= 7 {
            assert(v@.subrange(v@.len() - 7, v@.len() as int) =~= v@.skip(v@.len() - 7));
        }
    }
    is_typ && !zh
}

/// The stem of a file name (std's `Path::file_stem`).
pub fn file_stem_of(name: &str) -> (r: String)
    ensures
        r@ == file_stem(name@),
{
    let (stem, _ext) = split_file_name(name);
    string_from_chars(stem.as_slice())
}

/// The posts among a directory's file names, in the order they were listed.
pub open spec fn base_names(names: Seq<Seq<char>>) -> Seq<Seq<char>>
    decreases names.len(),
{
    if names.len() == 0 {
        seq![]
    } else if is_base_file(names.last()) {
        base_names(names.drop_last()).push(names.last())
    } else {
        base_names(names.drop_last())
    }
}

/// Whether `s` is in ascending order of std's order on strings.
pub open spec fn ascending(s: Seq<Seq<char>>) -> bool {
    forall|i: int, j: int| 0 <= i < j < s.len() ==> text_le(#[trigger] s[i], #[trigger] s[j])
}

/// The texts of a sequence of character vectors.
spec fn chars_view(v: Seq<Vec<char>>) -> Seq<Seq<char>> {
    v.map_values(|c: Vec<char>| c@)
}

/// Inserts `x` into the ascending `v`, before the first element it does not
/// exceed.
fn insert_ascending(v: &mut Vec<Vec<char>>, x: Vec<char>)
    requires
        ascending(chars_view(old(v)@)),
    ensures
        ascending(chars_view(final(v)@)),
        chars_view(final(v)@).to_multiset() == chars_view(old(v)@).to_multiset().insert(x@),
{
    let ghost s = chars_view(v@);
    let mut j: usize = 0;
    while j < v.len() && !text_le_exec(x.as_slice(), v[j].as_slice())
        invariant
            j <= v@.len(),
            s == chars_view(v@),
            ascending(s),
            forall|k: int| 0 <= k < j ==> text_le(#[trigger] s[k], x@),
        decreases v.len() - j,
    {
        proof {
            lemma_text_le_total(x@, s[j as int]);
        }
        j = j + 1;
    }
    let ghost xv = x@;
    v.insert(j, x);
    let ghost t = chars_view(v@);
    assert(t =~= s.insert(j as int, xv));
    assert forall|a: int, b: int| 0 <= a < b < t.len() implies text_le(#[trigger] t[a], #[trigger] t[b]) by {
        if b < j {
            assert(t[a] == s[a] && t[b] == s[b]);
        } else if a > j {
            assert(t[a] == s[a - 1] && t[b] == s[b - 1]);
        } else if a == j {
            assert(t[b] == s[b - 1]);
            if b - 1 > j {
                assert(text_le(s[j as int], s[b - 1]));
                lemma_text_le_transitive(xv, s[j as int], s[b - 1]);
            }
        } else {
            assert(t[a] == s[a]);
            if b > j {
                assert(t[b] == s[b - 1]);
            }
        }
    }
    proof {
        vstd::seq_lib::to_multiset_insert(s, j as int, xv);
    }
}

/// The posts among the file names of an import directory, sorted as std
/// sorts paths of one directory (by the names' characters).
pub fn base_file_names(names: &[String]) -> (r: Vec<String>)
    ensures
        ascending(r@.map_values(|s: String| s@)),
        r@.map_values(|s: String| s@).to_multiset() == base_names(names@.map_values(|s: String| s@)).to_multiset(),
{
    let ghost nv = names@.map_values(|s: String| s@);
    let mut sorted: Vec<Vec<char>> = Vec::new();
    let mut k: usize = 0;
    assert(chars_view(sorted@).to_multiset() =~= base_names(nv.take(0)).to_multiset()) by {
        assert(chars_view(sorted@) =~= Seq::<Seq<char>>::empty());
        assert(base_names(nv.take(0)) =~= Seq::<Seq<char>>::empty());
    }
    while k < names.len()
        invariant
            k <= names@.len(),
            nv == names@.map_values(|s: String| s@),
            ascending(chars_view(sorted@)),
            chars_view(sorted@).to_multiset() == base_names(nv.take(k as int)).to_multiset(),
        decreases names.len() - k,
    {
        assert(nv.take(k + 1).drop_last() =~= nv.take(k as int));
        assert(nv.take(k + 1).last() == names@[k as int]@);
        if is_base_file_name(names[k].as_str()) {
            insert_ascending(&mut sorted, chars_of(names[k].as_str()));
            proof {
                vstd::seq_lib::to_multiset_build(base_names(nv.take(k as int)), names@[k as int]@);
            }
        }
        k = k + 1;
    }
    assert(nv.take(k as int) =~= nv);
    let mut out: Vec<String> = Vec::new();
    let mut i: usize = 0;
    while i < sorted.len()
        invariant
            i <= sorted@.len(),
            out@.map_values(|s: String| s@) == chars_view(sorted@).take(i as int),
        decreases sorted.len() - i,
    {
        out.push(string_from_chars(sorted[i].as_slice()));
        assert(chars_view(sorted@).take(i + 1) =~= chars_view(sorted@).take(i as int).push(sorted@[i as int]@));
        assert(out@.map_values(|s: String| s@) =~= chars_view(sorted@).take(i + 1));
        i = i + 1;
    }
    assert(chars_view(sorted@).take(i as int) =~= chars_view(sorted@));
    out
}

/// The file names, relative to the import directory, that may hold the
/// Chinese translation of the post whose file stem is `stem`, in the order
/// they are tried: when the frontmatter names a source, that name (trimmed and
/// without leading `src/content/blogs/`), then it with `.typ` and with
/// `.zh.typ` appended; last the stem with `.zh.typ` appended.
pub open spec fn chinese_candidates_of(custom: Option<Seq<char>>, stem: Seq<char>) -> Seq<Seq<char>> {
    let fallback = seq![stem + ".zh.typ"@];
    match custom {
        None => fallback,
        Some(c) => {
            let t = stripped_prefixes(trimmed(c), "src/content/blogs/"@);
            seq![t, t + ".typ"@, t + ".zh.typ"@] + fallback
        },
    }
}

/// Appends `suffix` to a copy of `base`.
fn with_suffix(base: &str, suffix: &str) -> (r: String)
    ensures
        r@ == base@ + suffix@,
{
    let mut r = base.to_string();
    r.append(suffix);
    r
}

/// The candidate file names for a post's Chinese translation; the first that
/// is a file is the translation.
pub fn chinese_candidates(custom: Option<&str>, stem: &str) -> (r: Vec<String>)
    ensures
        r@.map_values(|s: String| s@) == chinese_candidates_of(
            match custom {
                Some(c) => Some(c@),
                None => None,
            },
            stem@,
        ),
{
    let mut r: Vec<String> = Vec::new();
    if let Some(c) = custom {
        let cv = chars_of(c);
        let t = trim_chars(cv.as_slice());
        let prefix = chars_of("src/content/blogs/");
        let name = string_from_chars(trim_start_matches_chars(t.as_slice(), prefix.as_slice()).as_slice());
        let a = with_suffix(name.as_str(), ".typ");
        let b = with_suffix(name.as_str(), ".zh.typ");
        r.push(name);
        r.push(a);
        r.push(b);
    }
    r.push(with_suffix(stem, ".zh.typ"));
    assert(r@.map_values(|s: String| s@) =~= chinese_candidates_of(
        match custom {
            Some(c) => Some(c@),
            None => None,
        },
        stem@,
    ));
    r
}

} // verus!
