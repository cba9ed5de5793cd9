//! The frontmatter of a post: a `#metadata((...))<frontmatter>` block at the
//! top level of the Typst source, read from Typst's syntax tree. The block is
//! cut out of the source; what remains is the post's body.
use vstd::prelude::*;

use crate::import::report::ImportError;
use crate::text::{chars_of, opt_string_view, str_eq, string_from_chars, trim_start_chars, trimmed_start};

verus! {

/// A node of Typst's syntax tree, as plain values.
pub struct SyntaxTree {
    /// The node's kind as `SyntaxKind`'s `Debug` prints it (`FuncCall`,
    /// `Label`, `Str`, ...).
    pub kind: String,
    /// Whether the node is an expression (`ast::Expr` accepts it).
    pub is_expr: bool,
    /// The node's source text.
    pub text: String,
    pub children: Vec<SyntaxTree>,
}

/// The texts of a sequence of nodes, one after the other.
pub open spec fn concat_texts(cs: Seq<SyntaxTree>) -> Seq<char>
    decreases cs.len(),
{
    if cs.len() == 0 {
        seq![]
    } else {
        concat_texts(cs.drop_last()) + cs.last().text@
    }
}

/// The syntax tree that `typst_syntax::parse` builds for a Typst source.
pub uninterp spec fn typst_markup_tree(source: Seq<char>) -> SyntaxTree;

/// The value of a Typst string literal as `ast::Str::get` gives it: the text
/// between the quotes with escape sequences resolved.
pub uninterp spec fn typst_str_value(literal: Seq<char>) -> Seq<char>;

#[verifier::external_type_specification]
#[verifier::external_body]
pub struct ExSyntaxNode(typst_syntax::SyntaxNode);

/// Converts a node of Typst's syntax tree and its subtree to plain values.
#[verifier::external_body]
fn syntax_tree(node: &typst_syntax::SyntaxNode) -> SyntaxTree {
    SyntaxTree {
        kind: format!("{:?}", node.kind()),
        is_expr: node.is::<typst_syntax::ast::Expr>(),
        text: node.full_text().to_string(),
        children: node.children().map(syntax_tree).collect(),
    }
}

/// `typst_syntax::parse`: the markup syntax tree of `source`. The tree is
/// lossless: the root's text is the source, and its children's texts make it
/// up in order. What the tree holds below that is left to the name.
#[verifier::external_body]
fn parse_markup(source: &str) -> (r: SyntaxTree)
    ensures
        r == typst_markup_tree(source@),
        r.text@ == source@,
        concat_texts(r.children@) == source@,
{
    syntax_tree(&typst_syntax::parse(source))
}

/// Whether `t` is a string literal with its quotes.
pub open spec fn quoted(t: Seq<char>) -> bool {
    t.len() >= 2 && t[0] == '"' && t.last() == '"'
}

/// `ast::Str::get` on a string literal's text.
#[verifier::external_body]
fn str_literal_value(literal: &str) -> (r: String)
    requires
        quoted(literal@),
    ensures
        r@ == typst_str_value(literal@),
{
    match typst_syntax::SyntaxNode::leaf(typst_syntax::SyntaxKind::Str, literal).cast::<typst_syntax::ast::Str>() {
        Some(s) => s.get().to_string(),
        None => String::new(),
    }
}

/// The fields a post's frontmatter sets.
#[derive(Clone, Debug)]
pub struct Frontmatter {
    pub title: String,
    pub description: Option<String>,
    pub date: Option<String>,
    pub tags: Vec<String>,
    pub draft: bool,
    pub hidden: bool,
    pub chinese_source: Option<String>,
}

/// A frontmatter as texts.
pub struct FrontmatterView {
    pub title: Seq<char>,
    pub description: Option<Seq<char>>,
    pub date: Option<Seq<char>>,
    pub tags: Seq<Seq<char>>,
    pub draft: bool,
    pub hidden: bool,
    pub chinese_source: Option<Seq<char>>,
}

impl View for Frontmatter {
    type V = FrontmatterView;

    open spec fn view(&self) -> FrontmatterView {
        FrontmatterView {
            title: self.title@,
            description: opt_string_view(self.description),
            date: opt_string_view(self.date),
            tags: self.tags@.map_values(|s: String| s@),
            draft: self.draft,
            hidden: self.hidden,
            chinese_source: opt_string_view(self.chinese_source),
        }
    }
}

/// The frontmatter before any field is read: everything empty or unset.
pub open spec fn empty_frontmatter() -> FrontmatterView {
    FrontmatterView {
        title: seq![],
        description: None,
        date: None,
        tags: seq![],
        draft: false,
        hidden: false,
        chinese_source: None,
    }
}

impl Frontmatter {
    /// A frontmatter with every field empty or unset.
    pub fn default() -> (f: Self)
        ensures
            f@ == empty_frontmatter(),
    {
        let f = Frontmatter {
            title: String::new(),
            description: None,
            date: None,
            tags: Vec::new(),
            draft: false,
            hidden: false,
            chinese_source: None,
        };
        assert(f@.tags =~= Seq::<Seq<char>>::empty());
        f
    }

    /// Whether the post is to be published: it is neither a draft nor hidden.
    pub fn publishes(&self) -> (b: bool)
        ensures
            b == (!self.draft && !self.hidden),
    {
        !self.draft && !self.hidden
    }
}

/// Whether `n` is a call of `metadata`: its first child is the identifier
/// `metadata`.
pub open spec fn is_metadata_call(n: SyntaxTree) -> bool {
    n.children@.len() > 0 && n.children@[0].kind@ == "Ident"@ && n.children@[0].text@ == "metadata"@
}

/// Scans the top-level nodes from `k` on for a metadata call followed, past
/// spaces and paragraph breaks only, by the label `<frontmatter>`; `call` is
/// the last metadata call seen with nothing but space after it. The result
/// is the positions of the call and of the label.
pub open spec fn scan_block(cs: Seq<SyntaxTree>, k: int, call: Option<int>) -> Option<(int, int)>
    decreases cs.len() - k,
{
    if k < 0 || k >= cs.len() {
        None
    } else {
        let c = cs[k];
        if c.kind@ == "FuncCall"@ && is_metadata_call(c) {
            scan_block(cs, k + 1, Some(k))
        } else if c.kind@ == "Label"@ && call is Some {
            if c.text@ == "<frontmatter>"@ {
                Some((call->0, k))
            } else {
                scan_block(cs, k + 1, None)
            }
        } else if c.kind@ == "Space"@ || c.kind@ == "Parbreak"@ {
            scan_block(cs, k + 1, call)
        } else {
            scan_block(cs, k + 1, None)
        }
    }
}

/// The first dictionary in `n`'s subtree, in pre-order.
pub open spec fn find_dict(n: SyntaxTree) -> Option<SyntaxTree>
    decreases n, 0int,
{
    if n.kind@ == "Dict"@ {
        Some(n)
    } else {
        find_dict_in(n.children@, 0)
    }
}

/// The first dictionary in the subtrees of `cs` from position `i` on.
pub open spec fn find_dict_in(cs: Seq<SyntaxTree>, i: int) -> Option<SyntaxTree>
    decreases cs, cs.len() - i,
{
    if i < 0 || i >= cs.len() {
        None
    } else {
        match find_dict(cs[i]) {
            Some(d) => Some(d),
            None => find_dict_in(cs, i + 1),
        }
    }
}

/// The text of the first identifier among `cs` from `i` on, or nothing
/// (the text of `ast::Ident`'s placeholder) when there is none.
pub open spec fn first_ident_from(cs: Seq<SyntaxTree>, i: int) -> Seq<char>
    decreases cs.len() - i,
{
    if i < 0 || i >= cs.len() {
        seq![]
    } else if cs[i].kind@ == "Ident"@ {
        cs[i].text@
    } else {
        first_ident_from(cs, i + 1)
    }
}

/// The last expression among the first `i` nodes of `cs`.
pub open spec fn last_expr_before(cs: Seq<SyntaxTree>, i: int) -> Option<SyntaxTree>
    decreases i,
{
    if i <= 0 || i > cs.len() {
        None
    } else if cs[i - 1].is_expr {
        Some(cs[i - 1])
    } else {
        last_expr_before(cs, i - 1)
    }
}

/// The name of a named pair (`ast::Named::name`).
pub open spec fn pair_name(named: SyntaxTree) -> Seq<char> {
    first_ident_from(named.children@, 0)
}

/// The value of a named pair (`ast::Named::expr`), if it has one.
pub open spec fn pair_value(named: SyntaxTree) -> Option<SyntaxTree> {
    last_expr_before(named.children@, named.children@.len() as int)
}

/// The value of a string literal.
pub open spec fn string_value(e: Option<SyntaxTree>) -> Option<Seq<char>> {
    match e {
        Some(x) => if x.kind@ == "Str"@ && quoted(x.text@) {
            Some(typst_str_value(x.text@))
        } else {
            None
        },
        None => None,
    }
}

/// The value of a boolean literal.
pub open spec fn bool_value(e: Option<SyntaxTree>) -> Option<bool> {
    match e {
        Some(x) => if x.kind@ == "Bool"@ {
            Some(x.text@ == "true"@)
        } else {
            None
        },
        None => None,
    }
}

/// The strings of an array's items from `i` on (its expressions and spreads;
/// punctuation and space are no items), or nothing when an item is not a
/// string literal.
pub open spec fn array_strings(cs: Seq<SyntaxTree>, i: int) -> Option<Seq<Seq<char>>>
    decreases cs.len() - i,
{
    if i < 0 || i >= cs.len() {
        Some(seq![])
    } else if cs[i].kind@ == "Spread"@ || cs[i].is_expr {
        match string_value(Some(cs[i])) {
            Some(v) => match array_strings(cs, i + 1) {
                Some(rest) => Some(seq![v] + rest),
                None => None,
            },
            None => None,
        }
    } else {
        array_strings(cs, i + 1)
    }
}

/// The strings of an array literal: `Err(true)` when `e` is no array,
/// `Err(false)` when an item is no string literal.
pub open spec fn string_array_value(e: Option<SyntaxTree>) -> Result<Seq<Seq<char>>, bool> {
    match e {
        Some(x) => if x.kind@ == "Array"@ {
            match array_strings(x.children@, 0) {
                Some(v) => Ok(v),
                None => Err(false),
            }
        } else {
            Err(true)
        },
        None => Err(true),
    }
}

/// The frontmatter after reading one named pair, or the message of what is
/// wrong with it. Pairs with other names change nothing.
pub open spec fn apply_pair(f: FrontmatterView, named: SyntaxTree) -> Result<FrontmatterView, Seq<char>> {
    let key = pair_name(named);
    let e = pair_value(named);
    let not_string = key + " must be a string literal"@;
    let not_bool = key + " must be a boolean literal"@;
    if key == "title"@ {
        match string_value(e) {
            Some(v) => Ok(FrontmatterView { title: v, ..f }),
            None => Err(not_string),
        }
    } else if key == "description"@ {
        match string_value(e) {
            Some(v) => Ok(FrontmatterView { description: Some(v), ..f }),
            None => Err(not_string),
        }
    } else if key == "date"@ {
        match string_value(e) {
            Some(v) => Ok(FrontmatterView { date: Some(v), ..f }),
            None => Err(not_string),
        }
    } else if key == "chineseSource"@ {
        match string_value(e) {
            Some(v) => Ok(FrontmatterView { chinese_source: Some(v), ..f }),
            None => Err(not_string),
        }
    } else if key == "draft"@ {
        match bool_value(e) {
            Some(b) => Ok(FrontmatterView { draft: b, ..f }),
            None => Err(not_bool),
        }
    } else if key == "hidden"@ {
        match bool_value(e) {
            Some(b) => Ok(FrontmatterView { hidden: b, ..f }),
            None => Err(not_bool),
        }
    } else if key == "tags"@ {
        match string_array_value(e) {
            Ok(v) => Ok(FrontmatterView { tags: v, ..f }),
            Err(true) => Err(key + " must be an array of strings"@),
            Err(false) => Err(key + " must contain only string literals"@),
        }
    } else {
        Ok(f)
    }
}

/// The frontmatter read from a dictionary's items from `k` on, starting from
/// `f`: each named pair in turn, the first error ending the reading.
pub open spec fn read_items(cs: Seq<SyntaxTree>, k: int, f: FrontmatterView) -> Result<FrontmatterView, Seq<char>>
    decreases cs.len() - k,
{
    if k < 0 || k >= cs.len() {
        Ok(f)
    } else if cs[k].kind@ == "Named"@ {
        match apply_pair(f, cs[k]) {
            Ok(g) => read_items(cs, k + 1, g),
            Err(m) => Err(m),
        }
    } else {
        read_items(cs, k + 1, f)
    }
}

/// Whether one of the items of `cs` from `k` on is a named pair called
/// `name`.
pub open spec fn has_pair_from(cs: Seq<SyntaxTree>, k: int, name: Seq<char>) -> bool {
    exists|m: int| k <= m < cs.len() && #[trigger] cs[m].kind@ == "Named"@ && pair_name(cs[m]) == name
}

proof fn lemma_flags_kept(cs: Seq<SyntaxTree>, k: int, f: FrontmatterView)
    requires
        0 <= k,
    ensures
        read_items(cs, k, f) matches Ok(g) ==> (!has_pair_from(cs, k, "draft"@) ==> g.draft == f.draft) && (
        !has_pair_from(cs, k, "hidden"@) ==> g.hidden == f.hidden),
    decreases cs.len() - k,
{
    if k < cs.len() {
        if cs[k].kind@ == "Named"@ {
            if let Ok(g) = apply_pair(f, cs[k]) {
                lemma_flags_kept(cs, k + 1, g);
                if !has_pair_from(cs, k, "draft"@) {
                    assert(pair_name(cs[k]) != "draft"@);
                    assert(!has_pair_from(cs, k + 1, "draft"@));
                    assert(g.draft == f.draft);
                }
                if !has_pair_from(cs, k, "hidden"@) {
                    assert(pair_name(cs[k]) != "hidden"@);
                    assert(!has_pair_from(cs, k + 1, "hidden"@));
                    reveal_strlit("draft");
                    reveal_strlit("hidden");
                    assert(g.hidden == f.hidden);
                }
            }
        } else {
            lemma_flags_kept(cs, k + 1, f);
            assert(!has_pair_from(cs, k, "draft"@) ==> !has_pair_from(cs, k + 1, "draft"@));
            assert(!has_pair_from(cs, k, "hidden"@) ==> !has_pair_from(cs, k + 1, "hidden"@));
        }
    }
}

/// The flags a frontmatter ends with are those its last `draft` and `hidden`
/// pairs give: when the items from `k` on read without error, a `draft`
/// (or `hidden`) pair at `j` holding the boolean literal `b`, with no pair of
/// that name after it, leaves the flag at `b`.
pub proof fn lemma_last_flag_pair_wins(cs: Seq<SyntaxTree>, k: int, f: FrontmatterView, j: int, name: Seq<char>, b: bool)
    requires
        0 <= k <= j < cs.len(),
        name == "draft"@ || name == "hidden"@,
        cs[j].kind@ == "Named"@,
        pair_name(cs[j]) == name,
        bool_value(pair_value(cs[j])) == Some(b),
        !has_pair_from(cs, j + 1, name),
        read_items(cs, k, f) is Ok,
    ensures
        name == "draft"@ ==> read_items(cs, k, f)->Ok_0.draft == b,
        name == "hidden"@ ==> read_items(cs, k, f)->Ok_0.hidden == b,
    decreases j - k,
{
    reveal_strlit("draft");
    reveal_strlit("hidden");
    reveal_strlit("title");
    reveal_strlit("description");
    reveal_strlit("date");
    reveal_strlit("chineseSource");
    reveal_strlit("tags");
    assert("draft"@.len() == 5 && "hidden"@.len() == 6 && "title"@.len() == 5);
    assert("description"@.len() == 11 && "date"@.len() == 4 && "chineseSource"@.len() == 13 && "tags"@.len() == 4);
    assert("draft"@[0] != "title"@[0]);
    assert("draft"@ != "hidden"@);
    if k < j {
        if cs[k].kind@ == "Named"@ {
            let g = apply_pair(f, cs[k])->Ok_0;
            lemma_last_flag_pair_wins(cs, k + 1, g, j, name, b);
        } else {
            lemma_last_flag_pair_wins(cs, k + 1, f, j, name, b);
        }
    } else {
        let g = apply_pair(f, cs[j])->Ok_0;
        assert(name == "draft"@ ==> g.draft == b);
        assert(name == "hidden"@ ==> g.hidden == b);
        lemma_flags_kept(cs, j + 1, g);
    }
}

/// A frontmatter without a `draft` pair is no draft, and one without a
/// `hidden` pair is not hidden.
pub proof fn lemma_flags_default_off(cs: Seq<SyntaxTree>)
    ensures
        read_items(cs, 0, empty_frontmatter()) matches Ok(g) ==> (!has_pair_from(cs, 0, "draft"@) ==> !g.draft) && (
        !has_pair_from(cs, 0, "hidden"@) ==> !g.hidden),
{
    lemma_flags_kept(cs, 0, empty_frontmatter());
}

/// A post's frontmatter is a draft exactly as its block says: when the
/// block's dictionary has a `draft` pair at `j` holding the boolean literal
/// `b`, with no `draft` pair after it, a frontmatter read from it has `draft`
/// equal to `b` (so `draft: true` is never published), and without any
/// `draft` pair it is no draft.
pub proof fn lemma_frontmatter_draft(root: SyntaxTree, j: int, b: bool)
    ensures
        frontmatter_of(root) matches Ok((f, _)) ==> {
            let cs = root.children@;
            let d = find_dict(cs[scan_block(cs, 0, None)->Some_0.0])->Some_0;
            &&& (0 <= j < d.children@.len() && d.children@[j].kind@ == "Named"@ && pair_name(d.children@[j])
                == "draft"@ && bool_value(pair_value(d.children@[j])) == Some(b) && !has_pair_from(
                d.children@,
                j + 1,
                "draft"@,
            )) ==> f.draft == b
            &&& !has_pair_from(d.children@, 0, "draft"@) ==> !f.draft
        },
{
    if let Ok((f, _)) = frontmatter_of(root) {
        let cs = root.children@;
        let d = find_dict(cs[scan_block(cs, 0, None)->Some_0.0])->Some_0;
        lemma_flags_default_off(d.children@);
        if 0 <= j < d.children@.len() && d.children@[j].kind@ == "Named"@ && pair_name(d.children@[j]) == "draft"@
            && bool_value(pair_value(d.children@[j])) == Some(b) && !has_pair_from(d.children@, j + 1, "draft"@) {
            lemma_last_flag_pair_wins(d.children@, 0, empty_frontmatter(), j, "draft"@, b);
        }
    }
}

/// `s` without its last character, if it has one.
pub open spec fn drop_last_char(s: Seq<char>) -> Seq<char> {
    if s.len() > 0 {
        s.drop_last()
    } else {
        s
    }
}

/// What reading the frontmatter of a syntax tree gives: the frontmatter and
/// the body (the top-level text before the block, less the `#` that opens
/// the call, then the text after the label, with leading whitespace
/// removed), or `Err(None)` when there is no block and `Err(Some(m))` when
/// the block is invalid for the reason `m`.
pub open spec fn frontmatter_of(root: SyntaxTree) -> Result<(FrontmatterView, Seq<char>), Option<Seq<char>>> {
    let cs = root.children@;
    match scan_block(cs, 0, None) {
        None => Err(None),
        Some((ci, li)) => match find_dict(cs[ci]) {
            None => Err(None),
            Some(d) => match read_items(d.children@, 0, empty_frontmatter()) {
                Err(m) => Err(Some(m)),
                Ok(f) => if f.title.len() == 0 {
                    Err(Some("missing title"@))
                } else {
                    Ok(
                        (
                            f,
                            trimmed_start(
                                drop_last_char(concat_texts(cs.take(ci))) + concat_texts(cs.skip(li + 1)),
                            ),
                        ),
                    )
                },
            },
        },
    }
}

/// The node a reference points to, as a value.
pub open spec fn opt_node(e: Option<&SyntaxTree>) -> Option<SyntaxTree> {
    match e {
        Some(x) => Some(*x),
        None => None,
    }
}

/// Whether `n` has the kind `k`.
fn kind_is(n: &SyntaxTree, k: &str) -> (b: bool)
    ensures
        b == (n.kind@ == k@),
{
    str_eq(n.kind.as_str(), k)
}

/// Whether `n` is a call of `metadata`.
fn is_metadata_call_exec(n: &SyntaxTree) -> (b: bool)
    ensures
        b == is_metadata_call(*n),
{
    n.children.len() > 0 && kind_is(&n.children[0], "Ident") && str_eq(n.children[0].text.as_str(), "metadata")
}

/// The positions of the metadata call and the `<frontmatter>` label.
fn scan_block_exec(cs: &Vec<SyntaxTree>) -> (r: Option<(usize, usize)>)
    ensures
        r matches Some(p) ==> scan_block(cs@, 0, None) == Some((p.0 as int, p.1 as int)),
        r is None ==> scan_block(cs@, 0, None) is None,
{
    let mut call: Option<usize> = None;
    let mut k: usize = 0;
    while k < cs.len()
        invariant
            k <= cs@.len(),
            call matches Some(c) ==> c < k,
            scan_block(cs@, 0, None) == scan_block(
                cs@,
                k as int,
                match call {
                    Some(c) => Some(c as int),
                    None => None,
                },
            ),
        decreases cs.len() - k,
    {
        let c = &cs[k];
        if kind_is(c, "FuncCall") && is_metadata_call_exec(c) {
            call = Some(k);
        } else if kind_is(c, "Label") && call.is_some() {
            if str_eq(c.text.as_str(), "<frontmatter>") {
                return Some((call.unwrap(), k));
            }
            call = None;
        } else if kind_is(c, "Space") || kind_is(c, "Parbreak") {
        } else {
            call = None;
        }
        k = k + 1;
    }
    None
}

/// The first dictionary in `n`'s subtree, in pre-order.
fn find_dict_exec(n: &SyntaxTree) -> (r: Option<&SyntaxTree>)
    ensures
        opt_node(r) == find_dict(*n),
    decreases n,
{
    if kind_is(n, "Dict") {
        return Some(n);
    }
    let mut i: usize = 0;
    while i < n.children.len()
        invariant
            i <= n.children@.len(),
            find_dict(*n) == find_dict_in(n.children@, i as int),
        decreases n.children.len() - i,
    {
        match find_dict_exec(&n.children[i]) {
            Some(d) => {
                return Some(d);
            },
            None => {},
        }
        i = i + 1;
    }
    None
}

/// The name of a named pair.
fn pair_name_exec(named: &SyntaxTree) -> (r: String)
    ensures
        r@ == pair_name(*named),
{
    let cs = &named.children;
    let mut i: usize = 0;
    while i < cs.len()
        invariant
            i <= cs@.len(),
            pair_name(*named) == first_ident_from(cs@, i as int),
            cs == &named.children,
        decreases cs.len() - i,
    {
        if kind_is(&cs[i], "Ident") {
            return cs[i].text.clone();
        }
        i = i + 1;
    }
    String::new()
}

/// The value of a named pair.
fn pair_value_exec(named: &SyntaxTree) -> (r: Option<&SyntaxTree>)
    ensures
        opt_node(r) == pair_value(*named),
{
    let cs = &named.children;
    let mut i: usize = cs.len();
    while i > 0
        invariant
            i <= cs@.len(),
            pair_value(*named) == last_expr_before(cs@, i as int),
            cs == &named.children,
        decreases i,
    {
        if cs[i - 1].is_expr {
            return Some(&cs[i - 1]);
        }
        i = i - 1;
    }
    None
}

/// Whether a node's text is a string literal with its quotes.
fn quoted_exec(t: &str) -> (b: bool)
    ensures
        b == quoted(t@),
{
    let v = chars_of(t);
    v.len() >= 2 && v[0] == '"' && v[v.len() - 1] == '"'
}

/// The value of a string literal.
fn string_value_exec(e: Option<&SyntaxTree>) -> (r: Option<String>)
    ensures
        opt_string_view(r) == string_value(opt_node(e)),
{
    match e {
        Some(x) => if kind_is(x, "Str") && quoted_exec(x.text.as_str()) {
            Some(str_literal_value(x.text.as_str()))
        } else {
            None
        },
        None => None,
    }
}

/// The value of a boolean literal.
fn bool_value_exec(e: Option<&SyntaxTree>) -> (r: Option<bool>)
    ensures
        r == bool_value(opt_node(e)),
{
    match e {
        Some(x) => if kind_is(x, "Bool") {
            Some(str_eq(x.text.as_str(), "true"))
        } else {
            None
        },
        None => None,
    }
}

/// The strings of an array literal: `Err(true)` when `e` is no array,
/// `Err(false)` when an item is no string literal.
fn string_array_value_exec(e: Option<&SyntaxTree>) -> (r: Result<Vec<String>, bool>)
    ensures
        match r {
            Ok(v) => string_array_value(opt_node(e)) == Ok::<Seq<Seq<char>>, bool>(v@.map_values(|s: String| s@)),
            Err(b) => string_array_value(opt_node(e)) == Err::<Seq<Seq<char>>, bool>(b),
        },
{
    let x = match e {
        Some(x) => x,
        None => {
            return Err(true);
        },
    };
    if !kind_is(x, "Array") {
        return Err(true);
    }
    let cs = &x.children;
    let mut out: Vec<String> = Vec::new();
    let mut i: usize = 0;
    let ghost total = array_strings(cs@, 0);
    while i < cs.len()
        invariant
            i <= cs@.len(),
            cs == &x.children,
            opt_node(e) == Some(*x),
            x.kind@ == "Array"@,
            total == array_strings(cs@, 0),
            total == match array_strings(cs@, i as int) {
                Some(rest) => Some(out@.map_values(|s: String| s@) + rest),
                None => None::<Seq<Seq<char>>>,
            },
        decreases cs.len() - i,
    {
        let item = &cs[i];
        if kind_is(item, "Spread") || item.is_expr {
            match string_value_exec(Some(item)) {
                Some(v) => {
                    let ghost before = out@.map_values(|s: String| s@);
                    let ghost vv = v@;
                    out.push(v);
                    assert(out@.map_values(|s: String| s@) =~= before.push(vv));
                    proof {
                        match array_strings(cs@, i + 1) {
                            Some(rest) => {
                                assert(before + (seq![vv] + rest) =~= before.push(vv) + rest);
                            },
                            None => {},
                        }
                    }
                },
                None => {
                    assert(array_strings(cs@, i as int) is None);
                    assert(total is None);
                    return Err(false);
                },
            }
        }
        i = i + 1;
    }
    assert(out@.map_values(|s: String| s@) + Seq::<Seq<char>>::empty() =~= out@.map_values(|s: String| s@));
    Ok(out)
}

/// `key` followed by `rest`.
fn key_message(key: &String, rest: &str) -> (r: String)
    ensures
        r@ == key@ + rest@,
{
    let mut m = key.clone();
    m.append(rest);
    m
}

/// Reads one named pair into `f`; on an error `f` may be left changed.
fn apply_pair_exec(f: &mut Frontmatter, named: &SyntaxTree) -> (r: Result<(), String>)
    ensures
        r is Ok ==> apply_pair(old(f)@, *named) == Ok::<FrontmatterView, Seq<char>>(final(f)@),
        r matches Err(m) ==> apply_pair(old(f)@, *named) == Err::<FrontmatterView, Seq<char>>(m@),
{
    let key = pair_name_exec(named);
    let e = pair_value_exec(named);
    let k = key.as_str();
    if str_eq(k, "title") || str_eq(k, "description") || str_eq(k, "date") || str_eq(k, "chineseSource") {
        match string_value_exec(e) {
            Some(v) => {
                if str_eq(k, "title") {
                    f.title = v;
                } else if str_eq(k, "description") {
                    f.description = Some(v);
                } else if str_eq(k, "date") {
                    f.date = Some(v);
                } else {
                    f.chinese_source = Some(v);
                }
                Ok(())
            },
            None => Err(key_message(&key, " must be a string literal")),
        }
    } else if str_eq(k, "draft") || str_eq(k, "hidden") {
        match bool_value_exec(e) {
            Some(b) => {
                if str_eq(k, "draft") {
                    f.draft = b;
                } else {
                    f.hidden = b;
                }
                Ok(())
            },
            None => Err(key_message(&key, " must be a boolean literal")),
        }
    } else if str_eq(k, "tags") {
        match string_array_value_exec(e) {
            Ok(v) => {
                f.tags = v;
                Ok(())
            },
            Err(true) => Err(key_message(&key, " must be an array of strings")),
            Err(false) => Err(key_message(&key, " must contain only string literals")),
        }
    } else {
        Ok(())
    }
}

/// The frontmatter that a dictionary's named pairs set.
fn read_dict(dict: &SyntaxTree) -> (r: Result<Frontmatter, String>)
    ensures
        r matches Ok(f) ==> read_items(dict.children@, 0, empty_frontmatter()) == Ok::<
            FrontmatterView,
            Seq<char>,
        >(f@),
        r matches Err(m) ==> read_items(dict.children@, 0, empty_frontmatter()) == Err::<
            FrontmatterView,
            Seq<char>,
        >(m@),
{
    let mut f = Frontmatter::default();
    let cs = &dict.children;
    let mut k: usize = 0;
    while k < cs.len()
        invariant
            k <= cs@.len(),
            cs == &dict.children,
            read_items(cs@, 0, empty_frontmatter()) == read_items(cs@, k as int, f@),
        decreases cs.len() - k,
    {
        if kind_is(&cs[k], "Named") {
            match apply_pair_exec(&mut f, &cs[k]) {
                Ok(()) => {},
                Err(m) => {
                    return Err(m);
                },
            }
        }
        k = k + 1;
    }
    Ok(f)
}

proof fn lemma_scan_block_bounds(cs: Seq<SyntaxTree>, k: int, call: Option<int>)
    requires
        call matches Some(c) ==> 0 <= c < k,
    ensures
        scan_block(cs, k, call) matches Some(p) ==> 0 <= p.0 < p.1 < cs.len(),
    decreases cs.len() - k,
{
    if 0 <= k < cs.len() {
        let c = cs[k];
        if c.kind@ == "FuncCall"@ && is_metadata_call(c) {
            lemma_scan_block_bounds(cs, k + 1, Some(k));
        } else if c.kind@ == "Label"@ && call is Some {
            if c.text@ != "<frontmatter>"@ {
                lemma_scan_block_bounds(cs, k + 1, None);
            }
        } else if c.kind@ == "Space"@ || c.kind@ == "Parbreak"@ {
            lemma_scan_block_bounds(cs, k + 1, call);
        } else {
            lemma_scan_block_bounds(cs, k + 1, None);
        }
    }
}

/// The texts of `cs[from..to]`, one after the other.
fn texts_between(cs: &Vec<SyntaxTree>, from: usize, to: usize) -> (r: String)
    requires
        from <= to <= cs@.len(),
    ensures
        r@ == concat_texts(cs@.subrange(from as int, to as int)),
{
    let mut r = String::new();
    let mut j = from;
    assert(cs@.subrange(from as int, from as int) =~= Seq::<SyntaxTree>::empty());
    while j < to
        invariant
            from <= j <= to <= cs@.len(),
            r@ == concat_texts(cs@.subrange(from as int, j as int)),
        decreases to - j,
    {
        r.append(cs[j].text.as_str());
        assert(cs@.subrange(from as int, j + 1).drop_last() =~= cs@.subrange(from as int, j as int));
        j = j + 1;
    }
    r
}

/// Reads the frontmatter block out of a Typst syntax tree: the frontmatter,
/// and the body that is left once the block is cut out.
pub fn frontmatter_from_tree(root: &SyntaxTree) -> (r: Result<(Frontmatter, String), ImportError>)
    ensures
        match r {
            Ok((f, body)) => frontmatter_of(*root) == Ok::<(FrontmatterView, Seq<char>), Option<Seq<char>>>(
                (f@, body@),
            ),
            Err(ImportError::MissingFrontmatter) => frontmatter_of(*root) == Err::<
                (FrontmatterView, Seq<char>),
                Option<Seq<char>>,
            >(None),
            Err(ImportError::InvalidFrontmatter(m)) => frontmatter_of(*root) == Err::<
                (FrontmatterView, Seq<char>),
                Option<Seq<char>>,
            >(Some(m@)),
            Err(_) => false,
        },
{
    let cs = &root.children;
    let (ci, li) = match scan_block_exec(cs) {
        None => {
            return Err(ImportError::MissingFrontmatter);
        },
        Some(p) => p,
    };
    proof {
        lemma_scan_block_bounds(cs@, 0, None);
        assert(scan_block(cs@, 0, None) == Some((ci as int, li as int)));
    }
    assert(ci < li && li < cs@.len());
    let dict = match find_dict_exec(&cs[ci]) {
        None => {
            return Err(ImportError::MissingFrontmatter);
        },
        Some(d) => d,
    };
    let front = match read_dict(dict) {
        Err(m) => {
            return Err(ImportError::InvalidFrontmatter(m));
        },
        Ok(f) => f,
    };
    if chars_of(front.title.as_str()).len() == 0 {
        return Err(ImportError::InvalidFrontmatter("missing title".to_string()));
    }
    let before = texts_between(cs, 0, ci);
    let n = cs.len();
    let after = texts_between(cs, li + 1, n);
    assert(cs@.subrange(0, ci as int) =~= cs@.take(ci as int));
    assert(cs@.subrange(li + 1, cs@.len() as int) =~= cs@.skip(li + 1));
    let mut chars = chars_of(before.as_str());
    if chars.len() > 0 {
        chars.pop();
    }
    assert(chars@ == drop_last_char(before@));
    let tail = chars_of(after.as_str());
    let mut k: usize = 0;
    let ghost head = chars@;
    while k < tail.len()
        invariant
            k <= tail@.len(),
            chars@ == head + tail@.take(k as int),
        decreases tail.len() - k,
    {
        chars.push(tail[k]);
        assert(tail@.take(k + 1) =~= tail@.take(k as int).push(tail@[k as int]));
        k = k + 1;
    }
    assert(tail@.take(k as int) =~= tail@);
    let body = string_from_chars(trim_start_chars(chars.as_slice()).as_slice());
    Ok((front, body))
}

/// The texts of a sequence of nodes split anywhere into the texts before
/// and after.
proof fn lemma_concat_texts_split(cs: Seq<SyntaxTree>, k: int)
    requires
        0 <= k <= cs.len(),
    ensures
        concat_texts(cs) == concat_texts(cs.take(k)) + concat_texts(cs.skip(k)),
    decreases cs.len(),
{
    if k == cs.len() {
        assert(cs.take(k) =~= cs);
        assert(cs.skip(k) =~= Seq::<SyntaxTree>::empty());
        assert(concat_texts(cs) + Seq::<char>::empty() =~= concat_texts(cs));
    } else {
        let d = cs.drop_last();
        lemma_concat_texts_split(d, k);
        assert(d.take(k) =~= cs.take(k));
        assert(cs.skip(k).drop_last() =~= d.skip(k));
        assert(cs.skip(k).last() == cs.last());
        assert(concat_texts(cs.take(k)) + concat_texts(d.skip(k)) + cs.last().text@ =~= concat_texts(cs.take(k))
            + (concat_texts(d.skip(k)) + cs.last().text@));
    }
}

/// The character positions in the source where the frontmatter block
/// starts (at its call) and ends (after its label).
pub open spec fn block_span(root: SyntaxTree) -> (int, int) {
    let cs = root.children@;
    let p = scan_block(cs, 0, None)->0;
    (concat_texts(cs.take(p.0)).len() as int, concat_texts(cs.take(p.1 + 1)).len() as int)
}

/// A source with the text from `start` to `end` cut out, and the character
/// before `start` (the `#` that opens the block) too, with leading
/// whitespace removed.
pub open spec fn source_without_block(source: Seq<char>, start: int, end: int) -> Seq<char> {
    trimmed_start(drop_last_char(source.take(start)) + source.skip(end))
}

/// Reads the `#metadata((...))<frontmatter>` block of a Typst source: the
/// frontmatter and the body, which is the source with the block cut out. A
/// source without the block gives `MissingFrontmatter`; a block with a field
/// of the wrong kind, or without a title, gives `InvalidFrontmatter`.
pub fn parse_frontmatter(source: &str) -> (r: Result<(Frontmatter, String), ImportError>)
    ensures
        match r {
            Ok((f, body)) => frontmatter_of(typst_markup_tree(source@)) == Ok::<
                (FrontmatterView, Seq<char>),
                Option<Seq<char>>,
            >((f@, body@)),
            Err(ImportError::MissingFrontmatter) => frontmatter_of(typst_markup_tree(source@)) == Err::<
                (FrontmatterView, Seq<char>),
                Option<Seq<char>>,
            >(None),
            Err(ImportError::InvalidFrontmatter(m)) => frontmatter_of(typst_markup_tree(source@)) == Err::<
                (FrontmatterView, Seq<char>),
                Option<Seq<char>>,
            >(Some(m@)),
            Err(_) => false,
        },
        r matches Ok((f, body)) ==> body@ == source_without_block(
            source@,
            block_span(typst_markup_tree(source@)).0,
            block_span(typst_markup_tree(source@)).1,
        ),
{
    let root = parse_markup(source);
    let r = frontmatter_from_tree(&root);
    proof {
        if r is Ok {
            let cs = root.children@;
            let p = scan_block(cs, 0, None)->0;
            lemma_scan_block_bounds(cs, 0, None);
            lemma_concat_texts_split(cs, p.0);
            lemma_concat_texts_split(cs, p.1 + 1);
            assert(source@.take(concat_texts(cs.take(p.0)).len() as int) =~= concat_texts(cs.take(p.0)));
            assert(source@.skip(concat_texts(cs.take(p.1 + 1)).len() as int) =~= concat_texts(cs.skip(p.1 + 1)));
        }
    }
    r
}

} // verus!
