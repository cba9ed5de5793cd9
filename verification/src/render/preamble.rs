//! The Typst preamble that every post is compiled with: an image rule that
//! points at served assets when a URL prefix is configured, and HTML
//! replacements for the paged-only `align` and `pad` elements.
use vstd::prelude::*;

use crate::text::{chars_of, occurs_at, push_char};

verus! {

/// The image rule up to the point where the escaped URL prefix goes.
pub const IMAGE_RULE_HEAD: &'static str = "#show image: it => context {\n  if target() == \"html\" and type(it.source) == str {\n    let path = it.source.trim(\"./\", at: start, repeat: false)\n    let attrs = (src: \"";

/// The image rule after the escaped URL prefix.
pub const IMAGE_RULE_TAIL: &'static str = "\" + path)\n    if it.alt != none and type(it.alt) == str { attrs.insert(\"alt\", it.alt) }\n    if type(it.width) == ratio {\n      attrs.insert(\"style\", \"width: \" + str(float(it.width) * 100) + \"%\")\n    }\n    html.elem(\"img\", attrs: attrs)\n  } else { it }\n}\n";

/// The `align` and `pad` rules, always present.
pub const LAYOUT_RULES: &'static str = "#show align: it => context {\n  if target() == \"html\" {\n    let side = if it.alignment == center { \"center\" } else if it.alignment == right { \"right\" } else if it.alignment == left { \"left\" } else { none }\n    if side != none { html.elem(\"div\", attrs: (style: \"text-align: \" + side), it.body) } else { it.body }\n  } else { it }\n}\n#show pad: it => context { if target() == \"html\" { it.body } else { it } }\n";

/// `s` as the body of a Typst string literal: backslashes and double quotes
/// are escaped with a backslash.
pub open spec fn typst_string_escaped(s: Seq<char>) -> Seq<char>
    decreases s.len(),
{
    if s.len() == 0 {
        Seq::empty()
    } else {
        let c = s[0];
        let head = if c == '\\' || c == '"' {
            seq!['\\', c]
        } else {
            seq![c]
        };
        head + typst_string_escaped(s.drop_first())
    }
}

/// The preamble for the given asset URL prefix.
pub open spec fn preamble_text(asset_url_prefix: Option<Seq<char>>) -> Seq<char> {
    match asset_url_prefix {
        Some(prefix) => IMAGE_RULE_HEAD@ + typst_string_escaped(prefix) + IMAGE_RULE_TAIL@ + LAYOUT_RULES@,
        None => LAYOUT_RULES@,
    }
}

proof fn lemma_escaped_step(s: Seq<char>, i: int)
    requires
        0 <= i < s.len(),
    ensures
        typst_string_escaped(s.take(i + 1)) == typst_string_escaped(s.take(i)) + (if s[i] == '\\' || s[i] == '"' {
            seq!['\\', s[i]]
        } else {
            seq![s[i]]
        }),
    decreases i,
{
    let t = s.take(i + 1);
    if i == 0 {
        assert(t.drop_first() =~= Seq::<char>::empty());
        assert(s.take(0) =~= Seq::<char>::empty());
    } else {
        lemma_escaped_step(s.drop_first(), i - 1);
        assert(t.drop_first() =~= s.drop_first().take(i));
        assert(s.take(i).drop_first() =~= s.drop_first().take(i - 1));
        assert(s.drop_first()[i - 1] == s[i]);
    }
}

/// Escaping loses nothing: different texts escape differently.
pub proof fn lemma_escaped_injective(a: Seq<char>, b: Seq<char>)
    requires
        typst_string_escaped(a) == typst_string_escaped(b),
    ensures
        a == b,
    decreases a.len(),
{
    let ea = typst_string_escaped(a);
    let eb = typst_string_escaped(b);
    if a.len() == 0 {
        if b.len() > 0 {
            assert(eb.len() > 0);
        }
        assert(a =~= b);
    } else {
        if b.len() == 0 {
            assert(ea.len() > 0);
        }
        let ca = a[0];
        let cb = b[0];
        let sa = ca == '\\' || ca == '"';
        let sb = cb == '\\' || cb == '"';
        let ha = if sa { seq!['\\', ca] } else { seq![ca] };
        let hb = if sb { seq!['\\', cb] } else { seq![cb] };
        let ta = typst_string_escaped(a.drop_first());
        let tb = typst_string_escaped(b.drop_first());
        assert(ea == ha + ta);
        assert(eb == hb + tb);
        assert(ea[0] == ha[0]);
        assert(eb[0] == hb[0]);
        if sa && sb {
            assert(ea[1] == ca);
            assert(eb[1] == cb);
        }
        assert(ca == cb);
        assert(ha == hb);
        assert(ta =~= ea.skip(ha.len() as int));
        assert(tb =~= eb.skip(hb.len() as int));
        lemma_escaped_injective(a.drop_first(), b.drop_first());
        assert(a =~= seq![ca] + a.drop_first());
        assert(b =~= seq![cb] + b.drop_first());
    }
}

/// Different asset URL prefixes give different preambles.
pub proof fn lemma_preamble_determines_prefix(p1: Seq<char>, p2: Seq<char>)
    requires
        preamble_text(Some(p1)) == preamble_text(Some(p2)),
    ensures
        p1 == p2,
{
    let head = IMAGE_RULE_HEAD@;
    let tail = IMAGE_RULE_TAIL@ + LAYOUT_RULES@;
    let e1 = typst_string_escaped(p1);
    let e2 = typst_string_escaped(p2);
    assert(preamble_text(Some(p1)) =~= head + (e1 + tail));
    assert(preamble_text(Some(p2)) =~= head + (e2 + tail));
    assert(e1 + tail =~= preamble_text(Some(p1)).skip(head.len() as int));
    assert(e2 + tail =~= preamble_text(Some(p2)).skip(head.len() as int));
    assert(e1 =~= (e1 + tail).take(e1.len() as int));
    assert(e2 =~= (e2 + tail).take(e2.len() as int));
    lemma_escaped_injective(p1, p2);
}

/// The shape of the preamble. Without a prefix it is the layout rules
/// alone: the `align` and `pad` rules, and no image rule, so images keep
/// their data URIs. With a prefix it starts with the image rule and ends with
/// the preamble that no prefix gives.
pub proof fn lemma_preamble_shape(prefix: Seq<char>)
    ensures
        occurs_at(preamble_text(None), "#show align"@, 0),
        occurs_at(preamble_text(None), "#show pad"@, 329),
        forall|k: int| !occurs_at(preamble_text(None), "#show image"@, k),
        "#show image"@.is_prefix_of(IMAGE_RULE_HEAD@),
        IMAGE_RULE_HEAD@.is_prefix_of(preamble_text(Some(prefix))),
        preamble_text(None).is_suffix_of(preamble_text(Some(prefix))),
{
    reveal_strlit("#show align: it => context {\n  if target() == \"html\" {\n    let side = if it.alignment == center { \"center\" } else if it.alignment == right { \"right\" } else if it.alignment == left { \"left\" } else { none }\n    if side != none { html.elem(\"div\", attrs: (style: \"text-align: \" + side), it.body) } else { it.body }\n  } else { it }\n}\n#show pad: it => context { if target() == \"html\" { it.body } else { it } }\n");
    reveal_strlit("#show image: it => context {\n  if target() == \"html\" and type(it.source) == str {\n    let path = it.source.trim(\"./\", at: start, repeat: false)\n    let attrs = (src: \"");
    reveal_strlit("#show align");
    reveal_strlit("#show pad");
    reveal_strlit("#show image");
    let s = LAYOUT_RULES@;
    let img = "#show image"@;
    assert(s.len() == 404);
    assert(img.len() == 11);
    assert(s.subrange(0, 11) =~= "#show align"@);
    assert(s.subrange(329, 338) =~= "#show pad"@);
    assert forall|k: int| 0 <= k < 404 && s[k] == '#' implies k == 0 || k == 329 by {}
    assert forall|k: int| !occurs_at(s, img, k) by {
        if occurs_at(s, img, k) {
            assert(s[k] == s.subrange(k, k + 11)[0]);
            assert(s[k + 6] == s.subrange(k, k + 11)[6]);
        }
    }
    assert(IMAGE_RULE_HEAD@.subrange(0, 11) =~= img);
    let whole = preamble_text(Some(prefix));
    let rest = typst_string_escaped(prefix) + IMAGE_RULE_TAIL@ + LAYOUT_RULES@;
    assert(whole =~= IMAGE_RULE_HEAD@ + rest);
    assert(whole.subrange(0, IMAGE_RULE_HEAD@.len() as int) =~= IMAGE_RULE_HEAD@);
    assert(whole.subrange(whole.len() - s.len(), whole.len() as int) =~= s);
}

/// Appends `typst_string_escaped(s)` to `out`.
fn push_escaped(out: &mut String, s: &str)
    ensures
        final(out)@ == old(out)@ + typst_string_escaped(s@),
{
    let chars = chars_of(s);
    let ghost start = out@;
    let mut i: usize = 0;
    while i < chars.len()
        invariant
            chars@ == s@,
            i <= chars@.len(),
            out@ == start + typst_string_escaped(chars@.take(i as int)),
        decreases chars.len() - i,
    {
        let c = chars[i];
        proof {
            lemma_escaped_step(chars@, i as int);
        }
        if c == '\\' || c == '"' {
            push_char(out, '\\');
        }
        push_char(out, c);
        i = i + 1;
    }
    assert(chars@.take(i as int) =~= chars@);
}

/// The Typst preamble compiled in front of every post.
pub fn html_preamble(asset_url_prefix: Option<&str>) -> (r: String)
    ensures
        r@ == preamble_text(
            match asset_url_prefix {
                Some(p) => Some(p@),
                None => None,
            },
        ),
{
    let mut preamble = String::new();
    if let Some(prefix) = asset_url_prefix {
        preamble.append(IMAGE_RULE_HEAD);
        push_escaped(&mut preamble, prefix);
        preamble.append(IMAGE_RULE_TAIL);
    }
    preamble.append(LAYOUT_RULES);
    preamble
}

} // verus!
