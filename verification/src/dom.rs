//! Access to parsed pages. Two trusted items parse a page and hand the
//! matches of a CSS selector over to verified code as plain nodes, under
//! names that make the matches a function of the page and selector texts;
//! the selection itself — including the choice of the first matching inner
//! descendant — is scraper's. What is decided about the nodes afterwards —
//! first match, required fields, trimming, first-seen de-duplication — is
//! verified here.

use vstd::prelude::*;
use crate::error::BuildError;
use crate::text;

verus! {

/// One matched element, flattened to the fields extraction reads.
pub struct RawNode {
    /// The element's tag name.
    pub tag: String,
    /// The concatenated text of the element, untrimmed.
    pub text: String,
    /// The element's `href` attribute, when present.
    pub href: Option<String>,
    /// The element's `src` attribute, when present.
    pub src: Option<String>,
    /// The text of the first descendant matching the inner selector handed
    /// to the query, when one matched.
    pub inner: Option<String>,
}

/// The plain view of one matched element: tag, text, link target, image
/// source, and the text of its first inner match.
pub type NodeView = (Seq<char>, Seq<char>, Option<Seq<char>>, Option<Seq<char>>, Option<
    Seq<char>,
>);

/// The plain view of one matched element.
pub open spec fn node_view(n: RawNode) -> NodeView {
    (n.tag@, n.text@, option_view(n.href), option_view(n.src), option_view(n.inner))
}

/// The view of an optional string.
pub open spec fn option_view(o: Option<String>) -> Option<Seq<char>> {
    match o {
        Some(s) => Some(s@),
        None => None,
    }
}

/// The plain views of a node list, in order.
pub open spec fn node_views(nodes: Seq<RawNode>) -> Seq<NodeView> {
    nodes.map_values(|n: RawNode| node_view(n))
}

/// What selecting over a parsed page yields: for each element matching
/// `css`, in document order, its tag, text, link target, image source, and
/// the text of its first descendant matching `inner_css`; nothing exactly
/// when a selector text is invalid. Parsing and selection are deterministic
/// in these three texts, so the result is a function of them alone.
pub uninterp spec fn nodes_of(html: Seq<char>, css: Seq<char>, inner_css: Seq<char>) -> Option<
    Seq<NodeView>,
>;

/// What the element children of the first match of `css` are, in order,
/// flattened to tag and text (the other fields empty); nothing exactly when
/// the selector text is invalid. A function of the two texts alone.
pub uninterp spec fn children_of(html: Seq<char>, css: Seq<char>) -> Option<Seq<NodeView>>;

/// Relies on scraper's `Html::parse_document`, `Selector::parse` and
/// `Html::select`: parses the page and yields every element matching `css`
/// in document order, flattened to plain fields, with `inner` taken from
/// the element's first descendant matching `inner_css`. Parsing and
/// matching are deterministic in the given texts; an invalid selector text
/// yields nothing.
#[verifier::external_body]
pub(crate) fn select_in(html: &str, css: &str, inner_css: &str) -> (r: Option<Vec<RawNode>>)
    ensures
        r is Some <==> nodes_of(html@, css@, inner_css@) is Some,
        r is Some ==> node_views(r->0@) == nodes_of(html@, css@, inner_css@)->0,
{
    let doc = scraper::Html::parse_document(html);
    let sel = scraper::Selector::parse(css).ok()?;
    let inner_sel = scraper::Selector::parse(inner_css).ok()?;
    let mut out = Vec::new();
    for el in doc.select(&sel) {
        let inner = el.select(&inner_sel).next().map(|t| t.text().collect::<String>());
        let (href, src) = (el.attr("href").map(str::to_string), el.attr("src").map(str::to_string));
        let (tag, text) = (el.value().name().to_string(), el.text().collect::<String>());
        out.push(RawNode { tag, text, href, src, inner });
    }
    Some(out)
}

/// Relies on scraper's `Html::parse_document`, `Selector::parse`,
/// `Html::select`, `ElementRef::children` and `ElementRef::wrap`: the
/// element children of the first match of `css`, in order, flattened to tag
/// and text. Deterministic in the given texts; an invalid selector text
/// yields nothing.
#[verifier::external_body]
pub(crate) fn select_children_in(html: &str, css: &str) -> (r: Option<Vec<RawNode>>)
    ensures
        r is Some <==> children_of(html@, css@) is Some,
        r is Some ==> node_views(r->0@) == children_of(html@, css@)->0,
{
    let doc = scraper::Html::parse_document(html);
    let sel = scraper::Selector::parse(css).ok()?;
    let mut out = Vec::new();
    for child in doc.select(&sel).next().map(|el| el.children()).into_iter().flatten() {
        if let Some(ce) = scraper::ElementRef::wrap(child) {
            let (tag, text) = (ce.value().name().to_string(), ce.text().collect::<String>());
            out.push(RawNode { tag, text, href: None, src: None, inner: None });
        }
    }
    Some(out)
}

/// The text of the first matched node, trimmed; an error naming `context`
/// when nothing matched.
pub fn required_text(nodes: &Vec<RawNode>, context: &str) -> (r: Result<String, BuildError>)
    ensures
        match r {
            Ok(t) => nodes@.len() > 0 && t@ == text::trim_spec(nodes@[0].text@),
            Err(e) => nodes@.len() == 0 && e is Parse && e.message_spec() == context@ + " not found"@,
        },
{
    if nodes.len() == 0 {
        let mut m = String::new();
        m.append(context);
        m.append(" not found");
        return Err(BuildError::Parse(m));
    }
    let chars = text::chars_of(nodes[0].text.as_str());
    let trimmed = text::trim_chars(&chars);
    Ok(text::string_from_chars(&trimmed))
}

/// The `src` attribute of the first matched node; an error naming `context`
/// when nothing matched or the attribute is missing.
pub fn required_src(nodes: &Vec<RawNode>, context: &str) -> (r: Result<String, BuildError>)
    ensures
        match r {
            Ok(s) => nodes@.len() > 0 && nodes@[0].src is Some && s@ == nodes@[0].src->0@,
            Err(e) => (nodes@.len() == 0 || nodes@[0].src is None) && e is Parse
                && e.message_spec() == context@ + " not found"@,
        },
{
    if nodes.len() > 0 {
        if let Some(s) = &nodes[0].src {
            return Ok(s.clone());
        }
    }
    let mut m = String::new();
    m.append(context);
    m.append(" not found");
    Err(BuildError::Parse(m))
}

/// The `href` values of `nodes`, in order, each kept the first time it is
/// seen.
pub open spec fn unique_hrefs_spec(nodes: Seq<RawNode>) -> Seq<Seq<char>>
    decreases nodes.len(),
{
    if nodes.len() == 0 {
        seq![]
    } else {
        let pre = unique_hrefs_spec(nodes.drop_last());
        match nodes.last().href {
            Some(h) => if pre.contains(h@) {
                pre
            } else {
                pre.push(h@)
            },
            None => pre,
        }
    }
}

/// Whether `items` holds a string whose characters are `key`.
pub fn contains_string(items: &Vec<String>, key: &str) -> (r: bool)
    ensures
        r == items@.map_values(|s: String| s@).contains(key@),
{
    let ghost views = items@.map_values(|s: String| s@);
    let mut i: usize = 0;
    while i < items.len()
        invariant
            views == items@.map_values(|s: String| s@),
            i <= items@.len(),
            forall|t: int| 0 <= t < i ==> views[t] != key@,
        decreases items@.len() - i,
    {
        if text::str_eq(items[i].as_str(), key) {
            proof {
                assert(views[i as int] == key@);
            }
            return true;
        }
        i += 1;
    }
    false
}

/// Collects the `href` values of the matched nodes, de-duplicated in
/// first-seen order.
pub fn unique_hrefs(nodes: &Vec<RawNode>) -> (r: Vec<String>)
    ensures
        r@.map_values(|s: String| s@) == unique_hrefs_spec(nodes@),
{
    let mut out: Vec<String> = Vec::new();
    let mut i: usize = 0;
    proof {
        assert(nodes@.subrange(0, 0) =~= Seq::<RawNode>::empty());
    }
    while i < nodes.len()
        invariant
            i <= nodes@.len(),
            out@.map_values(|s: String| s@) == unique_hrefs_spec(nodes@.subrange(0, i as int)),
        decreases nodes@.len() - i,
    {
        let ghost pre = nodes@.subrange(0, i as int);
        let ghost cur = nodes@.subrange(0, i as int + 1);
        proof {
            assert(cur.drop_last() =~= pre);
            assert(cur.last() == nodes@[i as int]);
        }
        if let Some(h) = &nodes[i].href {
            let ghost pre_out = out@.map_values(|s: String| s@);
            if !contains_string(&out, h.as_str()) {
                out.push(h.clone());
                proof {
                    assert(out@.map_values(|s: String| s@) =~= pre_out.push(h@));
                }
            }
        }
        i += 1;
    }
    proof {
        assert(nodes@.subrange(0, nodes@.len() as int) =~= nodes@);
    }
    out
}

} // verus!
