//! Category and product extraction: what each page yields, stated exactly
//! over the matched nodes. The composing functions at the bottom parse a
//! fetched page and run the verified extraction over its matches.

use vstd::prelude::*;
use crate::country::Country;
use crate::dom;
use crate::dom::{NodeView, RawNode};
use crate::error::BuildError;
use crate::model::{Category, Icon, Product};
use crate::text;
use crate::urls;

verus! {

/// The heading with the site's brand prefix removed and the remainder
/// re-capitalized, when the heading starts with that prefix word.
pub open spec fn stripped_prefix_spec(name: Seq<char>) -> Option<Seq<char>> {
    if name.len() >= 10 && text::lower_of(name.take(8)) == "european"@ && name[8] == ' ' {
        Some(text::upper_char_of(name[9]) + name.skip(10))
    } else {
        None
    }
}

/// The category or product name derived from a heading: trimmed, and with
/// the brand prefix stripped when present.
pub open spec fn category_name_spec(heading: Seq<char>) -> Seq<char> {
    let t = text::trim_spec(heading);
    match stripped_prefix_spec(t) {
        Some(n) => n,
        None => t,
    }
}

/// The description truncated to its first sentence: up to and including the
/// first period, or the whole description when it has none.
pub open spec fn first_sentence_spec(d: Seq<char>) -> Seq<char> {
    let parts = text::split_char_spec(d, '.');
    if parts.len() >= 2 {
        parts[0].push('.')
    } else {
        d
    }
}

/// Up to `k` leading sentences of `parts`, each trimmed, skipping empty
/// ones, each closed by a period.
pub open spec fn take_sentences(parts: Seq<Seq<char>>, k: int) -> Seq<char>
    decreases parts.len(),
{
    if parts.len() == 0 || k <= 0 {
        seq![]
    } else {
        let t = text::trim_spec(parts[0]);
        if t.len() > 0 {
            t + "."@ + take_sentences(parts.drop_first(), k - 1)
        } else {
            take_sentences(parts.drop_first(), k)
        }
    }
}

/// The product summary: the first two non-empty sentences of the
/// description, with paragraph breaks flattened first.
pub open spec fn summary_spec(d: Seq<char>) -> Seq<char> {
    take_sentences(text::split_char_spec(text::replace_all(d, "\n\n"@, "\n"@), '.'), 2)
}

/// The description assembled from the element children of the prose
/// container: consecutive leading paragraphs, trimmed and joined by blank
/// lines, stopping at the first non-paragraph element.
pub open spec fn assemble_go(children: Seq<RawNode>, acc: Seq<char>) -> Seq<char>
    decreases children.len(),
{
    if children.len() == 0 {
        acc
    } else if children[0].tag@ == "p"@ {
        let t = text::trim_spec(children[0].text@);
        let acc2 = if acc.len() == 0 {
            t
        } else {
            acc + "\n\n"@ + t
        };
        assemble_go(children.drop_first(), acc2)
    } else {
        acc
    }
}

/// The first matched anchor that carries a link target and holds a span,
/// read as the company website.
pub open spec fn company_site_spec(nodes: Seq<RawNode>) -> Option<Seq<char>>
    decreases nodes.len(),
{
    if nodes.len() == 0 {
        None
    } else if nodes[0].href is Some && nodes[0].inner is Some {
        Some(nodes[0].href->0@)
    } else {
        company_site_spec(nodes.drop_first())
    }
}

/// The additional titled links: every anchor with both a link target and a
/// title, as (trimmed title, trimmed target), in page order.
pub open spec fn other_sites_spec(nodes: Seq<RawNode>) -> Seq<(Seq<char>, Seq<char>)>
    decreases nodes.len(),
{
    if nodes.len() == 0 {
        seq![]
    } else {
        let pre = other_sites_spec(nodes.drop_last());
        let n = nodes.last();
        if n.href is Some && n.inner is Some {
            pre.push((text::trim_spec(n.inner->0@), text::trim_spec(n.href->0@)))
        } else {
            pre
        }
    }
}

/// The website list of a product: the company site first when one
/// qualifies, then the product's own detail page, then the titled links.
pub open spec fn websites_spec(
    company: Option<Seq<char>>,
    source: Seq<char>,
    others: Seq<(Seq<char>, Seq<char>)>,
) -> Seq<(Seq<char>, Seq<char>)> {
    let base = match company {
        Some(u) => seq![("Company"@, u), ("European Alternatives"@, source)],
        None => seq![("European Alternatives"@, source)],
    };
    base + others
}

/// The views of a website list.
pub open spec fn pair_views(ws: Seq<(String, String)>) -> Seq<(Seq<char>, Seq<char>)> {
    ws.map_values(|p: (String, String)| (p.0@, p.1@))
}

/// Strips the brand prefix from a name: a case-insensitive match on the
/// first word, with the remainder re-capitalized; nothing when the name
/// does not start with the prefix.
pub fn remove_european_prefix(name: &str) -> (r: Option<String>)
    ensures
        match r {
            Some(s) => stripped_prefix_spec(name@) == Some(s@),
            None => stripped_prefix_spec(name@) is None,
        },
{
    let chars = text::chars_of(name);
    if chars.len() < 10 {
        return None;
    }
    let head = text::subrange_chars(&chars, 0, 8);
    let head_string = text::string_from_chars(&head);
    let lowered = text::lowercase(head_string.as_str());
    proof {
        assert(head@ =~= name@.take(8));
    }
    if !text::str_eq(lowered.as_str(), "european") {
        return None;
    }
    if chars[8] != ' ' {
        return None;
    }
    let upper = text::uppercase_char(chars[9]);
    let rest = text::subrange_chars(&chars, 10, chars.len());
    let mut out = upper;
    let rest_string = text::string_from_chars(&rest);
    out.append(rest_string.as_str());
    proof {
        assert(rest@ =~= name@.skip(10));
    }
    Some(out)
}

/// The name taken from a heading: trimmed, with the brand prefix stripped
/// when present.
pub fn name_from_heading(heading: &str) -> (r: String)
    ensures
        r@ == category_name_spec(heading@),
{
    let chars = text::chars_of(heading);
    let trimmed = text::trim_chars(&chars);
    let t = text::string_from_chars(&trimmed);
    match remove_european_prefix(t.as_str()) {
        Some(n) => n,
        None => t,
    }
}

/// Truncates a description to its first sentence.
pub fn first_sentence(d: &str) -> (r: String)
    ensures
        r@ == first_sentence_spec(d@),
{
    let chars = text::chars_of(d);
    let parts = text::split_char(&chars, '.');
    proof {
        assert(parts@.map_values(|p: Vec<char>| p@).len() == parts@.len());
    }
    if parts.len() >= 2 {
        let ghost views = parts@.map_values(|p: Vec<char>| p@);
        let mut first = text::subrange_chars(&parts[0], 0, parts[0].len());
        proof {
            assert(first@ =~= views[0]);
        }
        first.push('.');
        owned_string(first)
    } else {
        let mut out = String::new();
        out.append(d);
        out
    }
}

/// The first two non-empty sentences of a description, paragraph breaks
/// flattened.
pub fn summarize(d: &str) -> (r: String)
    ensures
        r@ == summary_spec(d@),
{
    let chars = text::chars_of(d);
    let mut pat: Vec<char> = Vec::new();
    pat.push('\n');
    pat.push('\n');
    let mut rep: Vec<char> = Vec::new();
    rep.push('\n');
    proof {
        assert(pat@ =~= "\n\n"@) by {
            reveal_strlit("\n\n");
        }
        assert(rep@ =~= "\n"@) by {
            reveal_strlit("\n");
        }
    }
    let flat = text::replace_all_chars(&chars, &pat, &rep);
    let parts = text::split_char(&flat, '.');
    let ghost part_views = parts@.map_values(|p: Vec<char>| p@);
    let mut out: Vec<char> = Vec::new();
    let mut taken: usize = 0;
    let mut i: usize = 0;
    proof {
        assert(part_views.skip(0) =~= part_views);
        assert(out@ + take_sentences(part_views, 2) =~= take_sentences(part_views, 2));
    }
    while i < parts.len() && taken < 2
        invariant
            part_views == parts@.map_values(|p: Vec<char>| p@),
            i <= parts@.len(),
            taken <= 2,
            taken < 2 ==> summary_spec(d@) == out@ + take_sentences(
                part_views.skip(i as int),
                2 - taken,
            ),
            taken == 2 ==> summary_spec(d@) == out@,
        decreases parts@.len() - i,
    {
        let ghost tail = part_views.skip(i as int);
        proof {
            assert(tail.drop_first() =~= part_views.skip(i as int + 1));
            assert(tail[0] == part_views[i as int]);
        }
        let trimmed = text::trim_chars(&parts[i]);
        if trimmed.len() > 0 {
            let mut k: usize = 0;
            let ghost pre_out = out@;
            while k < trimmed.len()
                invariant
                    k <= trimmed@.len(),
                    out@ == pre_out + trimmed@.subrange(0, k as int),
                decreases trimmed@.len() - k,
            {
                out.push(trimmed[k]);
                k += 1;
                proof {
                    assert(out@ =~= pre_out + trimmed@.subrange(0, k as int));
                }
            }
            proof {
                assert(out@ =~= pre_out + trimmed@);
            }
            out.push('.');
            taken += 1;
            proof {
                reveal_strlit(".");
                assert(out@ =~= pre_out + trimmed@ + "."@);
            }
        }
        i += 1;
    }
    proof {
        if taken < 2 {
            assert(part_views.skip(parts@.len() as int) =~= Seq::<Seq<char>>::empty());
            assert(take_sentences(part_views.skip(i as int), 2 - taken) =~= Seq::<char>::empty());
            assert(out@ + Seq::<char>::empty() =~= out@);
        }
    }
    text::string_from_chars(&out)
}

/// Wraps an owned character vector back into a string.
fn owned_string(v: Vec<char>) -> (r: String)
    ensures
        r@ == v@,
{
    text::string_from_chars(&v)
}

/// Assembles a product description from the prose container's children.
pub fn assemble_description(children: &Vec<RawNode>) -> (r: String)
    ensures
        r@ == assemble_go(children@, Seq::<char>::empty()),
{
    let mut acc: Vec<char> = Vec::new();
    let mut i: usize = 0;
    proof {
        assert(children@.skip(0) =~= children@);
    }
    let mut stopped = false;
    while i < children.len() && !stopped
        invariant
            i <= children@.len(),
            stopped ==> assemble_go(children@, Seq::<char>::empty()) == acc@,
            !stopped ==> assemble_go(children@, Seq::<char>::empty()) == assemble_go(
                children@.skip(i as int),
                acc@,
            ),
        decreases children@.len() - i, !stopped as int,
    {
        let ghost tail = children@.skip(i as int);
        proof {
            assert(tail.drop_first() =~= children@.skip(i as int + 1));
            assert(tail[0] == children@[i as int]);
        }
        if text::str_eq(children[i].tag.as_str(), "p") {
            let trimmed_chars = text::trim_chars(&text::chars_of(children[i].text.as_str()));
            let ghost pre_acc = acc@;
            if acc.len() == 0 {
                acc = trimmed_chars;
            } else {
                acc.push('\n');
                acc.push('\n');
                let mut k: usize = 0;
                let ghost mid_acc = acc@;
                while k < trimmed_chars.len()
                    invariant
                        k <= trimmed_chars@.len(),
                        acc@ == mid_acc + trimmed_chars@.subrange(0, k as int),
                    decreases trimmed_chars@.len() - k,
                {
                    acc.push(trimmed_chars[k]);
                    k += 1;
                    proof {
                        assert(acc@ =~= mid_acc + trimmed_chars@.subrange(0, k as int));
                    }
                }
                proof {
                    reveal_strlit("\n\n");
                    reveal_strlit("\n");
                    assert(acc@ =~= pre_acc + "\n\n"@ + trimmed_chars@);
                }
            }
            i += 1;
        } else {
            stopped = true;
        }
    }
    proof {
        if !stopped {
            assert(children@.skip(children@.len() as int) =~= Seq::<RawNode>::empty());
        }
    }
    text::string_from_chars(&acc)
}

/// The company website drawn from the qualifying anchors, if any.
pub fn company_site(nodes: &Vec<RawNode>) -> (r: Option<String>)
    ensures
        match r {
            Some(u) => company_site_spec(nodes@) == Some(u@),
            None => company_site_spec(nodes@) is None,
        },
{
    let mut i: usize = 0;
    proof {
        assert(nodes@.skip(0) =~= nodes@);
    }
    while i < nodes.len()
        invariant
            i <= nodes@.len(),
            company_site_spec(nodes@) == company_site_spec(nodes@.skip(i as int)),
        decreases nodes@.len() - i,
    {
        let ghost tail = nodes@.skip(i as int);
        proof {
            assert(tail.drop_first() =~= nodes@.skip(i as int + 1));
            assert(tail[0] == nodes@[i as int]);
        }
        if nodes[i].href.is_some() && nodes[i].inner.is_some() {
            if let Some(h) = &nodes[i].href {
                return Some(h.clone());
            }
        }
        i += 1;
    }
    proof {
        assert(nodes@.skip(nodes@.len() as int) =~= Seq::<RawNode>::empty());
    }
    None
}

/// The additional titled links of a product page, in page order.
pub fn other_sites(nodes: &Vec<RawNode>) -> (r: Vec<(String, String)>)
    ensures
        pair_views(r@) == other_sites_spec(nodes@),
{
    let mut out: Vec<(String, String)> = Vec::new();
    let mut i: usize = 0;
    proof {
        assert(nodes@.subrange(0, 0) =~= Seq::<RawNode>::empty());
    }
    while i < nodes.len()
        invariant
            i <= nodes@.len(),
            pair_views(out@) == other_sites_spec(nodes@.subrange(0, i as int)),
        decreases nodes@.len() - i,
    {
        let ghost pre = nodes@.subrange(0, i as int);
        let ghost cur = nodes@.subrange(0, i as int + 1);
        proof {
            assert(cur.drop_last() =~= pre);
            assert(cur.last() == nodes@[i as int]);
        }
        if nodes[i].href.is_some() && nodes[i].inner.is_some() {
            let ghost pre_out = pair_views(out@);
            let href = match &nodes[i].href {
                Some(h) => h.clone(),
                None => String::new(),
            };
            let title = match &nodes[i].inner {
                Some(t) => t.clone(),
                None => String::new(),
            };
            let title_trimmed = text::string_from_chars(
                &text::trim_chars(&text::chars_of(title.as_str())),
            );
            let href_trimmed = text::string_from_chars(
                &text::trim_chars(&text::chars_of(href.as_str())),
            );
            out.push((title_trimmed, href_trimmed));
            proof {
                assert(pair_views(out@) =~= pre_out.push(
                    (
                        text::trim_spec(nodes@[i as int].inner->0@),
                        text::trim_spec(nodes@[i as int].href->0@),
                    ),
                ));
            }
        }
        i += 1;
    }
    proof {
        assert(nodes@.subrange(0, nodes@.len() as int) =~= nodes@);
    }
    out
}

/// Builds the website list from the company site, the product's own page
/// address and the titled links.
pub fn build_websites(company: Option<String>, source: &str, others: Vec<(String, String)>) -> (r:
    Vec<(String, String)>)
    ensures
        pair_views(r@) == websites_spec(
            match company {
                Some(u) => Some(u@),
                None => None,
            },
            source@,
            pair_views(others@),
        ),
{
    let mut out: Vec<(String, String)> = Vec::new();
    let ghost company_view: Option<Seq<char>> = if company is Some {
        Some(company->0@)
    } else {
        None
    };
    match company {
        Some(u) => {
            let mut label = String::new();
            label.append("Company");
            out.push((label, u));
        },
        None => {},
    }
    let mut site_label = String::new();
    site_label.append("European Alternatives");
    let mut src = String::new();
    src.append(source);
    out.push((site_label, src));
    let ghost base = pair_views(out@);
    proof {
        assert(base =~= websites_spec(company_view, source@, Seq::<(Seq<char>, Seq<char>)>::empty()));
    }
    let mut i: usize = 0;
    while i < others.len()
        invariant
            i <= others@.len(),
            pair_views(out@) == base + pair_views(others@).subrange(0, i as int),
        decreases others@.len() - i,
    {
        let ghost pre_out = out@;
        let pair = (others[i].0.clone(), others[i].1.clone());
        proof {
            assert(pair_views(others@)[i as int] == (others@[i as int].0@, others@[i as int].1@));
        }
        out.push(pair);
        i += 1;
        proof {
            assert(pair_views(out@) =~= pair_views(pre_out).push(
                pair_views(others@)[i as int - 1],
            ));
            assert(pair_views(out@) =~= base + pair_views(others@).subrange(0, i as int));
        }
    }
    proof {
        assert(pair_views(others@).subrange(0, others@.len() as int) =~= pair_views(others@));
        assert(base + pair_views(others@) =~= websites_spec(
            company_view,
            source@,
            pair_views(others@),
        ));
    }
    out
}

/// Builds a category and its icon from the matched parts of its page.
/// Fails with a parse error exactly when the heading, the first prose
/// paragraph, or the icon source is missing.
pub fn category_from_parts(
    slug: String,
    headings: &Vec<RawNode>,
    paragraphs: &Vec<RawNode>,
    icons: &Vec<RawNode>,
) -> (r: Result<(Category, Icon), BuildError>)
    ensures
        match r {
            Ok(ci) => {
                &&& headings@.len() > 0 && paragraphs@.len() > 0 && icons@.len() > 0
                    && icons@[0].src is Some
                &&& ci.0.slug@ == slug@
                &&& ci.0.name@ == category_name_spec(headings@[0].text@)
                &&& ci.0.description@ == text::trim_spec(paragraphs@[0].text@)
                &&& ci.0.summary@ == first_sentence_spec(ci.0.description@)
                &&& ci.1.url@ == icons@[0].src->0@
                &&& ci.1.name@ == text::snake_case_of(ci.0.name@)
                &&& ci.0.icon@ == ci.1.name@
                &&& ci.1.extension@ == Icon::extension_of(ci.1.url@)
                &&& ci.1.filename@ == ci.1.name@ + "."@ + Icon::final_extension(ci.1.extension@)
            },
            Err(e) => {
                &&& e is Parse
                &&& (headings@.len() == 0 || paragraphs@.len() == 0 || icons@.len() == 0
                    || icons@[0].src is None)
            },
        },
{
    let heading = match dom::required_text(headings, "Category name") {
        Ok(t) => t,
        Err(e) => {
            return Err(e);
        },
    };
    let name = match remove_european_prefix(heading.as_str()) {
        Some(n) => n,
        None => heading,
    };
    let description = match dom::required_text(paragraphs, "Category description") {
        Ok(t) => t,
        Err(e) => {
            return Err(e);
        },
    };
    let summary = first_sentence(description.as_str());
    let icon_src = match dom::required_src(icons, "Category icon") {
        Ok(s) => s,
        Err(e) => {
            return Err(e);
        },
    };
    let icon = Icon::from_url(icon_src, name.as_str());
    let category = Category { slug, name, description, summary, icon: icon.name.clone() };
    Ok((category, icon))
}

/// Builds a product and its logo icon from the matched parts of its page.
/// Fails with a parse error exactly when the heading or the prose container
/// is missing, or the logo has no source.
pub fn product_from_parts(
    url: &str,
    categories: Vec<String>,
    headings: &Vec<RawNode>,
    prose_matches: &Vec<RawNode>,
    prose_children: &Vec<RawNode>,
    logos: &Vec<RawNode>,
    country_nodes: &Vec<RawNode>,
    website_nodes: &Vec<RawNode>,
    other_nodes: &Vec<RawNode>,
) -> (r: Result<(Product, Icon), BuildError>)
    ensures
        match r {
            Ok(pi) => {
                &&& headings@.len() > 0 && prose_matches@.len() > 0 && logos@.len() > 0
                    && logos@[0].src is Some
                &&& pi.0.name@ == text::title_case_of(text::trim_spec(headings@[0].text@))
                &&& pi.0.description@ == assemble_go(prose_children@, Seq::<char>::empty())
                &&& pi.0.summary@ == summary_spec(pi.0.description@)
                &&& (country_nodes@.len() == 0 ==> pi.0.country is None)
                &&& (country_nodes@.len() > 0 ==> pi.0.country == Country::parse_spec(
                    text::trim_spec(country_nodes@[0].text@),
                ))
                &&& pair_views(pi.0.websites@) == websites_spec(
                    company_site_spec(website_nodes@),
                    url@,
                    other_sites_spec(other_nodes@),
                )
                &&& pi.0.categories@ == categories@
                &&& pi.1.url@ == logos@[0].src->0@
                &&& pi.1.name@ == text::snake_case_of(pi.0.name@)
                &&& pi.0.logo@ == pi.1.name@
                &&& pi.1.extension@ == Icon::extension_of(pi.1.url@)
                &&& pi.1.filename@ == pi.1.name@ + "."@ + Icon::final_extension(pi.1.extension@)
            },
            Err(e) => {
                &&& e is Parse
                &&& (headings@.len() == 0 || prose_matches@.len() == 0 || logos@.len() == 0
                    || logos@[0].src is None)
            },
        },
{
    let heading = match dom::required_text(headings, "Product name") {
        Ok(t) => t,
        Err(e) => {
            return Err(e);
        },
    };
    let name = text::title_case(heading.as_str());
    if prose_matches.len() == 0 {
        let mut m = String::new();
        m.append("Product description not found");
        return Err(BuildError::Parse(m));
    }
    let description = assemble_description(prose_children);
    let summary = summarize(description.as_str());
    let country = country_from_nodes(country_nodes);
    let logo_src = match dom::required_src(logos, "Product logo") {
        Ok(s) => s,
        Err(e) => {
            return Err(e);
        },
    };
    let icon = Icon::from_url(logo_src, name.as_str());
    let company = company_site(website_nodes);
    let others = other_sites(other_nodes);
    let websites = build_websites(company, url, others);
    let product = Product {
        categories,
        logo: icon.name.clone(),
        name,
        description,
        summary,
        country,
        websites,
    };
    Ok((product, icon))
}

/// The heading selector text.
pub open spec fn heading_css() -> Seq<char> {
    "h1"@
}

/// The inner selector for a span descendant.
pub open spec fn inner_span_css() -> Seq<char> {
    "span"@
}

/// The inner selector for a title descendant.
pub open spec fn inner_title_css() -> Seq<char> {
    "title"@
}

/// The selector for a category page's first prose paragraph.
pub open spec fn category_paragraph_css() -> Seq<char> {
    ".prose > p:first-child"@
}

/// The selector for a category page's icon image.
pub open spec fn category_icon_css() -> Seq<char> {
    "img[src*='/categoryLogo/']"@
}

/// The selector for category links on the index page.
pub open spec fn category_link_css() -> Seq<char> {
    "a[href*='/category/']"@
}

/// The selector for product-detail links on a listing page.
pub open spec fn product_link_css() -> Seq<char> {
    "div > a[href*='/product/']"@
}

/// The selector for a product page's prose container.
pub open spec fn prose_css() -> Seq<char> {
    ".prose"@
}

/// The selector for a product page's logo image.
pub open spec fn product_logo_css() -> Seq<char> {
    "img[src*='/productLogo/']"@
}

/// The selector for the label beside a product page's flag image.
pub open spec fn country_css() -> Seq<char> {
    "img[src*='countryFlags'] + span"@
}

/// The selector for anchors that may qualify as the company website:
/// external links outside the known social platforms.
pub open spec fn website_css() -> Seq<char> {
    r#"a[href^="http"]:not([href*="european-alternatives.eu"]):not(:where(
                [href*="facebook.com"], [href*="fb.com"],
                [href*="twitter.com"], [href*="x.com"],
                [href*="linkedin.com"], [href*="instagram.com"],
                [href*="youtube.com"], [href*="youtu.be"],
                [href*="mastodon"], [href*="github.com"],
                [href*="gitlab.com"], [href*="tiktok.com"],
                [href*="pinterest.com"], [href*="reddit.com"],
                [href*="snapchat.com"], [href*="discord.com"],
                [href*="telegram.org"]
            ))"#@
}

/// The selector for the additional titled links of a product page.
pub open spec fn other_links_css() -> Seq<char> {
    "article .items-center a"@
}

/// The link targets of matched node views, in page order.
pub open spec fn views_hrefs(nodes: Seq<NodeView>) -> Seq<Seq<char>>
    decreases nodes.len(),
{
    if nodes.len() == 0 {
        seq![]
    } else {
        let pre = views_hrefs(nodes.drop_last());
        match nodes.last().2 {
            Some(h) => pre.push(h),
            None => pre,
        }
    }
}

/// The link targets of a node list equal those of its views.
proof fn lemma_views_hrefs(nodes: Seq<RawNode>)
    ensures
        hrefs_of(nodes) == views_hrefs(dom::node_views(nodes)),
    decreases nodes.len(),
{
    if nodes.len() > 0 {
        lemma_views_hrefs(nodes.drop_last());
        assert(dom::node_views(nodes).drop_last() =~= dom::node_views(nodes.drop_last()));
        assert(dom::node_views(nodes).last() == dom::node_view(nodes.last()));
    }
}

/// The link targets of matched node views, each kept the first time it is
/// seen.
pub open spec fn views_unique_hrefs(nodes: Seq<NodeView>) -> Seq<Seq<char>>
    decreases nodes.len(),
{
    if nodes.len() == 0 {
        seq![]
    } else {
        let pre = views_unique_hrefs(nodes.drop_last());
        match nodes.last().2 {
            Some(h) => if pre.contains(h) {
                pre
            } else {
                pre.push(h)
            },
            None => pre,
        }
    }
}

/// First-seen de-duplication over a node list equals the same over its
/// views.
proof fn lemma_views_unique_hrefs(nodes: Seq<RawNode>)
    ensures
        dom::unique_hrefs_spec(nodes) == views_unique_hrefs(dom::node_views(nodes)),
    decreases nodes.len(),
{
    if nodes.len() > 0 {
        lemma_views_unique_hrefs(nodes.drop_last());
        assert(dom::node_views(nodes).drop_last() =~= dom::node_views(nodes.drop_last()));
        assert(dom::node_views(nodes).last() == dom::node_view(nodes.last()));
    }
}

/// The first view that carries a link target and holds a span, read as the
/// company website.
pub open spec fn views_company_site(nodes: Seq<NodeView>) -> Option<Seq<char>>
    decreases nodes.len(),
{
    if nodes.len() == 0 {
        None
    } else if nodes[0].2 is Some && nodes[0].4 is Some {
        Some(nodes[0].2->0)
    } else {
        views_company_site(nodes.drop_first())
    }
}

/// The company-website choice over a node list equals the same over its
/// views.
proof fn lemma_views_company_site(nodes: Seq<RawNode>)
    ensures
        company_site_spec(nodes) == views_company_site(dom::node_views(nodes)),
    decreases nodes.len(),
{
    if nodes.len() > 0 {
        lemma_views_company_site(nodes.drop_first());
        assert(dom::node_views(nodes).drop_first() =~= dom::node_views(nodes.drop_first()));
        assert(dom::node_views(nodes)[0] == dom::node_view(nodes[0]));
    }
}

/// The additional titled links over matched node views: every view with
/// both a link target and a title, as (trimmed title, trimmed target).
pub open spec fn views_other_sites(nodes: Seq<NodeView>) -> Seq<(Seq<char>, Seq<char>)>
    decreases nodes.len(),
{
    if nodes.len() == 0 {
        seq![]
    } else {
        let pre = views_other_sites(nodes.drop_last());
        if nodes.last().2 is Some && nodes.last().4 is Some {
            pre.push((text::trim_spec(nodes.last().4->0), text::trim_spec(nodes.last().2->0)))
        } else {
            pre
        }
    }
}

/// The titled links over a node list equal those over its views.
proof fn lemma_views_other_sites(nodes: Seq<RawNode>)
    ensures
        other_sites_spec(nodes) == views_other_sites(dom::node_views(nodes)),
    decreases nodes.len(),
{
    if nodes.len() > 0 {
        lemma_views_other_sites(nodes.drop_last());
        assert(dom::node_views(nodes).drop_last() =~= dom::node_views(nodes.drop_last()));
        assert(dom::node_views(nodes).last() == dom::node_view(nodes.last()));
    }
}

/// The description assembled over child views: consecutive leading
/// paragraphs, trimmed and joined by blank lines, stopping at the first
/// non-paragraph element.
pub open spec fn views_assemble(children: Seq<NodeView>, acc: Seq<char>) -> Seq<char>
    decreases children.len(),
{
    if children.len() == 0 {
        acc
    } else if children[0].0 == "p"@ {
        let t = text::trim_spec(children[0].1);
        views_assemble(
            children.drop_first(),
            if acc.len() == 0 {
                t
            } else {
                acc + "\n\n"@ + t
            },
        )
    } else {
        acc
    }
}

/// Description assembly over a node list equals the same over its views.
proof fn lemma_views_assemble(children: Seq<RawNode>, acc: Seq<char>)
    ensures
        assemble_go(children, acc) == views_assemble(dom::node_views(children), acc),
    decreases children.len(),
{
    if children.len() > 0 {
        assert(dom::node_views(children).drop_first() =~= dom::node_views(
            children.drop_first(),
        ));
        assert(dom::node_views(children)[0] == dom::node_view(children[0]));
        if children[0].tag@ == "p"@ {
            let t = text::trim_spec(children[0].text@);
            lemma_views_assemble(
                children.drop_first(),
                if acc.len() == 0 {
                    t
                } else {
                    acc + "\n\n"@ + t
                },
            );
        }
    }
}

/// Whether a category page carries everything extraction requires: a
/// heading, a first prose paragraph, and an icon with a source.
pub open spec fn category_page_ok(html: Seq<char>) -> bool {
    &&& dom::nodes_of(html, heading_css(), inner_span_css()) is Some
    &&& dom::nodes_of(html, category_paragraph_css(), inner_span_css()) is Some
    &&& dom::nodes_of(html, category_icon_css(), inner_span_css()) is Some
    &&& dom::nodes_of(html, heading_css(), inner_span_css())->0.len() > 0
    &&& dom::nodes_of(html, category_paragraph_css(), inner_span_css())->0.len() > 0
    &&& dom::nodes_of(html, category_icon_css(), inner_span_css())->0.len() > 0
    &&& dom::nodes_of(html, category_icon_css(), inner_span_css())->0[0].3 is Some
}

/// The heading views of a page.
pub open spec fn heading_views(html: Seq<char>) -> Seq<NodeView> {
    dom::nodes_of(html, heading_css(), inner_span_css())->0
}

/// The first-paragraph views of a category page.
pub open spec fn category_paragraph_views(html: Seq<char>) -> Seq<NodeView> {
    dom::nodes_of(html, category_paragraph_css(), inner_span_css())->0
}

/// The icon views of a category page.
pub open spec fn category_icon_views(html: Seq<char>) -> Seq<NodeView> {
    dom::nodes_of(html, category_icon_css(), inner_span_css())->0
}

/// Whether a product page carries everything extraction requires: a
/// heading, a prose container, and a logo with a source, with every
/// selector well-formed.
pub open spec fn product_page_ok(html: Seq<char>) -> bool {
    &&& dom::nodes_of(html, heading_css(), inner_span_css()) is Some
    &&& dom::nodes_of(html, prose_css(), inner_span_css()) is Some
    &&& dom::children_of(html, prose_css()) is Some
    &&& dom::nodes_of(html, product_logo_css(), inner_span_css()) is Some
    &&& dom::nodes_of(html, country_css(), inner_span_css()) is Some
    &&& dom::nodes_of(html, website_css(), inner_span_css()) is Some
    &&& dom::nodes_of(html, other_links_css(), inner_title_css()) is Some
    &&& dom::nodes_of(html, heading_css(), inner_span_css())->0.len() > 0
    &&& dom::nodes_of(html, prose_css(), inner_span_css())->0.len() > 0
    &&& dom::nodes_of(html, product_logo_css(), inner_span_css())->0.len() > 0
    &&& dom::nodes_of(html, product_logo_css(), inner_span_css())->0[0].3 is Some
}

/// The prose child views of a product page.
pub open spec fn product_children_views(html: Seq<char>) -> Seq<NodeView> {
    dom::children_of(html, prose_css())->0
}

/// The logo views of a product page.
pub open spec fn product_logo_views(html: Seq<char>) -> Seq<NodeView> {
    dom::nodes_of(html, product_logo_css(), inner_span_css())->0
}

/// The country-label views of a product page.
pub open spec fn product_country_views(html: Seq<char>) -> Seq<NodeView> {
    dom::nodes_of(html, country_css(), inner_span_css())->0
}

/// The qualifying-anchor views of a product page.
pub open spec fn product_website_views(html: Seq<char>) -> Seq<NodeView> {
    dom::nodes_of(html, website_css(), inner_span_css())->0
}

/// The titled-link views of a product page.
pub open spec fn product_other_views(html: Seq<char>) -> Seq<NodeView> {
    dom::nodes_of(html, other_links_css(), inner_title_css())->0
}

/// The parse error used when a selector text is rejected.
fn selector_error() -> (r: BuildError)
    ensures
        r is Parse,
{
    let mut m = String::new();
    m.append("invalid selector");
    BuildError::Parse(m)
}

/// Extracts one category from its fetched page text: succeeds exactly when
/// the page carries a heading, a first prose paragraph and a sourced icon,
/// and then every field is fixed by the named page parts.
pub fn extract_category(html: &str, slug: String) -> (r: Result<(Category, Icon), BuildError>)
    ensures
        r is Ok <==> category_page_ok(html@),
        r is Err ==> r->Err_0 is Parse,
        r is Ok ==> {
            &&& (r->Ok_0).0.slug@ == slug@
            &&& (r->Ok_0).0.name@ == category_name_spec(heading_views(html@)[0].1)
            &&& (r->Ok_0).0.description@ == text::trim_spec(category_paragraph_views(html@)[0].1)
            &&& (r->Ok_0).0.summary@ == first_sentence_spec((r->Ok_0).0.description@)
            &&& (r->Ok_0).1.url@ == category_icon_views(html@)[0].3->0
            &&& (r->Ok_0).1.name@ == text::snake_case_of((r->Ok_0).0.name@)
            &&& (r->Ok_0).0.icon@ == (r->Ok_0).1.name@
            &&& (r->Ok_0).1.extension@ == Icon::extension_of((r->Ok_0).1.url@)
            &&& (r->Ok_0).1.filename@ == (r->Ok_0).1.name@ + "."@ + Icon::final_extension(
                (r->Ok_0).1.extension@,
            )
        },
{
    let headings = match dom::select_in(html, "h1", "span") {
        Some(n) => n,
        None => {
            return Err(selector_error());
        },
    };
    let paragraphs = match dom::select_in(html, ".prose > p:first-child", "span") {
        Some(n) => n,
        None => {
            return Err(selector_error());
        },
    };
    let icons = match dom::select_in(html, "img[src*='/categoryLogo/']", "span") {
        Some(n) => n,
        None => {
            return Err(selector_error());
        },
    };
    let r = category_from_parts(slug, &headings, &paragraphs, &icons);
    proof {
        assert(dom::node_views(headings@) == heading_views(html@));
        assert(dom::node_views(paragraphs@) == category_paragraph_views(html@));
        assert(dom::node_views(icons@) == category_icon_views(html@));
        assert(heading_views(html@).len() == headings@.len());
        assert(category_paragraph_views(html@).len() == paragraphs@.len());
        assert(category_icon_views(html@).len() == icons@.len());
        if headings@.len() > 0 {
            assert(heading_views(html@)[0] == dom::node_view(headings@[0]));
        }
        if paragraphs@.len() > 0 {
            assert(category_paragraph_views(html@)[0] == dom::node_view(paragraphs@[0]));
        }
        if icons@.len() > 0 {
            assert(category_icon_views(html@)[0] == dom::node_view(icons@[0]));
        }
    }
    r
}

/// Extracts one product from its fetched page text, carrying the owning
/// category slugs through: succeeds exactly when the page carries a
/// heading, a prose container and a sourced logo, and then every field is
/// fixed by the named page parts. The website list always holds the
/// product's own detail-page address.
pub fn extract_product(html: &str, url: &str, categories: Vec<String>) -> (r: Result<
    (Product, Icon),
    BuildError,
>)
    ensures
        r is Ok <==> product_page_ok(html@),
        r is Err ==> r->Err_0 is Parse,
        r is Ok ==> {
            &&& (r->Ok_0).0.categories@ == categories@
            &&& (r->Ok_0).0.name@ == text::title_case_of(
                text::trim_spec(heading_views(html@)[0].1),
            )
            &&& (r->Ok_0).0.description@ == views_assemble(
                product_children_views(html@),
                Seq::<char>::empty(),
            )
            &&& (r->Ok_0).0.summary@ == summary_spec((r->Ok_0).0.description@)
            &&& (product_country_views(html@).len() == 0 ==> (r->Ok_0).0.country is None)
            &&& (product_country_views(html@).len() > 0 ==> (r->Ok_0).0.country
                == Country::parse_spec(text::trim_spec(product_country_views(html@)[0].1)))
            &&& pair_views((r->Ok_0).0.websites@) == websites_spec(
                views_company_site(product_website_views(html@)),
                url@,
                views_other_sites(product_other_views(html@)),
            )
            &&& pair_views((r->Ok_0).0.websites@).contains(("European Alternatives"@, url@))
            &&& (r->Ok_0).1.url@ == product_logo_views(html@)[0].3->0
            &&& (r->Ok_0).1.name@ == text::snake_case_of((r->Ok_0).0.name@)
            &&& (r->Ok_0).0.logo@ == (r->Ok_0).1.name@
            &&& (r->Ok_0).1.extension@ == Icon::extension_of((r->Ok_0).1.url@)
            &&& (r->Ok_0).1.filename@ == (r->Ok_0).1.name@ + "."@ + Icon::final_extension(
                (r->Ok_0).1.extension@,
            )
        },
{
    let headings = match dom::select_in(html, "h1", "span") {
        Some(n) => n,
        None => {
            return Err(selector_error());
        },
    };
    let prose_matches = match dom::select_in(html, ".prose", "span") {
        Some(n) => n,
        None => {
            return Err(selector_error());
        },
    };
    let prose_children = match dom::select_children_in(html, ".prose") {
        Some(n) => n,
        None => {
            return Err(selector_error());
        },
    };
    let logos = match dom::select_in(html, "img[src*='/productLogo/']", "span") {
        Some(n) => n,
        None => {
            return Err(selector_error());
        },
    };
    let country_nodes = match dom::select_in(html, "img[src*='countryFlags'] + span", "span") {
        Some(n) => n,
        None => {
            return Err(selector_error());
        },
    };
    let website_nodes = match dom::select_in(
        html,
        r#"a[href^="http"]:not([href*="european-alternatives.eu"]):not(:where(
                [href*="facebook.com"], [href*="fb.com"],
                [href*="twitter.com"], [href*="x.com"],
                [href*="linkedin.com"], [href*="instagram.com"],
                [href*="youtube.com"], [href*="youtu.be"],
                [href*="mastodon"], [href*="github.com"],
                [href*="gitlab.com"], [href*="tiktok.com"],
                [href*="pinterest.com"], [href*="reddit.com"],
                [href*="snapchat.com"], [href*="discord.com"],
                [href*="telegram.org"]
            ))"#,
        "span",
    ) {
        Some(n) => n,
        None => {
            return Err(selector_error());
        },
    };
    let other_nodes = match dom::select_in(html, "article .items-center a", "title") {
        Some(n) => n,
        None => {
            return Err(selector_error());
        },
    };
    let r = product_from_parts(
        url,
        categories,
        &headings,
        &prose_matches,
        &prose_children,
        &logos,
        &country_nodes,
        &website_nodes,
        &other_nodes,
    );
    proof {
        assert(dom::node_views(headings@) == heading_views(html@));
        assert(dom::node_views(prose_children@) == product_children_views(html@));
        assert(dom::node_views(logos@) == product_logo_views(html@));
        assert(dom::node_views(country_nodes@) == product_country_views(html@));
        assert(dom::node_views(website_nodes@) == product_website_views(html@));
        assert(dom::node_views(other_nodes@) == product_other_views(html@));
        assert(dom::node_views(prose_matches@).len() == prose_matches@.len());
        assert(heading_views(html@).len() == headings@.len());
        assert(product_logo_views(html@).len() == logos@.len());
        assert(product_country_views(html@).len() == country_nodes@.len());
        if headings@.len() > 0 {
            assert(heading_views(html@)[0] == dom::node_view(headings@[0]));
        }
        if logos@.len() > 0 {
            assert(product_logo_views(html@)[0] == dom::node_view(logos@[0]));
        }
        if country_nodes@.len() > 0 {
            assert(product_country_views(html@)[0] == dom::node_view(country_nodes@[0]));
        }
        lemma_views_assemble(prose_children@, Seq::<char>::empty());
        lemma_views_company_site(website_nodes@);
        lemma_views_other_sites(other_nodes@);
        if r is Ok {
            let ws = websites_spec(
                company_site_spec(website_nodes@),
                url@,
                other_sites_spec(other_nodes@),
            );
            if company_site_spec(website_nodes@) is Some {
                assert(ws[1] == ("European Alternatives"@, url@));
            } else {
                assert(ws[0] == ("European Alternatives"@, url@));
            }
        }
    }
    r
}

/// Discovers the category links of the index page: exactly the first-seen
/// de-duplicated link targets of the matched category links, each paired
/// with its slug, the target's final path segment.
pub fn discover_category_links(html: &str) -> (r: Result<Vec<(String, String)>, BuildError>)
    ensures
        r is Ok <==> dom::nodes_of(html@, category_link_css(), inner_span_css()) is Some,
        r is Err ==> r->Err_0 is Parse,
        r is Ok ==> {
            &&& (r->Ok_0)@.map_values(|p: (String, String)| p.0@) == views_unique_hrefs(
                dom::nodes_of(html@, category_link_css(), inner_span_css())->0,
            )
            &&& forall|i: int|
                0 <= i < (r->Ok_0)@.len() ==> ((#[trigger] (r->Ok_0)@[i]).1)@
                    == text::after_last((r->Ok_0)@[i].0@, '/')
        },
{
    let nodes = match dom::select_in(html, "a[href*='/category/']", "span") {
        Some(n) => n,
        None => {
            return Err(selector_error());
        },
    };
    let hrefs = dom::unique_hrefs(&nodes);
    let mut pairs: Vec<(String, String)> = Vec::new();
    let mut i: usize = 0;
    while i < hrefs.len()
        invariant
            hrefs@.map_values(|s: String| s@) == dom::unique_hrefs_spec(nodes@),
            i <= hrefs@.len(),
            pairs@.len() == i,
            forall|t: int|
                0 <= t < i ==> (#[trigger] pairs@[t]).0@ == hrefs@[t]@ && pairs@[t].1@
                    == text::after_last(pairs@[t].0@, '/'),
        decreases hrefs@.len() - i,
    {
        let slug = urls::slug_from_href(hrefs[i].as_str());
        pairs.push((hrefs[i].clone(), slug));
        i += 1;
    }
    proof {
        lemma_views_unique_hrefs(nodes@);
        assert(dom::node_views(nodes@) == dom::nodes_of(
            html@,
            category_link_css(),
            inner_span_css(),
        )->0);
        assert(pairs@.map_values(|p: (String, String)| p.0@) =~= hrefs@.map_values(
            |s: String| s@,
        ));
    }
    Ok(pairs)
}

/// Every link target of the matched nodes, in page order.
pub open spec fn hrefs_of(nodes: Seq<RawNode>) -> Seq<Seq<char>>
    decreases nodes.len(),
{
    if nodes.len() == 0 {
        seq![]
    } else {
        let pre = hrefs_of(nodes.drop_last());
        match nodes.last().href {
            Some(h) => pre.push(h@),
            None => pre,
        }
    }
}

/// Collects every link target of the matched nodes, in page order.
pub fn node_hrefs(nodes: &Vec<RawNode>) -> (r: Vec<String>)
    ensures
        r@.map_values(|s: String| s@) == hrefs_of(nodes@),
{
    let mut out: Vec<String> = Vec::new();
    let mut i: usize = 0;
    proof {
        assert(nodes@.subrange(0, 0) =~= Seq::<RawNode>::empty());
    }
    while i < nodes.len()
        invariant
            i <= nodes@.len(),
            out@.map_values(|s: String| s@) == hrefs_of(nodes@.subrange(0, i as int)),
        decreases nodes@.len() - i,
    {
        let ghost pre = nodes@.subrange(0, i as int);
        let ghost cur = nodes@.subrange(0, i as int + 1);
        proof {
            assert(cur.drop_last() =~= pre);
            assert(cur.last() == nodes@[i as int]);
        }
        if let Some(h) = &nodes[i].href {
            let ghost pre_out = out@.map_values(|s: String| s@);
            out.push(h.clone());
            proof {
                assert(out@.map_values(|s: String| s@) =~= pre_out.push(h@));
            }
        }
        i += 1;
    }
    proof {
        assert(nodes@.subrange(0, nodes@.len() as int) =~= nodes@);
    }
    out
}

/// Discovers the product links of one category listing page: exactly the
/// link targets of the matched product links, in page order.
pub fn discover_product_links(html: &str) -> (r: Result<Vec<String>, BuildError>)
    ensures
        r is Ok <==> dom::nodes_of(html@, product_link_css(), inner_span_css()) is Some,
        r is Err ==> r->Err_0 is Parse,
        r is Ok ==> (r->Ok_0)@.map_values(|s: String| s@) == views_hrefs(
            dom::nodes_of(html@, product_link_css(), inner_span_css())->0,
        ),
{
    let nodes = match dom::select_in(html, "div > a[href*='/product/']", "span") {
        Some(n) => n,
        None => {
            return Err(selector_error());
        },
    };
    proof {
        lemma_views_hrefs(nodes@);
        assert(dom::node_views(nodes@) == dom::nodes_of(
            html@,
            product_link_css(),
            inner_span_css(),
        )->0);
    }
    Ok(node_hrefs(&nodes))
}

/// The views of a product-URL accumulator: each entry a page address with
/// the owning category slugs collected so far.
pub open spec fn acc_views(acc: Seq<(String, Vec<String>)>) -> Seq<(Seq<char>, Seq<Seq<char>>)> {
    acc.map_values(|e: (String, Vec<String>)| (e.0@, e.1@.map_values(|s: String| s@)))
}

/// Adds one owning slug to one product address: the first entry with that
/// address gains the slug unless it already lists it; an unseen address is
/// appended with the slug as its first owner.
pub open spec fn add_url(
    acc: Seq<(Seq<char>, Seq<Seq<char>>)>,
    url: Seq<char>,
    slug: Seq<char>,
) -> Seq<(Seq<char>, Seq<Seq<char>>)>
    decreases acc.len(),
{
    if acc.len() == 0 {
        seq![(url, seq![slug])]
    } else if acc[0].0 == url {
        let owners = if acc[0].1.contains(slug) {
            acc[0].1
        } else {
            acc[0].1.push(slug)
        };
        seq![(acc[0].0, owners)] + acc.drop_first()
    } else {
        seq![acc[0]] + add_url(acc.drop_first(), url, slug)
    }
}

/// The accumulator after adding every address of `urls` under one slug, in
/// order.
pub open spec fn add_urls(
    acc: Seq<(Seq<char>, Seq<Seq<char>>)>,
    urls: Seq<Seq<char>>,
    slug: Seq<char>,
) -> Seq<(Seq<char>, Seq<Seq<char>>)>
    decreases urls.len(),
{
    if urls.len() == 0 {
        acc
    } else {
        add_urls(add_url(acc, urls[0], slug), urls.drop_first(), slug)
    }
}

/// Adding an address that already stands at position `i` (and nowhere
/// earlier) updates exactly that entry's owner list.
proof fn lemma_add_url_at(acc: Seq<(Seq<char>, Seq<Seq<char>>)>, url: Seq<char>, slug: Seq<char>, i: int)
    requires
        0 <= i < acc.len(),
        acc[i].0 == url,
        forall|t: int| 0 <= t < i ==> (#[trigger] acc[t]).0 != url,
    ensures
        add_url(acc, url, slug) =~= acc.update(
            i,
            (
                acc[i].0,
                if acc[i].1.contains(slug) {
                    acc[i].1
                } else {
                    acc[i].1.push(slug)
                },
            ),
        ),
    decreases acc.len(),
{
    let rest = acc.drop_first();
    assert(forall|t: int| 0 <= t < rest.len() ==> rest[t] == acc[t + 1]);
    if i == 0 {
        assert(add_url(acc, url, slug) =~= acc.update(
            0,
            (
                acc[0].0,
                if acc[0].1.contains(slug) {
                    acc[0].1
                } else {
                    acc[0].1.push(slug)
                },
            ),
        ));
    } else {
        lemma_add_url_at(rest, url, slug, i - 1);
        assert(add_url(acc, url, slug) =~= seq![acc[0]] + rest.update(
            i - 1,
            (
                rest[i - 1].0,
                if rest[i - 1].1.contains(slug) {
                    rest[i - 1].1
                } else {
                    rest[i - 1].1.push(slug)
                },
            ),
        ));
    }
}

/// Adding an address no entry holds appends a fresh entry for it.
proof fn lemma_add_url_absent(acc: Seq<(Seq<char>, Seq<Seq<char>>)>, url: Seq<char>, slug: Seq<char>)
    requires
        forall|t: int| 0 <= t < acc.len() ==> (#[trigger] acc[t]).0 != url,
    ensures
        add_url(acc, url, slug) =~= acc.push((url, seq![slug])),
    decreases acc.len(),
{
    if acc.len() > 0 {
        let rest = acc.drop_first();
        assert(forall|t: int| 0 <= t < rest.len() ==> rest[t] == acc[t + 1]);
        lemma_add_url_absent(rest, url, slug);
        assert(add_url(acc, url, slug) =~= seq![acc[0]] + rest.push((url, seq![slug])));
    }
}

/// Records one product address under one owning category slug.
pub fn add_product_url(acc: &mut Vec<(String, Vec<String>)>, url: &str, slug: &str)
    ensures
        acc_views(final(acc)@) == add_url(acc_views(old(acc)@), url@, slug@),
{
    let ghost pre = acc_views(acc@);
    let mut i: usize = 0;
    while i < acc.len()
        invariant
            pre == acc_views(acc@),
            pre == acc_views(old(acc)@),
            i <= acc@.len(),
            forall|t: int| 0 <= t < i ==> (#[trigger] pre[t]).0 != url@,
        decreases acc@.len() - i,
    {
        proof {
            assert(pre[i as int] == (acc@[i as int].0@, acc@[i as int].1@.map_values(
                |s: String| s@,
            )));
        }
        if text::str_eq(acc[i].0.as_str(), url) {
            let already = dom::contains_string(&acc[i].1, slug);
            if !already {
                let ghost pre_owners = acc@[i as int].1@.map_values(|s: String| s@);
                acc[i].1.push(String::from_str(slug));
                proof {
                    assert(!pre[i as int].1.contains(slug@));
                    assert(acc@[i as int].1@.map_values(|s: String| s@) =~= pre_owners.push(
                        slug@,
                    ));
                    lemma_add_url_at(pre, url@, slug@, i as int);
                    assert(acc_views(acc@) =~= pre.update(
                        i as int,
                        (pre[i as int].0, pre_owners.push(slug@)),
                    ));
                    assert(acc_views(acc@) == add_url(pre, url@, slug@));
                }
            } else {
                proof {
                    lemma_add_url_at(pre, url@, slug@, i as int);
                    assert(acc_views(acc@) =~= pre.update(i as int, pre[i as int]));
                    assert(acc_views(acc@) =~= add_url(pre, url@, slug@));
                }
            }
            return ;
        }
        i += 1;
    }
    let ghost pre_end = acc_views(acc@);
    acc.push((String::from_str(url), vec![String::from_str(slug)]));
    proof {
        lemma_add_url_absent(pre, url@, slug@);
        assert(acc@.last().1@.map_values(|s: String| s@) =~= seq![slug@]);
        assert(acc_views(acc@) =~= pre_end.push((url@, seq![slug@])));
    }
}

/// Records every product address of one listing page under its category
/// slug, in page order.
pub fn add_product_urls(acc: &mut Vec<(String, Vec<String>)>, urls: &Vec<String>, slug: &str)
    ensures
        acc_views(final(acc)@) == add_urls(
            acc_views(old(acc)@),
            urls@.map_values(|s: String| s@),
            slug@,
        ),
{
    let ghost url_views = urls@.map_values(|s: String| s@);
    let mut i: usize = 0;
    proof {
        assert(url_views.skip(0) =~= url_views);
    }
    while i < urls.len()
        invariant
            url_views == urls@.map_values(|s: String| s@),
            i <= urls@.len(),
            add_urls(acc_views(acc@), url_views.skip(i as int), slug@) == add_urls(
                acc_views(old(acc)@),
                url_views,
                slug@,
            ),
        decreases urls@.len() - i,
    {
        let ghost tail = url_views.skip(i as int);
        proof {
            assert(tail.drop_first() =~= url_views.skip(i as int + 1));
            assert(tail[0] == url_views[i as int]);
        }
        add_product_url(acc, urls[i].as_str(), slug);
        i += 1;
    }
    proof {
        assert(url_views.skip(url_views.len() as int) =~= Seq::<Seq<char>>::empty());
    }
}

/// The country read from the label beside the flag image, if it matches the
/// enumeration.
pub fn country_from_nodes(nodes: &Vec<RawNode>) -> (r: Option<Country>)
    ensures
        nodes@.len() == 0 ==> r is None,
        nodes@.len() > 0 ==> r == Country::parse_spec(text::trim_spec(nodes@[0].text@)),
{
    if nodes.len() == 0 {
        return None;
    }
    let trimmed = text::string_from_chars(&text::trim_chars(&text::chars_of(nodes[0].text.as_str())));
    Country::parse(trimmed.as_str())
}

} // verus!
