//! Address building for the directory site, and slug derivation from link
//! targets.

use vstd::prelude::*;
use crate::text;

verus! {

/// The directory site's base address.
pub open spec fn base_url_spec() -> Seq<char> {
    "https://european-alternatives.eu"@
}

/// The address of the categories index page.
pub fn categories_index_url() -> (r: String)
    ensures
        r@ == base_url_spec() + "/categories"@,
{
    let mut url = String::new();
    url.append("https://european-alternatives.eu");
    url.append("/categories");
    url
}

/// The address of a single category page.
pub fn category_url(slug: &str) -> (r: String)
    ensures
        r@ == base_url_spec() + "/category/"@ + slug@,
{
    let mut url = String::new();
    url.append("https://european-alternatives.eu");
    url.append("/category/");
    url.append(slug);
    url
}

/// The address of one country flag asset, by flag code.
pub fn flag_url(code: &str) -> (r: String)
    ensures
        r@ == "https://cdn.european-alternatives.eu/countryFlags/4x3/"@ + code@ + ".svg"@,
{
    let mut url = String::new();
    url.append("https://cdn.european-alternatives.eu/countryFlags/4x3/");
    url.append(code);
    url.append(".svg");
    url
}

/// The slug of a link target: its final path segment.
pub fn slug_from_href(href: &str) -> (r: String)
    ensures
        r@ == text::after_last(href@, '/'),
{
    let chars = text::chars_of(href);
    let seg = text::after_last_chars(&chars, '/');
    text::string_from_chars(&seg)
}

} // verus!
