//! The entities the pipeline extracts: categories, products and icon
//! references. All of them are built exactly once per run and never changed
//! afterwards.

use vstd::prelude::*;
use crate::country::Country;
use crate::text;

verus! {

/// One category of the directory.
#[derive(Debug, Clone)]
pub struct Category {
    /// Stable identifier derived from the category page address, unique.
    pub slug: String,
    /// Heading text, with the site's brand prefix stripped when present.
    pub name: String,
    /// Full first paragraph of the category page.
    pub description: String,
    /// The description truncated to its first sentence.
    pub summary: String,
    /// Logical name of the harvested category icon.
    pub icon: String,
}

/// One product of the directory.
#[derive(Debug, Clone)]
pub struct Product {
    /// Slugs of every category the product is listed under, without
    /// duplicates.
    pub categories: Vec<String>,
    /// Logical name of the harvested product logo.
    pub logo: String,
    /// Title-cased product name, unique.
    pub name: String,
    /// Leading paragraphs of the product page, joined by blank lines.
    pub description: String,
    /// The first two sentences of the description.
    pub summary: String,
    /// The product's country, when its label matched the enumeration.
    pub country: Option<Country>,
    /// Labelled links, in page order, starting with the company site when
    /// one qualifies and the product's own detail page.
    pub websites: Vec<(String, String)>,
}

impl Product {
    /// The slugs this product declares, as character sequences.
    pub open spec fn slug_views(&self) -> Seq<Seq<char>> {
        self.categories@.map_values(|s: String| s@)
    }
}

/// A reference to one remote icon asset.
#[derive(Debug, Clone)]
pub struct Icon {
    /// Where the asset lives; the deduplication key.
    pub url: String,
    /// The output file name, logical name plus final extension.
    pub filename: String,
    /// Logical name, snake-cased from the owning entity's name.
    pub name: String,
    /// The lowercased extension taken from the source address.
    pub extension: String,
}

impl Icon {
    /// What the stored extension is: the text after the last dot of the
    /// address (the whole address when it has no dot), lowercased.
    pub open spec fn extension_of(url: Seq<char>) -> Seq<char> {
        text::lower_of(text::after_last(url, '.'))
    }

    /// Whether the stored extension names a vector asset.
    pub open spec fn is_svg_spec(&self) -> bool {
        self.extension@ == "svg"@
    }

    /// The final extension of the output file for a given source extension:
    /// vector sources stay vector, everything else becomes raster.
    pub open spec fn final_extension(ext: Seq<char>) -> Seq<char> {
        if ext == "svg"@ {
            "svg"@
        } else {
            "png"@
        }
    }

    /// Builds the icon reference for an asset address and the name of the
    /// owning entity.
    pub fn from_url(url: String, entity_name: &str) -> (r: Icon)
        ensures
            r.url@ == url@,
            r.name@ == text::snake_case_of(entity_name@),
            r.extension@ == Self::extension_of(url@),
            r.filename@ == r.name@ + "."@ + Self::final_extension(r.extension@),
    {
        let name = text::snake_case(entity_name);
        let url_chars = text::chars_of(url.as_str());
        let ext_raw = text::after_last_chars(&url_chars, '.');
        let ext_string = text::string_from_chars(&ext_raw);
        let extension = text::lowercase(ext_string.as_str());
        let mut filename = name.clone();
        filename.append(".");
        if text::str_eq(extension.as_str(), "svg") {
            filename.append("svg");
            proof {
                assert(filename@ == name@ + "."@ + "svg"@);
            }
        } else {
            filename.append("png");
            proof {
                assert(filename@ == name@ + "."@ + "png"@);
            }
        }
        Icon { url, filename, name, extension }
    }

    /// Whether the asset is already in vector form, judged by its
    /// lowercased extension.
    pub fn is_svg(&self) -> (r: bool)
        ensures
            r == self.is_svg_spec(),
    {
        text::str_eq(self.extension.as_str(), "svg")
    }

    /// Whether the asset is already in the raster output format.
    pub fn is_png(&self) -> (r: bool)
        ensures
            r == (self.extension@ == "png"@),
    {
        text::str_eq(self.extension.as_str(), "png")
    }
}

} // verus!
