//! Icon harvesting: one registry entry — and so one converted output file —
//! per unique source address, however many entities reference it; the
//! conversion decision per icon; and the manifest fragment for bundling.

use vstd::prelude::*;
use crate::catalog::distinct_keys;
use crate::country::{Country, COUNTRY_COUNT};
use crate::error::BuildError;
use crate::model::Icon;
use crate::text;
use crate::urls;

verus! {

/// The source addresses of a sequence of icons.
pub open spec fn urls_of(icons: Seq<Icon>) -> Seq<Seq<char>> {
    icons.map_values(|i: Icon| i.url@)
}

/// Registration of one icon: the entry holding its address is replaced, its
/// position kept; an unseen address is appended.
pub open spec fn register_spec(entries: Seq<Icon>, icon: Icon) -> Seq<Icon>
    decreases entries.len(),
{
    if entries.len() == 0 {
        seq![icon]
    } else if entries[0].url@ == icon.url@ {
        seq![icon] + entries.drop_first()
    } else {
        seq![entries[0]] + register_spec(entries.drop_first(), icon)
    }
}

/// The registry after registering a sequence of icons, in order.
pub open spec fn register_all_spec(entries: Seq<Icon>, icons: Seq<Icon>) -> Seq<Icon>
    decreases icons.len(),
{
    if icons.len() == 0 {
        entries
    } else {
        register_all_spec(register_spec(entries, icons[0]), icons.drop_first(), )
    }
}

/// How many registry entries carry a given source address.
pub open spec fn url_count(entries: Seq<Icon>, url: Seq<char>) -> int
    decreases entries.len(),
{
    if entries.len() == 0 {
        0
    } else {
        (if entries[0].url@ == url {
            1int
        } else {
            0int
        }) + url_count(entries.drop_first(), url)
    }
}

/// Registering an icon whose address stands at position `i` (and nowhere
/// earlier) replaces exactly that entry.
proof fn lemma_register_at(entries: Seq<Icon>, icon: Icon, i: int)
    requires
        0 <= i < entries.len(),
        entries[i].url@ == icon.url@,
        forall|t: int| 0 <= t < i ==> (#[trigger] entries[t]).url@ != icon.url@,
    ensures
        register_spec(entries, icon) =~= entries.update(i, icon),
    decreases entries.len(),
{
    let rest = entries.drop_first();
    assert(forall|t: int| 0 <= t < rest.len() ==> rest[t] == entries[t + 1]);
    if i == 0 {
        assert(register_spec(entries, icon) =~= entries.update(0, icon));
    } else {
        lemma_register_at(rest, icon, i - 1);
        assert(register_spec(entries, icon) =~= seq![entries[0]] + rest.update(i - 1, icon));
    }
}

/// Registering an icon with an unseen address appends it.
proof fn lemma_register_absent(entries: Seq<Icon>, icon: Icon)
    requires
        forall|t: int| 0 <= t < entries.len() ==> (#[trigger] entries[t]).url@ != icon.url@,
    ensures
        register_spec(entries, icon) =~= entries.push(icon),
    decreases entries.len(),
{
    if entries.len() > 0 {
        let rest = entries.drop_first();
        assert(forall|t: int| 0 <= t < rest.len() ==> rest[t] == entries[t + 1]);
        lemma_register_absent(rest, icon);
        assert(register_spec(entries, icon) =~= seq![entries[0]] + rest.push(icon));
    }
}

/// The icon registry: discovered icons keyed by source address, in
/// first-seen order, each address held exactly once.
pub struct IconRegistry {
    /// The registered icons, one per unique source address.
    pub entries: Vec<Icon>,
}

impl IconRegistry {
    /// The structural invariant: no two entries share a source address.
    pub open spec fn wf(&self) -> bool {
        distinct_keys(urls_of(self.entries@))
    }

    /// An empty registry.
    pub fn new() -> (r: IconRegistry)
        ensures
            r.entries@.len() == 0,
            r.wf(),
    {
        IconRegistry { entries: Vec::new() }
    }

    /// Registers one icon: a shared address keeps a single entry, the last
    /// registration winning; an unseen address joins at the end.
    pub fn register(&mut self, icon: Icon)
        requires
            old(self).wf(),
        ensures
            final(self).entries@ == register_spec(old(self).entries@, icon),
            final(self).wf(),
    {
        let ghost pre = self.entries@;
        let mut i: usize = 0;
        while i < self.entries.len()
            invariant
                pre == self.entries@,
                pre == old(self).entries@,
                distinct_keys(urls_of(pre)),
                i <= pre.len(),
                forall|t: int| 0 <= t < i ==> (#[trigger] pre[t]).url@ != icon.url@,
            decreases pre.len() - i,
        {
            if text::str_eq(self.entries[i].url.as_str(), icon.url.as_str()) {
                let ghost at = i as int;
                self.entries[i] = icon;
                proof {
                    lemma_register_at(pre, self.entries@[at], at);
                    assert(self.entries@ =~= pre.update(at, self.entries@[at]));
                    assert forall|a: int, b: int|
                        0 <= a < b < urls_of(self.entries@).len() implies urls_of(
                        self.entries@,
                    )[a] != urls_of(self.entries@)[b] by {
                        assert(urls_of(pre)[a] != urls_of(pre)[b]);
                        assert(urls_of(self.entries@)[a] == if a == at {
                            pre[at].url@
                        } else {
                            urls_of(pre)[a]
                        });
                        assert(urls_of(self.entries@)[b] == if b == at {
                            pre[at].url@
                        } else {
                            urls_of(pre)[b]
                        });
                    }
                }
                return ;
            }
            i += 1;
        }
        self.entries.push(icon);
        proof {
            lemma_register_absent(pre, icon);
            assert(self.entries@ =~= pre.push(icon));
            assert forall|a: int, b: int|
                0 <= a < b < urls_of(self.entries@).len() implies urls_of(self.entries@)[a]
                != urls_of(self.entries@)[b] by {
                if b < pre.len() {
                    assert(urls_of(pre)[a] != urls_of(pre)[b]);
                } else {
                    assert(pre[a].url@ != icon.url@);
                }
            }
        }
    }

    /// Registers a whole batch of discovered icons, in order.
    pub fn register_all(&mut self, icons: Vec<Icon>)
        requires
            old(self).wf(),
        ensures
            final(self).entries@ == register_all_spec(old(self).entries@, icons@),
            final(self).wf(),
    {
        let ghost icons0 = icons@;
        let mut rem = icons;
        proof {
            assert(rem@ =~= icons0.skip(0));
        }
        let ghost mut done: int = 0;
        while rem.len() > 0
            invariant
                icons0 == icons@,
                0 <= done,
                done + rem@.len() == icons0.len(),
                rem@ == icons0.skip(done),
                self.wf(),
                register_all_spec(self.entries@, rem@) == register_all_spec(
                    old(self).entries@,
                    icons0,
                ),
            decreases rem@.len(),
        {
            let ghost pre_rem = rem@;
            let one = rem.remove(0);
            proof {
                assert(pre_rem[0] == icons0[done]);
                assert(pre_rem.drop_first() =~= icons0.skip(done + 1));
                assert(rem@ =~= pre_rem.drop_first());
            }
            self.register(one);
            proof {
                done = done + 1;
            }
        }
        proof {
            assert(register_all_spec(self.entries@, rem@) == self.entries@);
        }
    }
}

/// Law: however many entities referenced it, a source address registered at
/// least once is held by exactly one entry, so exactly one output file is
/// converted for it.
pub proof fn lemma_one_entry_per_url(entries: Seq<Icon>, url: Seq<char>, i: int)
    requires
        distinct_keys(urls_of(entries)),
        0 <= i < entries.len(),
        entries[i].url@ == url,
    ensures
        url_count(entries, url) == 1,
    decreases entries.len(),
{
    let rest = entries.drop_first();
    assert(forall|t: int| 0 <= t < rest.len() ==> rest[t] == entries[t + 1]);
    assert forall|a: int, b: int|
        0 <= a < b < urls_of(rest).len() implies urls_of(rest)[a] != urls_of(rest)[b] by {
        assert(urls_of(entries)[a + 1] != urls_of(entries)[b + 1]);
    }
    if i == 0 {
        assert forall|t: int| 0 <= t < rest.len() implies (#[trigger] rest[t]).url@ != url by {
            assert(urls_of(entries)[0] != urls_of(entries)[t + 1]);
        }
        lemma_url_count_zero(rest, url);
    } else {
        assert(urls_of(entries)[0] != urls_of(entries)[i]);
        lemma_one_entry_per_url(rest, url, i - 1);
    }
}

/// An address carried by no entry is counted zero times.
proof fn lemma_url_count_zero(entries: Seq<Icon>, url: Seq<char>)
    requires
        forall|t: int| 0 <= t < entries.len() ==> (#[trigger] entries[t]).url@ != url,
    ensures
        url_count(entries, url) == 0,
    decreases entries.len(),
{
    if entries.len() > 0 {
        let rest = entries.drop_first();
        assert(forall|t: int| 0 <= t < rest.len() ==> rest[t] == entries[t + 1]);
        lemma_url_count_zero(rest, url);
    }
}

/// What resvg's canonicalizing pass yields for given bytes: parse with
/// image references confined to embedded data, then re-serialize; nothing
/// when the bytes are not a well-formed vector image. A function of the
/// bytes alone.
pub uninterp spec fn svg_canonical_of(b: Seq<u8>) -> Option<Seq<char>>;

/// Relies on resvg's `usvg::Tree::from_data` and `Tree::to_string`, with
/// otherwise-default options whose image resolver answers nothing for any
/// non-data reference — usvg's default would read such references from
/// disk, so it is replaced to keep the output a function of the input bytes
/// alone. A malformed image yields nothing.
#[verifier::external_body]
fn canonicalize_svg(bytes: &Vec<u8>) -> (r: Option<String>)
    ensures
        r is Some <==> svg_canonical_of(bytes@) is Some,
        r is Some ==> r->0@ == svg_canonical_of(bytes@)->0,
{
    let image_href_resolver = resvg::usvg::ImageHrefResolver {
        resolve_data: resvg::usvg::ImageHrefResolver::default_data_resolver(),
        resolve_string: Box::new(|_: &str, _: &resvg::usvg::Options| None),
    };
    let options = resvg::usvg::Options { image_href_resolver, ..resvg::usvg::Options::default() };
    let write_options = resvg::usvg::WriteOptions::default();
    let tree = resvg::usvg::Tree::from_data(bytes, &options).ok()?;
    Some(tree.to_string(&write_options))
}

/// What the raster re-encoding yields for given bytes: decode, then encode
/// as the raster output format; nothing when the bytes cannot be decoded. A
/// function of the bytes alone.
pub uninterp spec fn raster_encoding_of(b: Seq<u8>) -> Option<Seq<u8>>;

/// Relies on image's `load_from_memory` and `DynamicImage::write_to` with
/// the PNG format: decode-and-reencode whose output depends on the input
/// bytes alone; undecodable bytes yield nothing.
#[verifier::external_body]
fn encode_raster(bytes: &Vec<u8>) -> (r: Option<Vec<u8>>)
    ensures
        r is Some <==> raster_encoding_of(bytes@) is Some,
        r is Some ==> r->0@ == raster_encoding_of(bytes@)->0,
{
    let img = image::load_from_memory(bytes).ok()?;
    let mut out = std::io::Cursor::new(Vec::new());
    img.write_to(&mut out, image::ImageFormat::Png).ok()?;
    Some(out.into_inner())
}

/// The bytes to write for one fetched icon.
#[derive(Debug)]
pub enum IconOutput {
    /// A canonicalized vector document.
    Vector(String),
    /// Raster bytes, passed through or re-encoded.
    Raster(Vec<u8>),
}

/// Converts one fetched icon: a vector source is canonicalized, a source
/// already in the raster output format passes through unchanged, and any
/// other raster source is re-encoded. A failed parse or decode is a
/// conversion error.
pub fn convert_icon(icon: &Icon, bytes: Vec<u8>) -> (r: Result<IconOutput, BuildError>)
    ensures
        match r {
            Ok(out) => {
                &&& icon.is_svg_spec() ==> svg_canonical_of(bytes@) is Some && out is Vector
                    && out->Vector_0@ == svg_canonical_of(bytes@)->0
                &&& !icon.is_svg_spec() && icon.extension@ == "png"@ ==> out is Raster
                    && out->Raster_0@ == bytes@
                &&& !icon.is_svg_spec() && icon.extension@ != "png"@ ==> raster_encoding_of(
                    bytes@,
                ) is Some && out is Raster && out->Raster_0@ == raster_encoding_of(bytes@)->0
            },
            Err(e) => {
                &&& e is Conversion
                &&& icon.is_svg_spec() ==> svg_canonical_of(bytes@) is None
                &&& !icon.is_svg_spec() ==> icon.extension@ != "png"@ && raster_encoding_of(
                    bytes@,
                ) is None
            },
        },
{
    if icon.is_svg() {
        match canonicalize_svg(&bytes) {
            Some(xml) => Ok(IconOutput::Vector(xml)),
            None => {
                let mut m = String::new();
                m.append("vector icon could not be parsed: ");
                m.append(icon.url.as_str());
                Err(BuildError::Conversion(m))
            },
        }
    } else if icon.is_png() {
        Ok(IconOutput::Raster(bytes))
    } else {
        match encode_raster(&bytes) {
            Some(out) => Ok(IconOutput::Raster(out)),
            None => {
                let mut m = String::new();
                m.append("raster icon could not be decoded: ");
                m.append(icon.url.as_str());
                Err(BuildError::Conversion(m))
            },
        }
    }
}

/// The manifest line of one icon: vector files are compressed with blank
/// stripping, raster files compressed only.
pub open spec fn manifest_line_spec(icon: Icon) -> Seq<char> {
    if icon.extension@ == "svg"@ {
        "<file compressed=\"true\" preprocess=\"xml-stripblanks\" alias=\""@ + icon.filename@
            + "\">"@ + icon.filename@ + "</file>"@
    } else {
        "<file compressed=\"true\" alias=\""@ + icon.filename@ + "\">"@ + icon.filename@
            + "</file>"@
    }
}

/// The manifest fragment listing the output files of every registered icon,
/// one line each, in registry order.
pub open spec fn manifest_spec(entries: Seq<Icon>) -> Seq<char> {
    text::join_with(entries.map_values(|i: Icon| manifest_line_spec(i)), "\n"@)
}

/// Builds the manifest fragment for the registered icons.
pub fn build_resources_xml(registry: &IconRegistry) -> (r: String)
    ensures
        r@ == manifest_spec(registry.entries@),
{
    let mut lines: Vec<Vec<char>> = Vec::new();
    let mut i: usize = 0;
    let ghost line_views = registry.entries@.map_values(|ic: Icon| manifest_line_spec(ic));
    while i < registry.entries.len()
        invariant
            line_views == registry.entries@.map_values(|ic: Icon| manifest_line_spec(ic)),
            i <= registry.entries@.len(),
            lines@.len() == i,
            forall|t: int| 0 <= t < i ==> (#[trigger] lines@[t])@ == line_views[t],
        decreases registry.entries@.len() - i,
    {
        let icon = &registry.entries[i];
        let mut line = String::new();
        if icon.is_svg() {
            line.append("<file compressed=\"true\" preprocess=\"xml-stripblanks\" alias=\"");
        } else {
            line.append("<file compressed=\"true\" alias=\"");
        }
        line.append(icon.filename.as_str());
        line.append("\">");
        line.append(icon.filename.as_str());
        line.append("</file>");
        lines.push(text::chars_of(line.as_str()));
        i += 1;
    }
    let mut sep: Vec<char> = Vec::new();
    sep.push('\n');
    proof {
        assert(sep@ =~= "\n"@) by {
            reveal_strlit("\n");
        }
        assert(lines@.map_values(|p: Vec<char>| p@) =~= line_views);
    }
    let joined = text::join_chars(&lines, &sep);
    text::string_from_chars(&joined)
}

/// The flag icons of every country, in enumeration order, each named by the
/// country's slug and addressed by its flag code.
pub fn country_flag_icons() -> (r: Vec<Icon>)
    ensures
        r@.len() == COUNTRY_COUNT,
        forall|i: int|
            0 <= i < r@.len() ==> {
                let c = Country::all_spec()[i];
                &&& (#[trigger] r@[i]).url@ == "https://cdn.european-alternatives.eu/countryFlags/4x3/"@
                    + c.code_spec() + ".svg"@
                &&& r@[i].name@ == text::snake_case_of(c.slug_spec())
            },
{
    let countries = Country::all();
    let mut out: Vec<Icon> = Vec::new();
    let mut i: usize = 0;
    while i < countries.len()
        invariant
            countries@ == Country::all_spec(),
            i <= countries@.len(),
            out@.len() == i,
            forall|t: int|
                0 <= t < i ==> {
                    let c = Country::all_spec()[t];
                    &&& (#[trigger] out@[t]).url@
                        == "https://cdn.european-alternatives.eu/countryFlags/4x3/"@
                        + c.code_spec() + ".svg"@
                    &&& out@[t].name@ == text::snake_case_of(c.slug_spec())
                },
        decreases countries@.len() - i,
    {
        let c = countries[i];
        let url = urls::flag_url(c.code());
        let icon = Icon::from_url(url, c.slug());
        out.push(icon);
        i += 1;
    }
    out
}

} // verus!
