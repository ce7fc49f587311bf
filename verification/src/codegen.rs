//! Serialization of an indexed catalog into a compiled literal: string
//! tables, build-time static lookup maps for slugs and names, and nested
//! position lists for the reverse indices.

use vstd::prelude::*;
use crate::catalog::{Catalog, find_key, lookup};
use crate::country::Country;
use crate::error::BuildError;
use crate::model::{Category, Product};
use crate::text;

verus! {

/// The character of one decimal digit.
pub open spec fn digit_char(d: int) -> char {
    if d == 0 {
        '0'
    } else if d == 1 {
        '1'
    } else if d == 2 {
        '2'
    } else if d == 3 {
        '3'
    } else if d == 4 {
        '4'
    } else if d == 5 {
        '5'
    } else if d == 6 {
        '6'
    } else if d == 7 {
        '7'
    } else if d == 8 {
        '8'
    } else {
        '9'
    }
}

/// The decimal rendering of a number, most significant digit first.
pub open spec fn dec_spec(n: nat) -> Seq<char>
    decreases n,
{
    if n < 10 {
        seq![digit_char(n as int)]
    } else {
        dec_spec(n / 10) + seq![digit_char((n % 10) as int)]
    }
}

/// Renders one decimal digit.
fn digit_of(d: usize) -> (c: char)
    requires
        d < 10,
    ensures
        c == digit_char(d as int),
{
    match d {
        0 => '0',
        1 => '1',
        2 => '2',
        3 => '3',
        4 => '4',
        5 => '5',
        6 => '6',
        7 => '7',
        8 => '8',
        _ => '9',
    }
}

/// Renders a position as decimal text.
pub fn usize_chars(n: usize) -> (v: Vec<char>)
    ensures
        v@ == dec_spec(n as nat),
    decreases n,
{
    if n < 10 {
        let mut v: Vec<char> = Vec::new();
        v.push(digit_of(n));
        proof {
            assert(v@ =~= dec_spec(n as nat));
        }
        v
    } else {
        let mut v = usize_chars(n / 10);
        v.push(digit_of(n % 10));
        proof {
            assert(v@ =~= dec_spec((n / 10) as nat) + seq![digit_char((n % 10) as int)]);
        }
        v
    }
}

/// The escaping of one character inside a generated string literal.
pub open spec fn escaped_char(c: char) -> Seq<char> {
    if c == '"' {
        seq!['\\', '"']
    } else if c == '\\' {
        seq!['\\', '\\']
    } else if c == '\n' {
        seq!['\\', 'n']
    } else if c == '\r' {
        seq!['\\', 'r']
    } else if c == '\t' {
        seq!['\\', 't']
    } else {
        seq![c]
    }
}

/// The body of a generated string literal: each character escaped.
pub open spec fn escaped_spec(s: Seq<char>) -> Seq<char>
    decreases s.len(),
{
    if s.len() == 0 {
        seq![]
    } else {
        escaped_spec(s.drop_last()) + escaped_char(s.last())
    }
}

/// A generated string literal: quotes around the escaped body.
pub open spec fn quoted_spec(s: Seq<char>) -> Seq<char> {
    seq!['"'] + escaped_spec(s) + seq!['"']
}

/// Renders a string as a quoted literal with escaped contents.
pub fn quote_str(s: &str) -> (r: Vec<char>)
    ensures
        r@ == quoted_spec(s@),
{
    let chars = text::chars_of(s);
    let mut out: Vec<char> = Vec::new();
    out.push('"');
    let mut i: usize = 0;
    proof {
        assert(s@.subrange(0, 0) =~= Seq::<char>::empty());
        assert(out@ =~= seq!['"'] + escaped_spec(s@.subrange(0, 0)));
    }
    while i < chars.len()
        invariant
            chars@ == s@,
            i <= s@.len(),
            out@ == seq!['"'] + escaped_spec(s@.subrange(0, i as int)),
        decreases s@.len() - i,
    {
        let ghost pre = s@.subrange(0, i as int);
        proof {
            let cur = s@.subrange(0, i as int + 1);
            assert(cur.drop_last() =~= pre);
            assert(cur.last() == s@[i as int]);
        }
        let c = chars[i];
        if c == '"' {
            out.push('\\');
            out.push('"');
        } else if c == '\\' {
            out.push('\\');
            out.push('\\');
        } else if c == '\n' {
            out.push('\\');
            out.push('n');
        } else if c == '\r' {
            out.push('\\');
            out.push('r');
        } else if c == '\t' {
            out.push('\\');
            out.push('t');
        } else {
            out.push(c);
        }
        i += 1;
        proof {
            assert(out@ =~= seq!['"'] + escaped_spec(s@.subrange(0, i as int)));
        }
    }
    out.push('"');
    proof {
        assert(s@.subrange(0, s@.len() as int) =~= s@);
        assert(out@ =~= quoted_spec(s@));
    }
    out
}

/// What phf's build-time map generation emits for the given entries, in
/// insertion order. A function of the entries alone.
pub uninterp spec fn phf_code_of(entries: Seq<(Seq<char>, Seq<char>)>) -> Seq<char>;

/// The views of key-value code pairs.
pub open spec fn entry_views(entries: Seq<(String, String)>) -> Seq<(Seq<char>, Seq<char>)> {
    entries.map_values(|e: (String, String)| (e.0@, e.1@))
}

/// Relies on phf_codegen's `Map::entry` and `Map::build`: a build-time
/// static map literal computed from the entries alone, with a fixed
/// generation seed. `build` panics on a duplicate key, so the keys must be
/// distinct.
#[verifier::external_body]
fn phf_map_code(entries: &Vec<(String, String)>) -> (r: String)
    requires
        forall|a: int, b: int|
            0 <= a < b < entries@.len() ==> (#[trigger] entries@[a]).0@ != (
            #[trigger] entries@[b]).0@,
    ensures
        r@ == phf_code_of(entry_views(entries@)),
{
    let mut m = phf_codegen::Map::new();
    for e in entries.iter() {
        m.entry(e.0.as_str(), e.1.as_str());
    }
    m.build().to_string()
}

/// The generated code of one category literal.
pub open spec fn category_code_spec(c: Category) -> Seq<char> {
    "crate::models::Category{slug:"@ + quoted_spec(c.slug@) + ",name:"@ + quoted_spec(c.name@)
        + ",summary:"@ + quoted_spec(c.summary@) + ",description:"@ + quoted_spec(c.description@)
        + ",icon:"@ + quoted_spec(c.icon@) + "}"@
}

/// The generated code of an optional country.
pub open spec fn country_code_spec(c: Option<Country>) -> Seq<char> {
    match c {
        Some(c) => "Some(crate::models::Country::"@ + c.variant_spec() + ")"@,
        None => "None"@,
    }
}

/// The generated code of one website pair.
pub open spec fn website_code_spec(w: (String, String)) -> Seq<char> {
    "("@ + quoted_spec(w.0@) + ","@ + quoted_spec(w.1@) + ")"@
}

/// Appends the characters of `piece` to `out`.
fn push_all(out: &mut Vec<char>, piece: &Vec<char>)
    ensures
        final(out)@ == old(out)@ + piece@,
{
    let mut k: usize = 0;
    proof {
        assert(old(out)@ + piece@.subrange(0, 0) =~= old(out)@);
    }
    while k < piece.len()
        invariant
            k <= piece@.len(),
            out@ == old(out)@ + piece@.subrange(0, k as int),
        decreases piece@.len() - k,
    {
        out.push(piece[k]);
        k += 1;
        proof {
            assert(out@ =~= old(out)@ + piece@.subrange(0, k as int));
        }
    }
    proof {
        assert(piece@.subrange(0, piece@.len() as int) =~= piece@);
    }
}

/// Appends a string literal's characters to `out`.
fn push_str_chars(out: &mut Vec<char>, piece: &str)
    ensures
        final(out)@ == old(out)@ + piece@,
{
    let v = text::chars_of(piece);
    push_all(out, &v);
}

/// The rendered position of one declared slug in the slug index.
pub open spec fn cat_index_code_spec(
    slug_index: Seq<(String, usize)>,
    slug: Seq<char>,
) -> Seq<char> {
    dec_spec(lookup(slug_index, slug)->0 as nat)
}

/// The rendered list of category positions a product declares.
pub open spec fn cat_indices_spec(
    slug_index: Seq<(String, usize)>,
    cats: Seq<Seq<char>>,
) -> Seq<char> {
    text::join_with(cats.map_values(|s: Seq<char>| cat_index_code_spec(slug_index, s)), ","@)
}

/// The generated code of one product literal, category slugs rendered as
/// their positions in the slug index.
pub open spec fn product_code_spec(slug_index: Seq<(String, usize)>, p: Product) -> Seq<char> {
    "crate::models::Product{categories:&["@ + cat_indices_spec(
        slug_index,
        p.slug_views(),
    ) + "],name:"@ + quoted_spec(p.name@) + ",country:"@ + country_code_spec(p.country)
        + ",description:"@ + quoted_spec(p.description@) + ",summary:"@ + quoted_spec(p.summary@)
        + ",logo:"@ + quoted_spec(p.logo@) + ",websites:&["@ + text::join_with(
        p.websites@.map_values(|w: (String, String)| website_code_spec(w)),
        ","@,
    ) + "]}"@
}

/// The rendered position list of one reverse-index bucket.
pub open spec fn bucket_code_spec(b: Seq<usize>) -> Seq<char> {
    "&["@ + text::join_with(b.map_values(|u: usize| dec_spec(u as nat)), ","@) + "]"@
}

/// The key-value pairs handed to the static-map generator: each key of the
/// index with its rendered position.
pub open spec fn map_entry_views(index: Seq<(String, usize)>) -> Seq<(Seq<char>, Seq<char>)> {
    index.map_values(|e: (String, usize)| (e.0@, dec_spec(e.1 as nat)))
}

/// The complete generated catalog literal: string tables, two build-time
/// static lookup maps, and the nested reverse-index position lists.
pub open spec fn catalog_code_spec(c: Catalog) -> Seq<char> {
    "crate::models::Catalog{categories:&["@ + text::join_with(
        c.categories@.map_values(|cat: Category| category_code_spec(cat)),
        ","@,
    ) + "],products:&["@ + text::join_with(
        c.products@.map_values(|p: Product| product_code_spec(c.slug_index@, p)),
        ","@,
    ) + "],categories_map:"@ + phf_code_of(map_entry_views(c.slug_index@)) + ",products_map:"@
        + phf_code_of(map_entry_views(c.name_index@)) + ",category_products:&["@
        + text::join_with(
        c.category_to_products@.map_values(|b: Vec<usize>| bucket_code_spec(b@)),
        ","@,
    ) + "],country_products:&["@ + text::join_with(
        c.country_to_products@.map_values(|b: Vec<usize>| bucket_code_spec(b@)),
        ","@,
    ) + "]}"@
}

/// Joins rendered pieces with a comma.
fn join_comma(parts: &Vec<Vec<char>>) -> (r: Vec<char>)
    ensures
        r@ == text::join_with(parts@.map_values(|p: Vec<char>| p@), ","@),
{
    let mut sep: Vec<char> = Vec::new();
    sep.push(',');
    proof {
        assert(sep@ =~= ","@) by {
            reveal_strlit(",");
        }
    }
    text::join_chars(parts, &sep)
}

/// Renders the declared category positions of one product.
fn cat_indices_code(slug_index: &Vec<(String, usize)>, cats: &Vec<String>) -> (r: Result<
    Vec<char>,
    BuildError,
>)
    ensures
        match r {
            Ok(v) => v@ == cat_indices_spec(
                slug_index@,
                cats@.map_values(|s: String| s@),
            ),
            Err(e) => e is Data && exists|t: int|
                0 <= t < cats@.len() && lookup(slug_index@, (#[trigger] cats@[t])@) is None,
        },
{
    let ghost cat_views = cats@.map_values(|s: String| s@);
    let ghost rendered = cat_views.map_values(
        |s: Seq<char>| cat_index_code_spec(slug_index@, s),
    );
    let mut parts: Vec<Vec<char>> = Vec::new();
    let mut i: usize = 0;
    while i < cats.len()
        invariant
            cat_views == cats@.map_values(|s: String| s@),
            rendered == cat_views.map_values(|s: Seq<char>| cat_index_code_spec(slug_index@, s)),
            i <= cats@.len(),
            parts@.len() == i,
            forall|t: int| 0 <= t < i ==> (#[trigger] parts@[t])@ == rendered[t],
        decreases cats@.len() - i,
    {
        match find_key(slug_index, cats[i].as_str()) {
            Some(ci) => {
                parts.push(usize_chars(ci));
            },
            None => {
                let mut m = String::new();
                m.append("product declares an unknown category slug: ");
                m.append(cats[i].as_str());
                return Err(BuildError::Data(m));
            },
        }
        i += 1;
    }
    proof {
        assert(parts@.map_values(|p: Vec<char>| p@) =~= rendered);
    }
    Ok(join_comma(&parts))
}

/// Renders one product literal.
#[verifier::rlimit(50)]
pub fn product_code(slug_index: &Vec<(String, usize)>, p: &Product) -> (r: Result<
    Vec<char>,
    BuildError,
>)
    ensures
        match r {
            Ok(v) => v@ == product_code_spec(slug_index@, *p),
            Err(e) => e is Data && exists|t: int|
                0 <= t < p.categories@.len() && lookup(
                    slug_index@,
                    (#[trigger] p.categories@[t])@,
                ) is None,
        },
{
    let idxs = match cat_indices_code(slug_index, &p.categories) {
        Ok(v) => v,
        Err(e) => {
            return Err(e);
        },
    };
    let mut out: Vec<char> = Vec::new();
    push_str_chars(&mut out, "crate::models::Product{categories:&[");
    push_all(&mut out, &idxs);
    push_str_chars(&mut out, "],name:");
    let q = quote_str(p.name.as_str());
    push_all(&mut out, &q);
    push_str_chars(&mut out, ",country:");
    match &p.country {
        Some(c) => {
            push_str_chars(&mut out, "Some(crate::models::Country::");
            push_str_chars(&mut out, c.variant_name());
            push_str_chars(&mut out, ")");
        },
        None => {
            push_str_chars(&mut out, "None");
        },
    }
    push_str_chars(&mut out, ",description:");
    let q = quote_str(p.description.as_str());
    push_all(&mut out, &q);
    push_str_chars(&mut out, ",summary:");
    let q = quote_str(p.summary.as_str());
    push_all(&mut out, &q);
    push_str_chars(&mut out, ",logo:");
    let q = quote_str(p.logo.as_str());
    push_all(&mut out, &q);
    push_str_chars(&mut out, ",websites:&[");
    let ghost site_views = p.websites@.map_values(|w: (String, String)| website_code_spec(w));
    let mut sites: Vec<Vec<char>> = Vec::new();
    let mut i: usize = 0;
    while i < p.websites.len()
        invariant
            site_views == p.websites@.map_values(|w: (String, String)| website_code_spec(w)),
            i <= p.websites@.len(),
            sites@.len() == i,
            forall|t: int| 0 <= t < i ==> (#[trigger] sites@[t])@ == site_views[t],
        decreases p.websites@.len() - i,
    {
        let mut piece: Vec<char> = Vec::new();
        push_str_chars(&mut piece, "(");
        let q = quote_str(p.websites[i].0.as_str());
        push_all(&mut piece, &q);
        push_str_chars(&mut piece, ",");
        let q = quote_str(p.websites[i].1.as_str());
        push_all(&mut piece, &q);
        push_str_chars(&mut piece, ")");
        sites.push(piece);
        i += 1;
    }
    proof {
        assert(sites@.map_values(|v: Vec<char>| v@) =~= site_views);
    }
    let joined = join_comma(&sites);
    push_all(&mut out, &joined);
    push_str_chars(&mut out, "]}");
    Ok(out)
}

/// Renders one reverse-index bucket.
fn bucket_code(b: &Vec<usize>) -> (r: Vec<char>)
    ensures
        r@ == bucket_code_spec(b@),
{
    let ghost rendered = b@.map_values(|u: usize| dec_spec(u as nat));
    let mut parts: Vec<Vec<char>> = Vec::new();
    let mut i: usize = 0;
    while i < b.len()
        invariant
            rendered == b@.map_values(|u: usize| dec_spec(u as nat)),
            i <= b@.len(),
            parts@.len() == i,
            forall|t: int| 0 <= t < i ==> (#[trigger] parts@[t])@ == rendered[t],
        decreases b@.len() - i,
    {
        parts.push(usize_chars(b[i]));
        i += 1;
    }
    proof {
        assert(parts@.map_values(|p: Vec<char>| p@) =~= rendered);
    }
    let mut out: Vec<char> = Vec::new();
    push_str_chars(&mut out, "&[");
    let joined = join_comma(&parts);
    push_all(&mut out, &joined);
    push_str_chars(&mut out, "]");
    out
}

/// Renders the static-map entries of a lookup index.
fn map_entries(index: &Vec<(String, usize)>) -> (r: Vec<(String, String)>)
    ensures
        entry_views(r@) == map_entry_views(index@),
        r@.len() == index@.len(),
        forall|t: int|
            0 <= t < r@.len() ==> (#[trigger] r@[t]).0@ == index@[t].0@,
{
    let mut out: Vec<(String, String)> = Vec::new();
    let mut i: usize = 0;
    while i < index.len()
        invariant
            i <= index@.len(),
            out@.len() == i,
            forall|t: int|
                0 <= t < i ==> (#[trigger] out@[t]).0@ == index@[t].0@ && out@[t].1@ == dec_spec(
                    index@[t].1 as nat,
                ),
        decreases index@.len() - i,
    {
        let key = index[i].0.clone();
        let digits = usize_chars(index[i].1);
        out.push((key, text::string_from_chars(&digits)));
        i += 1;
    }
    proof {
        assert(entry_views(out@) =~= map_entry_views(index@));
    }
    out
}

/// Renders the complete catalog literal for embedding.
pub fn catalog_code(c: &Catalog) -> (r: String)
    requires
        c.wf(),
    ensures
        r@ == catalog_code_spec(*c),
{
    let mut out: Vec<char> = Vec::new();
    push_str_chars(&mut out, "crate::models::Catalog{categories:&[");
    let ghost cat_views = c.categories@.map_values(|cat: Category| category_code_spec(cat));
    let mut pieces: Vec<Vec<char>> = Vec::new();
    let mut i: usize = 0;
    while i < c.categories.len()
        invariant
            cat_views == c.categories@.map_values(|cat: Category| category_code_spec(cat)),
            i <= c.categories@.len(),
            pieces@.len() == i,
            forall|t: int| 0 <= t < i ==> (#[trigger] pieces@[t])@ == cat_views[t],
        decreases c.categories@.len() - i,
    {
        pieces.push(category_code(&c.categories[i]));
        i += 1;
    }
    proof {
        assert(pieces@.map_values(|p: Vec<char>| p@) =~= cat_views);
    }
    let joined = join_comma(&pieces);
    push_all(&mut out, &joined);
    push_str_chars(&mut out, "],products:&[");
    let ghost prod_views = c.products@.map_values(|p: Product| product_code_spec(c.slug_index@, p));
    let mut pieces: Vec<Vec<char>> = Vec::new();
    let mut i: usize = 0;
    while i < c.products.len()
        invariant
            c.wf(),
            prod_views == c.products@.map_values(
                |p: Product| product_code_spec(c.slug_index@, p),
            ),
            i <= c.products@.len(),
            pieces@.len() == i,
            forall|t: int| 0 <= t < i ==> (#[trigger] pieces@[t])@ == prod_views[t],
        decreases c.products@.len() - i,
    {
        match product_code(&c.slug_index, &c.products[i]) {
            Ok(v) => {
                pieces.push(v);
            },
            Err(e) => {
                proof {
                    let t = choose|t: int|
                        0 <= t < c.products@[i as int].categories@.len() && lookup(
                            c.slug_index@,
                            (#[trigger] c.products@[i as int].categories@[t])@,
                        ) is None;
                    assert(c.slug_seq().contains(c.products@[i as int].slug_views()[t]));
                    let w = choose|w: int|
                        0 <= w < c.slug_seq().len() && c.slug_seq()[w] == c.products@[
                            i as int
                        ].slug_views()[t];
                    crate::catalog::lemma_exact_index_lookup(c.slug_index@, c.slug_seq(), w);
                    assert(false);
                }
                pieces.push(Vec::new());
            },
        }
        i += 1;
    }
    proof {
        assert(pieces@.map_values(|p: Vec<char>| p@) =~= prod_views);
    }
    let joined = join_comma(&pieces);
    push_all(&mut out, &joined);
    push_str_chars(&mut out, "],categories_map:");
    let slug_entries = map_entries(&c.slug_index);
    proof {
        assert forall|a: int, b: int| 0 <= a < b < slug_entries@.len() implies (
        #[trigger] slug_entries@[a]).0@ != (#[trigger] slug_entries@[b]).0@ by {
            assert(c.slug_index@[a].0@ == c.slug_seq()[a]);
            assert(c.slug_index@[b].0@ == c.slug_seq()[b]);
        }
    }
    let phf_slugs = phf_map_code(&slug_entries);
    push_str_chars(&mut out, phf_slugs.as_str());
    push_str_chars(&mut out, ",products_map:");
    let name_entries = map_entries(&c.name_index);
    proof {
        assert forall|a: int, b: int| 0 <= a < b < name_entries@.len() implies (
        #[trigger] name_entries@[a]).0@ != (#[trigger] name_entries@[b]).0@ by {
            assert(c.name_index@[a].0@ == c.name_seq()[a]);
            assert(c.name_index@[b].0@ == c.name_seq()[b]);
        }
    }
    let phf_names = phf_map_code(&name_entries);
    push_str_chars(&mut out, phf_names.as_str());
    push_str_chars(&mut out, ",category_products:&[");
    let ghost cb_views = c.category_to_products@.map_values(|b: Vec<usize>| bucket_code_spec(b@));
    let mut pieces: Vec<Vec<char>> = Vec::new();
    let mut i: usize = 0;
    while i < c.category_to_products.len()
        invariant
            cb_views == c.category_to_products@.map_values(
                |b: Vec<usize>| bucket_code_spec(b@),
            ),
            i <= c.category_to_products@.len(),
            pieces@.len() == i,
            forall|t: int| 0 <= t < i ==> (#[trigger] pieces@[t])@ == cb_views[t],
        decreases c.category_to_products@.len() - i,
    {
        pieces.push(bucket_code(&c.category_to_products[i]));
        i += 1;
    }
    proof {
        assert(pieces@.map_values(|p: Vec<char>| p@) =~= cb_views);
    }
    let joined = join_comma(&pieces);
    push_all(&mut out, &joined);
    push_str_chars(&mut out, "],country_products:&[");
    let ghost ncb_views = c.country_to_products@.map_values(|b: Vec<usize>| bucket_code_spec(b@));
    let mut pieces: Vec<Vec<char>> = Vec::new();
    let mut i: usize = 0;
    while i < c.country_to_products.len()
        invariant
            ncb_views == c.country_to_products@.map_values(
                |b: Vec<usize>| bucket_code_spec(b@),
            ),
            i <= c.country_to_products@.len(),
            pieces@.len() == i,
            forall|t: int| 0 <= t < i ==> (#[trigger] pieces@[t])@ == ncb_views[t],
        decreases c.country_to_products@.len() - i,
    {
        pieces.push(bucket_code(&c.country_to_products[i]));
        i += 1;
    }
    proof {
        assert(pieces@.map_values(|p: Vec<char>| p@) =~= ncb_views);
    }
    let joined = join_comma(&pieces);
    push_all(&mut out, &joined);
    push_str_chars(&mut out, "]}");
    text::string_from_chars(&out)
}

/// Renders one category literal.
pub fn category_code(c: &Category) -> (r: Vec<char>)
    ensures
        r@ == category_code_spec(*c),
{
    let mut out: Vec<char> = Vec::new();
    push_str_chars(&mut out, "crate::models::Category{slug:");
    let q = quote_str(c.slug.as_str());
    push_all(&mut out, &q);
    push_str_chars(&mut out, ",name:");
    let q = quote_str(c.name.as_str());
    push_all(&mut out, &q);
    push_str_chars(&mut out, ",summary:");
    let q = quote_str(c.summary.as_str());
    push_all(&mut out, &q);
    push_str_chars(&mut out, ",description:");
    let q = quote_str(c.description.as_str());
    push_all(&mut out, &q);
    push_str_chars(&mut out, ",icon:");
    let q = quote_str(c.icon.as_str());
    push_all(&mut out, &q);
    push_str_chars(&mut out, "}");
    out
}

} // verus!
