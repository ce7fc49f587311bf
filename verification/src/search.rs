//! The search engine: product search text assembled from the catalog,
//! normalized and tokenized, and queries answered per category with the
//! country filter applied.

use vstd::prelude::*;
use crate::catalog::lookup;
use crate::country::Country;
use crate::model::Product;
use crate::repository::Repository;
use crate::text;

verus! {

/// The shortest word kept as a search token.
pub const MIN_TOKEN_LENGTH: usize = 3;

/// `s` restricted to alphanumeric and whitespace characters.
pub open spec fn filter_keep(s: Seq<char>) -> Seq<char>
    decreases s.len(),
{
    if s.len() == 0 {
        seq![]
    } else {
        let pre = filter_keep(s.drop_last());
        let c = s.last();
        if text::unicode_alnum(c) || text::unicode_space(c) {
            pre.push(c)
        } else {
            pre
        }
    }
}

/// The normalization of a text: lowercased, stripped to alphanumeric and
/// whitespace characters, with its words joined by single spaces.
pub open spec fn normalize_spec(s: Seq<char>) -> Seq<char> {
    text::join_with(text::words_spec(filter_keep(text::lower_of(s))), " "@)
}

/// The search tokens of a text: the words of its normalization whose
/// encoded byte length reaches the minimum.
pub open spec fn tokens_spec(s: Seq<char>) -> Seq<Seq<char>> {
    text::words_spec(normalize_spec(s)).filter(
        |w: Seq<char>| vstd::utf8::encode_utf8(w).len() >= MIN_TOKEN_LENGTH,
    )
}

/// Whether the UTF-8 encoding of `w` reaches `min` bytes.
fn has_min_bytes(w: &Vec<char>, min: usize) -> (r: bool)
    ensures
        r == (vstd::utf8::encode_utf8(w@).len() >= min),
{
    if min == 0 {
        return true;
    }
    let mut sum: usize = 0;
    let mut i: usize = 0;
    proof {
        assert(w@.skip(0) =~= w@);
    }
    while i < w.len()
        invariant
            i <= w@.len(),
            min >= 1,
            sum < min,
            vstd::utf8::encode_utf8(w@).len() == sum + vstd::utf8::encode_utf8(
                w@.skip(i as int),
            ).len(),
        decreases w@.len() - i,
    {
        let ghost tail = w@.skip(i as int);
        proof {
            assert(tail.drop_first() =~= w@.skip(i as int + 1));
            assert(tail[0] == w@[i as int]);
        }
        let u = w[i] as u32;
        let width: usize = if u <= 0x7F {
            1
        } else if u <= 0x7FF {
            2
        } else if u <= 0xFFFF {
            3
        } else {
            4
        };
        proof {
            vstd::utf8::char_is_scalar(w@[i as int]);
            assert(width == vstd::utf8::encode_scalar(w@[i as int] as u32).len());
        }
        if width >= min - sum {
            return true;
        }
        sum = sum + width;
        i += 1;
    }
    proof {
        assert(w@.skip(w@.len() as int) =~= Seq::<char>::empty());
    }
    false
}

/// The category name and description parts of a product's search text, in
/// declaration order; an unindexed slug contributes nothing.
pub open spec fn cat_parts(
    slug_index: Seq<(String, usize)>,
    categories: Seq<crate::model::Category>,
    slugs: Seq<Seq<char>>,
) -> Seq<Seq<char>>
    decreases slugs.len(),
{
    if slugs.len() == 0 {
        seq![]
    } else {
        let rest = cat_parts(slug_index, categories, slugs.drop_first());
        match lookup(slug_index, slugs[0]) {
            Some(ci) => if 0 <= ci < categories.len() {
                seq![categories[ci].name@, categories[ci].description@] + rest
            } else {
                rest
            },
            None => rest,
        }
    }
}

/// The parts of a product's search text: name, description, country name
/// when present, then each declared category's name and description.
pub open spec fn search_parts(repo: Repository, p: Product) -> Seq<Seq<char>> {
    let country_part: Seq<Seq<char>> = match p.country {
        Some(c) => seq![c.display_spec()],
        None => seq![],
    };
    seq![p.name@, p.description@] + country_part + cat_parts(
        repo.catalog.slug_index@,
        repo.catalog.categories@,
        p.slug_views(),
    )
}

/// A product's search text: its parts joined by spaces.
pub open spec fn search_text_spec(repo: Repository, p: Product) -> Seq<char> {
    text::join_with(search_parts(repo, p), " "@)
}

/// Whether some product token contains the query token or is contained in
/// it.
pub open spec fn token_hits(ptokens: Seq<Seq<char>>, qt: Seq<char>) -> bool {
    exists|t: int|
        0 <= t < ptokens.len() && (text::contains_sub(#[trigger] ptokens[t], qt)
            || text::contains_sub(qt, ptokens[t]))
}

/// Whether tokenized product text answers a tokenized query: every query
/// token is contained in some product token or contains one.
pub open spec fn matches_spec(ptokens: Seq<Seq<char>>, qtokens: Seq<Seq<char>>) -> bool
    decreases qtokens.len(),
{
    if qtokens.len() == 0 {
        true
    } else {
        token_hits(ptokens, qtokens[0]) && matches_spec(ptokens, qtokens.drop_first())
    }
}

/// Normalizes a text for searching.
pub fn normalize_text(s: &str) -> (r: String)
    ensures
        r@ == normalize_spec(s@),
{
    let lowered = text::lowercase(s);
    let chars = text::chars_of(lowered.as_str());
    let mut kept: Vec<char> = Vec::new();
    let mut i: usize = 0;
    proof {
        assert(chars@.subrange(0, 0) =~= Seq::<char>::empty());
        assert(filter_keep(chars@.subrange(0, 0)) =~= Seq::<char>::empty());
    }
    while i < chars.len()
        invariant
            chars@ == text::lower_of(s@),
            i <= chars@.len(),
            kept@ == filter_keep(chars@.subrange(0, i as int)),
        decreases chars@.len() - i,
    {
        let ghost pre = chars@.subrange(0, i as int);
        proof {
            let cur = chars@.subrange(0, i as int + 1);
            assert(cur.drop_last() =~= pre);
            assert(cur.last() == chars@[i as int]);
        }
        let c = chars[i];
        if text::char_is_alphanumeric(c) || text::char_is_whitespace(c) {
            kept.push(c);
        }
        i += 1;
    }
    proof {
        assert(chars@.subrange(0, chars@.len() as int) =~= chars@);
    }
    let words = text::split_words(&kept);
    let mut space: Vec<char> = Vec::new();
    space.push(' ');
    proof {
        assert(space@ =~= " "@) by {
            reveal_strlit(" ");
        }
    }
    let joined = text::join_chars(&words, &space);
    text::string_from_chars(&joined)
}

/// Tokenizes a text: normalized words of at least the minimum length.
pub fn tokenize(s: &str) -> (r: Vec<String>)
    ensures
        r@.map_values(|t: String| t@) == tokens_spec(s@),
{
    let normalized = normalize_text(s);
    let chars = text::chars_of(normalized.as_str());
    let words = text::split_words(&chars);
    let ghost word_views = words@.map_values(|w: Vec<char>| w@);
    let mut out: Vec<String> = Vec::new();
    let mut i: usize = 0;
    proof {
        assert(word_views.subrange(0, 0) =~= Seq::<Seq<char>>::empty());
        assert(word_views.subrange(0, 0).filter(
            |w: Seq<char>| vstd::utf8::encode_utf8(w).len() >= MIN_TOKEN_LENGTH,
        ) =~= Seq::<Seq<char>>::empty());
        assert(out@.map_values(|t: String| t@) =~= Seq::<Seq<char>>::empty());
    }
    while i < words.len()
        invariant
            word_views == words@.map_values(|w: Vec<char>| w@),
            word_views == text::words_spec(normalize_spec(s@)),
            i <= words@.len(),
            out@.map_values(|t: String| t@) == word_views.subrange(0, i as int).filter(
                |w: Seq<char>| vstd::utf8::encode_utf8(w).len() >= MIN_TOKEN_LENGTH,
            ),
        decreases words@.len() - i,
    {
        let ghost pre = word_views.subrange(0, i as int);
        let ghost cur = word_views.subrange(0, i as int + 1);
        proof {
            assert(cur.drop_last() =~= pre);
            assert(cur.last() == word_views[i as int]);
        }
        let ghost pre_out = out@.map_values(|t: String| t@);
        if has_min_bytes(&words[i], MIN_TOKEN_LENGTH) {
            out.push(text::string_from_chars(&words[i]));
            proof {
                assert(out@.map_values(|t: String| t@) =~= pre_out.push(word_views[i as int]));
            }
        }
        proof {
            reveal_with_fuel(Seq::<Seq<char>>::filter, 2);
            assert(cur.filter(
                |w: Seq<char>| vstd::utf8::encode_utf8(w).len() >= MIN_TOKEN_LENGTH,
            ) =~= pre.filter(
                |w: Seq<char>| vstd::utf8::encode_utf8(w).len() >= MIN_TOKEN_LENGTH,
            ) + if vstd::utf8::encode_utf8(word_views[i as int]).len() >= MIN_TOKEN_LENGTH {
                seq![word_views[i as int]]
            } else {
                Seq::<Seq<char>>::empty()
            });
        }
        i += 1;
    }
    proof {
        assert(word_views.subrange(0, word_views.len() as int) =~= word_views);
    }
    out
}

/// Assembles a product's search text from the catalog.
pub fn product_search_text(repo: &Repository, p: &Product) -> (r: String)
    ensures
        r@ == search_text_spec(*repo, *p),
{
    let ghost slugs = p.slug_views();
    let mut parts: Vec<Vec<char>> = Vec::new();
    parts.push(text::chars_of(p.name.as_str()));
    parts.push(text::chars_of(p.description.as_str()));
    match &p.country {
        Some(c) => {
            parts.push(text::chars_of(c.display_name()));
        },
        None => {},
    }
    let ghost base = parts@.map_values(|v: Vec<char>| v@);
    proof {
        assert(slugs.skip(0) =~= slugs);
    }
    let mut i: usize = 0;
    while i < p.categories.len()
        invariant
            slugs == p.slug_views(),
            i <= slugs.len(),
            slugs.len() == p.categories@.len(),
            parts@.map_values(|v: Vec<char>| v@) + cat_parts(
                repo.catalog.slug_index@,
                repo.catalog.categories@,
                slugs.skip(i as int),
            ) == search_parts(*repo, *p),
        decreases slugs.len() - i,
    {
        let ghost tail = slugs.skip(i as int);
        proof {
            assert(tail.drop_first() =~= slugs.skip(i as int + 1));
            assert(tail[0] == slugs[i as int]);
        }
        let ghost pre = parts@.map_values(|v: Vec<char>| v@);
        match crate::catalog::find_key(&repo.catalog.slug_index, p.categories[i].as_str()) {
            Some(ci) => {
                if ci < repo.catalog.categories.len() {
                    parts.push(text::chars_of(repo.catalog.categories[ci].name.as_str()));
                    parts.push(
                        text::chars_of(repo.catalog.categories[ci].description.as_str()),
                    );
                    proof {
                        let cs = repo.catalog.categories@;
                        assert(parts@.map_values(|v: Vec<char>| v@) =~= pre + seq![
                            cs[ci as int].name@,
                            cs[ci as int].description@,
                        ]);
                        assert(pre + (seq![cs[ci as int].name@, cs[ci as int].description@]
                            + cat_parts(
                            repo.catalog.slug_index@,
                            cs,
                            slugs.skip(i as int + 1),
                        )) =~= (pre + seq![cs[ci as int].name@, cs[ci as int].description@])
                            + cat_parts(repo.catalog.slug_index@, cs, slugs.skip(i as int + 1)));
                    }
                }
            },
            None => {},
        }
        i += 1;
    }
    proof {
        assert(slugs.skip(slugs.len() as int) =~= Seq::<Seq<char>>::empty());
        assert(parts@.map_values(|v: Vec<char>| v@) + Seq::<Seq<char>>::empty() =~= parts@
            .map_values(|v: Vec<char>| v@));
    }
    let mut space: Vec<char> = Vec::new();
    space.push(' ');
    proof {
        assert(space@ =~= " "@) by {
            reveal_strlit(" ");
        }
    }
    let joined = text::join_chars(&parts, &space);
    text::string_from_chars(&joined)
}

/// The per-category answer to one query: for every category, its listed
/// products in catalog bucket order, each flagged as included or not, and
/// whether anything at all was included.
pub struct CategorizedProductMatches {
    /// Per category position: the bucket's product positions, each with its
    /// inclusion flag.
    pub by_category: Vec<Vec<(usize, bool)>>,
    /// Whether any listed product was included.
    pub has_any_matches: bool,
}

/// The search engine: the repository and the pre-tokenized search text of
/// every product.
pub struct SearchEngine {
    /// The catalog served.
    pub repository: Repository,
    /// Per product position, its search tokens.
    pub product_tokens: Vec<Vec<String>>,
}

impl SearchEngine {
    /// The structural invariant: a well-formed catalog and one token list
    /// per product, each the tokens of that product's search text.
    pub open spec fn wf(&self) -> bool {
        &&& self.repository.catalog.wf()
        &&& self.product_tokens@.len() == self.repository.catalog.products@.len()
        &&& forall|p: int|
            0 <= p < self.product_tokens@.len() ==> (#[trigger] self.product_tokens@[p])@
                .map_values(|t: String| t@) == tokens_spec(
                search_text_spec(self.repository, self.repository.catalog.products@[p]),
            )
    }

    /// Indexes a repository for searching.
    pub fn new(repository: Repository) -> (r: SearchEngine)
        requires
            repository.catalog.wf(),
        ensures
            r.wf(),
            r.repository == repository,
    {
        let mut product_tokens: Vec<Vec<String>> = Vec::new();
        let mut p: usize = 0;
        while p < repository.catalog.products.len()
            invariant
                repository.catalog.wf(),
                p <= repository.catalog.products@.len(),
                product_tokens@.len() == p,
                forall|t: int|
                    0 <= t < p ==> (#[trigger] product_tokens@[t])@.map_values(|s: String| s@)
                        == tokens_spec(
                        search_text_spec(repository, repository.catalog.products@[t]),
                    ),
            decreases repository.catalog.products@.len() - p,
        {
            let txt = product_search_text(&repository, &repository.catalog.products[p]);
            product_tokens.push(tokenize(txt.as_str()));
            p += 1;
        }
        SearchEngine { repository, product_tokens }
    }

    /// Whether any product token relates to the query token by containment.
    fn token_matches(ptokens: &Vec<String>, qt: &str) -> (r: bool)
        ensures
            r == token_hits(ptokens@.map_values(|s: String| s@), qt@),
    {
        let ghost views = ptokens@.map_values(|s: String| s@);
        let qchars = text::chars_of(qt);
        let mut t: usize = 0;
        while t < ptokens.len()
            invariant
                views == ptokens@.map_values(|s: String| s@),
                qchars@ == qt@,
                t <= views.len(),
                forall|u: int|
                    0 <= u < t ==> !(text::contains_sub(#[trigger] views[u], qt@)
                        || text::contains_sub(qt@, views[u])),
            decreases views.len() - t,
        {
            let pchars = text::chars_of(ptokens[t].as_str());
            if text::contains_chars(&pchars, &qchars) || text::contains_chars(&qchars, &pchars) {
                proof {
                    assert(views[t as int] == (ptokens@[t as int])@);
                    assert(text::contains_sub(views[t as int], qt@) || text::contains_sub(
                        qt@,
                        views[t as int],
                    ));
                }
                return true;
            }
            proof {
                assert(views[t as int] == (ptokens@[t as int])@);
            }
            t += 1;
        }
        proof {
            if token_hits(views, qt@) {
                let w = choose|w: int|
                    0 <= w < views.len() && (text::contains_sub(#[trigger] views[w], qt@)
                        || text::contains_sub(qt@, views[w]));
                assert(false);
            }
        }
        false
    }

    /// Whether one product answers the tokenized query; an empty query
    /// matches everything.
    pub fn product_matches_query(&self, product_index: usize, query_tokens: &Vec<String>) -> (r:
        bool)
        requires
            self.wf(),
            product_index < self.repository.catalog.products@.len(),
        ensures
            r == matches_spec(
                tokens_spec(
                    search_text_spec(
                        self.repository,
                        self.repository.catalog.products@[product_index as int],
                    ),
                ),
                query_tokens@.map_values(|t: String| t@),
            ),
    {
        let ghost ptoks = tokens_spec(
            search_text_spec(
                self.repository,
                self.repository.catalog.products@[product_index as int],
            ),
        );
        let ghost qtoks = query_tokens@.map_values(|t: String| t@);
        let ptokens = &self.product_tokens[product_index];
        let mut q: usize = 0;
        proof {
            assert(qtoks.skip(0) =~= qtoks);
        }
        while q < query_tokens.len()
            invariant
                ptoks == (self.product_tokens@[product_index as int])@.map_values(
                    |t: String| t@,
                ),
                ptoks == tokens_spec(
                    search_text_spec(
                        self.repository,
                        self.repository.catalog.products@[product_index as int],
                    ),
                ),
                qtoks == query_tokens@.map_values(|t: String| t@),
                product_index < self.product_tokens@.len(),
                ptokens@ == self.product_tokens@[product_index as int]@,
                q <= qtoks.len(),
                matches_spec(ptoks, qtoks) == matches_spec(ptoks, qtoks.skip(q as int)),
            decreases qtoks.len() - q,
        {
            let ghost tail = qtoks.skip(q as int);
            proof {
                assert(tail.drop_first() =~= qtoks.skip(q as int + 1));
                assert(tail[0] == qtoks[q as int]);
                assert(qtoks[q as int] == query_tokens@[q as int]@);
            }
            if !Self::token_matches(ptokens, query_tokens[q].as_str()) {
                proof {
                    assert(!token_hits(ptoks, qtoks[q as int]));
                    assert(!matches_spec(ptoks, tail));
                }
                return false;
            }
            proof {
                assert(token_hits(ptoks, qtoks[q as int]));
            }
            q += 1;
        }
        proof {
            assert(qtoks.skip(qtoks.len() as int) =~= Seq::<Seq<char>>::empty());
        }
        true
    }

    /// The positions of the products answering the query, ascending.
    pub fn find_matching_products(&self, query: &str) -> (r: Vec<usize>)
        requires
            self.wf(),
        ensures
            forall|t: int|
                0 <= t < r@.len() ==> (#[trigger] r@[t]) < self.repository.catalog.products@.len()
                    && matches_spec(
                    tokens_spec(
                        search_text_spec(
                            self.repository,
                            self.repository.catalog.products@[r@[t] as int],
                        ),
                    ),
                    tokens_spec(query@),
                ),
            forall|p: int|
                0 <= p < self.repository.catalog.products@.len() && matches_spec(
                    tokens_spec(
                        search_text_spec(self.repository, self.repository.catalog.products@[p]),
                    ),
                    tokens_spec(query@),
                ) ==> r@.contains(p as usize),
            forall|a: int, b: int| 0 <= a < b < r@.len() ==> r@[a] < r@[b],
    {
        let query_tokens = tokenize(query);
        let mut out: Vec<usize> = Vec::new();
        let mut p: usize = 0;
        let n = self.repository.catalog.products.len();
        while p < n
            invariant
                self.wf(),
                n == self.repository.catalog.products@.len(),
                query_tokens@.map_values(|t: String| t@) == tokens_spec(query@),
                p <= n,
                forall|t: int|
                    0 <= t < out@.len() ==> (#[trigger] out@[t]) < p && matches_spec(
                        tokens_spec(
                            search_text_spec(
                                self.repository,
                                self.repository.catalog.products@[out@[t] as int],
                            ),
                        ),
                        tokens_spec(query@),
                    ),
                forall|u: int|
                    0 <= u < p && matches_spec(
                        tokens_spec(
                            search_text_spec(
                                self.repository,
                                self.repository.catalog.products@[u],
                            ),
                        ),
                        tokens_spec(query@),
                    ) ==> out@.contains(u as usize),
                forall|a: int, b: int| 0 <= a < b < out@.len() ==> out@[a] < out@[b],
            decreases n - p,
        {
            if self.product_matches_query(p, &query_tokens) {
                let ghost pre = out@;
                out.push(p);
                proof {
                    assert forall|u: int|
                        0 <= u < p + 1 && matches_spec(
                            tokens_spec(
                                search_text_spec(
                                    self.repository,
                                    self.repository.catalog.products@[u],
                                ),
                            ),
                            tokens_spec(query@),
                        ) implies out@.contains(u as usize) by {
                        if u < p {
                            assert(pre.contains(u as usize));
                            let w = choose|w: int| 0 <= w < pre.len() && pre[w] == u as usize;
                            assert(out@[w] == u as usize);
                        } else {
                            assert(out@[out@.len() - 1] == u as usize);
                        }
                    }
                }
            }
            p += 1;
        }
        out
    }
}


/// Whether a bucket entry is included for one query answer: its product was
/// matched and passes the country filter.
pub open spec fn include_spec(
    matched: Seq<usize>,
    country: Option<Country>,
    pos: usize,
    country_filter: Option<Country>,
) -> bool {
    matched.contains(pos) && (country_filter is None || country == country_filter)
}

/// Whether `v` holds the value `x`.
fn contains_usize(v: &Vec<usize>, x: usize) -> (r: bool)
    ensures
        r == v@.contains(x),
{
    let mut i: usize = 0;
    while i < v.len()
        invariant
            i <= v@.len(),
            forall|t: int| 0 <= t < i ==> (#[trigger] v@[t]) != x,
        decreases v@.len() - i,
    {
        if v[i] == x {
            return true;
        }
        i += 1;
    }
    false
}

/// Whether any built row carries a set inclusion flag.
fn any_flag(v: &Vec<Vec<(usize, bool)>>) -> (r: bool)
    ensures
        r == exists|j: int, t: int|
            0 <= j < v@.len() && 0 <= t < v@[j]@.len() && (#[trigger] v@[j]@[t]).1,
{
    let mut j: usize = 0;
    while j < v.len()
        invariant
            j <= v@.len(),
            forall|a: int, t: int|
                0 <= a < j && 0 <= t < v@[a]@.len() ==> !(#[trigger] v@[a]@[t]).1,
        decreases v@.len() - j,
    {
        let row = &v[j];
        let mut t: usize = 0;
        while t < row.len()
            invariant
                j < v@.len(),
                row@ == v@[j as int]@,
                t <= row@.len(),
                forall|u: int| 0 <= u < t ==> !(#[trigger] row@[u]).1,
            decreases row@.len() - t,
        {
            if row[t].1 {
                proof {
                    assert(0 <= j < v@.len() && 0 <= t < (v@[j as int])@.len() && (v@[
                        j as int
                    ]@[t as int]).1);
                }
                return true;
            }
            t += 1;
        }
        j += 1;
    }
    false
}

/// Flags one reverse-index bucket against the matched set and the country
/// filter: each product position paired with whether it is included.
fn flag_bucket(
    products: &Vec<crate::model::Product>,
    bucket: &Vec<usize>,
    matched: &Vec<usize>,
    country_filter: Option<Country>,
) -> (r: Vec<(usize, bool)>)
    requires
        forall|u: int| 0 <= u < bucket@.len() ==> (#[trigger] bucket@[u]) < products@.len(),
    ensures
        r@.len() == bucket@.len(),
        forall|u: int|
            0 <= u < r@.len() ==> (#[trigger] r@[u]).0 == bucket@[u] && r@[u].1 == include_spec(
                matched@,
                products@[bucket@[u] as int].country,
                bucket@[u],
                country_filter,
            ),
{
    let mut row: Vec<(usize, bool)> = Vec::new();
    let mut t: usize = 0;
    while t < bucket.len()
        invariant
            forall|u: int| 0 <= u < bucket@.len() ==> (#[trigger] bucket@[u]) < products@.len(),
            t <= bucket@.len(),
            row@.len() == t,
            forall|u: int|
                0 <= u < t ==> (#[trigger] row@[u]).0 == bucket@[u] && row@[u].1 == include_spec(
                    matched@,
                    products@[bucket@[u] as int].country,
                    bucket@[u],
                    country_filter,
                ),
        decreases bucket@.len() - t,
    {
        let pos = bucket[t];
        let in_matched = contains_usize(matched, pos);
        let country_ok = match country_filter {
            None => true,
            Some(cf) => {
                match &products[pos].country {
                    Some(pc) => *pc == cf,
                    None => false,
                }
            },
        };
        proof {
            assert(country_ok == (country_filter is None || products@[pos as int].country
                == country_filter));
        }
        row.push((pos, in_matched && country_ok));
        t += 1;
    }
    row
}

/// Flags every reverse-index bucket against the matched set and the country
/// filter, bucket by bucket.
fn flag_buckets(
    products: &Vec<crate::model::Product>,
    buckets: &Vec<Vec<usize>>,
    matched: &Vec<usize>,
    country_filter: Option<Country>,
) -> (r: Vec<Vec<(usize, bool)>>)
    requires
        forall|a: int, u: int|
            0 <= a < buckets@.len() && 0 <= u < buckets@[a]@.len() ==> (#[trigger] buckets@[a]@[
                u
            ]) < products@.len(),
    ensures
        r@.len() == buckets@.len(),
        forall|a: int| 0 <= a < r@.len() ==> (#[trigger] r@[a])@.len() == buckets@[a]@.len(),
        forall|a: int, u: int|
            0 <= a < r@.len() && 0 <= u < r@[a]@.len() ==> (#[trigger] r@[a]@[u]).0
                == buckets@[a]@[u] && buckets@[a]@[u] < products@.len(),
        forall|a: int, u: int|
            0 <= a < r@.len() && 0 <= u < r@[a]@.len() ==> (#[trigger] r@[a]@[u]).1
                == include_spec(
                matched@,
                products@[buckets@[a]@[u] as int].country,
                buckets@[a]@[u],
                country_filter,
            ),
{
    let mut out: Vec<Vec<(usize, bool)>> = Vec::new();
    let mut j: usize = 0;
    while j < buckets.len()
        invariant
            forall|a: int, u: int|
                0 <= a < buckets@.len() && 0 <= u < buckets@[a]@.len() ==> (
                #[trigger] buckets@[a]@[u]) < products@.len(),
            j <= buckets@.len(),
            out@.len() == j,
            forall|a: int| 0 <= a < j ==> (#[trigger] out@[a])@.len() == buckets@[a]@.len(),
            forall|a: int, u: int|
                0 <= a < j && 0 <= u < out@[a]@.len() ==> (#[trigger] out@[a]@[u]).0
                    == buckets@[a]@[u] && buckets@[a]@[u] < products@.len(),
            forall|a: int, u: int|
                0 <= a < j && 0 <= u < out@[a]@.len() ==> (#[trigger] out@[a]@[u]).1
                    == include_spec(
                    matched@,
                    products@[buckets@[a]@[u] as int].country,
                    buckets@[a]@[u],
                    country_filter,
                ),
        decreases buckets@.len() - j,
    {
        let bucket = &buckets[j];
        proof {
            assert forall|u: int| 0 <= u < bucket@.len() implies (#[trigger] bucket@[u])
                < products@.len() by {
                assert(buckets@[j as int]@[u] < products@.len());
            }
        }
        let ghost pre = out@;
        let row = flag_bucket(products, bucket, matched, country_filter);
        let ghost row_view = row@;
        out.push(row);
        proof {
            assert(out@[j as int]@ =~= row_view);
            assert forall|a: int, u: int|
                0 <= a < j + 1 && 0 <= u < out@[a]@.len() implies (#[trigger] out@[a]@[u]).0
                == buckets@[a]@[u] && buckets@[a]@[u] < products@.len() by {
                if a < j {
                    assert(out@[a] == pre[a]);
                } else {
                    assert(out@[a]@[u] == row_view[u]);
                }
            }
            assert forall|a: int, u: int|
                0 <= a < j + 1 && 0 <= u < out@[a]@.len() implies (#[trigger] out@[a]@[u]).1
                == include_spec(
                matched@,
                products@[buckets@[a]@[u] as int].country,
                buckets@[a]@[u],
                country_filter,
            ) by {
                if a < j {
                    assert(out@[a] == pre[a]);
                } else {
                    assert(out@[a]@[u] == row_view[u]);
                }
            }
        }
        j += 1;
    }
    out
}

impl SearchEngine {
    /// Answers one query per category: every bucket entry of every category,
    /// flagged by membership in the matched set and the country filter, and
    /// whether anything was included.
    pub fn categorize_products(&self, matched: &Vec<usize>, country_filter: Option<Country>) -> (r:
        CategorizedProductMatches)
        requires
            self.wf(),
        ensures
            r.by_category@.len() == self.repository.catalog.categories@.len(),
            forall|j: int|
                0 <= j < r.by_category@.len() ==> (#[trigger] r.by_category@[j])@.len()
                    == self.repository.catalog.category_to_products@[j]@.len(),
            forall|j: int, t: int|
                0 <= j < r.by_category@.len() && 0 <= t < r.by_category@[j]@.len() ==> (
                #[trigger] r.by_category@[j]@[t]).0
                    == self.repository.catalog.category_to_products@[j]@[t]
                    && self.repository.catalog.category_to_products@[j]@[t]
                    < self.repository.catalog.products@.len(),
            forall|j: int, t: int|
                0 <= j < r.by_category@.len() && 0 <= t < r.by_category@[j]@.len() ==> (
                #[trigger] r.by_category@[j]@[t]).1 == include_spec(
                    matched@,
                    self.repository.catalog.products@[
                        self.repository.catalog.category_to_products@[j]@[t] as int
                    ].country,
                    self.repository.catalog.category_to_products@[j]@[t],
                    country_filter,
                ),
            r.has_any_matches == exists|j: int, t: int|
                0 <= j < r.by_category@.len() && 0 <= t < r.by_category@[j]@.len() && (
                #[trigger] r.by_category@[j]@[t]).1,
    {
        let cat = &self.repository.catalog;
        proof {
            assert forall|a: int, u: int|
                0 <= a < cat.category_to_products@.len() && 0 <= u
                    < cat.category_to_products@[a]@.len() implies (
            #[trigger] cat.category_to_products@[a]@[u]) < cat.products@.len() by {
                crate::catalog::lemma_cat_bucket_increasing(
                    cat.products@,
                    cat.slug_seq()[a],
                    cat.products@.len() as int,
                );
                assert(crate::catalog::nums(cat.category_to_products@[a]@)[u]
                    == cat.category_to_products@[a]@[u] as int);
            }
        }
        let by_category = flag_buckets(
            &cat.products,
            &cat.category_to_products,
            matched,
            country_filter,
        );
        let ghost bc = by_category@;
        let has_any_matches = any_flag(&by_category);
        let r = CategorizedProductMatches { by_category, has_any_matches };
        proof {
            assert(r.by_category@ == bc);
        }
        r
    }

    /// Answers a query with the country filter: an effectively empty query
    /// includes every listed product; otherwise the tokenized query decides.
    pub fn find_by_category(&self, query: &str, country_filter: Option<Country>) -> (r:
        CategorizedProductMatches)
        requires
            self.wf(),
        ensures
            r.by_category@.len() == self.repository.catalog.categories@.len(),
            forall|j: int|
                0 <= j < r.by_category@.len() ==> (#[trigger] r.by_category@[j])@.len()
                    == self.repository.catalog.category_to_products@[j]@.len(),
            forall|j: int, t: int|
                0 <= j < r.by_category@.len() && 0 <= t < r.by_category@[j]@.len() ==> (
                #[trigger] r.by_category@[j]@[t]).0
                    == self.repository.catalog.category_to_products@[j]@[t],
            forall|j: int, t: int|
                0 <= j < r.by_category@.len() && 0 <= t < r.by_category@[j]@.len() ==> (
                #[trigger] r.by_category@[j]@[t]).1 == ((text::trim_spec(query@).len() == 0
                    || matches_spec(
                    tokens_spec(
                        search_text_spec(
                            self.repository,
                            self.repository.catalog.products@[
                                self.repository.catalog.category_to_products@[j]@[t] as int
                            ],
                        ),
                    ),
                    tokens_spec(query@),
                )) && (country_filter is None || self.repository.catalog.products@[
                    self.repository.catalog.category_to_products@[j]@[t] as int
                ].country == country_filter)),
            r.has_any_matches == exists|j: int, t: int|
                0 <= j < r.by_category@.len() && 0 <= t < r.by_category@[j]@.len() && (
                #[trigger] r.by_category@[j]@[t]).1,
    {
        let trimmed = text::trim_chars(&text::chars_of(query));
        let matched: Vec<usize> = if trimmed.len() == 0 {
            let n = self.repository.catalog.products.len();
            let mut all: Vec<usize> = Vec::new();
            let mut p: usize = 0;
            while p < n
                invariant
                    p <= n,
                    all@.len() == p,
                    forall|t: int| 0 <= t < p ==> (#[trigger] all@[t]) == t as usize,
                decreases n - p,
            {
                all.push(p);
                p += 1;
            }
            all
        } else {
            self.find_matching_products(query)
        };
        let r = self.categorize_products(&matched, country_filter);
        proof {
            assert forall|j: int, t: int|
                0 <= j < r.by_category@.len() && 0 <= t < r.by_category@[j]@.len() implies {
                    let pos = self.repository.catalog.category_to_products@[j]@[t];
                    (#[trigger] r.by_category@[j]@[t]).1 == ((text::trim_spec(query@).len() == 0
                        || matches_spec(
                        tokens_spec(
                            search_text_spec(
                                self.repository,
                                self.repository.catalog.products@[pos as int],
                            ),
                        ),
                        tokens_spec(query@),
                    )) && (country_filter is None || self.repository.catalog.products@[
                        pos as int
                    ].country == country_filter))
                } by {
                let pos = self.repository.catalog.category_to_products@[j]@[t];
                assert((r.by_category@[j]@[t]).0 == pos);
                assert(pos < self.repository.catalog.products@.len());
                if text::trim_spec(query@).len() == 0 {
                    assert(matched@[pos as int] == pos);
                    assert(matched@.contains(pos));
                } else {
                    if matches_spec(
                        tokens_spec(
                            search_text_spec(
                                self.repository,
                                self.repository.catalog.products@[pos as int],
                            ),
                        ),
                        tokens_spec(query@),
                    ) {
                        assert(matched@.contains(pos));
                    } else {
                        if matched@.contains(pos) {
                            let w = choose|w: int|
                                0 <= w < matched@.len() && matched@[w] == pos;
                            assert((matched@[w]) < self.repository.catalog.products@.len());
                            assert(false);
                        }
                    }
                }
            }
        }
        r
    }
}

} // verus!
