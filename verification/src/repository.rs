//! Read access to a built catalog: lookups through the indices, and the
//! sorted views the user interface lists.

use vstd::prelude::*;
use crate::catalog::{Catalog, find_key, lookup};
use vstd::multiset::Multiset;
use crate::country::{Country, COUNTRY_COUNT};
use crate::model::{Category, Product};
use crate::text;

verus! {

/// Whether key-tagged pairs stand in code-point order of their keys.
pub open spec fn pairs_sorted(s: Seq<(usize, String)>) -> bool {
    forall|a: int, b: int|
        0 <= a < b < s.len() ==> text::lex_le((#[trigger] s[a]).1@, (#[trigger] s[b]).1@)
}

/// Whether no two pairs carry the same tag.
pub open spec fn tags_distinct(s: Seq<(usize, String)>) -> bool {
    forall|a: int, b: int|
        0 <= a < b < s.len() ==> (#[trigger] s[a]).0 != (#[trigger] s[b]).0
}

/// Sorts key-tagged pairs by key, in code-point order, keeping exactly the
/// given pairs.
pub fn sort_pairs(input: Vec<(usize, String)>) -> (r: Vec<(usize, String)>)
    ensures
        r@.to_multiset() == input@.to_multiset(),
        r@.len() == input@.len(),
        pairs_sorted(r@),
        forall|t: int| 0 <= t < r@.len() ==> input@.contains(#[trigger] r@[t]),
{
    broadcast use vstd::seq_lib::group_to_multiset_ensures;

    let ghost input0 = input@;
    let mut rem = input;
    let mut out: Vec<(usize, String)> = Vec::new();
    proof {
        assert(out@.to_multiset().add(rem@.to_multiset()) =~= input0.to_multiset());
    }
    while rem.len() > 0
        invariant
            out@.len() + rem@.len() == input0.len(),
            out@.to_multiset().add(rem@.to_multiset()) == input0.to_multiset(),
            pairs_sorted(out@),
            forall|a: int, b: int|
                0 <= a < out@.len() && 0 <= b < rem@.len() ==> text::lex_le(
                    (#[trigger] out@[a]).1@,
                    (#[trigger] rem@[b]).1@,
                ),
            forall|t: int| 0 <= t < out@.len() ==> input0.contains(#[trigger] out@[t]),
            forall|t: int| 0 <= t < rem@.len() ==> input0.contains(#[trigger] rem@[t]),
        decreases rem@.len(),
    {
        let mut m: usize = 0;
        let mut j: usize = 1;
        proof {
            lemma_lex_refl(rem@[0].1@);
        }
        while j < rem.len()
            invariant
                rem@.len() > 0,
                m < j <= rem@.len(),
                forall|t: int|
                    0 <= t < j ==> text::lex_le(rem@[m as int].1@, (#[trigger] rem@[t]).1@),
            decreases rem@.len() - j,
        {
            let keep = text::str_lex_le(rem[m].1.as_str(), rem[j].1.as_str());
            if keep {
                proof {
                    lemma_lex_refl(rem@[j as int].1@);
                }
            }
            if !keep {
                proof {
                    text::lemma_lex_total(rem@[m as int].1@, rem@[j as int].1@);
                }
                let old_m = m;
                m = j;
                proof {
                    assert forall|t: int| 0 <= t < j + 1 implies text::lex_le(
                        rem@[m as int].1@,
                        (#[trigger] rem@[t]).1@,
                    ) by {
                        if t < j {
                            lemma_lex_trans(rem@[m as int].1@, rem@[old_m as int].1@, rem@[t].1@);
                        } else {
                            lemma_lex_refl(rem@[m as int].1@);
                        }
                    }
                }
            }
            j += 1;
        }
        let ghost pre_rem = rem@;
        let ghost pre_out = out@;
        let picked = rem.remove(m);
        out.push(picked);
        proof {
            pre_rem.to_multiset_ensures();
            pre_out.to_multiset_ensures();
            assert(picked == pre_rem[m as int]);
            assert(rem@ == pre_rem.remove(m as int));
            assert(rem@.to_multiset() =~= pre_rem.to_multiset().remove(picked));
            assert(out@.to_multiset() =~= pre_out.to_multiset().insert(picked));
            assert(pre_rem.to_multiset().count(picked) > 0);
            assert(out@.to_multiset().add(rem@.to_multiset()) =~= input0.to_multiset()) by {
                assert(pre_out.to_multiset().insert(picked).add(
                    pre_rem.to_multiset().remove(picked),
                ) =~= pre_out.to_multiset().add(pre_rem.to_multiset()));
            }
            assert forall|t: int| 0 <= t < rem@.len() implies input0.contains(
                #[trigger] rem@[t],
            ) by {
                if t < m {
                    assert(rem@[t] == pre_rem[t]);
                } else {
                    assert(rem@[t] == pre_rem[t + 1]);
                }
            }
            assert forall|a: int, b: int|
                0 <= a < out@.len() && 0 <= b < rem@.len() implies text::lex_le(
                (#[trigger] out@[a]).1@,
                (#[trigger] rem@[b]).1@,
            ) by {
                let pb = if b < m {
                    b
                } else {
                    b + 1
                };
                assert(rem@[b] == pre_rem[pb]);
                if a < pre_out.len() {
                    assert(text::lex_le(pre_out[a].1@, pre_rem[pb].1@));
                } else {
                    assert(out@[a] == picked);
                    assert(text::lex_le(pre_rem[m as int].1@, pre_rem[pb].1@));
                }
            }
        }
    }
    proof {
        assert(rem@.to_multiset() =~= Multiset::<(usize, String)>::empty());
        assert(out@.to_multiset().add(rem@.to_multiset()) =~= out@.to_multiset());
        assert(out@.to_multiset().len() == input0.to_multiset().len());
    }
    out
}

/// Every character sequence sorts at or before itself.
proof fn lemma_lex_refl(a: Seq<char>)
    ensures
        text::lex_le(a, a),
    decreases a.len(),
{
    if a.len() > 0 {
        lemma_lex_refl(a.drop_first());
    }
}

/// Code-point order chains: what sorts before the lesser of two sequences
/// sorts before the greater.
proof fn lemma_lex_trans(a: Seq<char>, b: Seq<char>, c: Seq<char>)
    requires
        text::lex_le(a, b),
        text::lex_le(b, c),
    ensures
        text::lex_le(a, c),
    decreases a.len() + b.len() + c.len(),
{
    if a.len() > 0 && b.len() > 0 && c.len() > 0 {
        if a[0] == b[0] && b[0] == c[0] {
            lemma_lex_trans(a.drop_first(), b.drop_first(), c.drop_first());
        }
    }
}

/// Sorted pairs drawn from distinct tags keep their tags distinct.
pub proof fn lemma_sorted_tags_distinct(input: Seq<(usize, String)>, r: Seq<(usize, String)>)
    requires
        r.to_multiset() == input.to_multiset(),
        r.len() == input.len(),
        tags_distinct(input),
        forall|t: int| 0 <= t < r.len() ==> input.contains(#[trigger] r[t]),
    ensures
        tags_distinct(r),
{
    broadcast use vstd::seq_lib::group_to_multiset_ensures;

    assert forall|a: int, b: int| 0 <= a < b < r.len() implies (#[trigger] r[a]).0 != (
    #[trigger] r[b]).0 by {
        input.lemma_multiset_has_no_duplicates();
        r.lemma_multiset_has_no_duplicates_conv();
        assert(r[a] != r[b]);
        let u = choose|u: int| 0 <= u < input.len() && input[u] == r[a];
        let v = choose|v: int| 0 <= v < input.len() && input[v] == r[b];
        if u != v {
            if u < v {
                assert(input[u].0 != input[v].0);
            } else {
                assert(input[v].0 != input[u].0);
            }
        }
    }
}

/// Read access to one built catalog.
pub struct Repository {
    /// The catalog served.
    pub catalog: Catalog,
}

impl Repository {
    /// Takes a built catalog into service.
    pub fn new(catalog: Catalog) -> (r: Repository)
        ensures
            r.catalog == catalog,
    {
        Repository { catalog }
    }

    /// Every country, in enumeration order.
    pub fn countries() -> (r: Vec<Country>)
        ensures
            r@ == Country::all_spec(),
    {
        Country::all()
    }

    /// Every country, sorted by slug in code-point order.
    pub fn countries_sorted() -> (r: Vec<Country>)
        ensures
            r@.len() == COUNTRY_COUNT,
            forall|a: int, b: int|
                0 <= a < b < r@.len() ==> text::lex_le(
                    (#[trigger] r@[a]).slug_spec(),
                    (#[trigger] r@[b]).slug_spec(),
                ),
            forall|t: int| 0 <= t < r@.len() ==> Country::all_spec().contains(#[trigger] r@[t]),
            forall|a: int, b: int| 0 <= a < b < r@.len() ==> r@[a] != r@[b],
            forall|c: Country| Country::all_spec().contains(c) ==> r@.contains(c),
    {
        let countries = Country::all();
        let mut pairs: Vec<(usize, String)> = Vec::new();
        let mut i: usize = 0;
        while i < countries.len()
            invariant
                countries@ == Country::all_spec(),
                i <= countries@.len(),
                pairs@.len() == i,
                forall|t: int|
                    0 <= t < i ==> (#[trigger] pairs@[t]).0 == t && pairs@[t].1@
                        == Country::all_spec()[t].slug_spec(),
            decreases countries@.len() - i,
        {
            let mut s = String::new();
            s.append(countries[i].slug());
            pairs.push((i, s));
            i += 1;
        }
        let ghost pairs0 = pairs@;
        let sorted = sort_pairs(pairs);
        proof {
            assert(tags_distinct(pairs0));
            lemma_sorted_tags_distinct(pairs0, sorted@);
        }
        let mut out: Vec<Country> = Vec::new();
        let mut i: usize = 0;
        while i < sorted.len()
            invariant
                sorted@.len() == COUNTRY_COUNT,
                pairs_sorted(sorted@),
                tags_distinct(sorted@),
                forall|t: int| 0 <= t < sorted@.len() ==> pairs0.contains(#[trigger] sorted@[t]),
                forall|t: int|
                    0 <= t < pairs0.len() ==> (#[trigger] pairs0[t]).0 == t && pairs0[t].1@
                        == Country::all_spec()[t].slug_spec(),
                pairs0.len() == COUNTRY_COUNT,
                i <= sorted@.len(),
                out@.len() == i,
                forall|t: int|
                    0 <= t < i ==> (#[trigger] out@[t]) == Country::all_spec()[sorted@[t].0 as int]
                        && out@[t].slug_spec() == sorted@[t].1@,
            decreases sorted@.len() - i,
        {
            let tag = sorted[i].0;
            proof {
                let u = choose|u: int| 0 <= u < pairs0.len() && pairs0[u] == sorted@[i as int];
                assert(pairs0[u].0 == u);
            }
            match Country::from_index(tag) {
                Some(c) => {
                    proof {
                        lemma_country_at_ordinal(tag as int);
                        assert(c.ordinal_spec() == tag as int);
                    }
                    out.push(c);
                },
                None => {
                    proof {
                        assert(false);
                    }
                },
            }
            i += 1;
        }
        proof {
            assert forall|a: int, b: int| 0 <= a < b < out@.len() implies text::lex_le(
                (#[trigger] out@[a]).slug_spec(),
                (#[trigger] out@[b]).slug_spec(),
            ) by {
                assert(text::lex_le(sorted@[a].1@, sorted@[b].1@));
            }
            assert forall|t: int| 0 <= t < out@.len() implies Country::all_spec().contains(
                #[trigger] out@[t],
            ) by {
                assert(out@[t] == Country::all_spec()[sorted@[t].0 as int]);
            }
            assert forall|a: int, b: int| 0 <= a < b < out@.len() implies out@[a] != out@[b] by {
                assert(out@[a].ordinal_spec() == sorted@[a].0 as int);
                assert(out@[b].ordinal_spec() == sorted@[b].0 as int);
                assert(sorted@[a].0 != sorted@[b].0);
            }
            broadcast use vstd::seq_lib::group_to_multiset_ensures;

            assert forall|c: Country| Country::all_spec().contains(c) implies out@.contains(
                c,
            ) by {
                let w = choose|w: int|
                    0 <= w < Country::all_spec().len() && Country::all_spec()[w] == c;
                assert(pairs0[w].0 == w);
                assert(pairs0.contains(pairs0[w]));
                pairs0.to_multiset_ensures();
                sorted@.to_multiset_ensures();
                assert(pairs0.to_multiset().count(pairs0[w]) > 0);
                assert(sorted@.to_multiset() == pairs0.to_multiset());
                assert(sorted@.to_multiset().count(pairs0[w]) > 0);
                assert(sorted@.contains(pairs0[w]));
                let t = choose|t: int| 0 <= t < sorted@.len() && sorted@[t] == pairs0[w];
                assert(out@[t] == Country::all_spec()[sorted@[t].0 as int]);
                assert(out@[t] == c);
            }
        }
        out
    }

    /// The categories with their positions, sorted by slug in code-point
    /// order.
    pub fn categories_sorted(&self) -> (r: Vec<(usize, &Category)>)
        requires
            self.catalog.wf(),
        ensures
            r@.len() == self.catalog.categories@.len(),
            forall|t: int|
                0 <= t < r@.len() ==> (#[trigger] r@[t]).0 < self.catalog.categories@.len()
                    && *r@[t].1 == self.catalog.categories@[r@[t].0 as int],
            forall|a: int, b: int|
                0 <= a < b < r@.len() ==> text::lex_le(
                    (#[trigger] r@[a]).1.slug@,
                    (#[trigger] r@[b]).1.slug@,
                ),
            forall|a: int, b: int| 0 <= a < b < r@.len() ==> (#[trigger] r@[a]).0 != (
            #[trigger] r@[b]).0,
    {
        let cats = &self.catalog.categories;
        let n = cats.len();
        let mut pairs: Vec<(usize, String)> = Vec::new();
        let mut i: usize = 0;
        while i < n
            invariant
                n == cats@.len(),
                cats@ == self.catalog.categories@,
                i <= n,
                pairs@.len() == i,
                forall|t: int|
                    0 <= t < i ==> (#[trigger] pairs@[t]).0 == t && pairs@[t].1@ == cats@[t].slug@,
            decreases n - i,
        {
            pairs.push((i, cats[i].slug.clone()));
            i += 1;
        }
        let ghost pairs0 = pairs@;
        let sorted = sort_pairs(pairs);
        proof {
            assert(tags_distinct(pairs0));
            lemma_sorted_tags_distinct(pairs0, sorted@);
        }
        let mut out: Vec<(usize, &Category)> = Vec::new();
        let mut i: usize = 0;
        while i < sorted.len()
            invariant
                cats@ == self.catalog.categories@,
                n == cats@.len(),
                sorted@.len() == n,
                pairs_sorted(sorted@),
                tags_distinct(sorted@),
                forall|t: int| 0 <= t < sorted@.len() ==> pairs0.contains(#[trigger] sorted@[t]),
                pairs0.len() == n,
                forall|t: int|
                    0 <= t < n ==> (#[trigger] pairs0[t]).0 == t && pairs0[t].1@
                        == cats@[t].slug@,
                i <= n,
                out@.len() == i,
                forall|t: int|
                    0 <= t < i ==> (#[trigger] out@[t]).0 == sorted@[t].0 && out@[t].0 < n && *out@[
                        t
                    ].1 == cats@[out@[t].0 as int] && out@[t].1.slug@ == sorted@[t].1@,
            decreases n - i,
        {
            let tag = sorted[i].0;
            proof {
                let u = choose|u: int| 0 <= u < pairs0.len() && pairs0[u] == sorted@[i as int];
                assert(pairs0[u].0 == u);
            }
            out.push((tag, &cats[tag]));
            i += 1;
        }
        proof {
            assert forall|a: int, b: int| 0 <= a < b < out@.len() implies text::lex_le(
                (#[trigger] out@[a]).1.slug@,
                (#[trigger] out@[b]).1.slug@,
            ) by {
                assert(text::lex_le(sorted@[a].1@, sorted@[b].1@));
            }
            assert forall|a: int, b: int| 0 <= a < b < out@.len() implies (#[trigger] out@[a]).0
                != (#[trigger] out@[b]).0 by {
                assert(sorted@[a].0 != sorted@[b].0);
            }
        }
        out
    }

    /// The products of one category with their positions, sorted by name in
    /// code-point order; nothing when the slug is not indexed.
    pub fn category_products_sorted(&self, category: &Category) -> (r: Option<
        Vec<(usize, &Product)>,
    >)
        requires
            self.catalog.wf(),
        ensures
            match r {
                Some(v) => {
                    &&& lookup(self.catalog.slug_index@, category.slug@) is Some
                    &&& v@.len() == self.catalog.category_to_products@[lookup(
                        self.catalog.slug_index@,
                        category.slug@,
                    )->0]@.len()
                    &&& forall|t: int|
                        0 <= t < v@.len() ==> self.catalog.category_to_products@[lookup(
                            self.catalog.slug_index@,
                            category.slug@,
                        )->0]@.contains((#[trigger] v@[t]).0)
                    &&& forall|t: int|
                        0 <= t < v@.len() ==> (#[trigger] v@[t]).0
                            < self.catalog.products@.len() && *v@[t].1
                            == self.catalog.products@[v@[t].0 as int]
                    &&& forall|a: int, b: int|
                        0 <= a < b < v@.len() ==> text::lex_le(
                            (#[trigger] v@[a]).1.name@,
                            (#[trigger] v@[b]).1.name@,
                        )
                    &&& forall|a: int, b: int| 0 <= a < b < v@.len() ==> (#[trigger] v@[a]).0
                        != (#[trigger] v@[b]).0
                },
                None => lookup(self.catalog.slug_index@, category.slug@) is None,
            },
    {
        let bucket = match self.product_indices_by_category(category) {
            Some(b) => b,
            None => {
                return None;
            },
        };
        let prods = &self.catalog.products;
        let n = prods.len();
        proof {
            let ci = lookup(self.catalog.slug_index@, category.slug@)->0;
            crate::catalog::lemma_lookup(self.catalog.slug_index@, category.slug@);
            let m = crate::catalog::first_match(self.catalog.slug_index@, category.slug@);
            assert(self.catalog.slug_index@[m].1 == m);
            assert(0 <= ci < self.catalog.categories@.len());
            assert(crate::catalog::nums(bucket@) == crate::catalog::cat_bucket_upto(
                self.catalog.products@,
                self.catalog.slug_seq()[ci],
                self.catalog.products@.len() as int,
            ));
            crate::catalog::lemma_cat_bucket_increasing(
                self.catalog.products@,
                self.catalog.slug_seq()[ci],
                n as int,
            );
            assert forall|t: int| 0 <= t < bucket@.len() implies (#[trigger] bucket@[t]) < n by {
                assert(crate::catalog::nums(bucket@)[t] == bucket@[t] as int);
            }
            assert forall|a: int, b: int|
                0 <= a < b < bucket@.len() implies (#[trigger] bucket@[a]) != (
            #[trigger] bucket@[b]) by {
                assert(crate::catalog::nums(bucket@)[a] == bucket@[a] as int);
                assert(crate::catalog::nums(bucket@)[b] == bucket@[b] as int);
            }
        }
        let mut pairs: Vec<(usize, String)> = Vec::new();
        let mut i: usize = 0;
        while i < bucket.len()
            invariant
                prods@ == self.catalog.products@,
                n == prods@.len(),
                forall|t: int|
                    0 <= t < bucket@.len() ==> (#[trigger] bucket@[t]) < n,
                forall|a: int, b: int|
                    0 <= a < b < bucket@.len() ==> (#[trigger] bucket@[a]) != (
                    #[trigger] bucket@[b]),
                i <= bucket@.len(),
                pairs@.len() == i,
                forall|t: int|
                    0 <= t < i ==> (#[trigger] pairs@[t]).0 == bucket@[t] && pairs@[t].1@
                        == prods@[bucket@[t] as int].name@,
            decreases bucket@.len() - i,
        {
            let p = bucket[i];
            pairs.push((p, prods[p].name.clone()));
            i += 1;
        }
        let ghost pairs0 = pairs@;
        let sorted = sort_pairs(pairs);
        proof {
            assert(tags_distinct(pairs0));
            lemma_sorted_tags_distinct(pairs0, sorted@);
        }
        let mut out: Vec<(usize, &Product)> = Vec::new();
        let mut i: usize = 0;
        while i < sorted.len()
            invariant
                prods@ == self.catalog.products@,
                n == prods@.len(),
                sorted@.len() == pairs0.len(),
                pairs_sorted(sorted@),
                tags_distinct(sorted@),
                forall|t: int| 0 <= t < sorted@.len() ==> pairs0.contains(#[trigger] sorted@[t]),
                forall|t: int|
                    0 <= t < pairs0.len() ==> (#[trigger] pairs0[t]).0 < n && pairs0[t].1@
                        == prods@[pairs0[t].0 as int].name@,
                i <= sorted@.len(),
                out@.len() == i,
                forall|t: int|
                    0 <= t < i ==> (#[trigger] out@[t]).0 == sorted@[t].0 && out@[t].0 < n && *out@[
                        t
                    ].1 == prods@[out@[t].0 as int] && out@[t].1.name@ == sorted@[t].1@,
            decreases sorted@.len() - i,
        {
            let tag = sorted[i].0;
            proof {
                let u = choose|u: int| 0 <= u < pairs0.len() && pairs0[u] == sorted@[i as int];
                assert(pairs0[u].0 < n);
            }
            out.push((tag, &prods[tag]));
            i += 1;
        }
        proof {
            assert forall|a: int, b: int| 0 <= a < b < out@.len() implies text::lex_le(
                (#[trigger] out@[a]).1.name@,
                (#[trigger] out@[b]).1.name@,
            ) by {
                assert(text::lex_le(sorted@[a].1@, sorted@[b].1@));
            }
            assert forall|a: int, b: int| 0 <= a < b < out@.len() implies (#[trigger] out@[a]).0
                != (#[trigger] out@[b]).0 by {
                assert(sorted@[a].0 != sorted@[b].0);
            }
            let ci = lookup(self.catalog.slug_index@, category.slug@)->0;
            assert(out@.len() == self.catalog.category_to_products@[ci]@.len());
            assert forall|t: int| 0 <= t < out@.len() implies self
                .catalog
                .category_to_products@[ci]@.contains((#[trigger] out@[t]).0) by {
                let u = choose|u: int| 0 <= u < pairs0.len() && pairs0[u] == sorted@[t];
                assert(pairs0[u].0 == bucket@[u]);
                assert(bucket@[u] == self.catalog.category_to_products@[ci]@[u]);
            }
        }
        Some(out)
    }

    /// The categories, in catalog order.
    pub fn categories(&self) -> (r: &Vec<Category>)
        ensures
            *r == self.catalog.categories,
    {
        &self.catalog.categories
    }

    /// The products, in catalog order.
    pub fn products(&self) -> (r: &Vec<Product>)
        ensures
            *r == self.catalog.products,
    {
        &self.catalog.products
    }

    /// The position of a category, by slug.
    pub fn category_index_by_slug(&self, slug: &str) -> (r: Option<usize>)
        ensures
            match r {
                Some(v) => lookup(self.catalog.slug_index@, slug@) == Some(v as int),
                None => lookup(self.catalog.slug_index@, slug@) is None,
            },
    {
        find_key(&self.catalog.slug_index, slug)
    }

    /// The position of a product, by name.
    pub fn product_index_by_name(&self, name: &str) -> (r: Option<usize>)
        ensures
            match r {
                Some(v) => lookup(self.catalog.name_index@, name@) == Some(v as int),
                None => lookup(self.catalog.name_index@, name@) is None,
            },
    {
        find_key(&self.catalog.name_index, name)
    }

    /// The product at one position, if the position is in range.
    pub fn product_by_index(&self, index: usize) -> (r: Option<&Product>)
        ensures
            match r {
                Some(p) => index < self.catalog.products@.len() && *p == self.catalog.products@[
                    index as int
                ],
                None => index >= self.catalog.products@.len(),
            },
    {
        if index < self.catalog.products.len() {
            Some(&self.catalog.products[index])
        } else {
            None
        }
    }

    /// The category at one position, if the position is in range.
    pub fn category_by_index(&self, index: usize) -> (r: Option<&Category>)
        ensures
            match r {
                Some(c) => index < self.catalog.categories@.len() && *c
                    == self.catalog.categories@[index as int],
                None => index >= self.catalog.categories@.len(),
            },
    {
        if index < self.catalog.categories.len() {
            Some(&self.catalog.categories[index])
        } else {
            None
        }
    }

    /// The product positions listed under a category, by its slug.
    pub fn product_indices_by_category(&self, category: &Category) -> (r: Option<&Vec<usize>>)
        requires
            self.catalog.wf(),
        ensures
            match r {
                Some(b) => {
                    &&& lookup(self.catalog.slug_index@, category.slug@) is Some
                    &&& *b == self.catalog.category_to_products@[lookup(
                        self.catalog.slug_index@,
                        category.slug@,
                    )->0]
                },
                None => lookup(self.catalog.slug_index@, category.slug@) is None,
            },
    {
        match find_key(&self.catalog.slug_index, category.slug.as_str()) {
            Some(ci) => {
                proof {
                    crate::catalog::lemma_lookup(self.catalog.slug_index@, category.slug@);
                }
                if ci < self.catalog.category_to_products.len() {
                    Some(&self.catalog.category_to_products[ci])
                } else {
                    proof {
                        let m = crate::catalog::first_match(
                            self.catalog.slug_index@,
                            category.slug@,
                        );
                        assert(self.catalog.slug_index@[m].1 == m);
                        assert(false);
                    }
                    None
                }
            },
            None => None,
        }
    }

    /// The positions of the products of one country.
    pub fn product_indices_by_country(&self, country: Country) -> (r: Option<&Vec<usize>>)
        requires
            self.catalog.wf(),
        ensures
            match r {
                Some(b) => *b == self.catalog.country_to_products@[country.ordinal_spec()],
                None => false,
            },
    {
        let ord = country.ordinal();
        Some(&self.catalog.country_to_products[ord])
    }
}

/// The country standing at each enumeration position carries that ordinal.
proof fn lemma_country_at_ordinal(i: int)
    requires
        0 <= i < COUNTRY_COUNT,
    ensures
        Country::all_spec()[i].ordinal_spec() == i,
{
}

} // verus!
