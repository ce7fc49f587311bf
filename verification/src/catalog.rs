//! The compiled catalog: the ordered category and product sequences together
//! with the slug and name lookup indices and the category and country
//! reverse indices. Building it checks the global uniqueness and relation
//! invariants; the laws at the bottom state what the indices guarantee.

use vstd::prelude::*;
use crate::country::COUNTRY_COUNT;
use crate::error::BuildError;
use crate::model::{Category, Product};
use crate::text::str_eq;

verus! {

/// The keys of an association list, as character sequences.
pub open spec fn keys_of(entries: Seq<(String, usize)>) -> Seq<Seq<char>> {
    entries.map_values(|e: (String, usize)| e.0@)
}

/// The value of the first entry whose key is `key`, if any.
pub open spec fn lookup(entries: Seq<(String, usize)>, key: Seq<char>) -> Option<int>
    decreases entries.len(),
{
    if entries.len() == 0 {
        None
    } else if entries[0].0@ == key {
        Some(entries[0].1 as int)
    } else {
        lookup(entries.drop_first(), key)
    }
}

/// How many entries carry the key `key`.
pub open spec fn key_count(entries: Seq<(String, usize)>, key: Seq<char>) -> int
    decreases entries.len(),
{
    if entries.len() == 0 {
        0
    } else {
        (if entries[0].0@ == key {
            1int
        } else {
            0int
        }) + key_count(entries.drop_first(), key)
    }
}

/// The position of the first entry whose key is `key`, or `-1`.
pub open spec fn first_match(entries: Seq<(String, usize)>, key: Seq<char>) -> int
    decreases entries.len(),
{
    if entries.len() == 0 {
        -1
    } else if entries[0].0@ == key {
        0
    } else {
        let r = first_match(entries.drop_first(), key);
        if r == -1 {
            -1
        } else {
            r + 1
        }
    }
}

/// `entries` is exactly the index of `keys`: entry `i` maps `keys[i]` to `i`.
pub open spec fn exact_index(entries: Seq<(String, usize)>, keys: Seq<Seq<char>>) -> bool {
    &&& entries.len() == keys.len()
    &&& forall|i: int|
        0 <= i < entries.len() ==> (#[trigger] entries[i]).0@ == keys[i] && entries[i].1 == i
}

/// No two positions of `keys` hold the same character sequence.
pub open spec fn distinct_keys(keys: Seq<Seq<char>>) -> bool {
    forall|i: int, j: int| 0 <= i < j < keys.len() ==> keys[i] != keys[j]
}

/// What a lookup yields: the entry at the first matching position, and no
/// match at all exactly when no entry carries the key.
pub proof fn lemma_lookup(entries: Seq<(String, usize)>, key: Seq<char>)
    ensures
        first_match(entries, key) == -1 || 0 <= first_match(entries, key) < entries.len(),
        first_match(entries, key) == -1 ==> lookup(entries, key) is None && forall|t: int|
            0 <= t < entries.len() ==> (#[trigger] entries[t]).0@ != key,
        first_match(entries, key) >= 0 ==> {
            let m = first_match(entries, key);
            &&& 0 <= m < entries.len()
            &&& entries[m].0@ == key
            &&& forall|t: int| 0 <= t < m ==> (#[trigger] entries[t]).0@ != key
            &&& lookup(entries, key) == Some(entries[m].1 as int)
        },
    decreases entries.len(),
{
    if entries.len() > 0 && entries[0].0@ != key {
        let rest = entries.drop_first();
        lemma_lookup(rest, key);
        assert(rest =~= entries.subrange(1, entries.len() as int));
        assert forall|t: int| 1 <= t < entries.len() implies #[trigger] entries[t] == rest[t
            - 1] by {
            assert(rest[t - 1] == entries[t]);
        }
        let r = first_match(rest, key);
        if r == -1 {
            assert(first_match(entries, key) == -1);
            assert forall|t: int| 0 <= t < entries.len() implies (#[trigger] entries[t]).0@
                != key by {
                if t >= 1 {
                    assert(entries[t] == rest[t - 1]);
                    assert(rest[t - 1].0@ != key);
                }
            }
        } else {
            assert(0 <= r < rest.len());
            assert(first_match(entries, key) == r + 1);
            assert(entries[r + 1] == rest[r]);
            assert(entries[r + 1].0@ == key);
            assert(lookup(entries, key) == lookup(rest, key));
            assert forall|t: int| 0 <= t < r + 1 implies (#[trigger] entries[t]).0@ != key by {
                if t >= 1 {
                    assert(entries[t] == rest[t - 1]);
                    assert(rest[t - 1].0@ != key);
                }
            }
        }
    }
}

/// A key carried by no entry is counted zero times.
pub proof fn lemma_count_zero(entries: Seq<(String, usize)>, key: Seq<char>)
    requires
        forall|t: int| 0 <= t < entries.len() ==> (#[trigger] entries[t]).0@ != key,
    ensures
        key_count(entries, key) == 0,
    decreases entries.len(),
{
    if entries.len() > 0 {
        let rest = entries.drop_first();
        assert(forall|t: int| 0 <= t < rest.len() ==> rest[t] == entries[t + 1]);
        lemma_count_zero(rest, key);
    }
}

/// A key carried by exactly one position is counted exactly once.
pub proof fn lemma_count_one(entries: Seq<(String, usize)>, key: Seq<char>, i: int)
    requires
        0 <= i < entries.len(),
        entries[i].0@ == key,
        forall|t: int| 0 <= t < entries.len() && t != i ==> (#[trigger] entries[t]).0@ != key,
    ensures
        key_count(entries, key) == 1,
    decreases entries.len(),
{
    let rest = entries.drop_first();
    assert(forall|t: int| 0 <= t < rest.len() ==> rest[t] == entries[t + 1]);
    if i == 0 {
        lemma_count_zero(rest, key);
    } else {
        lemma_count_one(rest, key, i - 1);
    }
}

/// Finds the value stored under `key`, scanning entries in order.
pub fn find_key(entries: &Vec<(String, usize)>, key: &str) -> (r: Option<usize>)
    ensures
        match r {
            Some(v) => lookup(entries@, key@) == Some(v as int),
            None => lookup(entries@, key@) is None,
        },
{
    let mut i: usize = 0;
    proof {
        assert(entries@.subrange(0, entries@.len() as int) =~= entries@);
    }
    while i < entries.len()
        invariant
            i <= entries@.len(),
            lookup(entries@, key@) == lookup(
                entries@.subrange(i as int, entries@.len() as int),
                key@,
            ),
        decreases entries@.len() - i,
    {
        let ghost tail = entries@.subrange(i as int, entries@.len() as int);
        proof {
            assert(tail.drop_first() =~= entries@.subrange(i as int + 1, entries@.len() as int));
            assert(tail[0] == entries@[i as int]);
        }
        if str_eq(entries[i].0.as_str(), key) {
            return Some(entries[i].1);
        }
        i += 1;
    }
    None
}

/// Whether `p` is listed under the category with the given slug.
pub open spec fn declares(p: Product, slug: Seq<char>) -> bool {
    p.slug_views().contains(slug)
}

/// Whether one of the first `t` declared slugs of `views` is `slug`.
pub open spec fn declares_upto(views: Seq<Seq<char>>, slug: Seq<char>, t: int) -> bool {
    exists|u: int| 0 <= u < t && views[u] == slug
}

/// The reverse-index bucket of a category: the positions of the first `n`
/// products that declare `slug`, in ascending order.
pub open spec fn cat_bucket_upto(products: Seq<Product>, slug: Seq<char>, n: int) -> Seq<int>
    decreases n,
{
    if n <= 0 {
        seq![]
    } else {
        let pre = cat_bucket_upto(products, slug, n - 1);
        if declares(products[n - 1], slug) {
            pre.push(n - 1)
        } else {
            pre
        }
    }
}

/// The reverse-index bucket of a country ordinal: the positions of the first
/// `n` products whose country sits at that ordinal, in ascending order.
pub open spec fn country_bucket_upto(products: Seq<Product>, k: int, n: int) -> Seq<int>
    decreases n,
{
    if n <= 0 {
        seq![]
    } else {
        let pre = country_bucket_upto(products, k, n - 1);
        let c = products[n - 1].country;
        if c is Some && c->0.ordinal_spec() == k {
            pre.push(n - 1)
        } else {
            pre
        }
    }
}

/// The positions of a bucket as mathematical integers.
pub open spec fn nums(b: Seq<usize>) -> Seq<int> {
    b.map_values(|u: usize| u as int)
}

/// How many times position `p` occurs in a bucket.
pub open spec fn pos_count(b: Seq<int>, p: int) -> int
    decreases b.len(),
{
    if b.len() == 0 {
        0
    } else {
        (if b[0] == p {
            1int
        } else {
            0int
        }) + pos_count(b.drop_first(), p)
    }
}

/// Every declared slug of every product among the first `n` appears in
/// `slugs`.
pub open spec fn all_declared(products: Seq<Product>, slugs: Seq<Seq<char>>, n: int) -> bool {
    forall|p: int, t: int|
        0 <= p < n && 0 <= t < products[p].slug_views().len() ==> slugs.contains(
            #[trigger] products[p].slug_views()[t],
        )
}

/// The complete immutable dataset: categories, products and their indices.
#[derive(Debug)]
pub struct Catalog {
    /// The categories, in extraction order.
    pub categories: Vec<Category>,
    /// The products, in extraction order.
    pub products: Vec<Product>,
    /// Maps each category slug to its position.
    pub slug_index: Vec<(String, usize)>,
    /// Maps each product name to its position.
    pub name_index: Vec<(String, usize)>,
    /// For each category position, the product positions listed under it.
    pub category_to_products: Vec<Vec<usize>>,
    /// For each country ordinal, the positions of products of that country.
    pub country_to_products: Vec<Vec<usize>>,
}

impl Catalog {
    /// The category slugs, in order.
    pub open spec fn slug_seq(&self) -> Seq<Seq<char>> {
        self.categories@.map_values(|c: Category| c.slug@)
    }

    /// The product names, in order.
    pub open spec fn name_seq(&self) -> Seq<Seq<char>> {
        self.products@.map_values(|p: Product| p.name@)
    }

    /// The structural invariant: unique keys, exact lookup indices, and
    /// reverse-index buckets that hold exactly the declaring positions.
    pub open spec fn wf(&self) -> bool {
        &&& distinct_keys(self.slug_seq())
        &&& distinct_keys(self.name_seq())
        &&& exact_index(self.slug_index@, self.slug_seq())
        &&& exact_index(self.name_index@, self.name_seq())
        &&& self.category_to_products@.len() == self.categories@.len()
        &&& forall|j: int|
            0 <= j < self.categories@.len() ==> nums(
                #[trigger] self.category_to_products@[j]@,
            ) == cat_bucket_upto(self.products@, self.slug_seq()[j], self.products@.len() as int)
        &&& self.country_to_products@.len() == COUNTRY_COUNT
        &&& forall|k: int|
            0 <= k < COUNTRY_COUNT ==> nums(#[trigger] self.country_to_products@[k]@)
                == country_bucket_upto(self.products@, k, self.products@.len() as int)
        &&& forall|p: int|
            0 <= p < self.products@.len() ==> distinct_keys(
                (#[trigger] self.products@[p]).slug_views(),
            )
        &&& all_declared(self.products@, self.slug_seq(), self.products@.len() as int)
        &&& forall|i: int|
            0 <= i < self.categories@.len() ==> (#[trigger] self.categories@[i]).summary@
                == crate::extract::first_sentence_spec(self.categories@[i].description@)
        &&& forall|p: int|
            0 <= p < self.products@.len() ==> (#[trigger] self.products@[p]).summary@
                == crate::extract::summary_spec(self.products@[p].description@)
    }

    /// Indexes the category and product sequences. Fails with a data error
    /// exactly when a slug or name is duplicated or a product declares a
    /// slug no category has; otherwise the sequences are kept as given and
    /// every index is exact.
    pub fn build(categories: Vec<Category>, products: Vec<Product>) -> (r: Result<
        Catalog,
        BuildError,
    >)
        requires
            forall|p: int|
                0 <= p < products@.len() ==> distinct_keys(
                    (#[trigger] products@[p]).slug_views(),
                ),
            forall|i: int|
                0 <= i < categories@.len() ==> (#[trigger] categories@[i]).summary@
                    == crate::extract::first_sentence_spec(categories@[i].description@),
            forall|p: int|
                0 <= p < products@.len() ==> (#[trigger] products@[p]).summary@
                    == crate::extract::summary_spec(products@[p].description@),
        ensures
            match r {
                Ok(c) => {
                    &&& c.categories@ == categories@
                    &&& c.products@ == products@
                    &&& c.wf()
                },
                Err(e) => {
                    &&& e is Data
                    &&& {
                        ||| !distinct_keys(categories@.map_values(|c: Category| c.slug@))
                        ||| !distinct_keys(products@.map_values(|p: Product| p.name@))
                        ||| !all_declared(
                            products@,
                            categories@.map_values(|c: Category| c.slug@),
                            products@.len() as int,
                        )
                    }
                },
            },
    {
        let ghost slugs = categories@.map_values(|c: Category| c.slug@);
        let ghost names = products@.map_values(|p: Product| p.name@);
        let slug_index = match Self::build_slug_index(&categories) {
            Ok(ix) => ix,
            Err(e) => {
                return Err(e);
            },
        };
        let name_index = match Self::build_name_index(&products) {
            Ok(ix) => ix,
            Err(e) => {
                return Err(e);
            },
        };
        proof {
            assert(keys_of(slug_index@) =~= slugs);
        }
        let category_to_products = match Self::build_category_buckets(
            &products,
            &slug_index,
            categories.len(),
        ) {
            Ok(b) => b,
            Err(e) => {
                return Err(e);
            },
        };
        let country_to_products = Self::build_country_buckets(&products);
        Ok(
            Catalog {
                categories,
                products,
                slug_index,
                name_index,
                category_to_products,
                country_to_products,
            },
        )
    }

    /// Builds the slug lookup index, rejecting a duplicate slug.
    fn build_slug_index(categories: &Vec<Category>) -> (r: Result<
        Vec<(String, usize)>,
        BuildError,
    >)
        ensures
            match r {
                Ok(ix) => exact_index(ix@, categories@.map_values(|c: Category| c.slug@))
                    && distinct_keys(categories@.map_values(|c: Category| c.slug@)),
                Err(e) => e is Data && !distinct_keys(
                    categories@.map_values(|c: Category| c.slug@),
                ),
            },
    {
        let ghost slugs = categories@.map_values(|c: Category| c.slug@);
        let mut ix: Vec<(String, usize)> = Vec::new();
        let mut i: usize = 0;
        while i < categories.len()
            invariant
                slugs == categories@.map_values(|c: Category| c.slug@),
                i <= categories@.len(),
                ix@.len() == i,
                forall|t: int|
                    0 <= t < i ==> (#[trigger] ix@[t]).0@ == slugs[t] && ix@[t].1 == t,
                forall|a: int, b: int| 0 <= a < b < i ==> slugs[a] != slugs[b],
            decreases categories@.len() - i,
        {
            let slug = &categories[i].slug;
            if find_key(&ix, slug.as_str()).is_some() {
                proof {
                    lemma_lookup(ix@, slug@);
                    let m = first_match(ix@, slug@);
                    assert(slugs[m] == slugs[i as int]);
                }
                let mut m = String::new();
                m.append("duplicate category slug: ");
                m.append(slug.as_str());
                return Err(BuildError::Data(m));
            }
            proof {
                lemma_lookup(ix@, slug@);
                assert(slug@ == slugs[i as int]);
                assert forall|a: int| 0 <= a < i implies slugs[a] != slugs[i as int] by {
                    assert((ix@[a]).0@ == slugs[a]);
                    assert((ix@[a]).0@ != slug@);
                }
            }
            ix.push((slug.clone(), i));
            i += 1;
        }
        Ok(ix)
    }

    /// Builds the name lookup index, rejecting a duplicate product name.
    fn build_name_index(products: &Vec<Product>) -> (r: Result<Vec<(String, usize)>, BuildError>)
        ensures
            match r {
                Ok(ix) => exact_index(ix@, products@.map_values(|p: Product| p.name@))
                    && distinct_keys(products@.map_values(|p: Product| p.name@)),
                Err(e) => e is Data && !distinct_keys(products@.map_values(|p: Product| p.name@)),
            },
    {
        let ghost names = products@.map_values(|p: Product| p.name@);
        let mut ix: Vec<(String, usize)> = Vec::new();
        let mut i: usize = 0;
        while i < products.len()
            invariant
                names == products@.map_values(|p: Product| p.name@),
                i <= products@.len(),
                ix@.len() == i,
                forall|t: int|
                    0 <= t < i ==> (#[trigger] ix@[t]).0@ == names[t] && ix@[t].1 == t,
                forall|a: int, b: int| 0 <= a < b < i ==> names[a] != names[b],
            decreases products@.len() - i,
        {
            let name = &products[i].name;
            if find_key(&ix, name.as_str()).is_some() {
                proof {
                    lemma_lookup(ix@, name@);
                    let m = first_match(ix@, name@);
                    assert(names[m] == names[i as int]);
                }
                let mut m = String::new();
                m.append("duplicate product name: ");
                m.append(name.as_str());
                return Err(BuildError::Data(m));
            }
            proof {
                lemma_lookup(ix@, name@);
                assert(name@ == names[i as int]);
                assert forall|a: int| 0 <= a < i implies names[a] != names[i as int] by {
                    assert((ix@[a]).0@ == names[a]);
                    assert((ix@[a]).0@ != name@);
                }
            }
            ix.push((name.clone(), i));
            i += 1;
        }
        Ok(ix)
    }

    /// Builds the category reverse index by walking products in order and
    /// appending each position to the bucket of every slug it declares.
    /// A declared slug no category has is a data error.
    fn build_category_buckets(
        products: &Vec<Product>,
        slug_index: &Vec<(String, usize)>,
        category_count: usize,
    ) -> (r: Result<Vec<Vec<usize>>, BuildError>)
        requires
            exact_index(slug_index@, keys_of(slug_index@)),
            distinct_keys(keys_of(slug_index@)),
            keys_of(slug_index@).len() == category_count,
            forall|p: int|
                0 <= p < products@.len() ==> distinct_keys(
                    (#[trigger] products@[p]).slug_views(),
                ),
        ensures
            match r {
                Ok(b) => {
                    &&& b@.len() == category_count
                    &&& forall|j: int|
                        0 <= j < category_count ==> nums(#[trigger] b@[j]@) == cat_bucket_upto(
                            products@,
                            keys_of(slug_index@)[j],
                            products@.len() as int,
                        )
                    &&& all_declared(products@, keys_of(slug_index@), products@.len() as int)
                },
                Err(e) => e is Data && !all_declared(
                    products@,
                    keys_of(slug_index@),
                    products@.len() as int,
                ),
            },
    {
        let ghost keys = keys_of(slug_index@);
        let mut buckets: Vec<Vec<usize>> = Vec::new();
        let mut j: usize = 0;
        while j < category_count
            invariant
                j <= category_count,
                buckets@.len() == j,
                forall|t: int| 0 <= t < j ==> nums(#[trigger] buckets@[t]@) =~= Seq::<int>::empty(),
            decreases category_count - j,
        {
            buckets.push(Vec::new());
            j += 1;
        }
        let mut p: usize = 0;
        while p < products.len()
            invariant
                keys == keys_of(slug_index@),
                exact_index(slug_index@, keys),
                distinct_keys(keys),
                keys.len() == category_count,
                forall|q: int|
                    0 <= q < products@.len() ==> distinct_keys(
                        (#[trigger] products@[q]).slug_views(),
                    ),
                p <= products@.len(),
                buckets@.len() == category_count,
                forall|t: int|
                    0 <= t < category_count ==> nums(#[trigger] buckets@[t]@) == cat_bucket_upto(
                        products@,
                        keys[t],
                        p as int,
                    ),
                all_declared(products@, keys, p as int),
            decreases products@.len() - p,
        {
            let ghost views = products@[p as int].slug_views();
            let cats = &products[p].categories;
            let mut t: usize = 0;
            while t < cats.len()
                invariant
                    keys == keys_of(slug_index@),
                    exact_index(slug_index@, keys),
                    distinct_keys(keys),
                    keys.len() == category_count,
                    p < products@.len(),
                    cats@ == products@[p as int].categories@,
                    views == products@[p as int].slug_views(),
                    distinct_keys(views),
                    t <= views.len(),
                    views.len() == cats@.len(),
                    buckets@.len() == category_count,
                    forall|u: int| 0 <= u < t ==> keys.contains(#[trigger] views[u]),
                    forall|jj: int|
                        0 <= jj < category_count ==> nums(#[trigger] buckets@[jj]@)
                            == if declares_upto(views, keys[jj], t as int) {
                            cat_bucket_upto(products@, keys[jj], p as int).push(p as int)
                        } else {
                            cat_bucket_upto(products@, keys[jj], p as int)
                        },
                decreases cats@.len() - t,
            {
                let slug = &cats[t];
                proof {
                    assert(views[t as int] == slug@);
                }
                match find_key(slug_index, slug.as_str()) {
                    Some(ci) => {
                        proof {
                            lemma_lookup(slug_index@, slug@);
                            let m = first_match(slug_index@, slug@);
                            assert(slug_index@[m].1 == m);
                            assert(ci as int == m);
                            assert(keys[ci as int] == slug@);
                        }
                        let ghost pre_buckets = buckets@;
                        buckets[ci].push(p);
                        proof {
                            assert(buckets@ =~= pre_buckets.update(
                                ci as int,
                                buckets@[ci as int],
                            ));
                            assert(buckets@[ci as int]@ =~= pre_buckets[ci as int]@.push(p));
                            assert(!declares_upto(views, keys[ci as int], t as int));
                            assert(nums(buckets@[ci as int]@) =~= nums(
                                pre_buckets[ci as int]@,
                            ).push(p as int));
                            assert forall|jj: int| 0 <= jj < category_count implies nums(
                                #[trigger] buckets@[jj]@,
                            ) == if declares_upto(views, keys[jj], t as int + 1) {
                                cat_bucket_upto(products@, keys[jj], p as int).push(p as int)
                            } else {
                                cat_bucket_upto(products@, keys[jj], p as int)
                            } by {
                                if jj == ci as int {
                                    assert(declares_upto(views, keys[jj], t as int + 1));
                                } else {
                                    assert(keys[jj] != keys[ci as int]);
                                    assert(declares_upto(views, keys[jj], t as int + 1)
                                        == declares_upto(views, keys[jj], t as int));
                                }
                            }
                            assert(keys.contains(views[t as int]));
                        }
                    },
                    None => {
                        proof {
                            lemma_lookup(slug_index@, slug@);
                            assert(forall|u: int|
                                0 <= u < keys.len() ==> #[trigger] keys[u] != slug@);
                            assert(!keys.contains(views[t as int]));
                            assert(!all_declared(products@, keys, products@.len() as int));
                        }
                        let mut m = String::new();
                        m.append("product declares an unknown category slug: ");
                        m.append(slug.as_str());
                        return Err(BuildError::Data(m));
                    },
                }
                t += 1;
            }
            proof {
                assert forall|jj: int| 0 <= jj < category_count implies nums(
                    #[trigger] buckets@[jj]@,
                ) == cat_bucket_upto(products@, keys[jj], p as int + 1) by {
                    assert(declares_upto(views, keys[jj], views.len() as int) == declares(
                        products@[p as int],
                        keys[jj],
                    ));
                    if declares(products@[p as int], keys[jj]) {
                        assert(cat_bucket_upto(products@, keys[jj], p as int + 1)
                            =~= cat_bucket_upto(products@, keys[jj], p as int).push(p as int));
                    }
                }
                assert(all_declared(products@, keys, p as int + 1));
            }
            p += 1;
        }
        Ok(buckets)
    }

    /// Builds the country reverse index; a product without a country lands
    /// in no bucket.
    fn build_country_buckets(products: &Vec<Product>) -> (r: Vec<Vec<usize>>)
        ensures
            r@.len() == COUNTRY_COUNT,
            forall|k: int|
                0 <= k < COUNTRY_COUNT ==> nums(#[trigger] r@[k]@) == country_bucket_upto(
                    products@,
                    k,
                    products@.len() as int,
                ),
    {
        let mut buckets: Vec<Vec<usize>> = Vec::new();
        let mut j: usize = 0;
        while j < COUNTRY_COUNT
            invariant
                j <= COUNTRY_COUNT,
                buckets@.len() == j,
                forall|t: int| 0 <= t < j ==> nums(#[trigger] buckets@[t]@) =~= Seq::<int>::empty(),
            decreases COUNTRY_COUNT - j,
        {
            buckets.push(Vec::new());
            j += 1;
        }
        let mut p: usize = 0;
        while p < products.len()
            invariant
                p <= products@.len(),
                buckets@.len() == COUNTRY_COUNT,
                forall|k: int|
                    0 <= k < COUNTRY_COUNT ==> nums(#[trigger] buckets@[k]@) == country_bucket_upto(
                        products@,
                        k,
                        p as int,
                    ),
            decreases products@.len() - p,
        {
            match &products[p].country {
                Some(c) => {
                    let ord = c.ordinal();
                    let ghost pre_buckets = buckets@;
                    buckets[ord].push(p);
                    proof {
                        assert(buckets@ =~= pre_buckets.update(ord as int, buckets@[ord as int]));
                        assert(buckets@[ord as int]@ =~= pre_buckets[ord as int]@.push(p));
                        assert(nums(buckets@[ord as int]@) =~= nums(
                            pre_buckets[ord as int]@,
                        ).push(p as int));
                        assert forall|k: int| 0 <= k < COUNTRY_COUNT implies nums(
                            #[trigger] buckets@[k]@,
                        ) == country_bucket_upto(products@, k, p as int + 1) by {
                            if k == ord as int {
                                assert(country_bucket_upto(products@, k, p as int + 1)
                                    =~= country_bucket_upto(products@, k, p as int).push(p as int));
                            }
                        }
                    }
                },
                None => {
                    proof {
                        assert(forall|k: int|
                            0 <= k < COUNTRY_COUNT ==> country_bucket_upto(products@, k, p as int)
                                == country_bucket_upto(products@, k, p as int + 1));
                    }
                },
            }
            p += 1;
        }
        buckets
    }
}

/// An exact index with distinct keys answers every key with its position,
/// and holds exactly one entry for it.
pub proof fn lemma_exact_index_lookup(entries: Seq<(String, usize)>, keys: Seq<Seq<char>>, i: int)
    requires
        exact_index(entries, keys),
        distinct_keys(keys),
        0 <= i < keys.len(),
    ensures
        lookup(entries, keys[i]) == Some(i),
        key_count(entries, keys[i]) == 1,
{
    let key = keys[i];
    lemma_lookup(entries, key);
    let m = first_match(entries, key);
    if m == -1 {
        assert(entries[i].0@ == key);
    }
    assert(0 <= m < entries.len());
    assert(entries[m].0@ == keys[m]);
    assert(m == i);
    assert forall|t: int| 0 <= t < entries.len() && t != i implies (#[trigger] entries[t]).0@
        != key by {
        assert(entries[t].0@ == keys[t]);
    }
    lemma_count_one(entries, key, i);
}

/// Law: every category slug is unique, and the slug index maps it to the
/// category's position through exactly one entry.
pub proof fn lemma_slug_index_exact(c: &Catalog, i: int)
    requires
        c.wf(),
        0 <= i < c.categories@.len(),
    ensures
        lookup(c.slug_index@, c.categories@[i].slug@) == Some(i),
        key_count(c.slug_index@, c.categories@[i].slug@) == 1,
        forall|j: int|
            0 <= j < c.categories@.len() && j != i ==> (#[trigger] c.categories@[j]).slug@
                != c.categories@[i].slug@,
{
    lemma_exact_index_lookup(c.slug_index@, c.slug_seq(), i);
    assert(c.slug_seq()[i] == c.categories@[i].slug@);
    assert forall|j: int| 0 <= j < c.categories@.len() && j != i implies (
    #[trigger] c.categories@[j]).slug@ != c.categories@[i].slug@ by {
        assert(c.slug_seq()[j] == c.categories@[j].slug@);
    }
}

/// Law: every product name is unique, and the name index maps it to the
/// product's position through exactly one entry.
pub proof fn lemma_name_index_exact(c: &Catalog, i: int)
    requires
        c.wf(),
        0 <= i < c.products@.len(),
    ensures
        lookup(c.name_index@, c.products@[i].name@) == Some(i),
        key_count(c.name_index@, c.products@[i].name@) == 1,
        forall|j: int|
            0 <= j < c.products@.len() && j != i ==> (#[trigger] c.products@[j]).name@
                != c.products@[i].name@,
{
    lemma_exact_index_lookup(c.name_index@, c.name_seq(), i);
    assert(c.name_seq()[i] == c.products@[i].name@);
    assert forall|j: int| 0 <= j < c.products@.len() && j != i implies (
    #[trigger] c.products@[j]).name@ != c.products@[i].name@ by {
        assert(c.name_seq()[j] == c.products@[j].name@);
    }
}

/// Appending a position to a bucket raises only that position's count.
proof fn lemma_pos_count_push(b: Seq<int>, x: int, p: int)
    ensures
        pos_count(b.push(x), p) == pos_count(b, p) + if x == p {
            1int
        } else {
            0int
        },
    decreases b.len(),
{
    let e = b.push(x);
    if b.len() == 0 {
        assert(e[0] == x);
        assert(e.drop_first() =~= Seq::<int>::empty());
        assert(pos_count(e.drop_first(), p) == 0);
        assert(pos_count(e, p) == (if e[0] == p {
            1int
        } else {
            0int
        }) + pos_count(e.drop_first(), p));
        assert(pos_count(b, p) == 0);
    } else {
        assert(e.drop_first() =~= b.drop_first().push(x));
        assert(e[0] == b[0]);
        lemma_pos_count_push(b.drop_first(), x, p);
        assert(pos_count(e, p) == (if e[0] == p {
            1int
        } else {
            0int
        }) + pos_count(e.drop_first(), p));
        assert(pos_count(b, p) == (if b[0] == p {
            1int
        } else {
            0int
        }) + pos_count(b.drop_first(), p));
    }
}

/// A category bucket over the first `n` products counts position `p` once
/// exactly when `p` is among them and declares the slug.
proof fn lemma_cat_bucket_count(products: Seq<Product>, slug: Seq<char>, n: int, p: int)
    requires
        n <= products.len(),
    ensures
        pos_count(cat_bucket_upto(products, slug, n), p) == if 0 <= p < n && declares(
            products[p],
            slug,
        ) {
            1int
        } else {
            0int
        },
    decreases n,
{
    if n <= 0 {
    } else {
        lemma_cat_bucket_count(products, slug, n - 1, p);
        if declares(products[n - 1], slug) {
            lemma_pos_count_push(cat_bucket_upto(products, slug, n - 1), n - 1, p);
        }
    }
}

/// A country bucket over the first `n` products counts position `p` once
/// exactly when `p` is among them and its country sits at ordinal `k`.
proof fn lemma_country_bucket_count(products: Seq<Product>, k: int, n: int, p: int)
    requires
        n <= products.len(),
    ensures
        pos_count(country_bucket_upto(products, k, n), p) == if 0 <= p < n
            && products[p].country is Some && products[p].country->0.ordinal_spec() == k {
            1int
        } else {
            0int
        },
    decreases n,
{
    if n <= 0 {
    } else {
        lemma_country_bucket_count(products, k, n - 1, p);
        let c = products[n - 1].country;
        if c is Some && c->0.ordinal_spec() == k {
            lemma_pos_count_push(country_bucket_upto(products, k, n - 1), n - 1, p);
        }
    }
}

/// A category bucket lists positions in strictly ascending order, all in
/// range.
pub proof fn lemma_cat_bucket_increasing(products: Seq<Product>, slug: Seq<char>, n: int)
    ensures
        forall|a: int, b: int|
            0 <= a < b < cat_bucket_upto(products, slug, n).len() ==> #[trigger] cat_bucket_upto(
                products,
                slug,
                n,
            )[a] < #[trigger] cat_bucket_upto(products, slug, n)[b],
        forall|a: int|
            0 <= a < cat_bucket_upto(products, slug, n).len() ==> 0 <= #[trigger] cat_bucket_upto(
                products,
                slug,
                n,
            )[a] < n,
    decreases n,
{
    if n > 0 {
        lemma_cat_bucket_increasing(products, slug, n - 1);
        let pre = cat_bucket_upto(products, slug, n - 1);
        if declares(products[n - 1], slug) {
            assert(cat_bucket_upto(products, slug, n) =~= pre.push(n - 1));
        }
    }
}

/// Law: a product's position stands exactly once in the bucket of every
/// category slug it declares, and in no other category bucket.
pub proof fn lemma_category_bucket_membership(c: &Catalog, j: int, p: int)
    requires
        c.wf(),
        0 <= j < c.categories@.len(),
        0 <= p < c.products@.len(),
    ensures
        pos_count(nums(c.category_to_products@[j]@), p) == if declares(
            c.products@[p],
            c.categories@[j].slug@,
        ) {
            1int
        } else {
            0int
        },
{
    assert(c.slug_seq()[j] == c.categories@[j].slug@);
    lemma_cat_bucket_count(c.products@, c.slug_seq()[j], c.products@.len() as int, p);
}

/// Law: every stored summary is the stated truncation of its description —
/// a category's first sentence, a product's first two non-empty sentences.
pub proof fn lemma_summaries_follow_descriptions(c: &Catalog, i: int, p: int)
    requires
        c.wf(),
        0 <= i < c.categories@.len(),
        0 <= p < c.products@.len(),
    ensures
        c.categories@[i].summary@ == crate::extract::first_sentence_spec(
            c.categories@[i].description@,
        ),
        c.products@[p].summary@ == crate::extract::summary_spec(c.products@[p].description@),
{
}

/// Law: a product with a country stands exactly once in that country's
/// bucket; a product without a country stands in no country bucket.
pub proof fn lemma_country_bucket_membership(c: &Catalog, k: int, p: int)
    requires
        c.wf(),
        0 <= k < COUNTRY_COUNT,
        0 <= p < c.products@.len(),
    ensures
        pos_count(nums(c.country_to_products@[k]@), p) == if c.products@[p].country is Some
            && c.products@[p].country->0.ordinal_spec() == k {
            1int
        } else {
            0int
        },
        c.products@[p].country is None ==> pos_count(nums(c.country_to_products@[k]@), p) == 0,
{
    lemma_country_bucket_count(c.products@, k, c.products@.len() as int, p);
}

} // verus!
