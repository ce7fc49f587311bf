//! Character-level text helpers shared by the extractors, the indexer and the
//! code generator. Verified logic works over `Vec<char>` whose view is the
//! `Seq<char>` the contracts speak of; a few trusted items name the results of
//! Unicode case folding, which no short specification can state.

use vstd::prelude::*;

verus! {

/// Appends one character to a string in place.
/// Relies on `String::push`, which appends the given character to the end.
#[verifier::external_body]
pub fn push_char(s: &mut String, c: char)
    ensures
        final(s)@ == old(s)@.push(c),
{
    s.push(c);
}

/// The characters of `s`, in order, as a vector.
pub fn chars_of(s: &str) -> (r: Vec<char>)
    ensures
        r@ == s@,
{
    let n = s.unicode_len();
    let mut r: Vec<char> = Vec::new();
    let mut i: usize = 0;
    while i < n
        invariant
            n == s@.len(),
            i <= n,
            r@ == s@.subrange(0, i as int),
        decreases n - i,
    {
        r.push(s.get_char(i));
        i += 1;
        proof {
            assert(r@ =~= s@.subrange(0, i as int));
        }
    }
    proof {
        assert(r@ =~= s@);
    }
    r
}

/// A string holding exactly the characters of `v`, in order.
pub fn string_from_chars(v: &Vec<char>) -> (r: String)
    ensures
        r@ == v@,
{
    let mut r = String::new();
    let mut i: usize = 0;
    while i < v.len()
        invariant
            i <= v@.len(),
            r@ == v@.subrange(0, i as int),
        decreases v@.len() - i,
    {
        push_char(&mut r, v[i]);
        i += 1;
        proof {
            assert(r@ =~= v@.subrange(0, i as int));
        }
    }
    proof {
        assert(r@ =~= v@);
    }
    r
}

/// Whether `c` counts as whitespace under Unicode's `White_Space` property.
pub uninterp spec fn unicode_space(c: char) -> bool;

/// Whether `c` is alphabetic or numeric under Unicode's classification.
pub uninterp spec fn unicode_alnum(c: char) -> bool;

/// What `str::to_lowercase` returns for a given character sequence.
pub uninterp spec fn lower_of(s: Seq<char>) -> Seq<char>;

/// What `char::to_uppercase` yields for a given character, as a sequence.
pub uninterp spec fn upper_char_of(c: char) -> Seq<char>;

/// What heck's title-casing produces for a given character sequence.
pub uninterp spec fn title_case_of(s: Seq<char>) -> Seq<char>;

/// What heck's snake-casing produces for a given character sequence.
pub uninterp spec fn snake_case_of(s: Seq<char>) -> Seq<char>;

/// Relies on `char::is_whitespace`: true exactly for characters with the
/// Unicode `White_Space` property; the space character is among them.
#[verifier::external_body]
pub(crate) fn char_is_whitespace(c: char) -> (r: bool)
    ensures
        r == unicode_space(c),
        c == ' ' ==> r,
{
    c.is_whitespace()
}

/// Relies on `char::is_alphanumeric`: true exactly for alphabetic and
/// numeric characters; whitespace is never among them.
#[verifier::external_body]
pub(crate) fn char_is_alphanumeric(c: char) -> (r: bool)
    ensures
        r == unicode_alnum(c),
{
    c.is_alphanumeric()
}

/// Relies on `str::to_lowercase`: the result is a function of the input
/// characters alone, and an empty input stays empty.
#[verifier::external_body]
pub(crate) fn lowercase(s: &str) -> (r: String)
    ensures
        r@ == lower_of(s@),
        s@.len() == 0 ==> r@.len() == 0,
{
    s.to_lowercase()
}

/// Relies on `char::to_uppercase`: the result is a function of the input
/// character alone.
#[verifier::external_body]
pub(crate) fn uppercase_char(c: char) -> (r: String)
    ensures
        r@ == upper_char_of(c),
{
    c.to_uppercase().collect()
}

/// Relies on heck's `AsTitleCase`: the result is a function of the input
/// characters alone.
#[verifier::external_body]
pub(crate) fn title_case(s: &str) -> (r: String)
    ensures
        r@ == title_case_of(s@),
{
    heck::AsTitleCase(s).to_string()
}

/// Relies on heck's `AsSnakeCase`: the result is a function of the input
/// characters alone.
#[verifier::external_body]
pub(crate) fn snake_case(s: &str) -> (r: String)
    ensures
        r@ == snake_case_of(s@),
{
    heck::AsSnakeCase(s).to_string()
}

/// `s` without leading whitespace.
pub open spec fn trim_start_spec(s: Seq<char>) -> Seq<char>
    decreases s.len(),
{
    if s.len() > 0 && unicode_space(s[0]) {
        trim_start_spec(s.drop_first())
    } else {
        s
    }
}

/// `s` without trailing whitespace.
pub open spec fn trim_end_spec(s: Seq<char>) -> Seq<char>
    decreases s.len(),
{
    if s.len() > 0 && unicode_space(s.last()) {
        trim_end_spec(s.drop_last())
    } else {
        s
    }
}

/// `s` without leading or trailing whitespace.
pub open spec fn trim_spec(s: Seq<char>) -> Seq<char> {
    trim_end_spec(trim_start_spec(s))
}

/// The characters of `v` with leading and trailing whitespace removed.
pub fn trim_chars(v: &Vec<char>) -> (r: Vec<char>)
    ensures
        r@ == trim_spec(v@),
{
    let mut lo: usize = 0;
    proof {
        assert(v@.subrange(0, v@.len() as int) =~= v@);
    }
    while lo < v.len() && char_is_whitespace(v[lo])
        invariant
            lo <= v@.len(),
            trim_start_spec(v@) == trim_start_spec(v@.subrange(lo as int, v@.len() as int)),
        decreases v@.len() - lo,
    {
        proof {
            let tail = v@.subrange(lo as int, v@.len() as int);
            assert(tail.drop_first() =~= v@.subrange(lo as int + 1, v@.len() as int));
        }
        lo += 1;
    }
    proof {
        let tail = v@.subrange(lo as int, v@.len() as int);
        assert(trim_start_spec(tail) == tail);
    }
    let mut hi: usize = v.len();
    while hi > lo && char_is_whitespace(v[hi - 1])
        invariant
            lo <= hi <= v@.len(),
            trim_start_spec(v@) == v@.subrange(lo as int, v@.len() as int),
            trim_spec(v@) == trim_end_spec(v@.subrange(lo as int, hi as int)),
        decreases hi,
    {
        proof {
            let part = v@.subrange(lo as int, hi as int);
            assert(part.drop_last() =~= v@.subrange(lo as int, hi as int - 1));
        }
        hi -= 1;
    }
    proof {
        let part = v@.subrange(lo as int, hi as int);
        assert(trim_end_spec(part) == part);
    }
    let mut r: Vec<char> = Vec::new();
    let mut i: usize = lo;
    while i < hi
        invariant
            lo <= i <= hi <= v@.len(),
            r@ == v@.subrange(lo as int, i as int),
        decreases hi - i,
    {
        r.push(v[i]);
        i += 1;
        proof {
            assert(r@ =~= v@.subrange(lo as int, i as int));
        }
    }
    r
}

/// The index of the first occurrence of `pat` in `s` at or after `i`,
/// or `-1` when there is none.
pub open spec fn find_from(s: Seq<char>, pat: Seq<char>, i: nat) -> int
    decreases s.len() - i,
{
    if i + pat.len() > s.len() {
        -1
    } else if s.subrange(i as int, i as int + pat.len() as int) =~= pat {
        i as int
    } else {
        find_from(s, pat, i + 1)
    }
}

/// The index of the first occurrence of `pat` in `s`, or `-1` when absent.
pub open spec fn find_sub(s: Seq<char>, pat: Seq<char>) -> int {
    find_from(s, pat, 0)
}

/// Whether `pat` occurs inside `s`.
pub open spec fn contains_sub(s: Seq<char>, pat: Seq<char>) -> bool {
    find_sub(s, pat) >= 0
}

/// Whether `v` matches `pat` starting at position `i`.
fn matches_at(v: &Vec<char>, pat: &Vec<char>, i: usize) -> (r: bool)
    requires
        i + pat@.len() <= v@.len(),
    ensures
        r == (v@.subrange(i as int, i as int + pat@.len() as int) =~= pat@),
{
    let n = v.len();
    let mut j: usize = 0;
    while j < pat.len()
        invariant
            n == v@.len(),
            i + pat@.len() <= v@.len(),
            j <= pat@.len(),
            forall|k: int| 0 <= k < j ==> v@[i + k] == pat@[k],
        decreases pat@.len() - j,
    {
        proof {
            assert(i + j < v@.len());
        }
        if v[i + j] != pat[j] {
            proof {
                let w = v@.subrange(i as int, i as int + pat@.len() as int);
                assert(w[j as int] != pat@[j as int]);
            }
            return false;
        }
        j += 1;
    }
    proof {
        let w = v@.subrange(i as int, i as int + pat@.len() as int);
        assert(w =~= pat@);
    }
    true
}

/// The position of the first occurrence of `pat` in `v`, or `None`.
pub fn find_in(v: &Vec<char>, pat: &Vec<char>) -> (r: Option<usize>)
    ensures
        match r {
            Some(i) => find_sub(v@, pat@) == i as int,
            None => find_sub(v@, pat@) == -1,
        },
{
    let mut i: usize = 0;
    if pat.len() > v.len() {
        return None;
    }
    if pat.len() == 0 {
        proof {
            assert(v@.subrange(0, 0) =~= pat@);
        }
        return Some(0);
    }
    let n = v.len();
    let last = n - pat.len();
    while i <= last
        invariant
            n == v@.len(),
            1 <= pat@.len() <= v@.len(),
            last == v@.len() - pat@.len(),
            i <= last + 1,
            find_from(v@, pat@, 0) == find_from(v@, pat@, i as nat),
        decreases last + 1 - i,
    {
        if matches_at(v, pat, i) {
            return Some(i);
        }
        i += 1;
    }
    None
}

/// Whether `pat` occurs inside `v`.
pub fn contains_chars(v: &Vec<char>, pat: &Vec<char>) -> (r: bool)
    ensures
        r == contains_sub(v@, pat@),
{
    find_in(v, pat).is_some()
}

/// The copy of `v` between positions `from` and `to`.
pub fn subrange_chars(v: &Vec<char>, from: usize, to: usize) -> (r: Vec<char>)
    requires
        from <= to <= v@.len(),
    ensures
        r@ == v@.subrange(from as int, to as int),
{
    let mut r: Vec<char> = Vec::new();
    let mut i: usize = from;
    while i < to
        invariant
            from <= i <= to <= v@.len(),
            r@ == v@.subrange(from as int, i as int),
        decreases to - i,
    {
        r.push(v[i]);
        i += 1;
        proof {
            assert(r@ =~= v@.subrange(from as int, i as int));
        }
    }
    r
}

/// The parts of `s` separated by `sep`, with `cur` the part read so far.
pub open spec fn split_char_go(s: Seq<char>, sep: char, cur: Seq<char>) -> Seq<Seq<char>>
    decreases s.len(),
{
    if s.len() == 0 {
        seq![cur]
    } else if s[0] == sep {
        seq![cur] + split_char_go(s.drop_first(), sep, seq![])
    } else {
        split_char_go(s.drop_first(), sep, cur.push(s[0]))
    }
}

/// The parts of `s` separated by `sep`, empty parts kept, as `str::split`
/// with a single-character pattern yields them.
pub open spec fn split_char_spec(s: Seq<char>, sep: char) -> Seq<Seq<char>> {
    split_char_go(s, sep, seq![])
}

/// Splits `v` on every occurrence of `sep`, keeping empty parts.
pub fn split_char(v: &Vec<char>, sep: char) -> (r: Vec<Vec<char>>)
    ensures
        r@.map_values(|p: Vec<char>| p@) == split_char_spec(v@, sep),
{
    let mut done: Vec<Vec<char>> = Vec::new();
    let mut cur: Vec<char> = Vec::new();
    let mut i: usize = 0;
    proof {
        assert(v@.subrange(0, v@.len() as int) =~= v@);
        assert(done@.map_values(|p: Vec<char>| p@) + split_char_go(v@, sep, cur@)
            =~= split_char_go(v@, sep, cur@));
    }
    while i < v.len()
        invariant
            i <= v@.len(),
            split_char_spec(v@, sep) == done@.map_values(|p: Vec<char>| p@) + split_char_go(
                v@.subrange(i as int, v@.len() as int),
                sep,
                cur@,
            ),
        decreases v@.len() - i,
    {
        let ghost pre_done = done@.map_values(|p: Vec<char>| p@);
        let ghost pre_cur = cur@;
        let ghost tail = v@.subrange(i as int, v@.len() as int);
        let ghost tail2 = v@.subrange(i as int + 1, v@.len() as int);
        proof {
            assert(tail.drop_first() =~= tail2);
            assert(tail[0] == v@[i as int]);
        }
        if v[i] == sep {
            done.push(cur);
            cur = Vec::new();
            proof {
                assert(done@.map_values(|p: Vec<char>| p@) =~= pre_done.push(pre_cur));
                assert(split_char_go(tail, sep, pre_cur) == seq![pre_cur] + split_char_go(
                    tail2,
                    sep,
                    Seq::<char>::empty(),
                ));
                assert(cur@ =~= Seq::<char>::empty());
                assert(pre_done.push(pre_cur) + split_char_go(tail2, sep, cur@) =~= pre_done + (
                seq![pre_cur] + split_char_go(tail2, sep, cur@)));
            }
        } else {
            cur.push(v[i]);
            proof {
                assert(cur@ =~= pre_cur.push(v@[i as int]));
            }
        }
        i += 1;
    }
    let ghost pre_done = done@.map_values(|p: Vec<char>| p@);
    let ghost pre_cur = cur@;
    done.push(cur);
    proof {
        assert(v@.subrange(v@.len() as int, v@.len() as int) =~= Seq::<char>::empty());
        assert(split_char_go(Seq::<char>::empty(), sep, pre_cur) == seq![pre_cur]);
        assert(done@.map_values(|p: Vec<char>| p@) =~= pre_done.push(pre_cur));
        assert(pre_done.push(pre_cur) =~= pre_done + seq![pre_cur]);
    }
    done
}

/// The whitespace-separated words of `s`, with `cur` the word read so far.
pub open spec fn words_go(s: Seq<char>, cur: Seq<char>) -> Seq<Seq<char>>
    decreases s.len(),
{
    if s.len() == 0 {
        if cur.len() > 0 {
            seq![cur]
        } else {
            seq![]
        }
    } else if unicode_space(s[0]) {
        if cur.len() > 0 {
            seq![cur] + words_go(s.drop_first(), seq![])
        } else {
            words_go(s.drop_first(), seq![])
        }
    } else {
        words_go(s.drop_first(), cur.push(s[0]))
    }
}

/// The whitespace-separated words of `s`, as `str::split_whitespace` yields
/// them: maximal runs of non-whitespace characters, in order.
pub open spec fn words_spec(s: Seq<char>) -> Seq<Seq<char>> {
    words_go(s, seq![])
}

/// Splits `v` into its whitespace-separated words.
pub fn split_words(v: &Vec<char>) -> (r: Vec<Vec<char>>)
    ensures
        r@.map_values(|p: Vec<char>| p@) == words_spec(v@),
{
    let mut done: Vec<Vec<char>> = Vec::new();
    let mut cur: Vec<char> = Vec::new();
    let mut i: usize = 0;
    proof {
        assert(v@.subrange(0, v@.len() as int) =~= v@);
        assert(done@.map_values(|p: Vec<char>| p@) + words_go(v@, cur@) =~= words_go(v@, cur@));
    }
    while i < v.len()
        invariant
            i <= v@.len(),
            words_spec(v@) == done@.map_values(|p: Vec<char>| p@) + words_go(
                v@.subrange(i as int, v@.len() as int),
                cur@,
            ),
        decreases v@.len() - i,
    {
        let ghost pre_done = done@.map_values(|p: Vec<char>| p@);
        let ghost pre_cur = cur@;
        let ghost tail = v@.subrange(i as int, v@.len() as int);
        let ghost tail2 = v@.subrange(i as int + 1, v@.len() as int);
        proof {
            assert(tail.drop_first() =~= tail2);
            assert(tail[0] == v@[i as int]);
        }
        if char_is_whitespace(v[i]) {
            if cur.len() > 0 {
                done.push(cur);
                cur = Vec::new();
                proof {
                    assert(done@.map_values(|p: Vec<char>| p@) =~= pre_done.push(pre_cur));
                    assert(words_go(tail, pre_cur) == seq![pre_cur] + words_go(
                        tail2,
                        Seq::<char>::empty(),
                    ));
                    assert(cur@ =~= Seq::<char>::empty());
                    assert(pre_done.push(pre_cur) + words_go(tail2, cur@) =~= pre_done + (
                    seq![pre_cur] + words_go(tail2, cur@)));
                }
            } else {
                proof {
                    assert(pre_cur =~= Seq::<char>::empty());
                    assert(words_go(tail, pre_cur) == words_go(tail2, Seq::<char>::empty()));
                }
            }
        } else {
            cur.push(v[i]);
            proof {
                assert(cur@ =~= pre_cur.push(v@[i as int]));
            }
        }
        i += 1;
    }
    proof {
        assert(v@.subrange(v@.len() as int, v@.len() as int) =~= Seq::<char>::empty());
    }
    if cur.len() > 0 {
        let ghost pre_done = done@.map_values(|p: Vec<char>| p@);
        let ghost pre_cur = cur@;
        done.push(cur);
        proof {
            assert(words_go(Seq::<char>::empty(), pre_cur) == seq![pre_cur]);
            assert(done@.map_values(|p: Vec<char>| p@) =~= pre_done.push(pre_cur));
            assert(pre_done.push(pre_cur) =~= pre_done + seq![pre_cur]);
        }
    } else {
        proof {
            assert(words_go(Seq::<char>::empty(), cur@) =~= Seq::<Seq<char>>::empty());
            assert(done@.map_values(|p: Vec<char>| p@) + words_go(Seq::<char>::empty(), cur@)
                =~= done@.map_values(|p: Vec<char>| p@));
        }
    }
    done
}

/// A matched position of `find_from` lies in range and matches `pat`.
pub proof fn lemma_find_from_bounds(s: Seq<char>, pat: Seq<char>, i: nat)
    requires
        find_from(s, pat, i) >= 0,
    ensures
        i <= find_from(s, pat, i),
        find_from(s, pat, i) + pat.len() <= s.len(),
        s.subrange(find_from(s, pat, i), find_from(s, pat, i) + pat.len() as int) =~= pat,
    decreases s.len() - i,
{
    if i + pat.len() > s.len() {
    } else if s.subrange(i as int, i as int + pat.len() as int) =~= pat {
    } else {
        lemma_find_from_bounds(s, pat, i + 1);
    }
}

/// The parts of `s` separated by the non-empty pattern `pat`, leftmost
/// non-overlapping occurrences, empty parts kept.
pub open spec fn split_on(s: Seq<char>, pat: Seq<char>) -> Seq<Seq<char>>
    decreases s.len(),
{
    if pat.len() == 0 || s.len() < pat.len() {
        seq![s]
    } else {
        let k = find_sub(s, pat);
        if k < 0 || k + pat.len() > s.len() {
            seq![s]
        } else {
            seq![s.take(k)] + split_on(s.skip(k + pat.len() as int), pat)
        }
    }
}

/// Splits `v` on every leftmost occurrence of `pat`.
pub fn split_on_chars(v: &Vec<char>, pat: &Vec<char>) -> (r: Vec<Vec<char>>)
    requires
        pat@.len() >= 1,
    ensures
        r@.map_values(|p: Vec<char>| p@) == split_on(v@, pat@),
{
    let mut parts: Vec<Vec<char>> = Vec::new();
    let mut rem: Vec<char> = subrange_chars(v, 0, v.len());
    proof {
        assert(rem@ =~= v@);
        assert(parts@.map_values(|p: Vec<char>| p@) + split_on(rem@, pat@) =~= split_on(
            v@,
            pat@,
        ));
    }
    loop
        invariant_except_break
            pat@.len() >= 1,
            split_on(v@, pat@) == parts@.map_values(|p: Vec<char>| p@) + split_on(rem@, pat@),
        ensures
            parts@.map_values(|p: Vec<char>| p@) == split_on(v@, pat@),
        decreases rem@.len(),
    {
        let ghost pre_parts = parts@.map_values(|p: Vec<char>| p@);
        let ghost pre_rem = rem@;
        match find_in(&rem, pat) {
            Some(k) => {
                let rn = rem.len();
                proof {
                    lemma_find_from_bounds(rem@, pat@, 0);
                    assert(k + pat@.len() <= rn);
                }
                let part = subrange_chars(&rem, 0, k);
                parts.push(part);
                let next = subrange_chars(&rem, k + pat.len(), rn);
                proof {
                    assert(pre_rem.take(k as int) =~= pre_rem.subrange(0, k as int));
                    assert(pre_rem.skip(k + pat@.len() as int) =~= pre_rem.subrange(
                        k + pat@.len() as int,
                        pre_rem.len() as int,
                    ));
                    assert(split_on(pre_rem, pat@) == seq![pre_rem.take(k as int)] + split_on(
                        pre_rem.skip(k + pat@.len() as int),
                        pat@,
                    ));
                    assert(parts@.map_values(|p: Vec<char>| p@) =~= pre_parts.push(
                        pre_rem.take(k as int),
                    ));
                    assert(pre_parts.push(pre_rem.take(k as int)) + split_on(next@, pat@)
                        =~= pre_parts + (seq![pre_rem.take(k as int)] + split_on(next@, pat@)));
                }
                rem = next;
            },
            None => {
                proof {
                    assert(split_on(pre_rem, pat@) == seq![pre_rem]);
                }
                parts.push(rem);
                proof {
                    assert(parts@.map_values(|p: Vec<char>| p@) =~= pre_parts.push(pre_rem));
                    assert(pre_parts.push(pre_rem) =~= pre_parts + seq![pre_rem]);
                }
                break ;
            },
        }
    }
    parts
}

/// `s` with every leftmost occurrence of the non-empty `from` replaced by
/// `to`.
pub open spec fn replace_all(s: Seq<char>, from: Seq<char>, to: Seq<char>) -> Seq<char> {
    join_with(split_on(s, from), to)
}

/// Replaces every leftmost occurrence of `from` in `v` by `to`.
pub fn replace_all_chars(v: &Vec<char>, from: &Vec<char>, to: &Vec<char>) -> (r: Vec<char>)
    requires
        from@.len() >= 1,
    ensures
        r@ == replace_all(v@, from@, to@),
{
    let parts = split_on_chars(v, from);
    join_chars(&parts, to)
}

/// The concatenation of `parts` with `sep` between consecutive parts.
pub open spec fn join_with(parts: Seq<Seq<char>>, sep: Seq<char>) -> Seq<char>
    decreases parts.len(),
{
    if parts.len() == 0 {
        seq![]
    } else if parts.len() == 1 {
        parts[0]
    } else {
        parts[0] + sep + join_with(parts.drop_first(), sep)
    }
}

/// Joins `parts` with `sep` between consecutive parts.
pub fn join_chars(parts: &Vec<Vec<char>>, sep: &Vec<char>) -> (r: Vec<char>)
    ensures
        r@ == join_with(parts@.map_values(|p: Vec<char>| p@), sep@),
{
    let ghost all = parts@.map_values(|p: Vec<char>| p@);
    let mut r: Vec<char> = Vec::new();
    let mut i: usize = parts.len();
    let mut acc: Vec<char> = Vec::new();
    // build from the back so the recursive shape of `join_with` unfolds directly
    while i > 0
        invariant
            i <= parts@.len(),
            all == parts@.map_values(|p: Vec<char>| p@),
            acc@ == join_with(all.subrange(i as int, all.len() as int), sep@),
        decreases i,
    {
        i -= 1;
        let mut piece: Vec<char> = Vec::new();
        let mut k: usize = 0;
        let part = &parts[i];
        while k < part.len()
            invariant
                part@ == parts@[i as int]@,
                k <= part@.len(),
                piece@ == part@.subrange(0, k as int),
            decreases part@.len() - k,
        {
            piece.push(part[k]);
            k += 1;
            proof {
                assert(piece@ =~= part@.subrange(0, k as int));
            }
        }
        proof {
            assert(piece@ =~= parts@[i as int]@);
        }
        if i + 1 < parts.len() {
            let mut s: usize = 0;
            while s < sep.len()
                invariant
                    s <= sep@.len(),
                    piece@ == parts@[i as int]@ + sep@.subrange(0, s as int),
                decreases sep@.len() - s,
            {
                piece.push(sep[s]);
                s += 1;
                proof {
                    assert(piece@ =~= parts@[i as int]@ + sep@.subrange(0, s as int));
                }
            }
            proof {
                assert(piece@ =~= parts@[i as int]@ + sep@);
            }
        }
        let mut joined = piece;
        let mut t: usize = 0;
        while t < acc.len()
            invariant
                t <= acc@.len(),
                acc@ == join_with(all.subrange(i as int + 1, all.len() as int), sep@),
                i < all.len(),
                (i + 1 < all.len() ==> joined@ == all[i as int] + sep@ + acc@.subrange(
                    0,
                    t as int,
                )),
                (i + 1 == all.len() ==> joined@ == all[i as int] + acc@.subrange(0, t as int)),
            decreases acc@.len() - t,
        {
            joined.push(acc[t]);
            t += 1;
        }
        proof {
            let rest = all.subrange(i as int, all.len() as int);
            assert(rest[0] == all[i as int]);
            assert(rest.drop_first() =~= all.subrange(i as int + 1, all.len() as int));
            if i + 1 < all.len() {
                assert(acc@.subrange(0, acc@.len() as int) =~= acc@);
                assert(joined@ =~= all[i as int] + sep@ + acc@);
            } else {
                assert(acc@ == join_with(all.subrange(i as int + 1, all.len() as int), sep@));
                assert(all.subrange(i as int + 1, all.len() as int).len() == 0);
                assert(acc@.subrange(0, acc@.len() as int) =~= acc@);
                assert(joined@ =~= all[i as int] + acc@);
                assert(rest.len() == 1);
                assert(joined@ =~= all[i as int]);
            }
        }
        acc = joined;
    }
    proof {
        assert(all.subrange(0, all.len() as int) =~= all);
    }
    acc
}

/// The suffix of `s` after the last occurrence of `sep`, or `s` itself when
/// `sep` does not occur.
pub open spec fn after_last(s: Seq<char>, sep: char) -> Seq<char>
    decreases s.len(),
{
    if s.len() == 0 {
        s
    } else if s.last() == sep {
        Seq::empty()
    } else {
        after_last(s.drop_last(), sep).push(s.last())
    }
}

/// The characters of `v` after its last occurrence of `sep`.
pub fn after_last_chars(v: &Vec<char>, sep: char) -> (r: Vec<char>)
    ensures
        r@ == after_last(v@, sep),
{
    let mut r: Vec<char> = Vec::new();
    let mut i: usize = 0;
    proof {
        assert(v@.subrange(0, 0) =~= Seq::<char>::empty());
        assert(after_last(v@.subrange(0, 0), sep) =~= Seq::<char>::empty());
    }
    while i < v.len()
        invariant
            i <= v@.len(),
            r@ == after_last(v@.subrange(0, i as int), sep),
        decreases v@.len() - i,
    {
        let ghost pre = v@.subrange(0, i as int);
        proof {
            let cur = v@.subrange(0, i as int + 1);
            assert(cur.drop_last() =~= pre);
            assert(cur.last() == v@[i as int]);
        }
        if v[i] == sep {
            r = Vec::new();
        } else {
            r.push(v[i]);
        }
        i += 1;
    }
    proof {
        assert(v@.subrange(0, v@.len() as int) =~= v@);
    }
    r
}

/// Whether two string slices hold the same characters.
pub fn str_eq(a: &str, b: &str) -> (r: bool)
    ensures
        r == (a@ == b@),
{
    let na = a.unicode_len();
    let nb = b.unicode_len();
    if na != nb {
        return false;
    }
    let mut i: usize = 0;
    while i < na
        invariant
            na == a@.len(),
            na == b@.len(),
            i <= na,
            forall|k: int| 0 <= k < i ==> a@[k] == b@[k],
        decreases na - i,
    {
        if a.get_char(i) != b.get_char(i) {
            return false;
        }
        i += 1;
    }
    proof {
        assert(a@ =~= b@);
    }
    true
}

/// Whether `a` sorts at or before `b` in code-point order.
pub open spec fn lex_le(a: Seq<char>, b: Seq<char>) -> bool
    decreases a.len(),
{
    if a.len() == 0 {
        true
    } else if b.len() == 0 {
        false
    } else if a[0] == b[0] {
        lex_le(a.drop_first(), b.drop_first())
    } else {
        (a[0] as int) < (b[0] as int)
    }
}

/// Code-point order relates every pair of character sequences.
pub proof fn lemma_lex_total(a: Seq<char>, b: Seq<char>)
    ensures
        lex_le(a, b) || lex_le(b, a),
    decreases a.len(),
{
    if a.len() > 0 && b.len() > 0 && a[0] == b[0] {
        lemma_lex_total(a.drop_first(), b.drop_first());
    } else if a.len() > 0 && b.len() > 0 {
        assert(a[0] != b[0]);
        assert((a[0] as int) < (b[0] as int) || (b[0] as int) < (a[0] as int));
    }
}

/// Compares two strings in code-point order.
pub fn str_lex_le(a: &str, b: &str) -> (r: bool)
    ensures
        r == lex_le(a@, b@),
{
    let na = a.unicode_len();
    let nb = b.unicode_len();
    let mut i: usize = 0;
    proof {
        assert(a@.skip(0) =~= a@);
        assert(b@.skip(0) =~= b@);
    }
    while i < na && i < nb
        invariant
            na == a@.len(),
            nb == b@.len(),
            i <= na,
            i <= nb,
            lex_le(a@, b@) == lex_le(a@.skip(i as int), b@.skip(i as int)),
        decreases na - i,
    {
        let ca = a.get_char(i);
        let cb = b.get_char(i);
        let ghost ta = a@.skip(i as int);
        let ghost tb = b@.skip(i as int);
        proof {
            assert(ta[0] == a@[i as int]);
            assert(tb[0] == b@[i as int]);
            assert(ta.drop_first() =~= a@.skip(i as int + 1));
            assert(tb.drop_first() =~= b@.skip(i as int + 1));
        }
        if ca != cb {
            return ca < cb;
        }
        i += 1;
    }
    proof {
        if i == na {
            assert(a@.skip(i as int).len() == 0);
        } else {
            assert(b@.skip(i as int).len() == 0);
            assert(a@.skip(i as int).len() > 0);
        }
    }
    i == na
}


} // verus!
