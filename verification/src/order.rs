//! The order of the songs in the book: by title, and by the order in which
//! the songs were found where titles are equal.

use vstd::prelude::*;

verus! {

/// Whether `a` comes strictly before `b` in the lexicographic order of the
/// characters' code points: case counts, and a proper prefix comes first.
pub open spec fn precedes(a: Seq<char>, b: Seq<char>) -> bool
    decreases a.len(),
{
    if b.len() == 0 {
        false
    } else if a.len() == 0 {
        true
    } else if a[0] != b[0] {
        a[0] < b[0]
    } else {
        precedes(a.skip(1), b.skip(1))
    }
}

/// No text comes before itself, and of two texts at most one comes before
/// the other.
pub proof fn lemma_precedes_asymmetric(a: Seq<char>, b: Seq<char>)
    ensures
        !(precedes(a, b) && precedes(b, a)),
        !precedes(a, a),
    decreases a.len(),
{
    if a.len() > 0 {
        lemma_precedes_asymmetric(a.skip(1), a.skip(1));
        if b.len() > 0 && a[0] == b[0] {
            lemma_precedes_asymmetric(a.skip(1), b.skip(1));
        }
    }
}

/// Of two different texts one comes before the other.
pub proof fn lemma_precedes_total(a: Seq<char>, b: Seq<char>)
    ensures
        precedes(a, b) || precedes(b, a) || a == b,
    decreases a.len(),
{
    if a.len() > 0 && b.len() > 0 && a[0] == b[0] {
        lemma_precedes_total(a.skip(1), b.skip(1));
        if a.skip(1) == b.skip(1) {
            assert(a == seq![a[0]] + a.skip(1));
            assert(b == seq![b[0]] + b.skip(1));
        }
    } else if a.len() == 0 && b.len() == 0 {
        assert(a == b);
    }
}

/// The order is transitive.
pub proof fn lemma_precedes_transitive(a: Seq<char>, b: Seq<char>, c: Seq<char>)
    requires
        precedes(a, b),
        precedes(b, c),
    ensures
        precedes(a, c),
    decreases a.len(),
{
    if a.len() > 0 && a[0] == b[0] && b[0] == c[0] {
        lemma_precedes_transitive(a.skip(1), b.skip(1), c.skip(1));
    }
}

/// Whether `a` comes strictly before `b`.
pub fn comes_before(a: &Vec<char>, b: &Vec<char>) -> (r: bool)
    ensures
        r == precedes(a@, b@),
{
    let mut k: usize = 0;
    assert(a@.skip(0) == a@ && b@.skip(0) == b@);
    while k < a.len() && k < b.len()
        invariant
            k <= a.len(),
            k <= b.len(),
            precedes(a@, b@) == precedes(a@.skip(k as int), b@.skip(k as int)),
        decreases a.len() - k,
    {
        assert(a@.skip(k as int)[0] == a@[k as int]);
        assert(b@.skip(k as int)[0] == b@[k as int]);
        if a[k] != b[k] {
            return a[k] < b[k];
        }
        assert(a@.skip(k as int).skip(1) == a@.skip(k + 1));
        assert(b@.skip(k as int).skip(1) == b@.skip(k + 1));
        k = k + 1;
    }
    k < b.len()
}

/// Whether the song at index `a` stands before the song at index `b` in the
/// book: its title comes first, or the titles are equal and it was found
/// first.
pub open spec fn stands_before(titles: Seq<Seq<char>>, a: int, b: int) -> bool {
    precedes(titles[a], titles[b]) || (titles[a] == titles[b] && a < b)
}

/// Whether `order` lists the indices of `titles`, each once, so that titles
/// ascend and songs of one title keep the order in which they were found.
pub open spec fn is_stable_order(titles: Seq<Seq<char>>, order: Seq<int>) -> bool {
    &&& order.len() == titles.len()
    &&& forall|k: int| 0 <= k < order.len() ==> 0 <= #[trigger] order[k] < titles.len()
    &&& forall|s: int| 0 <= s < titles.len() ==> order.contains(s)
    &&& forall|i: int, j: int|
        0 <= i < j < order.len() ==> stands_before(titles, #[trigger] order[i], #[trigger] order[j])
}

/// Where a song titled `title` goes into `order`: before the first song
/// whose title comes strictly after `title`, or at the end.
pub open spec fn insert_position(titles: Seq<Seq<char>>, order: Seq<int>, title: Seq<char>) -> int
    decreases order.len(),
{
    if order.len() == 0 || precedes(title, titles[order[0]]) {
        0
    } else {
        1 + insert_position(titles, order.skip(1), title)
    }
}

/// The order of the songs in the book, as indices into `titles`: the songs
/// are taken as they were found, and each goes behind the songs placed so far
/// whose titles do not come after its own.
pub open spec fn title_order(titles: Seq<Seq<char>>) -> Seq<int>
    decreases titles.len(),
{
    if titles.len() == 0 {
        Seq::empty()
    } else {
        let placed = title_order(titles.drop_last());
        placed.insert(insert_position(titles, placed, titles.last()), titles.len() - 1)
    }
}

/// What `insert_position` finds: no song before it comes after `title`, and
/// the song at it, if there is one, does.
pub proof fn lemma_insert_position(titles: Seq<Seq<char>>, order: Seq<int>, title: Seq<char>)
    ensures
        0 <= insert_position(titles, order, title) <= order.len(),
        forall|k: int|
            0 <= k < insert_position(titles, order, title) ==> !precedes(
                title,
                titles[#[trigger] order[k]],
            ),
        insert_position(titles, order, title) < order.len() ==> precedes(
            title,
            titles[order[insert_position(titles, order, title)]],
        ),
    decreases order.len(),
{
    if order.len() == 0 || precedes(title, titles[order[0]]) {
    } else {
        lemma_insert_position(titles, order.skip(1), title);
        let p = insert_position(titles, order.skip(1), title);
        assert forall|k: int| 0 <= k < p + 1 implies !precedes(
            title,
            titles[#[trigger] order[k]],
        ) by {
            if k > 0 {
                assert(order[k] == order.skip(1)[k - 1]);
            }
        }
        if p + 1 < order.len() {
            assert(order[p + 1] == order.skip(1)[p]);
        }
    }
}

/// The order of the book lists every song once, by ascending title, and
/// keeps songs of one title in the order in which they were found.
pub proof fn lemma_title_order_is_stable(titles: Seq<Seq<char>>)
    ensures
        is_stable_order(titles, title_order(titles)),
    decreases titles.len(),
{
    if titles.len() > 0 {
        let fewer = titles.drop_last();
        let placed = title_order(fewer);
        let title = titles.last();
        let last = titles.len() - 1;
        let p = insert_position(titles, placed, title);
        let order = title_order(titles);
        lemma_title_order_is_stable(fewer);
        lemma_insert_position(titles, placed, title);
        assert(order == placed.insert(p, last));
        assert forall|s: int| 0 <= s < titles.len() implies order.contains(s) by {
            if s == last {
                assert(order[p] == s);
            } else {
                assert(placed.contains(s));
                let k = choose|k: int| 0 <= k < placed.len() && placed[k] == s;
                if k < p {
                    assert(order[k] == s);
                } else {
                    assert(order[k + 1] == s);
                }
            }
        }
        assert forall|i: int, j: int| 0 <= i < j < order.len() implies stands_before(
            titles,
            #[trigger] order[i],
            #[trigger] order[j],
        ) by {
            if i == p {
                let b = placed[j - 1];
                assert(order[j] == b);
                assert(titles[b] == fewer[b]);
                if j - 1 > p {
                    let a = placed[p];
                    assert(titles[a] == fewer[a]);
                    assert(stands_before(fewer, a, b));
                    if precedes(fewer[a], fewer[b]) {
                        lemma_precedes_transitive(title, titles[a], titles[b]);
                    }
                }
            } else if j == p {
                let a = placed[i];
                assert(order[i] == a);
                assert(titles[a] == fewer[a]);
                lemma_precedes_total(titles[a], title);
            } else {
                let a = if i < p {
                    placed[i]
                } else {
                    placed[i - 1]
                };
                let b = if j < p {
                    placed[j]
                } else {
                    placed[j - 1]
                };
                assert(order[i] == a && order[j] == b);
                assert(titles[a] == fewer[a] && titles[b] == fewer[b]);
                assert(stands_before(fewer, a, b));
            }
        }
    }
}

/// Of two different songs one stands before the other, never both, and no
/// song stands before itself.
pub proof fn lemma_stands_before_strict_total(titles: Seq<Seq<char>>, a: int, b: int)
    ensures
        !(stands_before(titles, a, b) && stands_before(titles, b, a)),
        a != b ==> stands_before(titles, a, b) || stands_before(titles, b, a),
        !stands_before(titles, a, a),
{
    lemma_precedes_asymmetric(titles[a], titles[b]);
    lemma_precedes_asymmetric(titles[a], titles[a]);
    lemma_precedes_total(titles[a], titles[b]);
}

proof fn lemma_stable_orders_agree(titles: Seq<Seq<char>>, x: Seq<int>, y: Seq<int>, n: int)
    requires
        is_stable_order(titles, x),
        is_stable_order(titles, y),
        0 <= n <= titles.len(),
    ensures
        forall|k: int| 0 <= k < n ==> x[k] == y[k],
    decreases n,
{
    if n > 0 {
        lemma_stable_orders_agree(titles, x, y, n - 1);
        let k = n - 1;
        if x[k] != y[k] {
            lemma_stands_before_strict_total(titles, x[k], y[k]);
            let (first, other) = if stands_before(titles, x[k], y[k]) {
                (x, y)
            } else {
                (y, x)
            };
            // The song that comes first of the two has its place in the other
            // order too: not before `k`, where the orders agree, and not
            // behind, where only later songs stand.
            assert(other.contains(first[k]));
            let m = choose|m: int| 0 <= m < other.len() && other[m] == first[k];
            if m < k {
                assert(first[m] == other[m]);
                assert(stands_before(titles, first[m], first[k]));
                lemma_stands_before_strict_total(titles, first[k], first[k]);
            } else {
                assert(stands_before(titles, other[k], other[m]));
            }
        }
    }
}

/// There is one order only that lists every song once, by ascending title,
/// and keeps songs of one title as they were found.
pub proof fn lemma_stable_order_unique(titles: Seq<Seq<char>>, order: Seq<int>)
    requires
        is_stable_order(titles, order),
    ensures
        order == title_order(titles),
{
    lemma_title_order_is_stable(titles);
    lemma_stable_orders_agree(titles, order, title_order(titles), titles.len() as int);
    assert(order =~= title_order(titles));
}

/// The indices in `order` as integers.
pub open spec fn indices(order: Seq<usize>) -> Seq<int> {
    order.map_values(|i: usize| i as int)
}

/// The texts that `keys` hold.
pub open spec fn texts_of(keys: Seq<Vec<char>>) -> Seq<Seq<char>> {
    keys.map_values(|key: Vec<char>| key@)
}

/// Orders titles: the result lists the indices of `titles` by ascending
/// title, case counting, and in their own order where titles are equal.
pub fn stable_order(titles: &Vec<Vec<char>>) -> (order: Vec<usize>)
    ensures
        indices(order@) == title_order(texts_of(titles@)),
        is_stable_order(texts_of(titles@), indices(order@)),
{
    let ghost texts = texts_of(titles@);
    let mut order: Vec<usize> = Vec::new();
    let mut i: usize = 0;
    assert(texts.take(0) == Seq::<Seq<char>>::empty());
    assert(indices(order@) == Seq::<int>::empty());
    while i < titles.len()
        invariant
            i <= titles.len(),
            texts == texts_of(titles@),
            indices(order@) == title_order(texts.take(i as int)),
        decreases titles.len() - i,
    {
        let ghost placed = indices(order@);
        let ghost upto = texts.take(i + 1);
        proof {
            lemma_title_order_is_stable(texts.take(i as int));
            assert(upto.drop_last() == texts.take(i as int));
            assert(upto.last() == texts[i as int]);
            assert forall|k: int| 0 <= k < placed.len() implies 0 <= #[trigger] placed[k] < i by {
                assert(placed[k] == title_order(texts.take(i as int))[k]);
            }
            assert(placed.skip(0) == placed);
        }
        let mut p: usize = 0;
        while p < order.len() && !comes_before(&titles[i], &titles[order[p]])
            invariant
                p <= order.len(),
                i < titles.len(),
                texts == texts_of(titles@),
                placed == indices(order@),
                upto == texts.take(i + 1),
                forall|k: int| 0 <= k < placed.len() ==> 0 <= #[trigger] placed[k] < i,
                insert_position(upto, placed, texts[i as int]) == p + insert_position(
                    upto,
                    placed.skip(p as int),
                    texts[i as int],
                ),
            decreases order.len() - p,
        {
            proof {
                assert(placed.skip(p as int)[0] == placed[p as int]);
                assert(placed[p as int] == order@[p as int] as int);
                assert(upto[placed[p as int]] == texts[placed[p as int]]);
                assert(placed.skip(p as int).skip(1) == placed.skip(p + 1));
            }
            p = p + 1;
        }
        proof {
            if p < order.len() {
                assert(placed.skip(p as int)[0] == placed[p as int]);
                assert(placed[p as int] == order@[p as int] as int);
                assert(upto[placed[p as int]] == texts[placed[p as int]]);
            }
            assert(insert_position(upto, placed, texts[i as int]) == p);
        }
        order.insert(p, i);
        proof {
            assert(indices(order@) == placed.insert(p as int, i as int));
        }
        i = i + 1;
    }
    proof {
        assert(texts.take(titles.len() as int) == texts);
        lemma_title_order_is_stable(texts);
    }
    order
}

} // verus!
