//! Lists of pairs that stand for maps.
//!
//! A declaration holds its environment and its dependencies as lists of
//! pairs, each a key with its value. Such a list stands for a map where its
//! keys rise strictly in the order of the dictionary: no key then occurs
//! twice, and one map has one list. Two such lists are equal exactly if they
//! hold the same entries, which is why declarations are compared entry by
//! entry, in order.

use crate::text::chars_of;
use vstd::prelude::*;

verus! {

/// Whether the text `a` stands before the text `b` in the order of the
/// dictionary, letters being compared by their code points: at the first
/// place where the two differ `a` has the lower letter, or `a` ends there
/// and `b` goes on.
pub open spec fn text_before(a: Seq<char>, b: Seq<char>) -> bool
    decreases a.len(),
{
    if b.len() == 0 {
        false
    } else if a.len() == 0 {
        true
    } else if a[0] != b[0] {
        (a[0] as u32) < (b[0] as u32)
    } else {
        text_before(a.drop_first(), b.drop_first())
    }
}

/// No text stands before itself.
pub proof fn lemma_no_text_is_before_itself(a: Seq<char>)
    ensures
        !text_before(a, a),
    decreases a.len(),
{
    if a.len() > 0 {
        lemma_no_text_is_before_itself(a.drop_first());
    }
}

/// A text that stands before a second one stands before every text that the
/// second one stands before.
pub proof fn lemma_text_order_is_transitive(a: Seq<char>, b: Seq<char>, c: Seq<char>)
    requires
        text_before(a, b),
        text_before(b, c),
    ensures
        text_before(a, c),
    decreases a.len(),
{
    if a.len() > 0 && a[0] == b[0] && b[0] == c[0] {
        lemma_text_order_is_transitive(a.drop_first(), b.drop_first(), c.drop_first());
    }
}

/// Of two different texts one stands before the other.
pub proof fn lemma_text_order_is_total(a: Seq<char>, b: Seq<char>)
    ensures
        a == b || text_before(a, b) || text_before(b, a),
    decreases a.len(),
{
    if a.len() > 0 && b.len() > 0 && a[0] == b[0] {
        lemma_text_order_is_total(a.drop_first(), b.drop_first());
        if a.drop_first() == b.drop_first() {
            assert(a =~= seq![a[0]] + a.drop_first());
            assert(b =~= seq![b[0]] + b.drop_first());
        }
    } else if a.len() == 0 && b.len() == 0 {
        assert(a =~= b);
    } else if a.len() > 0 && b.len() > 0 {
        vstd::utf8::char_u32_cast(a[0], a[0] as u32);
        vstd::utf8::char_u32_cast(b[0], b[0] as u32);
    }
}

/// Whether a list of pairs stands for a map: its keys rise strictly, so that
/// no key occurs twice.
pub open spec fn is_keyed<V>(pairs: Seq<(Seq<char>, V)>) -> bool {
    forall|i: int, j: int|
        0 <= i < j < pairs.len() ==> text_before((#[trigger] pairs[i]).0, (#[trigger] pairs[j]).0)
}

/// The map that a list of pairs stands for: every key of the list with the
/// value of its entry.
pub open spec fn map_of<V>(pairs: Seq<(Seq<char>, V)>) -> Map<Seq<char>, V>
    decreases pairs.len(),
{
    if pairs.len() == 0 {
        Map::empty()
    } else {
        map_of(pairs.drop_last()).insert(pairs.last().0, pairs.last().1)
    }
}

/// The map of a list that stands for one holds exactly the entries of the
/// list.
pub proof fn lemma_map_holds_the_entries<V>(pairs: Seq<(Seq<char>, V)>)
    requires
        is_keyed(pairs),
    ensures
        forall|i: int|
            0 <= i < pairs.len() ==> map_of(pairs).contains_pair(
                (#[trigger] pairs[i]).0,
                pairs[i].1,
            ),
        forall|k: Seq<char>| #[trigger]
            map_of(pairs).dom().contains(k) ==> exists|i: int|
                0 <= i < pairs.len() && (#[trigger] pairs[i]).0 == k,
    decreases pairs.len(),
{
    if pairs.len() > 0 {
        let front = pairs.drop_last();
        let n = pairs.len() - 1;
        assert forall|i: int, j: int| 0 <= i < j < front.len() implies text_before(
            (#[trigger] front[i]).0,
            (#[trigger] front[j]).0,
        ) by {
            assert(front[i] == pairs[i] && front[j] == pairs[j]);
        }
        lemma_map_holds_the_entries(front);
        assert forall|i: int| 0 <= i < pairs.len() implies map_of(pairs).contains_pair(
            (#[trigger] pairs[i]).0,
            pairs[i].1,
        ) by {
            if i < n {
                assert(front[i] == pairs[i]);
                assert(text_before(pairs[i].0, pairs[n].0));
                lemma_no_text_is_before_itself(pairs[i].0);
            }
        }
        assert forall|k: Seq<char>| #[trigger] map_of(pairs).dom().contains(k) implies exists|
            i: int,
        |
            0 <= i < pairs.len() && (#[trigger] pairs[i]).0 == k by {
            if k == pairs[n].0 {
            } else {
                assert(map_of(front).dom().contains(k));
                let i = choose|i: int| 0 <= i < front.len() && (#[trigger] front[i]).0 == k;
                assert(pairs[i] == front[i]);
            }
        }
    }
}

/// Two lists that stand for the same map are the same list: a declaration
/// that is compared entry by entry, in order, is compared as the map that it
/// stands for.
pub proof fn lemma_one_map_has_one_list<V>(a: Seq<(Seq<char>, V)>, b: Seq<(Seq<char>, V)>)
    requires
        is_keyed(a),
        is_keyed(b),
        map_of(a) == map_of(b),
    ensures
        a == b,
    decreases a.len(),
{
    lemma_map_holds_the_entries(a);
    lemma_map_holds_the_entries(b);
    if a.len() == 0 {
        if b.len() > 0 {
            assert(map_of(b).contains_pair(b[0].0, b[0].1));
            assert(map_of(a).dom().contains(b[0].0));
        }
        assert(a =~= b);
    } else if b.len() == 0 {
        assert(map_of(a).contains_pair(a[0].0, a[0].1));
        assert(map_of(b).dom().contains(a[0].0));
    } else {
        let n = a.len() - 1;
        let m = b.len() - 1;
        // The highest key of one list is a key of the other, and no key of
        // the other is higher: the two lists end with the same entry.
        assert(map_of(a).contains_pair(a[n].0, a[n].1));
        assert(map_of(b).contains_pair(b[m].0, b[m].1));
        assert(map_of(b).dom().contains(a[n].0));
        assert(map_of(a).dom().contains(b[m].0));
        let i = choose|i: int| 0 <= i < b.len() && (#[trigger] b[i]).0 == a[n].0;
        let j = choose|j: int| 0 <= j < a.len() && (#[trigger] a[j]).0 == b[m].0;
        if i < m && j < n {
            assert(text_before(b[i].0, b[m].0));
            assert(text_before(a[j].0, a[n].0));
            lemma_text_order_is_transitive(a[n].0, b[m].0, a[n].0);
            lemma_no_text_is_before_itself(a[n].0);
        } else if i < m {
            assert(text_before(b[i].0, b[m].0));
            lemma_no_text_is_before_itself(a[n].0);
        } else if j < n {
            assert(text_before(a[j].0, a[n].0));
            lemma_no_text_is_before_itself(b[m].0);
        }
        assert(a[n].0 == b[m].0);
        assert(map_of(b).contains_pair(a[n].0, a[n].1));
        assert(a[n] == b[m]);
        let fa = a.drop_last();
        let fb = b.drop_last();
        assert forall|p: int, q: int| 0 <= p < q < fa.len() implies text_before(
            (#[trigger] fa[p]).0,
            (#[trigger] fa[q]).0,
        ) by {
            assert(fa[p] == a[p] && fa[q] == a[q]);
        }
        assert forall|p: int, q: int| 0 <= p < q < fb.len() implies text_before(
            (#[trigger] fb[p]).0,
            (#[trigger] fb[q]).0,
        ) by {
            assert(fb[p] == b[p] && fb[q] == b[q]);
        }
        lemma_map_holds_the_entries(fa);
        lemma_map_holds_the_entries(fb);
        // Without their last entries the two lists still stand for one map:
        // the last key is in neither of them.
        assert forall|k: Seq<char>| map_of(fa).dom().contains(k) implies k != a[n].0 by {
            let p = choose|p: int| 0 <= p < fa.len() && (#[trigger] fa[p]).0 == k;
            assert(fa[p] == a[p]);
            assert(text_before(a[p].0, a[n].0));
            lemma_no_text_is_before_itself(k);
        }
        assert forall|k: Seq<char>| map_of(fb).dom().contains(k) implies k != b[m].0 by {
            let p = choose|p: int| 0 <= p < fb.len() && (#[trigger] fb[p]).0 == k;
            assert(fb[p] == b[p]);
            assert(text_before(b[p].0, b[m].0));
            lemma_no_text_is_before_itself(k);
        }
        assert(map_of(fa) =~= map_of(a).remove(a[n].0));
        assert(map_of(fb) =~= map_of(b).remove(b[m].0));
        lemma_one_map_has_one_list(fa, fb);
        assert(a =~= fa.push(a[n]));
        assert(b =~= fb.push(b[m]));
    }
}

/// Whether a list stands for a map is a matter of its keys alone.
pub proof fn lemma_the_keys_decide<V, W>(a: Seq<(Seq<char>, V)>, b: Seq<(Seq<char>, W)>)
    requires
        a.len() == b.len(),
        forall|i: int| 0 <= i < a.len() ==> (#[trigger] a[i]).0 == b[i].0,
    ensures
        is_keyed(a) == is_keyed(b),
{
    if is_keyed(a) {
        assert forall|i: int, j: int| 0 <= i < j < b.len() implies text_before(
            (#[trigger] b[i]).0,
            (#[trigger] b[j]).0,
        ) by {
            assert(text_before(a[i].0, a[j].0));
        }
    }
    if is_keyed(b) {
        assert forall|i: int, j: int| 0 <= i < j < a.len() implies text_before(
            (#[trigger] a[i]).0,
            (#[trigger] a[j]).0,
        ) by {
            assert(text_before(b[i].0, b[j].0));
        }
    }
}

/// The pairs of a list, each key by its text.
pub open spec fn keyed_view<V>(pairs: Seq<(String, V)>) -> Seq<(Seq<char>, V)> {
    Seq::new(pairs.len(), |i: int| (pairs[i].0@, pairs[i].1))
}

/// Whether the list stands for a map: each key stands before the next one.
pub fn keys_rise<V>(pairs: &Vec<(String, V)>) -> (r: bool)
    ensures
        r == is_keyed(keyed_view(pairs@)),
{
    let ghost all = keyed_view(pairs@);
    let mut i: usize = 1;
    while i < pairs.len()
        invariant
            1 <= i,
            all == keyed_view(pairs@),
            forall|p: int, q: int|
                0 <= p < q < i && q < all.len() ==> text_before(
                    (#[trigger] all[p]).0,
                    (#[trigger] all[q]).0,
                ),
        decreases pairs.len() - i,
    {
        if !stands_before(pairs[i - 1].0.as_str(), pairs[i].0.as_str()) {
            assert(!text_before(all[i - 1].0, all[i as int].0));
            return false;
        }
        proof {
            assert forall|p: int| 0 <= p < i implies text_before(
                (#[trigger] all[p]).0,
                all[i as int].0,
            ) by {
                if p < i - 1 {
                    assert(text_before(all[p].0, all[i - 1].0));
                    lemma_text_order_is_transitive(all[p].0, all[i - 1].0, all[i as int].0);
                }
            }
        }
        i += 1;
    }
    true
}

/// Whether the text `a` stands before the text `b` in the order of the
/// dictionary.
pub fn stands_before(a: &str, b: &str) -> (r: bool)
    ensures
        r == text_before(a@, b@),
{
    let x = chars_of(a);
    let y = chars_of(b);
    let mut i: usize = 0;
    assert(x@.subrange(0, x@.len() as int) =~= x@);
    assert(y@.subrange(0, y@.len() as int) =~= y@);
    while i < x.len() && i < y.len()
        invariant
            i <= x@.len(),
            i <= y@.len(),
            x@ == a@,
            y@ == b@,
            text_before(x@, y@) == text_before(
                x@.subrange(i as int, x@.len() as int),
                y@.subrange(i as int, y@.len() as int),
            ),
        decreases x@.len() - i,
    {
        let ghost rest_x = x@.subrange(i as int, x@.len() as int);
        let ghost rest_y = y@.subrange(i as int, y@.len() as int);
        assert(rest_x[0] == x@[i as int] && rest_y[0] == y@[i as int]);
        assert(rest_x.drop_first() =~= x@.subrange(i + 1, x@.len() as int));
        assert(rest_y.drop_first() =~= y@.subrange(i + 1, y@.len() as int));
        if x[i] != y[i] {
            return (x[i] as u32) < (y[i] as u32);
        }
        i += 1;
    }
    i < y.len()
}

} // verus!
