//! What holds between the operations of a list, whatever it holds. Each
//! statement is phrased over the views by which the operations are specified:
//! `append` yields `old + other`, `prepend` yields `other + old`, `reverse`
//! yields `old.reverse()`, and `drop_head` hands back `old.first()` and keeps
//! `old.drop_first()`.

use crate::list::List;
use vstd::prelude::*;

verus! {

/// Appending a list of one element makes a list longer by exactly one.
pub proof fn law_append_single_adds_one<T>(list: List<T>, data: T)
    ensures
        (list@ + seq![data]).len() == list@.len() + 1,
{
}

/// Reversing twice gives back the same payloads in the same order.
pub proof fn law_reverse_involution<T>(list: List<T>)
    ensures
        list@.reverse().reverse() == list@,
{
    assert(list@.reverse().reverse() =~= list@);
}

/// Reversing keeps the number of elements.
pub proof fn law_reverse_keeps_length<T>(list: List<T>)
    ensures
        list@.reverse().len() == list@.len(),
{
}

/// Reversing exchanges the two ends of a list that is not empty.
pub proof fn law_reverse_swaps_ends<T>(list: List<T>)
    requires
        list@.len() > 0,
    ensures
        list@.reverse().first() == list@.last(),
        list@.reverse().last() == list@.first(),
{
}

/// After `other` is prepended to `list`, the list begins as `other` does,
/// where `other` is not empty.
pub proof fn law_prepend_sets_first<T>(list: List<T>, other: List<T>)
    requires
        other@.len() > 0,
    ensures
        (other@ + list@).len() > 0,
        (other@ + list@).first() == other@.first(),
{
}

/// Prepending leaves the last element of a list as it was. This speaks of a
/// list that has a last element, or of prepending nothing: an empty list to
/// which elements are prepended gets a last element that it did not have.
pub proof fn law_prepend_keeps_last<T>(list: List<T>, other: List<T>)
    requires
        list@.len() > 0 || other@.len() == 0,
    ensures
        (other@ + list@).len() == 0 <==> list@.len() == 0,
        (other@ + list@).last() == list@.last(),
{
    if list@.len() == 0 {
        assert(other@ + list@ =~= list@);
    }
}

/// After `other` is appended to `list`, the list ends as `other` does, where
/// `other` is not empty.
pub proof fn law_append_sets_last<T>(list: List<T>, other: List<T>)
    requires
        other@.len() > 0,
    ensures
        (list@ + other@).len() > 0,
        (list@ + other@).last() == other@.last(),
{
}

/// Appending leaves the first element of a list that is not empty as it was.
pub proof fn law_append_keeps_first<T>(list: List<T>, other: List<T>)
    requires
        list@.len() > 0,
    ensures
        (list@ + other@).first() == list@.first(),
{
}

/// The payloads that a list holding `items` is left with after `count` calls
/// of `drop_head`.
pub open spec fn after_drops<T>(items: Seq<T>, count: nat) -> Seq<T>
    decreases count,
{
    if count == 0 {
        items
    } else {
        let before = after_drops(items, (count - 1) as nat);
        if before.len() == 0 {
            before
        } else {
            before.drop_first()
        }
    }
}

/// The payload that the call of `drop_head` with the given number hands back,
/// for a list that held `items` before the first call; calls count from zero.
pub open spec fn dropped_at<T>(items: Seq<T>, call: nat) -> Option<T> {
    let before = after_drops(items, call);
    if before.len() == 0 {
        None
    } else {
        Some(before.first())
    }
}

/// As long as calls of `drop_head` do not outnumber the elements, they take
/// the elements away from the front, one by one.
proof fn lemma_after_drops_skips<T>(items: Seq<T>, count: nat)
    requires
        count <= items.len(),
    ensures
        after_drops(items, count) == items.skip(count as int),
    decreases count,
{
    if count == 0 {
        assert(items.skip(0) =~= items);
    } else {
        lemma_after_drops_skips(items, (count - 1) as nat);
        assert(items.skip(count - 1).drop_first() =~= items.skip(count as int));
    }
}

/// As many calls of `drop_head` as a list has elements leave it empty, and
/// the payloads they hand back are those of the list, in its order.
pub proof fn law_drop_head_drains<T>(list: List<T>)
    ensures
        after_drops(list@, list@.len()).len() == 0,
        forall|call: nat|
            call < list@.len() ==> #[trigger] dropped_at(list@, call) == Some(list@[call as int]),
{
    lemma_after_drops_skips(list@, list@.len());
    assert forall|call: nat| call < list@.len() implies #[trigger] dropped_at(list@, call) == Some(
        list@[call as int],
    ) by {
        lemma_after_drops_skips(list@, call);
    }
}

/// On an empty list, any number of calls of `drop_head` hands back nothing
/// and leaves the list empty.
pub proof fn law_drop_head_on_empty<T>(list: List<T>, call: nat)
    requires
        list@.len() == 0,
    ensures
        dropped_at(list@, call) is None,
        after_drops(list@, call) == list@,
    decreases call,
{
    if call > 0 {
        law_drop_head_on_empty(list, (call - 1) as nat);
    }
}

} // verus!
