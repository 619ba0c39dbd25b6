//! Sequence helpers for the synthesizers: gathering what each element of a
//! sequence contributes, and joining texts.

use vstd::prelude::*;
use vstd::string::*;

verus! {

/// What the elements of `s` contribute, in order: `f` gives the
/// contribution of each element from its position and value.
pub open spec fn gather<A, B>(s: Seq<A>, f: spec_fn(int, A) -> Seq<B>) -> Seq<B>
    decreases s.len(),
{
    if s.len() == 0 {
        Seq::empty()
    } else {
        gather(s.drop_last(), f) + f(s.len() - 1, s.last())
    }
}

/// Gathering one more element appends its contribution.
pub proof fn lemma_gather_step<A, B>(s: Seq<A>, f: spec_fn(int, A) -> Seq<B>, k: int)
    requires
        0 <= k < s.len(),
    ensures
        gather(s.take(k + 1), f) == gather(s.take(k), f) + f(k, s[k]),
{
    assert(s.take(k + 1).drop_last() =~= s.take(k));
}

/// Gathering nothing gives nothing; gathering the whole prefix is gathering
/// the sequence.
pub proof fn lemma_gather_ends<A, B>(s: Seq<A>, f: spec_fn(int, A) -> Seq<B>)
    ensures
        gather(s.take(0), f) == Seq::<B>::empty(),
        gather(s.take(s.len() as int), f) == gather(s, f),
{
    assert(s.take(s.len() as int) =~= s);
}

/// Every gathered item is contributed by some element, and every
/// contribution is gathered.
pub proof fn lemma_gather_members<A, B>(s: Seq<A>, f: spec_fn(int, A) -> Seq<B>, item: B)
    ensures
        gather(s, f).contains(item) <==> exists|i: int|
            0 <= i < s.len() && (#[trigger] f(i, s[i])).contains(item),
    decreases s.len(),
{
    if s.len() == 0 {
        assert(!gather(s, f).contains(item));
    } else {
        let head = s.drop_last();
        let n = s.len() - 1;
        lemma_gather_members(head, f, item);
        let all = gather(s, f);
        let left = gather(head, f);
        let right = f(n, s.last());
        assert(all == left + right);
        if all.contains(item) {
            let j = choose|j: int| 0 <= j < all.len() && all[j] == item;
            if j < left.len() {
                assert(left[j] == item);
                assert(left.contains(item));
                let i = choose|i: int|
                    0 <= i < head.len() && (#[trigger] f(i, head[i])).contains(item);
                assert(f(i, s[i]).contains(item));
            } else {
                assert(right[j - left.len()] == item);
                assert(f(n, s[n]).contains(item));
            }
        }
        if exists|i: int| 0 <= i < s.len() && (#[trigger] f(i, s[i])).contains(item) {
            let i = choose|i: int| 0 <= i < s.len() && (#[trigger] f(i, s[i])).contains(item);
            if i < n {
                assert(f(i, head[i]).contains(item));
                assert(left.contains(item));
                let j = choose|j: int| 0 <= j < left.len() && left[j] == item;
                assert(all[j] == item);
            } else {
                let j = choose|j: int| 0 <= j < right.len() && right[j] == item;
                assert(all[left.len() + j] == item);
            }
        }
    }
}

/// Pushing an item onto a vector pushes its model onto the vector's model.
pub proof fn lemma_push_deep_view<T: DeepView>(before: Vec<T>, after: Vec<T>, item: T)
    requires
        after@ == before@.push(item),
    ensures
        after.deep_view() == before.deep_view().push(item.deep_view()),
{
    assert forall|k: int| 0 <= k < after@.len() implies #[trigger] after.deep_view()[k]
        == before.deep_view().push(item.deep_view())[k] by {
        if k < before@.len() {
            assert(after@[k] == before@[k]);
            assert(before.deep_view()[k] == before@[k].deep_view());
        }
    }
    assert(after.deep_view() =~= before.deep_view().push(item.deep_view()));
}

/// Replacing an item of a vector replaces its model in the vector's model.
pub proof fn lemma_set_deep_view<T: DeepView>(before: Vec<T>, after: Vec<T>, i: int, item: T)
    requires
        0 <= i < before@.len(),
        after@ == before@.update(i, item),
    ensures
        after.deep_view() == before.deep_view().update(i, item.deep_view()),
{
    assert forall|k: int| 0 <= k < after@.len() implies #[trigger] after.deep_view()[k]
        == before.deep_view().update(i, item.deep_view())[k] by {
        if k != i {
            assert(after@[k] == before@[k]);
            assert(before.deep_view()[k] == before@[k].deep_view());
        }
    }
    assert(after.deep_view() =~= before.deep_view().update(i, item.deep_view()));
}

/// The texts of `items`, with `separator` between each two neighbours.
pub open spec fn joined(items: Seq<Seq<char>>, separator: Seq<char>) -> Seq<char>
    decreases items.len(),
{
    if items.len() == 0 {
        Seq::empty()
    } else if items.len() == 1 {
        items[0]
    } else {
        joined(items.drop_last(), separator) + separator + items.last()
    }
}

/// Joins texts with a separator.
pub fn join(items: &Vec<String>, separator: &str) -> (text: String)
    ensures
        text@ == joined(items.deep_view(), separator@),
{
    let mut text = String::new();
    let mut i: usize = 0;
    while i < items.len()
        invariant
            i <= items.len(),
            text@ == joined(items.deep_view().take(i as int), separator@),
        decreases items.len() - i,
    {
        proof {
            assert(items.deep_view().take(i + 1).drop_last() =~= items.deep_view().take(i as int));
        }
        if i > 0 {
            text.append(separator);
        }
        text.append(items[i].as_str());
        i += 1;
        assert(text@ =~= joined(items.deep_view().take(i as int), separator@));
    }
    assert(items.deep_view().take(i as int) =~= items.deep_view());
    text
}

} // verus!
