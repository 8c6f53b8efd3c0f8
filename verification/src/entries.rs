use vstd::prelude::*;

verus! {

/// Every claimed position is published.
pub open spec fn settled<T>(entries: Seq<Option<T>>) -> bool {
    forall|k: int| 0 <= k < entries.len() ==> (#[trigger] entries[k]) is Some
}

/// The values of a lane in which every claimed position is published.
pub open spec fn values<T>(entries: Seq<Option<T>>) -> Seq<T> {
    entries.map_values(|e: Option<T>| e->0)
}

/// The values that the consumer can take before it meets a claim that is not
/// published.
pub open spec fn ready_prefix<T>(entries: Seq<Option<T>>) -> Seq<T>
    decreases entries.len(),
{
    if entries.len() > 0 && entries[0] is Some {
        seq![entries[0]->0] + ready_prefix(entries.drop_first())
    } else {
        Seq::empty()
    }
}

/// All published values, skipping claims that are not published.
pub open spec fn published<T>(entries: Seq<Option<T>>) -> Seq<T>
    decreases entries.len(),
{
    if entries.len() == 0 {
        Seq::empty()
    } else if entries[0] is Some {
        seq![entries[0]->0] + published(entries.drop_first())
    } else {
        published(entries.drop_first())
    }
}

/// What can be taken is no more than there is.
pub proof fn lemma_prefix_length<T>(entries: Seq<Option<T>>)
    ensures
        ready_prefix(entries).len() <= entries.len(),
    decreases entries.len(),
{
    if entries.len() > 0 && entries[0] is Some {
        lemma_prefix_length(entries.drop_first());
    }
}

/// In a settled lane every value can be taken at once, in order.
pub proof fn lemma_settled<T>(entries: Seq<Option<T>>)
    requires
        settled(entries),
    ensures
        ready_prefix(entries) == values(entries),
        published(entries) == values(entries),
    decreases entries.len(),
{
    if entries.len() > 0 {
        let rest = entries.drop_first();
        lemma_settled(rest);
        assert(values(entries) =~= seq![entries[0]->0] + values(rest));
    } else {
        assert(values(entries) =~= Seq::<T>::empty());
    }
}

/// A published value at the end of a settled lane is its last value.
pub proof fn lemma_settled_push<T>(entries: Seq<Option<T>>, v: T)
    requires
        settled(entries),
    ensures
        settled(entries.push(Some(v))),
        values(entries.push(Some(v))) == values(entries).push(v),
{
    assert(values(entries.push(Some(v))) =~= values(entries).push(v));
}

/// Taking the oldest entry of a settled lane takes its first value.
pub proof fn lemma_settled_pop<T>(entries: Seq<Option<T>>)
    requires
        settled(entries),
        entries.len() > 0,
    ensures
        settled(entries.drop_first()),
        values(entries.drop_first()) == values(entries).drop_first(),
        values(entries)[0] == entries[0]->0,
{
    assert(values(entries.drop_first()) =~= values(entries).drop_first());
}

} // verus!
