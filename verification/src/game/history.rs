use im::Vector;
use vstd::prelude::*;

verus! {

/// The persistent vector of the `im` crate, in which the move record is kept.
/// Nothing inside it is visible to the verifier.
#[verifier::external_type_specification]
#[verifier::external_body]
#[verifier::reject_recursive_types(A)]
pub struct ExVector<A>(Vector<A>);

/// The entries of a move record, oldest first, each as its text.
pub uninterp spec fn record_entries(record: Vector<String>) -> Seq<Seq<char>>;

/// Calls `im::Vector::new`, which makes a vector without elements.
#[verifier::external_body]
pub(crate) fn record_new() -> (record: Vector<String>)
    ensures
        record_entries(record) == Seq::<Seq<char>>::empty(),
{
    Vector::new()
}

/// Calls `clone` on an `im::Vector`, which gives a vector of the same
/// elements in the same order.
#[verifier::external_body]
pub(crate) fn record_clone(record: &Vector<String>) -> (copy: Vector<String>)
    ensures
        record_entries(copy) == record_entries(*record),
{
    record.clone()
}

/// Calls `im::Vector::len`, the number of elements held.
#[verifier::external_body]
pub(crate) fn record_len(record: &Vector<String>) -> (len: usize)
    ensures
        len == record_entries(*record).len(),
{
    record.len()
}

/// Calls `im::Vector::last`: the element pushed most recently that is still
/// held, or `None` for a vector without elements.
#[verifier::external_body]
pub(crate) fn record_last(record: &Vector<String>) -> (newest: Option<&String>)
    ensures
        match newest {
            Some(entry) => record_entries(*record).len() > 0 && entry@ == record_entries(
                *record,
            ).last(),
            None => record_entries(*record).len() == 0,
        },
{
    record.last()
}

/// Calls `im::Vector::pop_back`, which removes the last element and hands
/// it out, and leaves a vector without elements as it is.
#[verifier::external_body]
pub(crate) fn record_pop_back(record: &mut Vector<String>) -> (popped: Option<String>)
    ensures
        match popped {
            Some(entry) => {
                &&& record_entries(*old(record)).len() > 0
                &&& entry@ == record_entries(*old(record)).last()
                &&& record_entries(*final(record)) == record_entries(*old(record)).drop_last()
            },
            None => {
                &&& record_entries(*old(record)).len() == 0
                &&& record_entries(*final(record)) == record_entries(*old(record))
            },
        },
{
    record.pop_back()
}

/// Calls `im::Vector::push_back`, which adds one element behind the others.
/// The call fails on a vector that already holds `usize::MAX` elements.
#[verifier::external_body]
pub(crate) fn record_push_back(record: &mut Vector<String>, entry: String)
    requires
        record_entries(*old(record)).len() < usize::MAX,
    ensures
        record_entries(*final(record)) == record_entries(*old(record)).push(entry@),
{
    record.push_back(entry)
}

} // verus!
