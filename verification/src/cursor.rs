//! Cursors over the elements of a composite node.
//!
//! A cursor owns the nodes that were taken out of a list, vector, set or map
//! and hands them out front to back, one at a time.

use crate::error::Error;
use crate::value::{views, Value, ValueView};
use vstd::prelude::*;

verus! {

/// A cursor over the elements of a sequence.
#[derive(Debug, PartialEq, Eq)]
pub struct ListAccess(pub Vec<Value>);

impl View for ListAccess {
    type V = Seq<ValueView>;

    /// The elements that are still to come, in the order in which they come.
    open spec fn view(&self) -> Seq<ValueView> {
        views(self.0@)
    }
}

impl ListAccess {
    /// A cursor over `items`, first element first.
    pub fn from(items: Vec<Value>) -> (r: ListAccess)
        ensures
            r@ == views(items@),
            r.0 == items,
    {
        ListAccess(items)
    }

    /// Takes the front element, or says that none is left.
    pub fn next_element(&mut self) -> (r: Option<Value>)
        ensures
            old(self)@.len() == 0 ==> r is None && final(self)@ == old(self)@,
            old(self)@.len() > 0 ==> r is Some,
            r matches Some(front) ==> front@ == old(self)@[0],
            r is Some ==> final(self)@ == old(self)@.drop_first(),
    {
        if self.0.is_empty() {
            None
        } else {
            let front = self.0.remove(0);
            assert(self@ =~= old(self)@.drop_first());
            Some(front)
        }
    }
}

/// A cursor over the entries of a map: the keys and the values in two queues
/// that are consumed in step.
#[derive(Debug, PartialEq, Eq)]
pub struct MapStore {
    pub keys: Vec<Value>,
    pub vals: Vec<Value>,
}

impl MapStore {
    /// The keys that are still to come.
    pub open spec fn keys_view(&self) -> Seq<ValueView> {
        views(self.keys@)
    }

    /// The values that are still to come.
    pub open spec fn vals_view(&self) -> Seq<ValueView> {
        views(self.vals@)
    }

    /// Takes the front key, or says that none is left. The values stay as
    /// they are.
    pub fn next_key(&mut self) -> (r: Option<Value>)
        ensures
            final(self).vals_view() == old(self).vals_view(),
            old(self).keys_view().len() == 0 ==> r is None,
            old(self).keys_view().len() > 0 ==> r is Some,
            r is None ==> final(self).keys_view() == old(self).keys_view(),
            r matches Some(front) ==> front@ == old(self).keys_view()[0],
            r is Some ==> final(self).keys_view() == old(self).keys_view().drop_first(),
    {
        if self.keys.is_empty() {
            None
        } else {
            let front = self.keys.remove(0);
            assert(self.keys_view() =~= old(self).keys_view().drop_first());
            Some(front)
        }
    }

    /// Takes the front value. With no value left this fails with `Bad`. The
    /// keys stay as they are.
    pub fn next_value(&mut self) -> (r: Result<Value, Error>)
        ensures
            final(self).keys_view() == old(self).keys_view(),
            old(self).vals_view().len() == 0 ==> r == Err::<Value, Error>(Error::Bad),
            old(self).vals_view().len() > 0 ==> r is Ok,
            r is Err ==> final(self).vals_view() == old(self).vals_view(),
            r matches Ok(front) ==> front@ == old(self).vals_view()[0],
            r is Ok ==> final(self).vals_view() == old(self).vals_view().drop_first(),
    {
        if self.vals.is_empty() {
            Err(Error::Bad)
        } else {
            let front = self.vals.remove(0);
            assert(self.vals_view() =~= old(self).vals_view().drop_first());
            Ok(front)
        }
    }
}

} // verus!
