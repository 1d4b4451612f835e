//! The order of values, for `<` and its kin.

use crate::order::{rel, Rel};
use crate::value::Value;
use std::cmp::Ordering;
use vstd::prelude::*;
use vstd::std_specs::cmp::PartialOrdSpecImpl;

verus! {

impl PartialOrd for Value {
    fn partial_cmp(&self, other: &Value) -> (r: Option<Ordering>) {
        match self.compare(other) {
            Rel::Before => Some(Ordering::Less),
            Rel::Same => Some(Ordering::Equal),
            Rel::After => Some(Ordering::Greater),
        }
    }
}

impl PartialOrdSpecImpl for Value {
    open spec fn obeys_partial_cmp_spec() -> bool {
        true
    }

    open spec fn partial_cmp_spec(&self, other: &Value) -> Option<Ordering> {
        match rel(self@, other@) {
            Rel::Before => Some(Ordering::Less),
            Rel::Same => Some(Ordering::Equal),
            Rel::After => Some(Ordering::Greater),
        }
    }
}

} // verus!
