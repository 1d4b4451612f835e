//! Equality of values: two values are equal where neither stands before the
//! other in the order of values.

use crate::order::{lemma_rel_same, Rel};
use crate::value::Value;
use vstd::prelude::*;
use vstd::std_specs::cmp::PartialEqSpecImpl;

verus! {

impl PartialEq for Value {
    fn eq(&self, other: &Value) -> (r: bool) {
        proof {
            lemma_rel_same(self@, other@);
        }
        match self.compare(other) {
            Rel::Same => true,
            _ => false,
        }
    }
}

impl PartialEqSpecImpl for Value {
    open spec fn obeys_eq_spec() -> bool {
        true
    }

    open spec fn eq_spec(&self, other: &Value) -> bool {
        self@ == other@
    }
}

impl Eq for Value {

}

} // verus!
