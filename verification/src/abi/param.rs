//! A decoded value under the name of its parameter.

use crate::abi::types::{SolValue, ValueModel};
use vstd::prelude::*;

verus! {

/// A value with the name of the parameter that it was decoded for.
#[derive(Debug)]
pub struct DynSolParam {
    pub name: String,
    pub value: SolValue,
}

impl View for DynSolParam {
    type V = (Seq<char>, ValueModel);

    open spec fn view(&self) -> (Seq<char>, ValueModel) {
        (self.name@, self.value@)
    }
}

impl Clone for DynSolParam {
    fn clone(&self) -> (r: Self)
        ensures
            r@ == self@,
    {
        DynSolParam { name: self.name.clone(), value: self.value.clone() }
    }
}

impl PartialEq for DynSolParam {
    fn eq(&self, other: &Self) -> (r: bool) {
        self.name == other.name && self.value.same(&other.value)
    }
}

impl vstd::std_specs::cmp::PartialEqSpecImpl for DynSolParam {
    open spec fn obeys_eq_spec() -> bool {
        true
    }

    open spec fn eq_spec(&self, other: &Self) -> bool {
        self@ == other@
    }
}

/// The names and values, in order.
pub open spec fn param_views(params: Seq<DynSolParam>) -> Seq<(Seq<char>, ValueModel)> {
    Seq::new(params.len(), |i: int| params[i]@)
}

} // verus!
