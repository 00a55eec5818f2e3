//! Helpers for the serialized form of the save data.

use vstd::prelude::*;
use vstd::std_specs::cmp::PartialEqSpec;

verus! {

/// Whether `t` equals the default value of its type (fields with their
/// default value are left out when save data is written).
pub fn is_default<T: Default + PartialEq + PartialEqSpec>(t: &T) -> (r: bool)
    ensures
        exists|d: T| #[trigger] call_ensures(T::default, (), d) && (T::obeys_eq_spec() ==> r
            == t.eq_spec(&d)),
{
    let d = T::default();
    t.eq(&d)
}

} // verus!
