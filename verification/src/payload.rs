//! A small verified helper shared by both primitives: handing a clone of
//! an optional payload out to the caller.

use vstd::prelude::*;

verus! {

/// Hand out a clone of an optional payload: `Some` exactly when the value
/// is, and then a clone of it. (`cloned` also admits a plain copy, which
/// is what `clone` compiles to for simple payload types.)
pub(crate) fn clone_out<T: Clone>(v: &Option<T>) -> (r: Option<T>)
    ensures
        r is Some <==> v is Some,
        v is Some ==> cloned::<T>(v->Some_0, r->Some_0),
{
    match v {
        None => None,
        Some(x) => Some(x.clone()),
    }
}

} // verus!
