//! Access to the ordered maps of the standard library where the verified
//! interface of the maps has no counterpart.

use std::collections::BTreeMap;
use vstd::prelude::*;

verus! {

/// `BTreeMap::get_mut` of the standard library: a mutable reference to the
/// value stored under `key`, if there is one. The map changes only in what
/// the caller writes through that reference.
#[verifier::external_body]
pub(crate) fn btree_get_mut<'a, V>(map: &'a mut BTreeMap<u32, V>, key: u32) -> (found: Option<
    &'a mut V,
>)
    ensures
        found is Some <==> old(map)@.contains_key(key),
        found is Some ==> *found->Some_0 == old(map)@[key] && final(map)@ == old(map)@.insert(
            key,
            *final(found->Some_0),
        ),
        found is None ==> final(map)@ == old(map)@,
{
    map.get_mut(&key)
}

} // verus!
