//! Laws of the frame model that hold of every container.
use vstd::prelude::*;

use crate::{InsertedMap, TypeMap};

verus! {

/// A fresh insertion over `map` holds exactly one value more than `map`,
/// shows a fresh tag at depth zero, and moves every depth of `map` one step
/// outward.
pub proof fn lemma_fresh_frame<M: TypeMap, T: 'static>(map: M, value: T)
    ensures
        InsertedMap::Inserted(map, value).spec_len() == map.spec_len() + 1,
        InsertedMap::Inserted(map, value).spec_depth() == map.spec_depth() + 1,
        InsertedMap::Inserted(map, value).fresh_at(0),
        forall|d: nat|
            #[trigger] map.fresh_at(d) == InsertedMap::Inserted(map, value).fresh_at(d + 1),
{
}

/// The frame that a removal leaves where a fresh insertion stood holds what
/// the state beneath it holds: the same number of values and the same tags,
/// one depth further out, and no tag of its own.
pub proof fn lemma_vacated_frame<M: TypeMap, T: 'static>(map: M)
    ensures
        InsertedMap::<M, T>::Vacant(map).spec_len() == map.spec_len(),
        !InsertedMap::<M, T>::Vacant(map).fresh_at(0),
        forall|d: nat| #[trigger] map.fresh_at(d) == InsertedMap::<M, T>::Vacant(map).fresh_at(d + 1),
{
}

/// An overwrite frame holds the values of the state it wraps, and no tag of
/// its own.
pub proof fn lemma_overwrite_frame<M: TypeMap, T: 'static>(map: M, old: T)
    ensures
        (InsertedMap::Existed { map, old }).spec_len() == map.spec_len(),
        !(InsertedMap::Existed { map, old }).fresh_at(0),
{
}

} // verus!
