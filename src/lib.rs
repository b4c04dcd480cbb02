//! A container that holds at most one value of each type, addressed by the
//! type itself. Every operation that changes the container consumes it and
//! returns a new frame wrapping the previous state.
use vstd::prelude::*;

mod frames;
pub mod laws;
mod tags;

pub use frames::{InsertedMap, Removed};
pub use tags::TypeId;

verus! {

/// The empty container: no values, length zero.
#[derive(Clone, Debug)]
pub struct StackedMap;

/// The operations that every shape of container offers.
///
/// Depths count frames from the outermost one inward. Only a fresh insertion
/// shows a tag at its depth; overwrite, emptied and removal frames show none.
///
/// The model describes the shape of the chain: how many values it holds and
/// which depths hold a fresh insertion. Which type a stored value has is
/// decided at run time by the checked casts of `tags`, so contracts say of a
/// typed lookup only what holds whatever the cast finds.
pub trait TypeMap: Sized {
    /// The state this frame wraps.
    type Inner;

    /// Number of live values held.
    spec fn spec_len(&self) -> nat;

    /// Number of frames in the chain.
    spec fn spec_depth(&self) -> nat;

    /// Whether the frame at `depth` holds a freshly inserted type.
    spec fn fresh_at(&self, depth: nat) -> bool;

    /// The state that `into_inner` returns.
    spec fn spec_inner(self) -> Self::Inner;

    /// Only depths inside the chain can hold a fresh insertion.
    proof fn lemma_fresh_within(&self, depth: nat)
        requires
            self.fresh_at(depth),
        ensures
            depth < self.spec_depth(),
    ;

    /// Unwraps one frame, dropping its own payload.
    fn into_inner(self) -> (r: Self::Inner)
        ensures
            r == self.spec_inner(),
    ;

    /// Drops every value and returns the empty container.
    fn clear(self) -> (r: StackedMap) {
        StackedMap
    }

    /// Whether a value of type `T` is held.
    fn contains<T: 'static>(&self) -> (r: bool)
        ensures
            self.spec_len() == 0 ==> !r,
            r ==> exists|d: nat| #[trigger] self.fresh_at(d),
    {
        self.get::<T>().is_some()
    }

    /// The value of type `T`, looked up from the outermost frame inward.
    fn get<T: 'static>(&self) -> (r: Option<&T>)
        ensures
            self.spec_len() == 0 ==> r is None,
            r is Some ==> exists|d: nat| #[trigger] self.fresh_at(d),
    ;

    /// Mutable access to the value of type `T`; the shape of the container
    /// stays as it was.
    fn get_mut<T: 'static>(&mut self) -> (r: Option<&mut T>)
        ensures
            old(self).spec_len() == 0 ==> r is None,
            r is None ==> *final(self) == *old(self),
            final(self).spec_len() == old(self).spec_len(),
            final(self).spec_depth() == old(self).spec_depth(),
            forall|d: nat| #[trigger] final(self).fresh_at(d) == old(self).fresh_at(d),
    ;

    /// Inserts `value`: overwrites a held value of type `T` in place and
    /// returns it, or wraps the container in a fresh frame.
    fn insert<T: 'static>(self, value: T) -> (r: InsertedMap<Self, T>)
        ensures
            self.spec_len() == 0 ==> r is Inserted,
            match r {
                InsertedMap::Inserted(map, v) => map == self && v == value,
                InsertedMap::Existed { map, .. } => {
                    &&& map.spec_len() == self.spec_len()
                    &&& map.spec_depth() == self.spec_depth()
                    &&& forall|d: nat| #[trigger] map.fresh_at(d) == self.fresh_at(d)
                },
                InsertedMap::Vacant(_) => false,
            },
    {
        let mut this = self;
        let mut value = value;
        let found = match this.get_mut::<T>() {
            Some(slot) => {
                core::mem::swap(slot, &mut value);
                true
            },
            None => false,
        };
        if found {
            InsertedMap::Existed { map: this, old: value }
        } else {
            InsertedMap::Inserted(this, value)
        }
    }

    /// Takes the value of type `T` out, or reports that none is held.
    fn remove<T: 'static>(self) -> (r: Removed<Self, T>)
        ensures
            self.spec_len() == 0 ==> r is NotFound,
            match r {
                Removed::Removed { map, .. } => {
                    &&& map.spec_len() + 1 == self.spec_len()
                    &&& map.spec_depth() == self.spec_depth()
                    &&& exists|d: nat|
                        {
                            &&& #[trigger] self.fresh_at(d)
                            &&& !map.fresh_at(d)
                            &&& forall|e: nat| e != d ==> #[trigger] map.fresh_at(e) == self.fresh_at(e)
                        }
                },
                Removed::NotFound(map) => map == self,
            },
    ;

    /// Number of live values held.
    fn len(&self) -> (r: usize)
        requires
            self.spec_len() <= usize::MAX,
        ensures
            r == self.spec_len(),
    ;

    fn is_empty(&self) -> (r: bool)
        requires
            self.spec_len() <= usize::MAX,
        ensures
            r == (self.spec_len() == 0),
    {
        self.len() == 0
    }

    /// The tag of the type freshly inserted at `depth`, or `None` where that
    /// frame is no fresh insertion or lies beyond the chain.
    fn type_id(&self, depth: usize) -> (r: Option<TypeId>)
        ensures
            r is Some == self.fresh_at(depth as nat),
    ;

    /// Walks the tags from depth zero outward, stopping at the first depth
    /// without a fresh insertion.
    fn type_id_iter(&self) -> (r: MapTypeIdIterator<'_, Self>)
        ensures
            r.map() == *self,
            r.position() == 0,
    {
        MapTypeIdIterator::new(self)
    }
}

impl TypeMap for StackedMap {
    type Inner = StackedMap;

    open spec fn spec_len(&self) -> nat {
        0
    }

    open spec fn spec_depth(&self) -> nat {
        0
    }

    open spec fn fresh_at(&self, depth: nat) -> bool {
        false
    }

    open spec fn spec_inner(self) -> StackedMap {
        StackedMap
    }

    proof fn lemma_fresh_within(&self, depth: nat) {
    }

    fn into_inner(self) -> (r: StackedMap) {
        StackedMap
    }

    fn get<T: 'static>(&self) -> (r: Option<&T>) {
        None
    }

    fn get_mut<T: 'static>(&mut self) -> (r: Option<&mut T>) {
        None
    }

    fn remove<T: 'static>(self) -> (r: Removed<Self, T>) {
        Removed::NotFound(self)
    }

    fn len(&self) -> (r: usize) {
        0
    }

    fn type_id(&self, depth: usize) -> (r: Option<TypeId>) {
        None
    }
}

/// Enumerates the tags of the outermost run of fresh insertions.
pub struct MapTypeIdIterator<'a, M> {
    map: &'a M,
    depth: usize,
}

impl<'a, M> MapTypeIdIterator<'a, M> {
    /// The container being walked.
    pub closed spec fn map(&self) -> M {
        *self.map
    }

    /// The depth whose tag comes next.
    pub closed spec fn position(&self) -> nat {
        self.depth as nat
    }

    pub fn new(map: &'a M) -> (r: Self)
        ensures
            r.map() == *map,
            r.position() == 0,
    {
        MapTypeIdIterator { map, depth: 0 }
    }
}

impl<'a, M: TypeMap> MapTypeIdIterator<'a, M> {
    /// The tag at the current depth, advancing past it; `None` once a depth
    /// without a fresh insertion is reached.
    pub fn next(&mut self) -> (r: Option<TypeId>)
        requires
            old(self).map().spec_depth() <= usize::MAX,
        ensures
            final(self).map() == old(self).map(),
            r is Some == old(self).map().fresh_at(old(self).position()),
            final(self).position() == old(self).position() + if r is Some {
                1nat
            } else {
                0nat
            },
    {
        let id = self.map.type_id(self.depth);
        if id.is_none() {
            return None;
        }
        proof {
            self.map.lemma_fresh_within(self.depth as nat);
        }
        self.depth = self.depth + 1;
        id
    }
}

} // verus!
