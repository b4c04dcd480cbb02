//! The frames that insertion and removal wrap around a container.
use vstd::prelude::*;

use crate::tags::{cast_mut, cast_ref, take_as, type_tag};
use crate::{TypeId, TypeMap};

verus! {

/// The outcome of an insertion, wrapping the state it was applied to.
#[derive(Clone, Debug)]
pub enum InsertedMap<M, T> {
    /// A value of this type was already held: it was overwritten in `map`,
    /// and `old` is the value it displaced.
    Existed { map: M, old: T },
    /// The type was new: this frame holds its value.
    Inserted(M, T),
    /// A frame with nothing of its own (left behind by a removal).
    Vacant(M),
}

/// The outcome of a removal, wrapping what remains.
#[derive(Clone, Debug)]
pub enum Removed<M, T> {
    /// The value was found and taken out of `map`.
    Removed { map: M, value: T },
    /// No value of this type was held; `map` is unchanged.
    NotFound(M),
}

/// Emptying one fresh depth of a wrapped state empties the matching depth,
/// one step further out, of a frame wrapped around it. `outer` and `after`
/// say which depths of that frame hold a fresh insertion, before and after.
proof fn lemma_vacated_outward<M: TypeMap>(
    inner: M,
    rest: M,
    outer: spec_fn(nat) -> bool,
    after: spec_fn(nat) -> bool,
)
    requires
        exists|d: nat|
            {
                &&& #[trigger] inner.fresh_at(d)
                &&& !rest.fresh_at(d)
                &&& forall|e: nat| e != d ==> #[trigger] rest.fresh_at(e) == inner.fresh_at(e)
            },
        outer(0) == after(0),
        forall|e: nat| #[trigger] inner.fresh_at(e) == outer(e + 1),
        forall|e: nat| #[trigger] rest.fresh_at(e) == after(e + 1),
    ensures
        exists|d: nat|
            {
                &&& #[trigger] outer(d)
                &&& !after(d)
                &&& forall|e: nat| e != d ==> #[trigger] after(e) == outer(e)
            },
{
    let d = choose|d: nat|
        {
            &&& #[trigger] inner.fresh_at(d)
            &&& !rest.fresh_at(d)
            &&& forall|e: nat| e != d ==> #[trigger] rest.fresh_at(e) == inner.fresh_at(e)
        };
    assert(outer(d + 1) && !after(d + 1));
    assert forall|e: nat| e != d + 1 implies #[trigger] after(e) == outer(e) by {
        if e > 0 {
            let k = (e - 1) as nat;
            assert(inner.fresh_at(k) == outer(k + 1));
            assert(rest.fresh_at(k) == after(k + 1));
        }
    }
}

impl<M: TypeMap, U: 'static> TypeMap for InsertedMap<M, U> {
    type Inner = M;

    open spec fn spec_len(&self) -> nat {
        match self {
            InsertedMap::Existed { map, .. } => map.spec_len(),
            InsertedMap::Inserted(map, _) => map.spec_len() + 1,
            InsertedMap::Vacant(map) => map.spec_len(),
        }
    }

    open spec fn spec_depth(&self) -> nat {
        self.spec_inner().spec_depth() + 1
    }

    open spec fn fresh_at(&self, depth: nat) -> bool {
        if depth == 0 {
            self is Inserted
        } else {
            self.spec_inner().fresh_at((depth - 1) as nat)
        }
    }

    open spec fn spec_inner(self) -> M {
        match self {
            InsertedMap::Existed { map, .. } => map,
            InsertedMap::Inserted(map, _) => map,
            InsertedMap::Vacant(map) => map,
        }
    }

    proof fn lemma_fresh_within(&self, depth: nat) {
        if depth > 0 {
            self.spec_inner().lemma_fresh_within((depth - 1) as nat);
        }
    }

    fn into_inner(self) -> (r: M) {
        match self {
            InsertedMap::Existed { map, .. } => map,
            InsertedMap::Inserted(map, _) => map,
            InsertedMap::Vacant(map) => map,
        }
    }

    fn get<T: 'static>(&self) -> (r: Option<&T>) {
        let found = match self {
            InsertedMap::Existed { map, .. } => map.get::<T>(),
            InsertedMap::Vacant(map) => map.get::<T>(),
            InsertedMap::Inserted(map, value) => {
                let own = cast_ref::<U, T>(value);
                if own.is_some() {
                    proof {
                        assert(self.fresh_at(0));
                    }
                    return own;
                }
                map.get::<T>()
            },
        };
        proof {
            if found is Some {
                let d = choose|d: nat| #[trigger] self.spec_inner().fresh_at(d);
                assert(self.fresh_at(d + 1));
            }
        }
        found
    }

    fn get_mut<T: 'static>(&mut self) -> (r: Option<&mut T>) {
        match self {
            InsertedMap::Existed { map, .. } => map.get_mut::<T>(),
            InsertedMap::Vacant(map) => map.get_mut::<T>(),
            InsertedMap::Inserted(map, value) => {
                match cast_mut::<U, T>(value) {
                    Some(own) => Some(own),
                    None => map.get_mut::<T>(),
                }
            },
        }
    }

    fn remove<T: 'static>(self) -> (r: Removed<Self, T>) {
        match self {
            InsertedMap::Existed { map, old } => match map.remove::<T>() {
                Removed::Removed { map: rest, value } => {
                    proof {
                        let after = InsertedMap::Existed { map: rest, old };
                        lemma_vacated_outward(
                            map,
                            rest,
                            |e: nat| self.fresh_at(e),
                            |e: nat| after.fresh_at(e),
                        );
                    }
                    Removed::Removed { map: InsertedMap::Existed { map: rest, old }, value }
                },
                Removed::NotFound(map) => Removed::NotFound(InsertedMap::Existed { map, old }),
            },
            InsertedMap::Inserted(map, value) => match take_as::<U, T>(value) {
                Ok(value) => {
                    proof {
                        let after = InsertedMap::<M, U>::Vacant(map);
                        assert(self.fresh_at(0) && !after.fresh_at(0));
                        assert(forall|e: nat| e != 0 ==> #[trigger] after.fresh_at(e) == self.fresh_at(e));
                    }
                    Removed::Removed { map: InsertedMap::Vacant(map), value }
                },
                Err(value) => match map.remove::<T>() {
                    Removed::Removed { map: rest, value: taken } => {
                        proof {
                            let after = InsertedMap::Inserted(rest, value);
                            lemma_vacated_outward(
                                map,
                                rest,
                                |e: nat| self.fresh_at(e),
                                |e: nat| after.fresh_at(e),
                            );
                        }
                        Removed::Removed { map: InsertedMap::Inserted(rest, value), value: taken }
                    },
                    Removed::NotFound(map) => Removed::NotFound(InsertedMap::Inserted(map, value)),
                },
            },
            InsertedMap::Vacant(map) => match map.remove::<T>() {
                Removed::Removed { map: rest, value } => {
                    proof {
                        let after = InsertedMap::<M, U>::Vacant(rest);
                        lemma_vacated_outward(
                            map,
                            rest,
                            |e: nat| self.fresh_at(e),
                            |e: nat| after.fresh_at(e),
                        );
                    }
                    Removed::Removed { map: InsertedMap::Vacant(rest), value }
                },
                Removed::NotFound(map) => Removed::NotFound(InsertedMap::Vacant(map)),
            },
        }
    }

    fn len(&self) -> (r: usize) {
        match self {
            InsertedMap::Existed { map, .. } => map.len(),
            InsertedMap::Inserted(map, _) => map.len() + 1,
            InsertedMap::Vacant(map) => map.len(),
        }
    }

    fn type_id(&self, depth: usize) -> (r: Option<TypeId>) {
        if depth == 0 {
            match self {
                InsertedMap::Inserted(_, _) => Some(type_tag::<U>()),
                _ => None,
            }
        } else {
            match self {
                InsertedMap::Existed { map, .. } => map.type_id(depth - 1),
                InsertedMap::Inserted(map, _) => map.type_id(depth - 1),
                InsertedMap::Vacant(map) => map.type_id(depth - 1),
            }
        }
    }
}

impl<M: TypeMap, U: 'static> TypeMap for Removed<M, U> {
    type Inner = M;

    open spec fn spec_len(&self) -> nat {
        self.spec_inner().spec_len()
    }

    open spec fn spec_depth(&self) -> nat {
        self.spec_inner().spec_depth() + 1
    }

    open spec fn fresh_at(&self, depth: nat) -> bool {
        depth > 0 && self.spec_inner().fresh_at((depth - 1) as nat)
    }

    open spec fn spec_inner(self) -> M {
        match self {
            Removed::Removed { map, .. } => map,
            Removed::NotFound(map) => map,
        }
    }

    proof fn lemma_fresh_within(&self, depth: nat) {
        self.spec_inner().lemma_fresh_within((depth - 1) as nat);
    }

    fn into_inner(self) -> (r: M) {
        match self {
            Removed::Removed { map, .. } => map,
            Removed::NotFound(map) => map,
        }
    }

    fn get<T: 'static>(&self) -> (r: Option<&T>) {
        let found = match self {
            Removed::Removed { map, .. } => map.get::<T>(),
            Removed::NotFound(map) => map.get::<T>(),
        };
        proof {
            if found is Some {
                let d = choose|d: nat| #[trigger] self.spec_inner().fresh_at(d);
                assert(self.fresh_at(d + 1));
            }
        }
        found
    }

    fn get_mut<T: 'static>(&mut self) -> (r: Option<&mut T>) {
        match self {
            Removed::Removed { map, .. } => map.get_mut::<T>(),
            Removed::NotFound(map) => map.get_mut::<T>(),
        }
    }

    fn remove<T: 'static>(self) -> (r: Removed<Self, T>) {
        match self {
            Removed::Removed { map, value: held } => match map.remove::<T>() {
                Removed::Removed { map: rest, value } => {
                    proof {
                        let after = Removed::Removed { map: rest, value: held };
                        lemma_vacated_outward(
                            map,
                            rest,
                            |e: nat| self.fresh_at(e),
                            |e: nat| after.fresh_at(e),
                        );
                    }
                    Removed::Removed { map: Removed::Removed { map: rest, value: held }, value }
                },
                Removed::NotFound(map) => Removed::NotFound(Removed::Removed { map, value: held }),
            },
            Removed::NotFound(map) => match map.remove::<T>() {
                Removed::Removed { map: rest, value } => {
                    proof {
                        let after = Removed::<M, U>::NotFound(rest);
                        lemma_vacated_outward(
                            map,
                            rest,
                            |e: nat| self.fresh_at(e),
                            |e: nat| after.fresh_at(e),
                        );
                    }
                    Removed::Removed { map: Removed::NotFound(rest), value }
                },
                Removed::NotFound(map) => Removed::NotFound(Removed::NotFound(map)),
            },
        }
    }

    fn len(&self) -> (r: usize) {
        match self {
            Removed::Removed { map, .. } => map.len(),
            Removed::NotFound(map) => map.len(),
        }
    }

    fn type_id(&self, depth: usize) -> (r: Option<TypeId>) {
        if depth == 0 {
            None
        } else {
            match self {
                Removed::Removed { map, .. } => map.type_id(depth - 1),
                Removed::NotFound(map) => map.type_id(depth - 1),
            }
        }
    }
}

} // verus!
