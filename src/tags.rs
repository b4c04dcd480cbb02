//! Type identity and checked casts: the one place where the library relies on
//! `core::any`.
use vstd::prelude::*;

pub use core::any::TypeId;

verus! {

#[verifier::external_type_specification]
#[verifier::external_body]
pub struct ExTypeId(core::any::TypeId);

/// Relies on `core::any::TypeId::of`: the identifier of the type `T`.
#[verifier::external_body]
pub(crate) fn type_tag<T: ?Sized + 'static>() -> (r: TypeId) {
    TypeId::of::<T>()
}

/// Relies on `<dyn Any>::downcast_ref`: a view of `u` as a `T`, present only
/// when `U` and `T` are the same type.
#[verifier::external_body]
pub(crate) fn cast_ref<U: 'static, T: 'static>(u: &U) -> (r: Option<&T>) {
    (u as &dyn core::any::Any).downcast_ref::<T>()
}

/// Relies on `<dyn Any>::downcast_mut`: a mutable view of `u` as a `T`,
/// present only when `U` and `T` are the same type; when absent, `u` is left
/// as it was.
#[verifier::external_body]
pub(crate) fn cast_mut<U: 'static, T: 'static>(u: &mut U) -> (r: Option<&mut T>)
    ensures
        r is None ==> *final(u) == *old(u),
{
    (u as &mut dyn core::any::Any).downcast_mut::<T>()
}

/// Relies on `Box<dyn Any>::downcast`: `u` moved into a `T` when `U` and `T`
/// are the same type, else handed back unchanged.
#[verifier::external_body]
pub(crate) fn take_as<U: 'static, T: 'static>(u: U) -> (r: Result<T, U>)
    ensures
        r matches Err(back) ==> back == u,
{
    let boxed: Box<dyn core::any::Any> = Box::new(u);
    match boxed.downcast::<T>() {
        Ok(t) => Ok(*t),
        Err(boxed) => Err(*boxed.downcast::<U>().unwrap()),
    }
}

} // verus!
