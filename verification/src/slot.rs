//! Stored values that remember the type they were stored with.
//!
//! A [`Value`] holds one of a few plain types; an [`AnySlot`] holds a value of any type.

use std::any::Any;

use vstd::prelude::*;

verus! {

/// A stored value that remembers the type it was stored with.
pub trait Slot<T>: Sized {
    /// Wrap a value for storage.
    fn pack(value: T) -> Self;

    /// A clone of the stored value, if it was stored as a `T`.
    fn unpack(&self) -> Option<T> where T: Clone;
}

/// A value of one of the types that need no runtime to be stored.
#[derive(Debug, PartialEq, Eq)]
pub enum Value {
    Bool(bool),
    U8(u8),
    U32(u32),
    U64(u64),
    Usize(usize),
    I64(i64),
    Text(String),
}

impl Slot<bool> for Value {
    fn pack(value: bool) -> (slot: Value)
        ensures
            slot == Value::Bool(value),
    {
        Value::Bool(value)
    }

    fn unpack(&self) -> Option<bool>
        returns
            (match *self {
                Value::Bool(held) => Some(held),
                _ => None,
            }),
    {
        match self {
            Value::Bool(value) => Some(*value),
            _ => None,
        }
    }
}

impl Slot<u8> for Value {
    fn pack(value: u8) -> (slot: Value)
        ensures
            slot == Value::U8(value),
    {
        Value::U8(value)
    }

    fn unpack(&self) -> Option<u8>
        returns
            (match *self {
                Value::U8(held) => Some(held),
                _ => None,
            }),
    {
        match self {
            Value::U8(value) => Some(*value),
            _ => None,
        }
    }
}

impl Slot<u32> for Value {
    fn pack(value: u32) -> (slot: Value)
        ensures
            slot == Value::U32(value),
    {
        Value::U32(value)
    }

    fn unpack(&self) -> Option<u32>
        returns
            (match *self {
                Value::U32(held) => Some(held),
                _ => None,
            }),
    {
        match self {
            Value::U32(value) => Some(*value),
            _ => None,
        }
    }
}

impl Slot<u64> for Value {
    fn pack(value: u64) -> (slot: Value)
        ensures
            slot == Value::U64(value),
    {
        Value::U64(value)
    }

    fn unpack(&self) -> Option<u64>
        returns
            (match *self {
                Value::U64(held) => Some(held),
                _ => None,
            }),
    {
        match self {
            Value::U64(value) => Some(*value),
            _ => None,
        }
    }
}

impl Slot<usize> for Value {
    fn pack(value: usize) -> (slot: Value)
        ensures
            slot == Value::Usize(value),
    {
        Value::Usize(value)
    }

    fn unpack(&self) -> Option<usize>
        returns
            (match *self {
                Value::Usize(held) => Some(held),
                _ => None,
            }),
    {
        match self {
            Value::Usize(value) => Some(*value),
            _ => None,
        }
    }
}

impl Slot<i64> for Value {
    fn pack(value: i64) -> (slot: Value)
        ensures
            slot == Value::I64(value),
    {
        Value::I64(value)
    }

    fn unpack(&self) -> Option<i64>
        returns
            (match *self {
                Value::I64(held) => Some(held),
                _ => None,
            }),
    {
        match self {
            Value::I64(value) => Some(*value),
            _ => None,
        }
    }
}

impl Slot<String> for Value {
    fn pack(value: String) -> (slot: Value)
        ensures
            slot == Value::Text(value),
    {
        Value::Text(value)
    }

    fn unpack(&self) -> Option<String>
        returns
            (match *self {
                Value::Text(held) => Some(held),
                _ => None,
            }),
    {
        match self {
            Value::Text(value) => Some(value.clone()),
            _ => None,
        }
    }
}

/// A value of any type, with its type erased.
///
/// It holds a `Box<dyn std::any::Any + Send>`, which is not looked into but by the two functions
/// that wrap a value and that read one.
#[verifier::external_body]
#[derive(Debug)]
pub struct AnySlot {
    content: Box<dyn Any + Send>,
}

/// Erase the type of a value: a boxed value as a `std::any::Any`.
///
/// Nothing is claimed of the result by itself; [`reveals`] says what it gives when it is read.
#[verifier::external_body]
fn erase<T: Send + 'static>(value: T) -> (slot: AnySlot) {
    AnySlot { content: Box::new(value) }
}

/// Whether a slot is what `value` was wrapped in, as a `T`.
pub closed spec fn holds<T: Send + 'static>(slot: AnySlot, value: T) -> bool {
    call_ensures(erase::<T>, (value,), slot)
}

/// Whether reading a slot as a `T` may reveal `got`: the value that was wrapped in it, where that was
/// a `T`, and nothing otherwise.
pub open spec fn reveals<T: Send + 'static>(slot: AnySlot, got: Option<&T>) -> bool {
    &&& forall|value: T| #[trigger] holds(slot, value) ==> got == Some(&value)
    &&& got matches Some(value) ==> holds(slot, *value)
}

/// Whether reading a slot as a `T` may give `got`: a clone of the value that was wrapped in it,
/// where that was a `T`, and nothing otherwise.
pub open spec fn gives_clone<T: Clone + Send + 'static>(slot: AnySlot, got: Option<T>) -> bool {
    &&& forall|value: T| #[trigger]
        holds(slot, value) ==> (got matches Some(copy) && cloned(value, copy))
    &&& got matches Some(copy) ==> exists|value: T| #[trigger]
        holds(slot, value) && cloned(value, copy)
}

/// Read a value whose type was erased, by `downcast_ref` of `dyn std::any::Any`.
///
/// It gives the value that was wrapped, if it is of type `T`, and nothing if it is not.
#[verifier::external_body]
fn downcast<T: Send + 'static>(slot: &AnySlot) -> (got: Option<&T>)
    ensures
        reveals(*slot, got),
{
    slot.content.downcast_ref::<T>()
}

impl<T: Send + 'static> Slot<T> for AnySlot {
    fn pack(value: T) -> (slot: AnySlot)
        ensures
            holds(slot, value),
    {
        erase(value)
    }

    fn unpack(&self) -> (got: Option<T>) where T: Clone
        ensures
            gives_clone::<T>(*self, got),
    {
        match downcast::<T>(self) {
            Some(value) => Some(value.clone()),
            None => None,
        }
    }
}

/// Whether a slot gives back a clone of what was wrapped in it as a `T`.
pub open spec fn faithful<V: Slot<T>, T: Clone>() -> bool {
    forall|value: T, slot: V, got: Option<T>|
        #[trigger] call_ensures(<V as Slot<T>>::pack, (value,), slot) && #[trigger] call_ensures(
            <V as Slot<T>>::unpack,
            (&slot,),
            got,
        ) ==> (got matches Some(copy) && cloned(value, copy))
}

/// Whether what was wrapped as a `T` yields nothing when it is read as a `U`.
pub open spec fn apart<V: Slot<T> + Slot<U>, T, U: Clone>() -> bool {
    forall|value: T, slot: V, got: Option<U>|
        #[trigger] call_ensures(<V as Slot<T>>::pack, (value,), slot) && #[trigger] call_ensures(
            <V as Slot<U>>::unpack,
            (&slot,),
            got,
        ) ==> got is None
}

/// Whether a clone of a `T` is equal to what was cloned.
pub open spec fn clones_alike<T: Clone>() -> bool {
    forall|value: T, copy: T| #[trigger] cloned(value, copy) ==> copy == value
}

/// Whether reading a slot as a `T` always gives a value or never does, and always the same one where
/// clones of a `T` are equal.
pub open spec fn steady<V: Slot<T>, T: Clone>() -> bool {
    forall|slot: V, one: Option<T>, two: Option<T>|
        #[trigger] call_ensures(<V as Slot<T>>::unpack, (&slot,), one) && #[trigger] call_ensures(
            <V as Slot<T>>::unpack,
            (&slot,),
            two,
        ) ==> (one is Some <==> two is Some) && (clones_alike::<T>() ==> one == two)
}

/// Whether `T` and `U` are different types, as far as a slot can tell: nothing was wrapped both as
/// a `T` and as a `U`.
pub open spec fn unlike<T: Send + 'static, U: Send + 'static>() -> bool {
    forall|slot: AnySlot, one: T, two: U| !(#[trigger] holds(slot, one) && #[trigger] holds(slot, two))
}

/// A [`Value`] gives back what was wrapped in it, under each of its types.
pub proof fn law_values_are_faithful()
    ensures
        faithful::<Value, bool>(),
        faithful::<Value, u8>(),
        faithful::<Value, u32>(),
        faithful::<Value, u64>(),
        faithful::<Value, usize>(),
        faithful::<Value, i64>(),
        faithful::<Value, String>(),
{
}

/// A [`Value`] is stored as one type only: read as any other of its types it yields nothing.
pub proof fn law_values_have_one_type()
    ensures
        apart::<Value, bool, u8>(),
        apart::<Value, bool, u32>(),
        apart::<Value, bool, u64>(),
        apart::<Value, bool, usize>(),
        apart::<Value, bool, i64>(),
        apart::<Value, bool, String>(),
        apart::<Value, u8, bool>(),
        apart::<Value, u8, u32>(),
        apart::<Value, u8, u64>(),
        apart::<Value, u8, usize>(),
        apart::<Value, u8, i64>(),
        apart::<Value, u8, String>(),
        apart::<Value, u32, bool>(),
        apart::<Value, u32, u8>(),
        apart::<Value, u32, u64>(),
        apart::<Value, u32, usize>(),
        apart::<Value, u32, i64>(),
        apart::<Value, u32, String>(),
        apart::<Value, u64, bool>(),
        apart::<Value, u64, u8>(),
        apart::<Value, u64, u32>(),
        apart::<Value, u64, usize>(),
        apart::<Value, u64, i64>(),
        apart::<Value, u64, String>(),
        apart::<Value, usize, bool>(),
        apart::<Value, usize, u8>(),
        apart::<Value, usize, u32>(),
        apart::<Value, usize, u64>(),
        apart::<Value, usize, i64>(),
        apart::<Value, usize, String>(),
        apart::<Value, i64, bool>(),
        apart::<Value, i64, u8>(),
        apart::<Value, i64, u32>(),
        apart::<Value, i64, u64>(),
        apart::<Value, i64, usize>(),
        apart::<Value, i64, String>(),
        apart::<Value, String, bool>(),
        apart::<Value, String, u8>(),
        apart::<Value, String, u32>(),
        apart::<Value, String, u64>(),
        apart::<Value, String, usize>(),
        apart::<Value, String, i64>(),
{
}

/// A [`Value`] yields the same whenever it is read as the same type, and values of its types are
/// copied as they are.
pub proof fn law_values_are_steady()
    ensures
        steady::<Value, bool>(),
        steady::<Value, u8>(),
        steady::<Value, u32>(),
        steady::<Value, u64>(),
        steady::<Value, usize>(),
        steady::<Value, i64>(),
        steady::<Value, String>(),
        clones_alike::<bool>(),
        clones_alike::<u8>(),
        clones_alike::<u32>(),
        clones_alike::<u64>(),
        clones_alike::<usize>(),
        clones_alike::<i64>(),
        clones_alike::<String>(),
{
}

/// An [`AnySlot`] gives back a clone of what was wrapped in it, whatever type that has, and gives it
/// whenever it is read.
pub proof fn law_any_value_comes_back<T: Clone + Send + 'static>()
    ensures
        faithful::<AnySlot, T>(),
        steady::<AnySlot, T>(),
{
    assert forall|value: T, slot: AnySlot, got: Option<T>|
        #[trigger] call_ensures(<AnySlot as Slot<T>>::pack, (value,), slot)
            && #[trigger] call_ensures(<AnySlot as Slot<T>>::unpack, (&slot,), got) implies (
    got matches Some(copy) && cloned(value, copy)) by {
        assert(holds(slot, value));
        assert(gives_clone(slot, got));
    }
}

/// An [`AnySlot`] yields nothing when it is read as another type than its value has.
pub proof fn law_any_value_has_one_type<T: Send + 'static, U: Clone + Send + 'static>()
    requires
        unlike::<T, U>(),
    ensures
        apart::<AnySlot, T, U>(),
{
}

} // verus!
