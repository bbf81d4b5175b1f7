//! The types whose values own nothing.
use crate::measurement::Measurement;
use crate::traits::MallocSizeOf;
use arrayvec::ArrayString;
use beach_map::{BeachMap, ID};
use specs::prelude::{ComponentEvent, Entity, ReaderId};
use std::marker::PhantomData;
use std::mem::MaybeUninit;
use std::ops::Range;
use std::sync::atomic::{AtomicBool, AtomicIsize, AtomicUsize};
use string_cache::Atom;
use time::{Duration, Tm};
use void::Void;
use vstd::prelude::*;

verus! {

/// A number, a truth value, a character and the characters of a string own nothing,
/// whatever they are.
pub proof fn law_primitives_own_nothing(
    v_bool: &bool,
    v_char: &char,
    v_u8: &u8,
    v_u16: &u16,
    v_u32: &u32,
    v_u64: &u64,
    v_u128: &u128,
    v_usize: &usize,
    v_i8: &i8,
    v_i16: &i16,
    v_i32: &i32,
    v_i64: &i64,
    v_i128: &i128,
    v_isize: &isize,
    string: &str,
    unit: &(),
)
    ensures
        v_bool.measurement() == Measurement::nothing(),
        v_char.measurement() == Measurement::nothing(),
        v_u8.measurement() == Measurement::nothing(),
        v_u16.measurement() == Measurement::nothing(),
        v_u32.measurement() == Measurement::nothing(),
        v_u64.measurement() == Measurement::nothing(),
        v_u128.measurement() == Measurement::nothing(),
        v_usize.measurement() == Measurement::nothing(),
        v_i8.measurement() == Measurement::nothing(),
        v_i16.measurement() == Measurement::nothing(),
        v_i32.measurement() == Measurement::nothing(),
        v_i64.measurement() == Measurement::nothing(),
        v_i128.measurement() == Measurement::nothing(),
        v_isize.measurement() == Measurement::nothing(),
        string.measurement() == Measurement::nothing(),
        unit.measurement() == Measurement::nothing(),
{
}

/// A range of numbers owns nothing, however long it is.
pub proof fn law_ranges_own_nothing(
    r_u8: &Range<u8>,
    r_u16: &Range<u16>,
    r_u32: &Range<u32>,
    r_u64: &Range<u64>,
    r_usize: &Range<usize>,
    r_i8: &Range<i8>,
    r_i16: &Range<i16>,
    r_i32: &Range<i32>,
    r_i64: &Range<i64>,
    r_isize: &Range<isize>,
)
    ensures
        r_u8.measurement() == Measurement::nothing(),
        r_u16.measurement() == Measurement::nothing(),
        r_u32.measurement() == Measurement::nothing(),
        r_u64.measurement() == Measurement::nothing(),
        r_usize.measurement() == Measurement::nothing(),
        r_i8.measurement() == Measurement::nothing(),
        r_i16.measurement() == Measurement::nothing(),
        r_i32.measurement() == Measurement::nothing(),
        r_i64.measurement() == Measurement::nothing(),
        r_isize.measurement() == Measurement::nothing(),
{
}

/// An atomic value owns nothing.
pub proof fn law_atomics_own_nothing(
    flag: &AtomicBool,
    signed: &AtomicIsize,
    unsigned: &AtomicUsize,
)
    ensures
        flag.measurement() == Measurement::nothing(),
        signed.measurement() == Measurement::nothing(),
        unsigned.measurement() == Measurement::nothing(),
{
}

/// A marker owns nothing, and of a value that may not be there nothing is counted.
pub proof fn law_markers_own_nothing<T: MallocSizeOf>(
    marker: &PhantomData<T>,
    place: &MaybeUninit<T>,
)
    ensures
        marker.measurement() == Measurement::nothing(),
        place.measurement() == Measurement::nothing(),
{
}

/// An interned string owns nothing, nor does a string in an array of its own.
pub proof fn law_shared_strings_own_nothing<Static, const CAP: usize>(
    atom: &Atom<Static>,
    string: &ArrayString<CAP>,
)
    ensures
        atom.measurement() == Measurement::nothing(),
        string.measurement() == Measurement::nothing(),
{
}

/// A span or a point of time owns nothing, nor does a value that cannot be.
pub proof fn law_times_own_nothing(
    span: &Duration,
    point: &Tm,
    never: &Void,
)
    ensures
        span.measurement() == Measurement::nothing(),
        point.measurement() == Measurement::nothing(),
        never.measurement() == Measurement::nothing(),
{
}

/// Entities, events and readers own nothing, nor do slot maps and their keys.
pub proof fn law_components_own_nothing<T: MallocSizeOf + 'static, V: MallocSizeOf>(
    entity: &Entity,
    event: &ComponentEvent,
    reader: &ReaderId<T>,
    slots: &BeachMap<V, T>,
    id: &ID<V>,
)
    ensures
        entity.measurement() == Measurement::nothing(),
        event.measurement() == Measurement::nothing(),
        reader.measurement() == Measurement::nothing(),
        slots.measurement() == Measurement::nothing(),
        id.measurement() == Measurement::nothing(),
{
}

} // verus!
