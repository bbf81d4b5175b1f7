//! Types that own no heap memory.
use crate::checked::MallocCheckedSizeOf;
use crate::measurement::Measurement;
use crate::ops::MallocSizeOfOps;
use crate::traits::MallocSizeOf;
use std::marker::PhantomData;
use std::mem::MaybeUninit;
use std::ops::Range;
use std::sync::atomic::{AtomicBool, AtomicIsize, AtomicUsize};
use vstd::prelude::*;

verus! {

impl MallocSizeOf for bool {
    open spec fn measurement(&self) -> Measurement {
        Measurement::nothing()
    }

    fn size_of(&self, _ops: &mut MallocSizeOfOps) -> (n: usize) {
        0
    }
}

impl MallocCheckedSizeOf for bool {
    fn checked_size_of(&self, _ops: &mut MallocSizeOfOps) -> (n: Option<usize>) {
        Some(0)
    }
}

impl MallocSizeOf for char {
    open spec fn measurement(&self) -> Measurement {
        Measurement::nothing()
    }

    fn size_of(&self, _ops: &mut MallocSizeOfOps) -> (n: usize) {
        0
    }
}

impl MallocCheckedSizeOf for char {
    fn checked_size_of(&self, _ops: &mut MallocSizeOfOps) -> (n: Option<usize>) {
        Some(0)
    }
}

impl MallocSizeOf for str {
    open spec fn measurement(&self) -> Measurement {
        Measurement::nothing()
    }

    fn size_of(&self, _ops: &mut MallocSizeOfOps) -> (n: usize) {
        0
    }
}

impl MallocCheckedSizeOf for str {
    fn checked_size_of(&self, _ops: &mut MallocSizeOfOps) -> (n: Option<usize>) {
        Some(0)
    }
}

impl MallocSizeOf for u8 {
    open spec fn measurement(&self) -> Measurement {
        Measurement::nothing()
    }

    fn size_of(&self, _ops: &mut MallocSizeOfOps) -> (n: usize) {
        0
    }
}

impl MallocCheckedSizeOf for u8 {
    fn checked_size_of(&self, _ops: &mut MallocSizeOfOps) -> (n: Option<usize>) {
        Some(0)
    }
}

impl MallocSizeOf for u16 {
    open spec fn measurement(&self) -> Measurement {
        Measurement::nothing()
    }

    fn size_of(&self, _ops: &mut MallocSizeOfOps) -> (n: usize) {
        0
    }
}

impl MallocCheckedSizeOf for u16 {
    fn checked_size_of(&self, _ops: &mut MallocSizeOfOps) -> (n: Option<usize>) {
        Some(0)
    }
}

impl MallocSizeOf for u32 {
    open spec fn measurement(&self) -> Measurement {
        Measurement::nothing()
    }

    fn size_of(&self, _ops: &mut MallocSizeOfOps) -> (n: usize) {
        0
    }
}

impl MallocCheckedSizeOf for u32 {
    fn checked_size_of(&self, _ops: &mut MallocSizeOfOps) -> (n: Option<usize>) {
        Some(0)
    }
}

impl MallocSizeOf for u64 {
    open spec fn measurement(&self) -> Measurement {
        Measurement::nothing()
    }

    fn size_of(&self, _ops: &mut MallocSizeOfOps) -> (n: usize) {
        0
    }
}

impl MallocCheckedSizeOf for u64 {
    fn checked_size_of(&self, _ops: &mut MallocSizeOfOps) -> (n: Option<usize>) {
        Some(0)
    }
}

impl MallocSizeOf for u128 {
    open spec fn measurement(&self) -> Measurement {
        Measurement::nothing()
    }

    fn size_of(&self, _ops: &mut MallocSizeOfOps) -> (n: usize) {
        0
    }
}

impl MallocCheckedSizeOf for u128 {
    fn checked_size_of(&self, _ops: &mut MallocSizeOfOps) -> (n: Option<usize>) {
        Some(0)
    }
}

impl MallocSizeOf for usize {
    open spec fn measurement(&self) -> Measurement {
        Measurement::nothing()
    }

    fn size_of(&self, _ops: &mut MallocSizeOfOps) -> (n: usize) {
        0
    }
}

impl MallocCheckedSizeOf for usize {
    fn checked_size_of(&self, _ops: &mut MallocSizeOfOps) -> (n: Option<usize>) {
        Some(0)
    }
}

impl MallocSizeOf for i8 {
    open spec fn measurement(&self) -> Measurement {
        Measurement::nothing()
    }

    fn size_of(&self, _ops: &mut MallocSizeOfOps) -> (n: usize) {
        0
    }
}

impl MallocCheckedSizeOf for i8 {
    fn checked_size_of(&self, _ops: &mut MallocSizeOfOps) -> (n: Option<usize>) {
        Some(0)
    }
}

impl MallocSizeOf for i16 {
    open spec fn measurement(&self) -> Measurement {
        Measurement::nothing()
    }

    fn size_of(&self, _ops: &mut MallocSizeOfOps) -> (n: usize) {
        0
    }
}

impl MallocCheckedSizeOf for i16 {
    fn checked_size_of(&self, _ops: &mut MallocSizeOfOps) -> (n: Option<usize>) {
        Some(0)
    }
}

impl MallocSizeOf for i32 {
    open spec fn measurement(&self) -> Measurement {
        Measurement::nothing()
    }

    fn size_of(&self, _ops: &mut MallocSizeOfOps) -> (n: usize) {
        0
    }
}

impl MallocCheckedSizeOf for i32 {
    fn checked_size_of(&self, _ops: &mut MallocSizeOfOps) -> (n: Option<usize>) {
        Some(0)
    }
}

impl MallocSizeOf for i64 {
    open spec fn measurement(&self) -> Measurement {
        Measurement::nothing()
    }

    fn size_of(&self, _ops: &mut MallocSizeOfOps) -> (n: usize) {
        0
    }
}

impl MallocCheckedSizeOf for i64 {
    fn checked_size_of(&self, _ops: &mut MallocSizeOfOps) -> (n: Option<usize>) {
        Some(0)
    }
}

impl MallocSizeOf for i128 {
    open spec fn measurement(&self) -> Measurement {
        Measurement::nothing()
    }

    fn size_of(&self, _ops: &mut MallocSizeOfOps) -> (n: usize) {
        0
    }
}

impl MallocCheckedSizeOf for i128 {
    fn checked_size_of(&self, _ops: &mut MallocSizeOfOps) -> (n: Option<usize>) {
        Some(0)
    }
}

impl MallocSizeOf for isize {
    open spec fn measurement(&self) -> Measurement {
        Measurement::nothing()
    }

    fn size_of(&self, _ops: &mut MallocSizeOfOps) -> (n: usize) {
        0
    }
}

impl MallocCheckedSizeOf for isize {
    fn checked_size_of(&self, _ops: &mut MallocSizeOfOps) -> (n: Option<usize>) {
        Some(0)
    }
}

impl MallocSizeOf for AtomicBool {
    open spec fn measurement(&self) -> Measurement {
        Measurement::nothing()
    }

    fn size_of(&self, _ops: &mut MallocSizeOfOps) -> (n: usize) {
        0
    }
}

impl MallocCheckedSizeOf for AtomicBool {
    fn checked_size_of(&self, _ops: &mut MallocSizeOfOps) -> (n: Option<usize>) {
        Some(0)
    }
}

impl MallocSizeOf for AtomicIsize {
    open spec fn measurement(&self) -> Measurement {
        Measurement::nothing()
    }

    fn size_of(&self, _ops: &mut MallocSizeOfOps) -> (n: usize) {
        0
    }
}

impl MallocCheckedSizeOf for AtomicIsize {
    fn checked_size_of(&self, _ops: &mut MallocSizeOfOps) -> (n: Option<usize>) {
        Some(0)
    }
}

impl MallocSizeOf for AtomicUsize {
    open spec fn measurement(&self) -> Measurement {
        Measurement::nothing()
    }

    fn size_of(&self, _ops: &mut MallocSizeOfOps) -> (n: usize) {
        0
    }
}

impl MallocCheckedSizeOf for AtomicUsize {
    fn checked_size_of(&self, _ops: &mut MallocSizeOfOps) -> (n: Option<usize>) {
        Some(0)
    }
}

impl MallocSizeOf for Range<u8> {
    open spec fn measurement(&self) -> Measurement {
        Measurement::nothing()
    }

    fn size_of(&self, _ops: &mut MallocSizeOfOps) -> (n: usize) {
        0
    }
}

impl MallocCheckedSizeOf for Range<u8> {
    fn checked_size_of(&self, _ops: &mut MallocSizeOfOps) -> (n: Option<usize>) {
        Some(0)
    }
}

impl MallocSizeOf for Range<u16> {
    open spec fn measurement(&self) -> Measurement {
        Measurement::nothing()
    }

    fn size_of(&self, _ops: &mut MallocSizeOfOps) -> (n: usize) {
        0
    }
}

impl MallocCheckedSizeOf for Range<u16> {
    fn checked_size_of(&self, _ops: &mut MallocSizeOfOps) -> (n: Option<usize>) {
        Some(0)
    }
}

impl MallocSizeOf for Range<u32> {
    open spec fn measurement(&self) -> Measurement {
        Measurement::nothing()
    }

    fn size_of(&self, _ops: &mut MallocSizeOfOps) -> (n: usize) {
        0
    }
}

impl MallocCheckedSizeOf for Range<u32> {
    fn checked_size_of(&self, _ops: &mut MallocSizeOfOps) -> (n: Option<usize>) {
        Some(0)
    }
}

impl MallocSizeOf for Range<u64> {
    open spec fn measurement(&self) -> Measurement {
        Measurement::nothing()
    }

    fn size_of(&self, _ops: &mut MallocSizeOfOps) -> (n: usize) {
        0
    }
}

impl MallocCheckedSizeOf for Range<u64> {
    fn checked_size_of(&self, _ops: &mut MallocSizeOfOps) -> (n: Option<usize>) {
        Some(0)
    }
}

impl MallocSizeOf for Range<usize> {
    open spec fn measurement(&self) -> Measurement {
        Measurement::nothing()
    }

    fn size_of(&self, _ops: &mut MallocSizeOfOps) -> (n: usize) {
        0
    }
}

impl MallocCheckedSizeOf for Range<usize> {
    fn checked_size_of(&self, _ops: &mut MallocSizeOfOps) -> (n: Option<usize>) {
        Some(0)
    }
}

impl MallocSizeOf for Range<i8> {
    open spec fn measurement(&self) -> Measurement {
        Measurement::nothing()
    }

    fn size_of(&self, _ops: &mut MallocSizeOfOps) -> (n: usize) {
        0
    }
}

impl MallocCheckedSizeOf for Range<i8> {
    fn checked_size_of(&self, _ops: &mut MallocSizeOfOps) -> (n: Option<usize>) {
        Some(0)
    }
}

impl MallocSizeOf for Range<i16> {
    open spec fn measurement(&self) -> Measurement {
        Measurement::nothing()
    }

    fn size_of(&self, _ops: &mut MallocSizeOfOps) -> (n: usize) {
        0
    }
}

impl MallocCheckedSizeOf for Range<i16> {
    fn checked_size_of(&self, _ops: &mut MallocSizeOfOps) -> (n: Option<usize>) {
        Some(0)
    }
}

impl MallocSizeOf for Range<i32> {
    open spec fn measurement(&self) -> Measurement {
        Measurement::nothing()
    }

    fn size_of(&self, _ops: &mut MallocSizeOfOps) -> (n: usize) {
        0
    }
}

impl MallocCheckedSizeOf for Range<i32> {
    fn checked_size_of(&self, _ops: &mut MallocSizeOfOps) -> (n: Option<usize>) {
        Some(0)
    }
}

impl MallocSizeOf for Range<i64> {
    open spec fn measurement(&self) -> Measurement {
        Measurement::nothing()
    }

    fn size_of(&self, _ops: &mut MallocSizeOfOps) -> (n: usize) {
        0
    }
}

impl MallocCheckedSizeOf for Range<i64> {
    fn checked_size_of(&self, _ops: &mut MallocSizeOfOps) -> (n: Option<usize>) {
        Some(0)
    }
}

impl MallocSizeOf for Range<isize> {
    open spec fn measurement(&self) -> Measurement {
        Measurement::nothing()
    }

    fn size_of(&self, _ops: &mut MallocSizeOfOps) -> (n: usize) {
        0
    }
}

impl MallocCheckedSizeOf for Range<isize> {
    fn checked_size_of(&self, _ops: &mut MallocSizeOfOps) -> (n: Option<usize>) {
        Some(0)
    }
}

impl<T> MallocSizeOf for PhantomData<T> {
    open spec fn measurement(&self) -> Measurement {
        Measurement::nothing()
    }

    fn size_of(&self, _ops: &mut MallocSizeOfOps) -> (n: usize) {
        0
    }
}

impl<T> MallocCheckedSizeOf for PhantomData<T> {
    fn checked_size_of(&self, _ops: &mut MallocSizeOfOps) -> (n: Option<usize>) {
        Some(0)
    }
}

impl<T: MallocSizeOf> MallocSizeOf for MaybeUninit<T> {
    /// The place for the value is a part of the value itself, and whether there is
    /// a value in it is not known.
    open spec fn measurement(&self) -> Measurement {
        Measurement::nothing()
    }

    fn size_of(&self, _ops: &mut MallocSizeOfOps) -> (n: usize) {
        0
    }
}

impl<T: MallocSizeOf> MallocCheckedSizeOf for MaybeUninit<T> {
    fn checked_size_of(&self, _ops: &mut MallocSizeOfOps) -> (n: Option<usize>) {
        Some(0)
    }
}

} // verus!
