//! The types of the `euclid` crate: a value owns what its coordinates own.
use crate::checked::{checked_add_each_ref, checked_then, MallocCheckedSizeOf};
use crate::measurement::Measurement;
use crate::ops::MallocSizeOfOps;
use crate::traits::{measurements, MallocSizeOf};
use crate::walk::add_each_ref;
use euclid::{
    Angle, Length, Point2D, Rect, Scale, SideOffsets2D, Size2D, Transform2D, Transform3D, Vector2D,
};
use vstd::prelude::*;

verus! {

/// `euclid::Length`, with its public fields: a number and a unit marker.
#[verifier::external_type_specification]
#[verifier::reject_recursive_types(T)]
#[verifier::reject_recursive_types(Unit)]
pub struct ExLength<T, Unit>(Length<T, Unit>);

impl<T: MallocSizeOf, Unit> MallocSizeOf for Length<T, Unit> {
    open spec fn measurement(&self) -> Measurement {
        self.0.measurement()
    }

    fn size_of(&self, ops: &mut MallocSizeOfOps) -> (n: usize) {
        self.0.size_of(ops)
    }
}

impl<T: MallocCheckedSizeOf, Unit> MallocCheckedSizeOf for Length<T, Unit> {
    fn checked_size_of(&self, ops: &mut MallocSizeOfOps) -> (n: Option<usize>) {
        self.0.checked_size_of(ops)
    }
}

/// `euclid::Scale`, with its public fields: a number and a unit marker.
#[verifier::external_type_specification]
#[verifier::reject_recursive_types(T)]
#[verifier::reject_recursive_types(Src)]
#[verifier::reject_recursive_types(Dst)]
pub struct ExScale<T, Src, Dst>(Scale<T, Src, Dst>);

impl<T: MallocSizeOf, Src, Dst> MallocSizeOf for Scale<T, Src, Dst> {
    open spec fn measurement(&self) -> Measurement {
        self.0.measurement()
    }

    fn size_of(&self, ops: &mut MallocSizeOfOps) -> (n: usize) {
        self.0.size_of(ops)
    }
}

impl<T: MallocCheckedSizeOf, Src, Dst> MallocCheckedSizeOf for Scale<T, Src, Dst> {
    fn checked_size_of(&self, ops: &mut MallocSizeOfOps) -> (n: Option<usize>) {
        self.0.checked_size_of(ops)
    }
}

/// `euclid::Point2D`, with its public fields: two coordinates and a unit marker.
#[verifier::external_type_specification]
#[verifier::reject_recursive_types(T)]
#[verifier::reject_recursive_types(U)]
pub struct ExPoint2D<T, U>(Point2D<T, U>);

impl<T: MallocSizeOf, U> MallocSizeOf for Point2D<T, U> {
    open spec fn measurement(&self) -> Measurement {
        self.x.measurement().plus(self.y.measurement())
    }

    fn size_of(&self, ops: &mut MallocSizeOfOps) -> (n: usize) {
        let x = self.x.size_of(ops);
        let y = self.y.size_of(ops);
        x + y
    }
}

impl<T: MallocCheckedSizeOf, U> MallocCheckedSizeOf for Point2D<T, U> {
    fn checked_size_of(&self, ops: &mut MallocSizeOfOps) -> (n: Option<usize>) {
        let ghost origin = ops@;
        let x = self.x.checked_size_of(ops);
        checked_then(x, &self.y, ops, Ghost(self.x.measurement()), Ghost(origin))
    }
}

/// `euclid::Size2D`, with its public fields: two lengths and a unit marker.
#[verifier::external_type_specification]
#[verifier::reject_recursive_types(T)]
#[verifier::reject_recursive_types(U)]
pub struct ExSize2D<T, U>(Size2D<T, U>);

impl<T: MallocSizeOf, U> MallocSizeOf for Size2D<T, U> {
    open spec fn measurement(&self) -> Measurement {
        self.width.measurement().plus(self.height.measurement())
    }

    fn size_of(&self, ops: &mut MallocSizeOfOps) -> (n: usize) {
        let width = self.width.size_of(ops);
        let height = self.height.size_of(ops);
        width + height
    }
}

impl<T: MallocCheckedSizeOf, U> MallocCheckedSizeOf for Size2D<T, U> {
    fn checked_size_of(&self, ops: &mut MallocSizeOfOps) -> (n: Option<usize>) {
        let ghost origin = ops@;
        let width = self.width.checked_size_of(ops);
        checked_then(width, &self.height, ops, Ghost(self.width.measurement()), Ghost(origin))
    }
}

/// `euclid::Rect`, with its public fields: a corner and a size.
#[verifier::external_type_specification]
#[verifier::reject_recursive_types(T)]
#[verifier::reject_recursive_types(U)]
pub struct ExRect<T, U>(Rect<T, U>);

impl<T: MallocSizeOf, U> MallocSizeOf for Rect<T, U> {
    open spec fn measurement(&self) -> Measurement {
        self.origin.measurement().plus(self.size.measurement())
    }

    fn size_of(&self, ops: &mut MallocSizeOfOps) -> (n: usize) {
        let origin = self.origin.size_of(ops);
        let size = self.size.size_of(ops);
        origin + size
    }
}

impl<T: MallocCheckedSizeOf, U> MallocCheckedSizeOf for Rect<T, U> {
    fn checked_size_of(&self, ops: &mut MallocSizeOfOps) -> (n: Option<usize>) {
        let ghost before = ops@;
        let origin = self.origin.checked_size_of(ops);
        checked_then(origin, &self.size, ops, Ghost(self.origin.measurement()), Ghost(before))
    }
}

/// `euclid::Vector2D`, with its public fields: two coordinates and a unit marker.
#[verifier::external_type_specification]
#[verifier::reject_recursive_types(T)]
#[verifier::reject_recursive_types(U)]
pub struct ExVector2D<T, U>(Vector2D<T, U>);

impl<T: MallocSizeOf, U> MallocSizeOf for Vector2D<T, U> {
    open spec fn measurement(&self) -> Measurement {
        self.x.measurement().plus(self.y.measurement())
    }

    fn size_of(&self, ops: &mut MallocSizeOfOps) -> (n: usize) {
        let x = self.x.size_of(ops);
        let y = self.y.size_of(ops);
        x + y
    }
}

impl<T: MallocCheckedSizeOf, U> MallocCheckedSizeOf for Vector2D<T, U> {
    fn checked_size_of(&self, ops: &mut MallocSizeOfOps) -> (n: Option<usize>) {
        let ghost origin = ops@;
        let x = self.x.checked_size_of(ops);
        checked_then(x, &self.y, ops, Ghost(self.x.measurement()), Ghost(origin))
    }
}

/// `euclid::Angle`, with its public fields: a number of radians.
#[verifier::external_type_specification]
#[verifier::reject_recursive_types(T)]
pub struct ExAngle<T>(Angle<T>);

impl<T: MallocSizeOf> MallocSizeOf for Angle<T> {
    open spec fn measurement(&self) -> Measurement {
        self.radians.measurement()
    }

    fn size_of(&self, ops: &mut MallocSizeOfOps) -> (n: usize) {
        self.radians.size_of(ops)
    }
}

impl<T: MallocCheckedSizeOf> MallocCheckedSizeOf for Angle<T> {
    fn checked_size_of(&self, ops: &mut MallocSizeOfOps) -> (n: Option<usize>) {
        self.radians.checked_size_of(ops)
    }
}

/// `euclid::SideOffsets2D`, with its public fields: four offsets and a unit marker.
#[verifier::external_type_specification]
#[verifier::reject_recursive_types(T)]
#[verifier::reject_recursive_types(U)]
pub struct ExSideOffsets2D<T, U>(SideOffsets2D<T, U>);

/// The offsets, in the order in which they are measured.
pub open spec fn offsets_of_sideoffsets2d<T, U>(value: &SideOffsets2D<T, U>) -> Seq<T> {
    seq![
        value.top,
        value.right,
        value.bottom,
        value.left,
    ]
}

impl<T: MallocSizeOf, U> MallocSizeOf for SideOffsets2D<T, U> {
    open spec fn measurement(&self) -> Measurement {
        Measurement::nothing().then_all(measurements(offsets_of_sideoffsets2d(self)))
    }

    fn size_of(&self, ops: &mut MallocSizeOfOps) -> (n: usize) {
        let ghost origin = ops@;
        let offsets: [&T; 4] = [
            &self.top,
            &self.right,
            &self.bottom,
            &self.left,
        ];
        assert(offsets@.unref() =~= offsets_of_sideoffsets2d(self));
        add_each_ref(0, offsets.as_slice(), ops, Ghost(Measurement::nothing()), Ghost(origin))
    }
}

impl<T: MallocCheckedSizeOf, U> MallocCheckedSizeOf for SideOffsets2D<T, U> {
    fn checked_size_of(&self, ops: &mut MallocSizeOfOps) -> (n: Option<usize>) {
        let ghost origin = ops@;
        let offsets: [&T; 4] = [
            &self.top,
            &self.right,
            &self.bottom,
            &self.left,
        ];
        assert(offsets@.unref() =~= offsets_of_sideoffsets2d(self));
        checked_add_each_ref(
            Some(0),
            offsets.as_slice(),
            ops,
            Ghost(Measurement::nothing()),
            Ghost(origin),
        )
    }
}

/// `euclid::Transform2D`, with its public fields: a matrix and a unit marker.
#[verifier::external_type_specification]
#[verifier::reject_recursive_types(T)]
#[verifier::reject_recursive_types(Src)]
#[verifier::reject_recursive_types(Dst)]
pub struct ExTransform2D<T, Src, Dst>(Transform2D<T, Src, Dst>);

/// The elements, in the order in which they are measured.
pub open spec fn elements_of_transform2d<T, Src, Dst>(value: &Transform2D<T, Src, Dst>) -> Seq<T> {
    seq![
        value.m11,
        value.m12,
        value.m21,
        value.m22,
        value.m31,
        value.m32,
    ]
}

impl<T: MallocSizeOf, Src, Dst> MallocSizeOf for Transform2D<T, Src, Dst> {
    open spec fn measurement(&self) -> Measurement {
        Measurement::nothing().then_all(measurements(elements_of_transform2d(self)))
    }

    fn size_of(&self, ops: &mut MallocSizeOfOps) -> (n: usize) {
        let ghost origin = ops@;
        let elements: [&T; 6] = [
            &self.m11,
            &self.m12,
            &self.m21,
            &self.m22,
            &self.m31,
            &self.m32,
        ];
        assert(elements@.unref() =~= elements_of_transform2d(self));
        add_each_ref(0, elements.as_slice(), ops, Ghost(Measurement::nothing()), Ghost(origin))
    }
}

impl<T: MallocCheckedSizeOf, Src, Dst> MallocCheckedSizeOf for Transform2D<T, Src, Dst> {
    fn checked_size_of(&self, ops: &mut MallocSizeOfOps) -> (n: Option<usize>) {
        let ghost origin = ops@;
        let elements: [&T; 6] = [
            &self.m11,
            &self.m12,
            &self.m21,
            &self.m22,
            &self.m31,
            &self.m32,
        ];
        assert(elements@.unref() =~= elements_of_transform2d(self));
        checked_add_each_ref(
            Some(0),
            elements.as_slice(),
            ops,
            Ghost(Measurement::nothing()),
            Ghost(origin),
        )
    }
}

/// `euclid::Transform3D`, with its public fields: a matrix and a unit marker.
#[verifier::external_type_specification]
#[verifier::reject_recursive_types(T)]
#[verifier::reject_recursive_types(Src)]
#[verifier::reject_recursive_types(Dst)]
pub struct ExTransform3D<T, Src, Dst>(Transform3D<T, Src, Dst>);

/// The elements, in the order in which they are measured.
pub open spec fn elements_of_transform3d<T, Src, Dst>(value: &Transform3D<T, Src, Dst>) -> Seq<T> {
    seq![
        value.m11,
        value.m12,
        value.m13,
        value.m14,
        value.m21,
        value.m22,
        value.m23,
        value.m24,
        value.m31,
        value.m32,
        value.m33,
        value.m34,
        value.m41,
        value.m42,
        value.m43,
        value.m44,
    ]
}

impl<T: MallocSizeOf, Src, Dst> MallocSizeOf for Transform3D<T, Src, Dst> {
    open spec fn measurement(&self) -> Measurement {
        Measurement::nothing().then_all(measurements(elements_of_transform3d(self)))
    }

    fn size_of(&self, ops: &mut MallocSizeOfOps) -> (n: usize) {
        let ghost origin = ops@;
        let elements: [&T; 16] = [
            &self.m11,
            &self.m12,
            &self.m13,
            &self.m14,
            &self.m21,
            &self.m22,
            &self.m23,
            &self.m24,
            &self.m31,
            &self.m32,
            &self.m33,
            &self.m34,
            &self.m41,
            &self.m42,
            &self.m43,
            &self.m44,
        ];
        assert(elements@.unref() =~= elements_of_transform3d(self));
        add_each_ref(0, elements.as_slice(), ops, Ghost(Measurement::nothing()), Ghost(origin))
    }
}

impl<T: MallocCheckedSizeOf, Src, Dst> MallocCheckedSizeOf for Transform3D<T, Src, Dst> {
    fn checked_size_of(&self, ops: &mut MallocSizeOfOps) -> (n: Option<usize>) {
        let ghost origin = ops@;
        let elements: [&T; 16] = [
            &self.m11,
            &self.m12,
            &self.m13,
            &self.m14,
            &self.m21,
            &self.m22,
            &self.m23,
            &self.m24,
            &self.m31,
            &self.m32,
            &self.m33,
            &self.m34,
            &self.m41,
            &self.m42,
            &self.m43,
            &self.m44,
        ];
        assert(elements@.unref() =~= elements_of_transform3d(self));
        checked_add_each_ref(
            Some(0),
            elements.as_slice(),
            ops,
            Ghost(Measurement::nothing()),
            Ghost(origin),
        )
    }
}

} // verus!
