//! The three ways an axis size can be declared, and what a declared size
//! resolves to.

use vstd::prelude::*;
use crate::ids::{AxisId, TensorId};

verus! {

/// An axis of a tensor, named across the whole model: (tensor id, axis id).
pub type AxisKey = (Seq<char>, Seq<char>);

/// What an axis size means, with references still unresolved.
pub enum AxisSizeModel {
    Fixed { extent: nat },
    Parameterized { min: nat, step: nat },
    Reference { target: AxisKey, offset: nat },
}

/// A strictly positive extent.
#[derive(Clone, Copy, Debug, PartialEq, Eq, Structural)]
pub struct FixedAxisSize {
    value: usize,
}

impl FixedAxisSize {
    #[verifier::type_invariant]
    spec fn positive(self) -> bool {
        self.value > 0
    }

    /// The size `value`; zero is not a size.
    pub fn new(value: usize) -> (r: Option<FixedAxisSize>)
        ensures
            r is Some <==> value > 0,
            r matches Some(s) ==> s@ == value,
    {
        if value == 0 {
            None
        } else {
            Some(FixedAxisSize { value })
        }
    }

    /// The size `value`, known to be positive.
    pub fn from_positive(value: usize) -> (r: FixedAxisSize)
        requires
            value > 0,
        ensures
            r@ == value,
    {
        FixedAxisSize { value }
    }

    pub fn get(&self) -> (r: usize)
        ensures
            r == self@,
            r > 0,
    {
        proof {
            use_type_invariant(self);
        }
        self.value
    }
}

impl View for FixedAxisSize {
    type V = nat;

    closed spec fn view(&self) -> nat {
        self.value as nat
    }
}

/// The sizes `min`, `min + step`, `min + 2 * step`, ...
#[derive(Clone, Copy, Debug, PartialEq, Eq, Structural)]
pub struct ParameterizedAxisSize {
    pub min: FixedAxisSize,
    pub step: FixedAxisSize,
}

/// An axis (possibly of another tensor) whose size, plus `offset`, is this
/// axis's size.
#[derive(Debug)]
pub struct QualifiedAxisId {
    pub tensor_id: TensorId,
    pub axis_id: AxisId,
}

impl View for QualifiedAxisId {
    type V = AxisKey;

    open spec fn view(&self) -> AxisKey {
        (self.tensor_id@, self.axis_id@)
    }
}

impl QualifiedAxisId {
    /// Whether `self` and `other` name the same axis.
    pub fn same_as(&self, other: &QualifiedAxisId) -> (r: bool)
        ensures
            r == (self@ == other@),
    {
        self.tensor_id == other.tensor_id && self.axis_id == other.axis_id
    }
}

impl Clone for QualifiedAxisId {
    fn clone(&self) -> (r: Self)
        ensures
            r == *self,
    {
        QualifiedAxisId { tensor_id: self.tensor_id.clone(), axis_id: self.axis_id.clone() }
    }
}

impl PartialEq for QualifiedAxisId {
    fn eq(&self, other: &QualifiedAxisId) -> (r: bool) {
        self.same_as(other)
    }
}

impl vstd::std_specs::cmp::PartialEqSpecImpl for QualifiedAxisId {
    open spec fn obeys_eq_spec() -> bool {
        true
    }

    open spec fn eq_spec(&self, other: &QualifiedAxisId) -> bool {
        self@ == other@
    }
}

impl Eq for QualifiedAxisId {
}

/// A size defined as the size of another axis plus `offset`.
#[derive(Debug)]
pub struct AxisSizeReference {
    pub qualified_axis_id: QualifiedAxisId,
    pub offset: usize,
}

impl Clone for AxisSizeReference {
    fn clone(&self) -> (r: Self)
        ensures
            r == *self,
    {
        AxisSizeReference { qualified_axis_id: self.qualified_axis_id.clone(), offset: self.offset }
    }
}

/// A declared axis size.
#[derive(Debug)]
pub enum AnyAxisSize {
    Fixed(FixedAxisSize),
    Parameterized(ParameterizedAxisSize),
    Reference(AxisSizeReference),
}

/// A size with no reference left in it.
#[derive(Clone, Copy, Debug, PartialEq, Eq, Structural)]
pub enum ResolvedAxisSize {
    Fixed(FixedAxisSize),
    Parameterized(ParameterizedAxisSize),
}

/// A size that is fixed or a reference, never parameterized.
#[derive(Debug)]
pub enum FixedOrRefAxisSize {
    Fixed(FixedAxisSize),
    Reference(AxisSizeReference),
}

impl View for AnyAxisSize {
    type V = AxisSizeModel;

    open spec fn view(&self) -> AxisSizeModel {
        match self {
            AnyAxisSize::Fixed(n) => AxisSizeModel::Fixed { extent: n@ },
            AnyAxisSize::Parameterized(p) => AxisSizeModel::Parameterized {
                min: p.min@,
                step: p.step@,
            },
            AnyAxisSize::Reference(r) => AxisSizeModel::Reference {
                target: r.qualified_axis_id@,
                offset: r.offset as nat,
            },
        }
    }
}

impl View for ResolvedAxisSize {
    type V = AxisSizeModel;

    open spec fn view(&self) -> AxisSizeModel {
        match self {
            ResolvedAxisSize::Fixed(n) => AxisSizeModel::Fixed { extent: n@ },
            ResolvedAxisSize::Parameterized(p) => AxisSizeModel::Parameterized {
                min: p.min@,
                step: p.step@,
            },
        }
    }
}

impl View for FixedOrRefAxisSize {
    type V = AxisSizeModel;

    open spec fn view(&self) -> AxisSizeModel {
        match self {
            FixedOrRefAxisSize::Fixed(n) => AxisSizeModel::Fixed { extent: n@ },
            FixedOrRefAxisSize::Reference(r) => AxisSizeModel::Reference {
                target: r.qualified_axis_id@,
                offset: r.offset as nat,
            },
        }
    }
}

impl Clone for AnyAxisSize {
    fn clone(&self) -> (r: Self)
        ensures
            r == *self,
    {
        match self {
            AnyAxisSize::Fixed(n) => AnyAxisSize::Fixed(*n),
            AnyAxisSize::Parameterized(p) => AnyAxisSize::Parameterized(*p),
            AnyAxisSize::Reference(r) => AnyAxisSize::Reference(r.clone()),
        }
    }
}

impl Clone for FixedOrRefAxisSize {
    fn clone(&self) -> (r: Self)
        ensures
            r == *self,
    {
        match self {
            FixedOrRefAxisSize::Fixed(n) => FixedOrRefAxisSize::Fixed(*n),
            FixedOrRefAxisSize::Reference(r) => FixedOrRefAxisSize::Reference(r.clone()),
        }
    }
}

/// Whether a tensor of extent `extent` fits the size `size`.
pub open spec fn compatible(size: AxisSizeModel, extent: nat) -> bool {
    match size {
        AxisSizeModel::Fixed { extent: n } => extent == n,
        AxisSizeModel::Parameterized { min, step } => extent >= min && (extent - min) % (
        step as int) == 0,
        AxisSizeModel::Reference { .. } => false,
    }
}

/// The size that an axis has when it is `offset` larger than an axis of size
/// `size`.
pub open spec fn shifted(size: AxisSizeModel, offset: nat) -> AxisSizeModel {
    match size {
        AxisSizeModel::Fixed { extent } => AxisSizeModel::Fixed { extent: extent + offset },
        AxisSizeModel::Parameterized { min, step } => AxisSizeModel::Parameterized {
            min: min + offset,
            step,
        },
        AxisSizeModel::Reference { target, offset: o } => AxisSizeModel::Reference {
            target,
            offset: o + offset,
        },
    }
}

/// The least extent that a size admits.
pub open spec fn min_extent(size: AxisSizeModel) -> nat {
    match size {
        AxisSizeModel::Fixed { extent } => extent,
        AxisSizeModel::Parameterized { min, .. } => min,
        AxisSizeModel::Reference { .. } => 0,
    }
}

impl ResolvedAxisSize {
    /// Whether a tensor dimension of extent `extent` fits this size: exactly
    /// the fixed extent, or `min + k * step` for some `k >= 0`.
    pub fn is_compatible_with_extent(&self, extent: usize) -> (r: bool)
        ensures
            r == compatible(self@, extent as nat),
    {
        match self {
            ResolvedAxisSize::Fixed(n) => extent == n.get(),
            ResolvedAxisSize::Parameterized(p) => {
                let min = p.min.get();
                let step = p.step.get();
                extent >= min && (extent - min) % step == 0
            },
        }
    }
}

impl From<ResolvedAxisSize> for AnyAxisSize {
    fn from(value: ResolvedAxisSize) -> (r: AnyAxisSize) {
        match value {
            ResolvedAxisSize::Fixed(n) => AnyAxisSize::Fixed(n),
            ResolvedAxisSize::Parameterized(p) => AnyAxisSize::Parameterized(p),
        }
    }
}

impl vstd::std_specs::convert::FromSpecImpl<ResolvedAxisSize> for AnyAxisSize {
    open spec fn obeys_from_spec() -> bool {
        true
    }

    open spec fn from_spec(value: ResolvedAxisSize) -> AnyAxisSize {
        match value {
            ResolvedAxisSize::Fixed(n) => AnyAxisSize::Fixed(n),
            ResolvedAxisSize::Parameterized(p) => AnyAxisSize::Parameterized(p),
        }
    }
}

impl From<FixedOrRefAxisSize> for AnyAxisSize {
    fn from(value: FixedOrRefAxisSize) -> (r: AnyAxisSize) {
        match value {
            FixedOrRefAxisSize::Fixed(n) => AnyAxisSize::Fixed(n),
            FixedOrRefAxisSize::Reference(r) => AnyAxisSize::Reference(r),
        }
    }
}

impl vstd::std_specs::convert::FromSpecImpl<FixedOrRefAxisSize> for AnyAxisSize {
    open spec fn obeys_from_spec() -> bool {
        true
    }

    open spec fn from_spec(value: FixedOrRefAxisSize) -> AnyAxisSize {
        match value {
            FixedOrRefAxisSize::Fixed(n) => AnyAxisSize::Fixed(n),
            FixedOrRefAxisSize::Reference(r) => AnyAxisSize::Reference(r),
        }
    }
}

impl TryFrom<AnyAxisSize> for FixedOrRefAxisSize {
    type Error = ParameterizedAxisSize;

    fn try_from(value: AnyAxisSize) -> (r: Result<FixedOrRefAxisSize, ParameterizedAxisSize>) {
        match value {
            AnyAxisSize::Fixed(n) => Ok(FixedOrRefAxisSize::Fixed(n)),
            AnyAxisSize::Reference(r) => Ok(FixedOrRefAxisSize::Reference(r)),
            AnyAxisSize::Parameterized(p) => Err(p),
        }
    }
}

impl vstd::std_specs::convert::TryFromSpecImpl<AnyAxisSize> for FixedOrRefAxisSize {
    open spec fn obeys_try_from_spec() -> bool {
        true
    }

    open spec fn try_from_spec(value: AnyAxisSize) -> Result<
        FixedOrRefAxisSize,
        ParameterizedAxisSize,
    > {
        match value {
            AnyAxisSize::Fixed(n) => Ok(FixedOrRefAxisSize::Fixed(n)),
            AnyAxisSize::Reference(r) => Ok(FixedOrRefAxisSize::Reference(r)),
            AnyAxisSize::Parameterized(p) => Err(p),
        }
    }
}

} // verus!
