//! The decode failure taxonomy.
//!
//! Every decode step either succeeds with the remaining input or stops with
//! one of two conditions: fewer bytes remain than a read requires, or an
//! object's declared size is smaller than the fixed prefix it must cover.
//! Unknown type ids are not errors; they are skipped by the walker.

use vstd::prelude::*;

verus! {

/// Which condition stopped the parse.
#[derive(Clone, Copy, Debug, PartialEq, Eq)]
pub enum AsfErrorKind {
    /// A field or slice read asked for more bytes than remain.
    InsufficientData,
    /// A declared object size is smaller than the fixed prefix it covers.
    MalformedObject,
}

/// A decode failure: the condition, and the index of the child object whose
/// decoding failed (`None` when the root header object itself could not be
/// read).
#[derive(Clone, Copy, Debug, PartialEq, Eq)]
pub struct AsfError {
    pub kind: AsfErrorKind,
    pub object_index: Option<u32>,
}

/// Mathematical model of a decode failure.
#[verifier::ext_equal]
pub ghost struct SpecFail {
    pub kind: AsfErrorKind,
    pub object_index: Option<int>,
}

impl View for AsfError {
    type V = SpecFail;

    open spec fn view(&self) -> SpecFail {
        SpecFail {
            kind: self.kind,
            object_index: match self.object_index {
                Some(i) => Some(i as int),
                None => None,
            },
        }
    }
}

} // verus!
