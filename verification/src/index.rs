//! Fixed-width unsigned index types for dense vertex indices.

use vstd::prelude::*;

verus! {

/// A fixed-width unsigned integer used as a dense vertex index.
///
/// `max_spec()` is the largest representable index; re-indexing and mesh
/// composition fail with [`crate::errors::ReindexError::IndexOverflow`] once
/// a dense index would exceed it.
pub trait IndexType: Sized + Copy {
    /// The index as a mathematical integer.
    spec fn as_int(self) -> int;

    /// The largest value this type can represent.
    spec fn max_spec() -> int;

    /// The maximum is non-negative and fits a `usize`.
    proof fn lemma_max()
        ensures
            0 <= Self::max_spec(),
            Self::max_spec() <= usize::MAX as int,
    ;

    /// Every value lies between zero and the maximum.
    proof fn lemma_bounds(self)
        ensures
            0 <= self.as_int() <= Self::max_spec(),
    ;

    /// Convert a dense position to this index type; `None` when it does not
    /// fit.
    fn try_from_usize(value: usize) -> (r: Option<Self>)
        ensures
            match r {
                Option::Some(i) => i.as_int() == value as int && value as int <= Self::max_spec(),
                Option::None => value as int > Self::max_spec(),
            },
    ;

    /// The index widened back to a `usize`.
    fn to_usize(self) -> (r: usize)
        ensures
            r as int == self.as_int(),
    ;
}

impl IndexType for u8 {
    open spec fn as_int(self) -> int {
        self as int
    }

    open spec fn max_spec() -> int {
        u8::MAX as int
    }

    proof fn lemma_max() {
    }

    proof fn lemma_bounds(self) {
    }

    fn try_from_usize(value: usize) -> (r: Option<Self>) {
        if value <= u8::MAX as usize {
            Some(value as u8)
        } else {
            None
        }
    }

    fn to_usize(self) -> (r: usize) {
        self as usize
    }
}

impl IndexType for u16 {
    open spec fn as_int(self) -> int {
        self as int
    }

    open spec fn max_spec() -> int {
        u16::MAX as int
    }

    proof fn lemma_max() {
    }

    proof fn lemma_bounds(self) {
    }

    fn try_from_usize(value: usize) -> (r: Option<Self>) {
        if value <= u16::MAX as usize {
            Some(value as u16)
        } else {
            None
        }
    }

    fn to_usize(self) -> (r: usize) {
        self as usize
    }
}

impl IndexType for u32 {
    open spec fn as_int(self) -> int {
        self as int
    }

    open spec fn max_spec() -> int {
        u32::MAX as int
    }

    proof fn lemma_max() {
    }

    proof fn lemma_bounds(self) {
    }

    fn try_from_usize(value: usize) -> (r: Option<Self>) {
        if value <= u32::MAX as usize {
            Some(value as u32)
        } else {
            None
        }
    }

    fn to_usize(self) -> (r: usize) {
        self as usize
    }
}

} // verus!
