//! Size requests for a single strip cell.
//!
//! A [`Size`] describes how long one cell of a strip would like to be on the
//! strip's primary axis, together with a closed range `[min, max]` that the
//! resolved length is clamped into. Lengths are unsigned integer pixel
//! units, so a negative length is unrepresentable by construction; a host
//! that measures in signed or fractional units clamps to zero at the
//! boundary.

use vstd::prelude::*;

verus! {

/// The kind of a size request.
#[derive(Clone, Copy, Debug)]
pub enum SizeKind {
    /// A fixed number of pixels.
    Absolute { length: u32 },
    /// A share of the usable length, in whole percent (`0..=100`).
    Relative { percent: u32 },
    /// An equal share of whatever is left once every other request is served.
    Remainder,
}

/// Specification-level description of a size request: its kind and the
/// closed range its resolved length is clamped into.
pub struct SizeView {
    pub kind: SizeKind,
    pub min: u32,
    pub max: u32,
}

/// A well-formed size request: the range is non-empty and a relative share
/// is at most the whole.
pub open spec fn size_wf(v: SizeView) -> bool {
    &&& v.min <= v.max
    &&& (v.kind matches SizeKind::Relative { percent } ==> percent <= 100)
}

/// One size request, immutable once built.
///
/// Constructed with [`Size::exact`], [`Size::relative`],
/// [`Size::initial_percent`] or [`Size::remainder`], then optionally narrowed
/// with [`Size::at_least`] and [`Size::at_most`]. Out-of-range arguments are
/// clamped to the nearest valid value at construction time, so an invalid
/// request can never reach the resolver.
#[derive(Clone, Copy, Debug)]
pub struct Size {
    kind: SizeKind,
    min: u32,
    max: u32,
}

impl View for Size {
    type V = SizeView;

    closed spec fn view(&self) -> SizeView {
        SizeView { kind: self.kind, min: self.min, max: self.max }
    }
}

impl Size {
    #[verifier::type_invariant]
    closed spec fn inv(self) -> bool {
        size_wf(self@)
    }

    /// Exactly `length` pixels; the range is pinned to `[length, length]`.
    pub fn exact(length: u32) -> (s: Self)
        ensures
            s@ == (SizeView {
                kind: SizeKind::Absolute { length },
                min: length,
                max: length,
            }),
    {
        Size { kind: SizeKind::Absolute { length }, min: length, max: length }
    }

    /// A share of the usable length, in whole percent. A value above 100 is
    /// clamped to 100.
    pub fn relative(percent: u32) -> (s: Self)
        ensures
            s@ == (SizeView {
                kind: SizeKind::Relative {
                    percent: if percent > 100 { 100u32 } else { percent },
                },
                min: 0u32,
                max: u32::MAX,
            }),
    {
        let p = if percent > 100 { 100 } else { percent };
        Size { kind: SizeKind::Relative { percent: p }, min: 0, max: u32::MAX }
    }

    /// An initial share of the usable length, in whole percent. This layout
    /// pass keeps no state across frames, so an initial share resolves
    /// exactly like [`Size::relative`]. A value above 100 is clamped to 100.
    pub fn initial_percent(percent: u32) -> (s: Self)
        ensures
            s@ == (SizeView {
                kind: SizeKind::Relative {
                    percent: if percent > 100 { 100u32 } else { percent },
                },
                min: 0u32,
                max: u32::MAX,
            }),
    {
        Size::relative(percent)
    }

    /// An equal share of whatever is left once every other request is served.
    pub fn remainder() -> (s: Self)
        ensures
            s@ == (SizeView { kind: SizeKind::Remainder, min: 0u32, max: u32::MAX }),
    {
        Size { kind: SizeKind::Remainder, min: 0, max: u32::MAX }
    }

    /// Narrow the range from below. The upper bound is raised to `minimum`
    /// where it would otherwise fall under it, so the range stays non-empty.
    pub fn at_least(self, minimum: u32) -> (s: Self)
        ensures
            s@ == (SizeView {
                kind: self@.kind,
                min: minimum,
                max: if self@.max < minimum { minimum } else { self@.max },
            }),
    {
        proof {
            use_type_invariant(&self);
        }
        let max = if self.max < minimum { minimum } else { self.max };
        Size { kind: self.kind, min: minimum, max }
    }

    /// Narrow the range from above. The lower bound is lowered to `maximum`
    /// where it would otherwise exceed it, so the range stays non-empty.
    pub fn at_most(self, maximum: u32) -> (s: Self)
        ensures
            s@ == (SizeView {
                kind: self@.kind,
                min: if self@.min > maximum { maximum } else { self@.min },
                max: maximum,
            }),
    {
        proof {
            use_type_invariant(&self);
        }
        let min = if self.min > maximum { maximum } else { self.min };
        Size { kind: self.kind, min, max: maximum }
    }

    /// The kind of this request.
    pub fn kind_of(&self) -> (k: SizeKind)
        ensures
            k == self@.kind,
    {
        self.kind
    }

    /// The lower bound of this request's range.
    pub fn min_of(&self) -> (m: u32)
        ensures
            m == self@.min,
    {
        self.min
    }

    /// The upper bound of this request's range.
    pub fn max_of(&self) -> (m: u32)
        ensures
            m == self@.max,
    {
        self.max
    }

    /// Every size request that can be built is well formed.
    pub fn check_wf(&self)
        ensures
            size_wf(self@),
    {
        proof {
            use_type_invariant(self);
        }
    }
}

} // verus!
