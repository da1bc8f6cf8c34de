//! The sizing resolver.
//!
//! [`Sizing`] holds an ordered sequence of [`Size`] requests. Its
//! [`Sizing::to_lengths`] method converts the sequence, a total available
//! length and an inter-cell spacing into the concrete ordered sequence of
//! pixel lengths, in one deterministic pass:
//!
//! 1. `spacing * (count - 1)` is subtracted from the available length to get
//!    the usable length, floored at zero.
//! 2. Every fixed-contribution request resolves on its own: an absolute
//!    request to its requested length, a relative request to its share of
//!    the usable length, each clamped into its own range — and a request
//!    whose range is pinned (`min == max`) contributes that pinned length,
//!    whatever its kind.
//! 3. What is left of the usable length after those (floored at zero) is
//!    split evenly between the flexible remainder requests; each share is
//!    then clamped into that request's range. Length removed by clamping is
//!    not redistributed to siblings: this is a single-pass design.
//! 4. Output order matches input order exactly.

use vstd::arithmetic::div_mod::{lemma_div_pos_is_pos, lemma_fundamental_div_mod, lemma_mod_bound};
use vstd::prelude::*;

use crate::size::{Size, SizeKind, SizeView, size_wf};

verus! {

/// `v` clamped into the closed range `[min, max]`.
pub open spec fn clamp_len(v: int, min: int, max: int) -> int {
    if v < min {
        min
    } else if v > max {
        max
    } else {
        v
    }
}

/// The usable length: what is left of `available` once the `n - 1` gaps of
/// `spacing` between `n` cells are set aside, floored at zero.
pub open spec fn usable_of(available: int, spacing: int, n: int) -> int {
    if available - spacing * (n - 1) >= 0 {
        available - spacing * (n - 1)
    } else {
        0
    }
}

/// A range that admits exactly one length: such a request is a fixed
/// contribution whatever its kind.
pub open spec fn pinned_range(v: SizeView) -> bool {
    v.min == v.max
}

/// The fixed length a request takes for itself before the leftover is
/// split; a remainder request with an open range contributes nothing at
/// this stage, one with a pinned range contributes the pinned length.
pub open spec fn fixed_len(v: SizeView, usable: int) -> int {
    match v.kind {
        SizeKind::Absolute { length } => clamp_len(length as int, v.min as int, v.max as int),
        SizeKind::Relative { percent } => clamp_len(
            usable * (percent as int) / 100,
            v.min as int,
            v.max as int,
        ),
        SizeKind::Remainder => if pinned_range(v) {
            v.min as int
        } else {
            0
        },
    }
}

/// Sum of the fixed contributions of a request sequence.
pub open spec fn fixed_sum(s: Seq<SizeView>, usable: int) -> int
    decreases s.len(),
{
    if s.len() == 0 {
        0
    } else {
        fixed_sum(s.drop_last(), usable) + fixed_len(s.last(), usable)
    }
}

/// How many requests of a sequence are flexible remainder requests: a
/// remainder request with a pinned range is a fixed contribution and
/// claims no share of the leftover.
pub open spec fn remainder_count(s: Seq<SizeView>) -> int
    decreases s.len(),
{
    if s.len() == 0 {
        0
    } else {
        remainder_count(s.drop_last()) + if s.last().kind is Remainder && !pinned_range(
            s.last(),
        ) {
            1int
        } else {
            0int
        }
    }
}

/// The even share each flexible remainder request is offered before
/// clamping: the usable length minus the fixed contributions (floored at
/// zero), divided by the number of flexible remainder requests.
pub open spec fn remainder_share(s: Seq<SizeView>, usable: int) -> int {
    let budget = if usable - fixed_sum(s, usable) >= 0 {
        usable - fixed_sum(s, usable)
    } else {
        0
    };
    if remainder_count(s) > 0 {
        budget / remainder_count(s)
    } else {
        0
    }
}

/// The length one request resolves to, given the usable length and the even
/// remainder share. A pinned-range remainder request resolves to its pinned
/// length either way, since the clamp admits nothing else.
pub open spec fn resolved_len(v: SizeView, usable: int, share: int) -> int {
    match v.kind {
        SizeKind::Remainder => clamp_len(share, v.min as int, v.max as int),
        _ => fixed_len(v, usable),
    }
}

/// The whole resolver, as a function of its inputs alone: the ordered
/// sequence of lengths that [`Sizing::to_lengths`] returns.
pub open spec fn resolve_model(s: Seq<SizeView>, available: int, spacing: int) -> Seq<int> {
    let usable = usable_of(available, spacing, s.len() as int);
    let share = remainder_share(s, usable);
    Seq::new(s.len(), |i: int| resolved_len(s[i], usable, share))
}

/// Sum of a sequence of lengths.
pub open spec fn sum_seq(s: Seq<int>) -> int
    decreases s.len(),
{
    if s.len() == 0 {
        0
    } else {
        sum_seq(s.drop_last()) + s.last()
    }
}

/// An ordered sequence of size requests. Insertion order is load-bearing:
/// it is the left-to-right (or top-to-bottom) order of the cells.
#[derive(Clone, Debug)]
pub struct Sizing {
    sizes: Vec<Size>,
}

impl View for Sizing {
    type V = Seq<SizeView>;

    closed spec fn view(&self) -> Seq<SizeView> {
        self.sizes@.map_values(|s: Size| s@)
    }
}

impl Default for Sizing {
    /// An empty sequence of size requests.
    fn default() -> (s: Self)
        ensures
            s@ == Seq::<SizeView>::empty(),
    {
        let s = Sizing { sizes: Vec::new() };
        proof {
            assert(s@ =~= Seq::<SizeView>::empty());
        }
        s
    }
}

impl Sizing {
    /// How many size requests have been added.
    pub fn len(&self) -> (n: usize)
        ensures
            n == self@.len(),
    {
        self.sizes.len()
    }

    /// Append one size request; it becomes the last cell of the strip.
    pub fn add(&mut self, size: Size)
        ensures
            final(self)@ == old(self)@.push(size@),
    {
        self.sizes.push(size);
        proof {
            assert(self@ =~= old(self)@.push(size@));
        }
    }

    /// Resolve the request sequence against `available` length and
    /// inter-cell `spacing`, in one deterministic pass. The result has one
    /// length per request, in request order, each within that request's own
    /// range whatever the available length is.
    pub fn to_lengths(&self, available: u32, spacing: u32) -> (r: Vec<u32>)
        ensures
            r@.len() == self@.len(),
            forall|i: int|
                0 <= i < self@.len() ==> #[trigger] r@[i] as int == resolve_model(
                    self@,
                    available as int,
                    spacing as int,
                )[i],
            forall|i: int|
                0 <= i < self@.len() ==> self@[i].min <= #[trigger] r@[i] <= self@[i].max,
    {
        let ghost gs = self@;
        let n = self.sizes.len();
        if n == 0 {
            let r = Vec::<u32>::new();
            return r;
        }
        // Step 1: the usable length.
        proof {
            let sp = spacing as int;
            let m = (n - 1) as int;
            assert(sp * m < 0x1_0000_0000_0000_0000_0000_0000) by (nonlinear_arith)
                requires
                    0 <= sp < 0x1_0000_0000,
                    0 <= m < 0x1_0000_0000_0000_0000,
            ;
        }
        let total_spacing: u128 = (spacing as u128) * ((n - 1) as u128);
        let usable: u32 = if total_spacing >= available as u128 {
            0
        } else {
            available - (total_spacing as u32)
        };
        assert(usable as int == usable_of(available as int, spacing as int, n as int));

        // Step 2: subtract every non-remainder contribution from the usable
        // length (floored at zero) and count the remainder requests.
        let mut budget: u32 = usable;
        let mut rem: usize = 0;
        let mut i: usize = 0;
        while i < n
            invariant
                n == gs.len(),
                n == self.sizes.len(),
                gs == self@,
                0 <= i <= n,
                usable <= u32::MAX,
                rem <= i,
                rem as int == remainder_count(gs.take(i as int)),
                budget as int == (if usable as int - fixed_sum(gs.take(i as int), usable as int)
                    >= 0 {
                    usable as int - fixed_sum(gs.take(i as int), usable as int)
                } else {
                    0
                }),
            decreases n - i,
        {
            proof {
                assert(gs.take(i as int + 1).drop_last() =~= gs.take(i as int));
                assert(gs.take(i as int + 1).last() == gs[i as int]);
            }
            let size = &self.sizes[i];
            proof {
                assert(size@ == gs[i as int]);
            }
            let c = fixed_part(size, usable);
            budget = if budget > c {
                budget - c
            } else {
                0
            };
            if matches!(size.kind_of(), SizeKind::Remainder) && size.min_of() != size.max_of() {
                rem = rem + 1;
            }
            i = i + 1;
        }
        proof {
            assert(gs.take(n as int) =~= gs);
        }

        // Step 3: the even share each remainder request is offered.
        let share: u32 = if rem == 0 {
            0
        } else {
            ((budget as u64) / (rem as u64)) as u32
        };
        assert(share as int == remainder_share(gs, usable as int)) by {
            if rem != 0 {
                assert(budget as u64 / rem as u64 <= budget as u64) by (nonlinear_arith)
                    requires
                        rem as u64 >= 1,
                ;
            }
        }

        // Step 4: resolve each request, in order.
        let mut r = Vec::<u32>::new();
        let mut j: usize = 0;
        while j < n
            invariant
                n == gs.len(),
                n == self.sizes.len(),
                gs == self@,
                0 <= j <= n,
                r@.len() == j,
                usable as int == usable_of(available as int, spacing as int, n as int),
                share as int == remainder_share(gs, usable as int),
                forall|k: int|
                    0 <= k < j ==> #[trigger] r@[k] as int == resolved_len(
                        gs[k],
                        usable as int,
                        share as int,
                    ),
                forall|k: int| 0 <= k < j ==> gs[k].min <= #[trigger] r@[k] <= gs[k].max,
            decreases n - j,
        {
            let size = &self.sizes[j];
            proof {
                assert(size@ == gs[j as int]);
            }
            let v = resolved_for(size, usable, share);
            r.push(v);
            j = j + 1;
        }
        r
    }
}

/// Exec counterpart of [`clamp_len`].
fn clamp_u32(v: u32, min: u32, max: u32) -> (r: u32)
    requires
        min <= max,
    ensures
        r as int == clamp_len(v as int, min as int, max as int),
        min <= r <= max,
{
    if v < min {
        min
    } else if v > max {
        max
    } else {
        v
    }
}

/// Exec counterpart of [`fixed_len`].
fn fixed_part(size: &Size, usable: u32) -> (r: u32)
    ensures
        r as int == fixed_len(size@, usable as int),
{
    size.check_wf();
    match size.kind_of() {
        SizeKind::Absolute { length } => clamp_u32(length, size.min_of(), size.max_of()),
        SizeKind::Relative { percent } => {
            proof {
                let u = usable as int;
                let p = percent as int;
                assert(u * p <= 0xffff_ffff * 100) by (nonlinear_arith)
                    requires
                        0 <= u <= 0xffff_ffff,
                        0 <= p <= 100,
                ;
            }
            let raw64: u64 = (usable as u64) * (percent as u64) / 100;
            assert(raw64 <= usable as u64) by (nonlinear_arith)
                requires
                    raw64 == (usable as u64) * (percent as u64) / 100,
                    percent <= 100,
            ;
            clamp_u32(raw64 as u32, size.min_of(), size.max_of())
        },
        SizeKind::Remainder => {
            if size.min_of() == size.max_of() {
                size.min_of()
            } else {
                0
            }
        },
    }
}

/// Exec counterpart of [`resolved_len`].
fn resolved_for(size: &Size, usable: u32, share: u32) -> (r: u32)
    ensures
        r as int == resolved_len(size@, usable as int, share as int),
        size@.min <= r <= size@.max,
{
    size.check_wf();
    match size.kind_of() {
        SizeKind::Remainder => clamp_u32(share, size.min_of(), size.max_of()),
        _ => {
            let r = fixed_part(size, usable);
            assert(size@.min <= r <= size@.max);
            r
        },
    }
}

/// The requested length of an absolute request; zero for any other kind.
pub open spec fn abs_len(v: SizeView) -> int {
    match v.kind {
        SizeKind::Absolute { length } => length as int,
        _ => 0,
    }
}

/// An absolute request whose requested length lies within its own range,
/// such as one built by [`Size::exact`].
pub open spec fn is_exact_request(v: SizeView) -> bool {
    v.kind matches SizeKind::Absolute { length } && v.min <= length <= v.max
}

/// Law: a sequence of absolute requests, each within its own range, resolves
/// to exactly the requested lengths, in order — in particular whenever the
/// requested lengths sum to no more than the available length.
pub proof fn lemma_absolute_exact(s: Seq<SizeView>, available: int, spacing: int)
    requires
        0 <= available,
        0 <= spacing,
        forall|i: int| 0 <= i < s.len() ==> is_exact_request(#[trigger] s[i]),
        sum_seq(Seq::new(s.len(), |i: int| abs_len(s[i]))) <= available,
    ensures
        resolve_model(s, available, spacing).len() == s.len(),
        forall|i: int|
            0 <= i < s.len() ==> #[trigger] resolve_model(s, available, spacing)[i] == abs_len(
                s[i],
            ),
{
    let r = resolve_model(s, available, spacing);
    assert forall|i: int| 0 <= i < s.len() implies #[trigger] r[i] == abs_len(s[i]) by {
        assert(is_exact_request(s[i]));
    }
}

/// All requests of `s` are remainder requests with open ranges: then none
/// contributes a fixed length and every one of them claims a share.
proof fn lemma_all_remainder_stats(s: Seq<SizeView>, usable: int)
    requires
        forall|i: int|
            0 <= i < s.len() ==> (#[trigger] s[i]).kind is Remainder && !pinned_range(s[i]),
    ensures
        fixed_sum(s, usable) == 0,
        remainder_count(s) == s.len(),
    decreases s.len(),
{
    if s.len() > 0 {
        assert(forall|i: int|
            0 <= i < s.drop_last().len() ==> (#[trigger] s.drop_last()[i]).kind is Remainder
                && !pinned_range(s.drop_last()[i]));
        lemma_all_remainder_stats(s.drop_last(), usable);
        assert(s.last().kind is Remainder && !pinned_range(s.last()));
    }
}

/// Sum of a constant sequence.
proof fn lemma_sum_const(s: Seq<int>, c: int)
    requires
        forall|i: int| 0 <= i < s.len() ==> s[i] == c,
    ensures
        sum_seq(s) == s.len() * c,
    decreases s.len(),
{
    if s.len() == 0 {
    } else {
        assert(forall|i: int| 0 <= i < s.drop_last().len() ==> s.drop_last()[i] == c);
        lemma_sum_const(s.drop_last(), c);
        let m = s.len() as int;
        assert(m * c == (m - 1) * c + c) by (nonlinear_arith);
    }
}

/// Law: `n` equal unconstrained remainder requests split the usable length
/// `available - spacing * (n - 1)` evenly. The resolved lengths are pairwise
/// equal and their sum is the usable length, up to the division remainder,
/// which is less than `n`.
pub proof fn lemma_remainder_even_split(s: Seq<SizeView>, available: int, spacing: int)
    requires
        s.len() >= 1,
        0 <= available <= u32::MAX,
        0 <= spacing,
        forall|i: int|
            0 <= i < s.len() ==> #[trigger] s[i] == (SizeView {
                kind: SizeKind::Remainder,
                min: 0u32,
                max: u32::MAX,
            }),
    ensures
        resolve_model(s, available, spacing).len() == s.len(),
        forall|i: int, j: int|
            0 <= i < s.len() && 0 <= j < s.len() ==> resolve_model(s, available, spacing)[i]
                == resolve_model(s, available, spacing)[j],
        sum_seq(resolve_model(s, available, spacing)) == usable_of(
            available,
            spacing,
            s.len() as int,
        ) - usable_of(available, spacing, s.len() as int) % (s.len() as int),
        0 <= usable_of(available, spacing, s.len() as int) % (s.len() as int) < s.len(),
{
    let n = s.len() as int;
    let usable = usable_of(available, spacing, n);
    let r = resolve_model(s, available, spacing);
    assert(forall|i: int|
        0 <= i < s.len() ==> (#[trigger] s[i]).kind is Remainder && !pinned_range(s[i]));
    lemma_all_remainder_stats(s, usable);
    let share = remainder_share(s, usable);
    assert(share == usable / n);
    lemma_div_pos_is_pos(usable, n);
    lemma_fundamental_div_mod(usable, n);
    lemma_mod_bound(usable, n);
    assert(share <= n * share) by (nonlinear_arith)
        requires
            0 <= share,
            1 <= n,
    ;
    assert(share <= u32::MAX);
    assert(forall|i: int| 0 <= i < s.len() ==> r[i] == share);
    lemma_sum_const(r, share);
    assert(n * share == usable - usable % n);
}

/// Law: every resolved length lies within its request's own range, whatever
/// the available length — including zero — and the spacing are.
pub proof fn lemma_range_respected(s: Seq<SizeView>, available: int, spacing: int)
    requires
        forall|i: int| 0 <= i < s.len() ==> size_wf(#[trigger] s[i]),
    ensures
        resolve_model(s, available, spacing).len() == s.len(),
        forall|i: int|
            0 <= i < s.len() ==> s[i].min <= #[trigger] resolve_model(s, available, spacing)[i]
                <= s[i].max,
{
    let r = resolve_model(s, available, spacing);
    assert forall|i: int|
        0 <= i < s.len() implies s[i].min <= #[trigger] r[i] <= s[i].max by {
        assert(size_wf(s[i]));
    }
}

/// Law: the resolver is a pure function of its inputs and keeps no hidden
/// state; two resolutions of identical inputs are identical.
pub proof fn lemma_resolve_deterministic(
    s: Seq<SizeView>,
    available: int,
    spacing: int,
    r1: Seq<int>,
    r2: Seq<int>,
)
    requires
        r1 == resolve_model(s, available, spacing),
        r2 == resolve_model(s, available, spacing),
    ensures
        r1 == r2,
{
}

} // verus!
