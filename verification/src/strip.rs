//! The strip builder and the strip cursor.
//!
//! [`StripBuilder`] accumulates [`Size`] requests and, on finalization
//! ([`StripBuilder::horizontal`] / [`StripBuilder::vertical`]), resolves
//! them against the region's extent, constructs a [`StripLayout`] engine and
//! hands a [`Strip`] cursor to a caller-supplied procedure. The cursor
//! consumes one resolved length per [`Strip::cell`] / [`Strip::empty`] call,
//! in order; whatever the procedure leaves unconsumed is drained as empty
//! cells before the outcome is produced, so the length booked from the
//! region always equals the full resolver output.
//!
//! The cursor books pure integer geometry and returns each cell's rectangle
//! to its caller; drawing into a cell and claiming the final rectangle from
//! the UI surface are the host's side of the bargain and happen outside
//! this crate.

use vstd::prelude::*;

use crate::layout::{
    CellDirection, CellSize, IRect, StripLayout, after_cell, cell_rect_spec, used_rect_spec,
};
use crate::size::{Size, SizeView};
use crate::sizing::{Sizing, clamp_len, resolve_model};

verus! {

/// The visibly-wrong but bounded length a cell falls back to when the
/// caller asks for more cells than lengths were allocated.
pub const FALLBACK_LENGTH: u32 = 8;

/// Specification-level state of a strip cursor.
#[verifier::ext_equal]
pub struct StripView {
    pub engine: StripLayout,
    pub lengths: Seq<u32>,
    pub next: int,
    pub overflowed: bool,
}

/// The primary/cross size pair of one cell of primary length `len`: the
/// resolved length on the primary axis, all remaining space on the cross
/// axis.
pub open spec fn cell_sizes_of(direction: CellDirection, len: u32) -> (CellSize, CellSize) {
    match direction {
        CellDirection::Horizontal => (CellSize::Absolute(len), CellSize::Remainder),
        CellDirection::Vertical => (CellSize::Remainder, CellSize::Absolute(len)),
    }
}

/// The engine after booking one cell per length of `lens`, in order.
pub open spec fn engine_after_cells(l: StripLayout, lens: Seq<u32>) -> StripLayout
    decreases lens.len(),
{
    if lens.len() == 0 {
        l
    } else {
        let sz = cell_sizes_of(l.direction, lens[0]);
        engine_after_cells(after_cell(l, sz.0, sz.1), lens.drop_first())
    }
}

/// What a finalized strip reports back.
pub struct StripOutcome {
    /// The accumulated bounding rectangle of every cell, to be claimed from
    /// the UI surface.
    pub rect: IRect,
    /// Every resolved length, in order: with the automatic drain, the full
    /// resolver output is always consumed.
    pub consumed: Vec<u32>,
    /// How many empty cells the automatic drain added for slots the caller
    /// left unconsumed.
    pub drained: usize,
    /// Whether the caller asked for more cells than lengths were allocated.
    pub overflowed: bool,
}

/// The strip cursor: consumes resolved lengths in order, one per cell, and
/// books each cell's geometry on the layout engine.
pub struct Strip {
    engine: StripLayout,
    lengths: Vec<u32>,
    next: usize,
    overflowed: bool,
}

impl View for Strip {
    type V = StripView;

    closed spec fn view(&self) -> StripView {
        StripView {
            engine: self.engine,
            lengths: self.lengths@,
            next: self.next as int,
            overflowed: self.overflowed,
        }
    }
}

impl Strip {
    #[verifier::type_invariant]
    closed spec fn inv(self) -> bool {
        self.next <= self.lengths@.len()
    }

    /// A fresh cursor over `lengths`, booking on `engine`.
    pub fn new(engine: StripLayout, lengths: Vec<u32>) -> (s: Self)
        ensures
            s@ == (StripView { engine, lengths: lengths@, next: 0, overflowed: false }),
    {
        Strip { engine, lengths, next: 0, overflowed: false }
    }

    /// The engine state so far.
    pub fn engine_state(&self) -> (l: StripLayout)
        ensures
            l == self@.engine,
    {
        self.engine
    }

    /// Whether cells are clipped to their rectangles.
    pub fn clip_enabled(&self) -> (c: bool)
        ensures
            c == self@.engine.clip,
    {
        self.engine.clip
    }

    /// How many allocated lengths are still unconsumed.
    pub fn remaining(&self) -> (n: usize)
        ensures
            n == self@.lengths.len() - self@.next,
    {
        proof {
            use_type_invariant(&*self);
        }
        self.lengths.len() - self.next
    }

    /// Whether more cells were asked for than lengths were allocated.
    pub fn over_consumed(&self) -> (b: bool)
        ensures
            b == self@.overflowed,
    {
        self.overflowed
    }

    /// Consume the next resolved length and turn it into a primary/cross
    /// size pair. When every allocated length is already consumed, the pair
    /// falls back to [`FALLBACK_LENGTH`] and the overflow is recorded, so
    /// the mismatch is surfaced rather than silently swallowed.
    fn next_cell_size(&mut self) -> (sz: (CellSize, CellSize))
        ensures
            old(self)@.next < old(self)@.lengths.len() ==> {
                &&& sz == cell_sizes_of(
                    old(self)@.engine.direction,
                    old(self)@.lengths[old(self)@.next],
                )
                &&& final(self)@ == (StripView { next: old(self)@.next + 1, ..old(self)@ })
            },
            old(self)@.next >= old(self)@.lengths.len() ==> {
                &&& sz == cell_sizes_of(old(self)@.engine.direction, FALLBACK_LENGTH)
                &&& final(self)@ == (StripView { overflowed: true, ..old(self)@ })
            },
    {
        proof {
            use_type_invariant(&*self);
        }
        let len: u32 = if self.next < self.lengths.len() {
            let l = self.lengths[self.next];
            self.next = self.next + 1;
            l
        } else {
            self.overflowed = true;
            FALLBACK_LENGTH
        };
        match self.engine.direction {
            CellDirection::Horizontal => (CellSize::Absolute(len), CellSize::Remainder),
            CellDirection::Vertical => (CellSize::Remainder, CellSize::Absolute(len)),
        }
    }

    /// Consume the next resolved length and book one content cell. Returns
    /// the rectangle the cell covers, for the host to draw into; the
    /// booking itself draws nothing.
    pub fn cell(&mut self) -> (r: IRect)
        ensures
            old(self)@.next < old(self)@.lengths.len() ==> {
                let sz = cell_sizes_of(
                    old(self)@.engine.direction,
                    old(self)@.lengths[old(self)@.next],
                );
                &&& r == cell_rect_spec(old(self)@.engine, sz.0, sz.1)
                &&& final(self)@ == (StripView {
                    engine: after_cell(old(self)@.engine, sz.0, sz.1),
                    next: old(self)@.next + 1,
                    ..old(self)@
                })
            },
            old(self)@.next >= old(self)@.lengths.len() ==> {
                let sz = cell_sizes_of(old(self)@.engine.direction, FALLBACK_LENGTH);
                &&& r == cell_rect_spec(old(self)@.engine, sz.0, sz.1)
                &&& final(self)@ == (StripView {
                    engine: after_cell(old(self)@.engine, sz.0, sz.1),
                    overflowed: true,
                    ..old(self)@
                })
            },
    {
        proof {
            use_type_invariant(&*self);
        }
        let sz = self.next_cell_size();
        self.engine.empty(sz.0, sz.1)
    }

    /// Consume the next resolved length and book one cell with no content.
    pub fn empty(&mut self)
        ensures
            old(self)@.next < old(self)@.lengths.len() ==> {
                let sz = cell_sizes_of(
                    old(self)@.engine.direction,
                    old(self)@.lengths[old(self)@.next],
                );
                final(self)@ == (StripView {
                    engine: after_cell(old(self)@.engine, sz.0, sz.1),
                    next: old(self)@.next + 1,
                    ..old(self)@
                })
            },
            old(self)@.next >= old(self)@.lengths.len() ==> {
                let sz = cell_sizes_of(old(self)@.engine.direction, FALLBACK_LENGTH);
                final(self)@ == (StripView {
                    engine: after_cell(old(self)@.engine, sz.0, sz.1),
                    overflowed: true,
                    ..old(self)@
                })
            },
    {
        proof {
            use_type_invariant(&*self);
        }
        let sz = self.next_cell_size();
        let _ = self.engine.empty(sz.0, sz.1);
    }

    /// Book every still-unconsumed length as an empty cell. Returns how
    /// many cells that drained. Afterwards the cursor has consumed its full
    /// resolver output.
    pub fn drain(&mut self) -> (d: usize)
        ensures
            final(self)@.next == final(self)@.lengths.len(),
            final(self)@.lengths == old(self)@.lengths,
            final(self)@.overflowed == old(self)@.overflowed,
            d == old(self)@.lengths.len() - old(self)@.next,
            final(self)@.engine == engine_after_cells(
                old(self)@.engine,
                old(self)@.lengths.skip(old(self)@.next),
            ),
    {
        proof {
            use_type_invariant(&*self);
        }
        let ghost start = self@;
        let mut d: usize = 0;
        while self.next < self.lengths.len()
            invariant
                self@.lengths == start.lengths,
                self@.overflowed == start.overflowed,
                self@.next <= self@.lengths.len(),
                0 <= start.next <= self@.next,
                d == self@.next - start.next,
                engine_after_cells(self@.engine, self@.lengths.skip(self@.next))
                    == engine_after_cells(start.engine, start.lengths.skip(start.next)),
            decreases self@.lengths.len() - self@.next,
        {
            let ghost before = self@;
            proof {
                let rest = before.lengths.skip(before.next);
                assert(rest.len() > 0);
                assert(rest[0] == before.lengths[before.next]);
                assert(rest.drop_first() =~= before.lengths.skip(before.next + 1));
            }
            d = d + 1;
            self.empty();
        }
        proof {
            assert(self@.lengths.skip(self@.next) =~= Seq::<u32>::empty());
        }
        d
    }

    /// Drain every unconsumed length, then report: the accumulated bounding
    /// rectangle, the full consumed length sequence (always the whole
    /// resolver output), how many cells the drain added, and whether the
    /// caller over-consumed.
    pub fn finish(self) -> (o: StripOutcome)
        ensures
            o.rect == used_rect_spec(
                engine_after_cells(self@.engine, self@.lengths.skip(self@.next)),
            ),
            o.consumed@ == self@.lengths,
            o.drained == self@.lengths.len() - self@.next,
            o.overflowed == self@.overflowed,
    {
        let mut s = self;
        let d = s.drain();
        let rect = s.engine.used_rect();
        let Strip { engine: _, lengths, next: _, overflowed } = s;
        StripOutcome { rect, consumed: lengths, drained: d, overflowed }
    }

    /// Consume the next resolved length as a cell holding a nested strip:
    /// the procedure is invoked with a fresh builder — no size requests
    /// yet, clip inherited from this strip — together with the cell's
    /// rectangle as the nested region. Returns the cell's rectangle.
    pub fn strip<F: FnOnce(StripBuilder, IRect)>(&mut self, f: F) -> (r: IRect)
        requires
            forall|b: StripBuilder, rect: IRect| call_requires(f, (b, rect)),
        ensures
            exists|nb: StripBuilder, ret: ()|
                {
                    &&& nb@ == (BuilderView {
                        sizes: Seq::<SizeView>::empty(),
                        clip: old(self)@.engine.clip,
                    })
                    &&& #[trigger] call_ensures(f, (nb, r), ret)
                },
            old(self)@.next < old(self)@.lengths.len() ==> {
                let sz = cell_sizes_of(
                    old(self)@.engine.direction,
                    old(self)@.lengths[old(self)@.next],
                );
                &&& r == cell_rect_spec(old(self)@.engine, sz.0, sz.1)
                &&& final(self)@ == (StripView {
                    engine: after_cell(old(self)@.engine, sz.0, sz.1),
                    next: old(self)@.next + 1,
                    ..old(self)@
                })
            },
            old(self)@.next >= old(self)@.lengths.len() ==> {
                let sz = cell_sizes_of(old(self)@.engine.direction, FALLBACK_LENGTH);
                &&& r == cell_rect_spec(old(self)@.engine, sz.0, sz.1)
                &&& final(self)@ == (StripView {
                    engine: after_cell(old(self)@.engine, sz.0, sz.1),
                    overflowed: true,
                    ..old(self)@
                })
            },
    {
        let clip = self.engine.clip;
        let r = self.cell();
        let b = StripBuilder::new().clip(clip);
        let ghost nb = b;
        let ret = f(b, r);
        proof {
            assert(call_ensures(f, (nb, r), ret));
        }
        r
    }
}

/// Specification-level state of a strip builder.
#[verifier::ext_equal]
pub struct BuilderView {
    pub sizes: Seq<SizeView>,
    pub clip: bool,
}

/// The extent of `region` on the strip's primary axis, clamped into the
/// range of a pixel length.
pub open spec fn primary_extent(region: IRect, direction: CellDirection) -> int {
    match direction {
        CellDirection::Horizontal => clamp_len(region.right - region.left, 0, u32::MAX as int),
        CellDirection::Vertical => clamp_len(region.bottom - region.top, 0, u32::MAX as int),
    }
}

/// The inter-cell spacing on the primary axis.
pub open spec fn spacing_of(direction: CellDirection, spacing_x: u32, spacing_y: u32) -> u32 {
    match direction {
        CellDirection::Horizontal => spacing_x,
        CellDirection::Vertical => spacing_y,
    }
}

/// The resolver output as pixel lengths.
pub open spec fn resolved_lengths(sizes: Seq<SizeView>, available: int, spacing: int) -> Seq<
    u32,
> {
    resolve_model(sizes, available, spacing).map_values(|v: int| v as u32)
}

/// The cursor a builder hands to the caller's procedure on finalization:
/// a fresh engine over `region` and the resolver's output for the chosen
/// direction, nothing consumed yet.
pub open spec fn start_view(
    b: BuilderView,
    region: IRect,
    spacing_x: u32,
    spacing_y: u32,
    direction: CellDirection,
) -> StripView {
    StripView {
        engine: StripLayout {
            direction,
            clip: b.clip,
            rect: region,
            cursor_x: region.left,
            cursor_y: region.top,
            max_x: region.left,
            max_y: region.top,
            spacing_x,
            spacing_y,
        },
        lengths: resolved_lengths(
            b.sizes,
            primary_extent(region, direction),
            spacing_of(direction, spacing_x, spacing_y) as int,
        ),
        next: 0,
        overflowed: false,
    }
}

/// What finalizing a strip guarantees: the caller's procedure `f` was
/// handed the start cursor, and the outcome is the finished state of
/// whatever cursor `f` returned — its unconsumed lengths drained, its full
/// length sequence consumed, its bounding rectangle accumulated.
pub open spec fn finalize_post<F: FnOnce(Strip) -> Strip>(
    f: F,
    b: BuilderView,
    region: IRect,
    spacing_x: u32,
    spacing_y: u32,
    direction: CellDirection,
    o: StripOutcome,
) -> bool {
    exists|s0: Strip, s1: Strip|
        {
            &&& s0@ == start_view(b, region, spacing_x, spacing_y, direction)
            &&& #[trigger] call_ensures(f, (s0,), s1)
            &&& o.rect == used_rect_spec(
                engine_after_cells(s1@.engine, s1@.lengths.skip(s1@.next)),
            )
            &&& o.consumed@ == s1@.lengths
            &&& o.drained == s1@.lengths.len() - s1@.next
            &&& o.overflowed == s1@.overflowed
        }
}

/// Builder for a strip: accumulates size requests, then finalizes in one
/// direction, invoking a caller-supplied procedure that populates the
/// cells.
pub struct StripBuilder {
    sizing: Sizing,
    clip: bool,
}

impl View for StripBuilder {
    type V = BuilderView;

    closed spec fn view(&self) -> BuilderView {
        BuilderView { sizes: self.sizing@, clip: self.clip }
    }
}

/// The extent from `lo` to `hi`, clamped into the range of a pixel length.
fn extent_u32(lo: i64, hi: i64) -> (r: u32)
    ensures
        r as int == clamp_len(hi - lo, 0, u32::MAX as int),
{
    let d: i128 = (hi as i128) - (lo as i128);
    if d <= 0 {
        0
    } else if d >= 0xffff_ffff {
        u32::MAX
    } else {
        d as u32
    }
}

impl StripBuilder {
    /// A fresh builder: no size requests yet, clipping enabled.
    pub fn new() -> (b: Self)
        ensures
            b@ == (BuilderView { sizes: Seq::<SizeView>::empty(), clip: true }),
    {
        let b = StripBuilder { sizing: Sizing::default(), clip: true };
        proof {
            assert(b@ =~= (BuilderView { sizes: Seq::<SizeView>::empty(), clip: true }));
        }
        b
    }

    /// Should each cell's contents be clipped to its rectangle?
    /// Enabled by default.
    pub fn clip(self, clip: bool) -> (b: Self)
        ensures
            b@ == (BuilderView { clip, ..self@ }),
    {
        StripBuilder { sizing: self.sizing, clip }
    }

    /// Allocate space for one cell.
    pub fn size(self, size: Size) -> (b: Self)
        ensures
            b@ == (BuilderView { sizes: self@.sizes.push(size@), ..self@ }),
    {
        let mut sizing = self.sizing;
        sizing.add(size);
        StripBuilder { sizing, clip: self.clip }
    }

    /// Allocate space for `count` cells of the same size at once.
    pub fn sizes(self, size: Size, count: usize) -> (b: Self)
        ensures
            b@ == (BuilderView {
                sizes: self@.sizes + Seq::<SizeView>::new(count as nat, |i: int| size@),
                ..self@
            }),
    {
        let ghost sizes0 = self@.sizes;
        let mut sizing = self.sizing;
        let mut k: usize = 0;
        while k < count
            invariant
                0 <= k <= count,
                sizing@ == sizes0 + Seq::<SizeView>::new(k as nat, |i: int| size@),
            decreases count - k,
        {
            sizing.add(size);
            proof {
                assert(sizing@ =~= sizes0 + Seq::<SizeView>::new((k + 1) as nat, |i: int| size@));
            }
            k = k + 1;
        }
        let b = StripBuilder { sizing, clip: self.clip };
        proof {
            assert(b@ =~= (BuilderView {
                sizes: sizes0 + Seq::<SizeView>::new(count as nat, |i: int| size@),
                clip: self.clip,
            }));
        }
        b
    }

    /// Resolve, build the engine and the cursor, run the caller's
    /// procedure, then drain and finish whatever cursor it returned.
    fn run<F: FnOnce(Strip) -> Strip>(
        self,
        region: IRect,
        spacing_x: u32,
        spacing_y: u32,
        direction: CellDirection,
        f: F,
    ) -> (o: StripOutcome)
        requires
            forall|s: Strip| call_requires(f, (s,)),
        ensures
            finalize_post(f, self@, region, spacing_x, spacing_y, direction, o),
    {
        let avail: u32;
        let spacing: u32;
        match direction {
            CellDirection::Horizontal => {
                avail = extent_u32(region.left, region.right);
                spacing = spacing_x;
            },
            CellDirection::Vertical => {
                avail = extent_u32(region.top, region.bottom);
                spacing = spacing_y;
            },
        }
        let lengths = self.sizing.to_lengths(avail, spacing);
        let engine = StripLayout::new(region, direction, self.clip, spacing_x, spacing_y);
        let strip = Strip::new(engine, lengths);
        proof {
            let model = resolve_model(self@.sizes, avail as int, spacing as int);
            let mapped = model.map_values(|v: int| v as u32);
            assert forall|i: int| 0 <= i < model.len() implies #[trigger] mapped[i]
                == lengths@[i] by {
                assert(lengths@[i] as int == model[i]);
            }
            assert(strip@.lengths =~= resolved_lengths(
                self@.sizes,
                primary_extent(region, direction),
                spacing_of(direction, spacing_x, spacing_y) as int,
            ));
            assert(strip@ =~= start_view(self@, region, spacing_x, spacing_y, direction));
        }
        let ghost s0 = strip;
        let strip2 = f(strip);
        let o = strip2.finish();
        proof {
            assert(call_ensures(f, (s0,), strip2));
        }
        o
    }

    /// Build a horizontal strip: cells are carved left to right out of
    /// `region`, sized by the resolver against the region's width and the
    /// horizontal item spacing. The caller's procedure populates the cells;
    /// anything it leaves unconsumed is drained before the outcome — with
    /// the bounding rectangle for the host to claim — is returned.
    pub fn horizontal<F: FnOnce(Strip) -> Strip>(
        self,
        region: IRect,
        spacing_x: u32,
        spacing_y: u32,
        f: F,
    ) -> (o: StripOutcome)
        requires
            forall|s: Strip| call_requires(f, (s,)),
        ensures
            finalize_post(f, self@, region, spacing_x, spacing_y, CellDirection::Horizontal, o),
    {
        self.run(region, spacing_x, spacing_y, CellDirection::Horizontal, f)
    }

    /// Build a vertical strip: cells are carved top to bottom out of
    /// `region`, sized by the resolver against the region's height and the
    /// vertical item spacing. The caller's procedure populates the cells;
    /// anything it leaves unconsumed is drained before the outcome — with
    /// the bounding rectangle for the host to claim — is returned.
    pub fn vertical<F: FnOnce(Strip) -> Strip>(
        self,
        region: IRect,
        spacing_x: u32,
        spacing_y: u32,
        f: F,
    ) -> (o: StripOutcome)
        requires
            forall|s: Strip| call_requires(f, (s,)),
        ensures
            finalize_post(f, self@, region, spacing_x, spacing_y, CellDirection::Vertical, o),
    {
        self.run(region, spacing_x, spacing_y, CellDirection::Vertical, f)
    }
}

impl Default for StripBuilder {
    /// Same as [`StripBuilder::new`].
    fn default() -> (b: Self)
        ensures
            b@ == (BuilderView { sizes: Seq::<SizeView>::empty(), clip: true }),
    {
        StripBuilder::new()
    }
}

/// Sum of a sequence of pixel lengths.
pub open spec fn sum_lengths(s: Seq<u32>) -> int
    decreases s.len(),
{
    if s.len() == 0 {
        0
    } else {
        s[0] + sum_lengths(s.drop_first())
    }
}

/// A sequence's sum splits at any point into the sum of the prefix and the
/// sum of the suffix.
proof fn lemma_sum_split(s: Seq<u32>, k: int)
    requires
        0 <= k <= s.len(),
    ensures
        sum_lengths(s) == sum_lengths(s.take(k)) + sum_lengths(s.skip(k)),
    decreases k,
{
    if k == 0 {
        assert(s.take(0) =~= Seq::<u32>::empty());
        assert(s.skip(0) =~= s);
    } else {
        let rest = s.drop_first();
        lemma_sum_split(rest, k - 1);
        assert(s.take(k).drop_first() =~= rest.take(k - 1));
        assert(s.skip(k) =~= rest.skip(k - 1));
        assert(s.take(k)[0] == s[0]);
        assert(sum_lengths(s.take(k)) == s[0] + sum_lengths(rest.take(k - 1)));
    }
}

/// Law (drain invariant): for any sequence of allocated lengths and any
/// `k` cells the caller consumed, exactly `len - k` slots remain for the
/// automatic drain ([`Strip::drain`] books precisely those as empty cells),
/// and the lengths consumed by the caller and the drain together sum to the
/// full resolved-length sum.
pub proof fn lemma_drain_invariant(lengths: Seq<u32>, k: int)
    requires
        0 <= k <= lengths.len(),
    ensures
        lengths.skip(k).len() == lengths.len() - k,
        sum_lengths(lengths.take(k)) + sum_lengths(lengths.skip(k)) == sum_lengths(lengths),
{
    lemma_sum_split(lengths, k);
}

} // verus!
