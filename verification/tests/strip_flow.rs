use strip_layout::layout::{CellDirection, IRect, StripLayout};
use strip_layout::size::Size;
use strip_layout::strip::{FALLBACK_LENGTH, Strip, StripBuilder};

fn region(left: i64, top: i64, right: i64, bottom: i64) -> IRect {
    IRect { left, top, right, bottom }
}

#[test]
fn unconsumed_slot_is_drained_as_one_empty_cell() {
    let out = StripBuilder::new()
        .size(Size::exact(40))
        .horizontal(region(0, 0, 100, 100), 0, 0, |s| s);
    assert_eq!(out.drained, 1);
    assert_eq!(out.consumed, vec![40]);
    assert!(!out.overflowed);
    assert_eq!(out.rect, region(0, 0, 40, 100));
}

#[test]
fn drain_books_exactly_the_leftover_slots() {
    let out = StripBuilder::new()
        .sizes(Size::exact(10), 3)
        .horizontal(region(0, 0, 100, 100), 0, 0, |mut s: Strip| {
            s.cell();
            s
        });
    assert_eq!(out.drained, 2);
    assert_eq!(out.consumed, vec![10, 10, 10]);
    let total: u64 = out.consumed.iter().map(|v| *v as u64).sum();
    assert_eq!(total, 30);
    assert_eq!(out.rect, region(0, 0, 30, 100));
}

#[test]
fn over_consumption_falls_back_and_is_surfaced() {
    let out = StripBuilder::new()
        .size(Size::exact(40))
        .horizontal(region(0, 0, 100, 100), 0, 0, |mut s: Strip| {
            let first = s.cell();
            assert_eq!(first, IRect { left: 0, top: 0, right: 40, bottom: 100 });
            assert!(!s.over_consumed());
            let second = s.cell();
            assert_eq!(second.right - second.left, FALLBACK_LENGTH as i64);
            assert!(s.over_consumed());
            s
        });
    assert!(out.overflowed);
    assert_eq!(out.drained, 0);
    assert_eq!(out.consumed, vec![40]);
}

#[test]
fn vertical_strip_splits_the_height() {
    let out = StripBuilder::new()
        .sizes(Size::remainder(), 2)
        .vertical(region(0, 0, 50, 100), 0, 0, |mut s: Strip| {
            let first = s.cell();
            assert_eq!(first, IRect { left: 0, top: 0, right: 50, bottom: 50 });
            s
        });
    assert_eq!(out.consumed, vec![50, 50]);
    assert_eq!(out.drained, 1);
    assert_eq!(out.rect, region(0, 0, 50, 100));
}

#[test]
fn spacing_moves_the_cursor_between_cells() {
    let out = StripBuilder::new()
        .sizes(Size::exact(10), 2)
        .horizontal(region(0, 0, 100, 20), 5, 0, |mut s: Strip| {
            assert_eq!(s.cell(), IRect { left: 0, top: 0, right: 10, bottom: 20 });
            assert_eq!(s.cell(), IRect { left: 15, top: 0, right: 25, bottom: 20 });
            s
        });
    assert_eq!(out.rect, region(0, 0, 25, 20));
}

#[test]
fn nested_strip_builder_inherits_clip_and_region() {
    let out = StripBuilder::new()
        .clip(false)
        .size(Size::exact(30))
        .horizontal(region(0, 0, 100, 60), 0, 0, |mut s: Strip| {
            assert!(!s.clip_enabled());
            s.strip(|builder, cell_rect| {
                assert_eq!(cell_rect, IRect { left: 0, top: 0, right: 30, bottom: 60 });
                let inner = builder
                    .sizes(Size::remainder(), 2)
                    .horizontal(cell_rect, 0, 0, |inner| inner);
                assert_eq!(inner.consumed, vec![15, 15]);
            });
            s
        });
    assert_eq!(out.consumed, vec![30]);
    assert_eq!(out.drained, 0);
}

#[test]
fn cursor_over_plain_engine_reports_consumption() {
    let engine = StripLayout::new(region(0, 0, 100, 100), CellDirection::Horizontal, true, 0, 0);
    let mut strip = Strip::new(engine, vec![40]);
    assert_eq!(strip.remaining(), 1);
    assert!(!strip.over_consumed());
    let out = strip.finish();
    assert_eq!(out.drained, 1);
    assert_eq!(out.consumed, vec![40]);
    assert_eq!(out.rect, region(0, 0, 40, 100));
}

#[test]
fn remaining_counts_down_as_cells_are_consumed() {
    let engine = StripLayout::new(region(0, 0, 100, 100), CellDirection::Horizontal, true, 0, 0);
    let mut strip = Strip::new(engine, vec![10, 20, 30]);
    assert_eq!(strip.remaining(), 3);
    strip.cell();
    assert_eq!(strip.remaining(), 2);
    strip.empty();
    assert_eq!(strip.remaining(), 1);
    let out = strip.finish();
    assert_eq!(out.drained, 1);
    assert_eq!(out.consumed, vec![10, 20, 30]);
}

#[test]
fn empty_cells_book_the_same_geometry_as_content_cells() {
    let empties = StripBuilder::new()
        .sizes(Size::exact(20), 2)
        .horizontal(region(0, 0, 100, 10), 0, 0, |mut s: Strip| {
            s.empty();
            s.empty();
            s
        });
    let cells = StripBuilder::new()
        .sizes(Size::exact(20), 2)
        .horizontal(region(0, 0, 100, 10), 0, 0, |mut s: Strip| {
            s.cell();
            s.cell();
            s
        });
    assert_eq!(empties.rect, cells.rect);
    assert_eq!(empties.consumed, cells.consumed);
}

#[test]
fn empty_default_builder_books_nothing() {
    let out = StripBuilder::default().horizontal(region(5, 5, 50, 50), 3, 3, |s| s);
    assert_eq!(out.consumed, Vec::<u32>::new());
    assert_eq!(out.drained, 0);
    assert!(!out.overflowed);
    assert_eq!(out.rect, region(5, 5, 5, 5));
}
