use strip_layout::size::Size;
use strip_layout::sizing::Sizing;

fn lengths_of(specs: Vec<Size>, available: u32, spacing: u32) -> Vec<u32> {
    let mut sizing = Sizing::default();
    for s in specs {
        sizing.add(s);
    }
    sizing.to_lengths(available, spacing)
}

#[test]
fn exact_within_available_resolves_exactly() {
    let r = lengths_of(vec![Size::exact(40), Size::exact(25)], 100, 0);
    assert_eq!(r, vec![40, 25]);
}

#[test]
fn exact_is_kept_even_beyond_available() {
    let r = lengths_of(vec![Size::exact(80), Size::exact(50)], 100, 0);
    assert_eq!(r, vec![80, 50]);
}

#[test]
fn exact_and_remainder_fill_the_line() {
    let r = lengths_of(vec![Size::exact(40), Size::remainder()], 100, 0);
    assert_eq!(r, vec![40, 60]);
}

#[test]
fn two_remainders_split_usable_after_spacing() {
    let r = lengths_of(vec![Size::remainder(), Size::remainder()], 100, 10);
    assert_eq!(r, vec![45, 45]);
}

#[test]
fn three_remainders_are_equal_and_nearly_fill() {
    let r = lengths_of(
        vec![Size::remainder(), Size::remainder(), Size::remainder()],
        100,
        0,
    );
    assert_eq!(r, vec![33, 33, 33]);
    assert_eq!(r.iter().map(|v| *v as u64).sum::<u64>(), 100 - 100 % 3);
}

#[test]
fn remainder_floor_wins_over_shrunk_available() {
    let r = lengths_of(vec![Size::remainder().at_least(30)], 10, 0);
    assert_eq!(r, vec![30]);
}

#[test]
fn range_respected_at_zero_available() {
    assert_eq!(lengths_of(vec![Size::exact(40).at_most(20)], 0, 0), vec![20]);
    assert_eq!(lengths_of(vec![Size::relative(50).at_least(80)], 0, 0), vec![80]);
    assert_eq!(lengths_of(vec![Size::remainder().at_most(5)], 100, 0), vec![5]);
}

#[test]
fn relative_takes_its_share_of_usable() {
    assert_eq!(lengths_of(vec![Size::relative(50)], 200, 0), vec![100]);
    assert_eq!(
        lengths_of(vec![Size::relative(25), Size::remainder()], 200, 0),
        vec![50, 150]
    );
}

#[test]
fn relative_percent_above_hundred_is_clamped() {
    assert_eq!(lengths_of(vec![Size::relative(150)], 80, 0), vec![80]);
}

#[test]
fn initial_percent_resolves_like_relative() {
    assert_eq!(lengths_of(vec![Size::initial_percent(25)], 400, 0), vec![100]);
}

#[test]
fn no_specs_give_no_lengths() {
    assert_eq!(lengths_of(vec![], 100, 5), Vec::<u32>::new());
}

#[test]
fn spacing_beyond_available_floors_at_zero() {
    let r = lengths_of(vec![Size::remainder(), Size::remainder()], 5, 10);
    assert_eq!(r, vec![0, 0]);
}

#[test]
fn at_least_raises_an_exact_request() {
    assert_eq!(lengths_of(vec![Size::exact(40).at_least(50)], 100, 0), vec![50]);
}

#[test]
fn at_least_then_at_most_compose_a_closed_range() {
    let spec = Size::remainder().at_least(10).at_most(20);
    assert_eq!(lengths_of(vec![spec], 100, 0), vec![20]);
    assert_eq!(lengths_of(vec![spec], 0, 0), vec![10]);
}

#[test]
fn resolve_twice_gives_identical_outputs() {
    let mut sizing = Sizing::default();
    sizing.add(Size::exact(17));
    sizing.add(Size::relative(33).at_least(5));
    sizing.add(Size::remainder());
    let first = sizing.to_lengths(321, 7);
    let second = sizing.to_lengths(321, 7);
    assert_eq!(first, second);
}

#[test]
fn sizing_len_counts_requests() {
    let mut sizing = Sizing::default();
    assert_eq!(sizing.len(), 0);
    sizing.add(Size::remainder());
    sizing.add(Size::exact(3));
    assert_eq!(sizing.len(), 2);
}

#[test]
fn pinned_remainder_counts_as_fixed_contribution() {
    let pinned = Size::remainder().at_least(30).at_most(30);
    let r = lengths_of(vec![pinned, Size::remainder()], 100, 0);
    assert_eq!(r, vec![30, 70]);
}
