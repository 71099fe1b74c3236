use niripip::config::{Margins, Placement};
use niripip::geometry::{corner_placement, proportion_of, rounded_sqrt_ratio};
use niripip::model::LogicalOutput;

fn output() -> LogicalOutput {
    LogicalOutput { x: 0, y: 0, width: 1920, height: 1080, scale_milli: 1000 }
}

fn percent(v: u32) -> f64 {
    v as f64 / 1_000_000.0
}

#[test]
fn bottom_right_is_inside_safe_area() {
    let p = corner_placement(output(), (480, 270), Placement::BottomRight, 18, Margins::default());
    assert!(percent(p.x_percent) > 70.0 && percent(p.x_percent) < 80.0);
    assert!(percent(p.y_percent) > 65.0 && percent(p.y_percent) < 80.0);
}

#[test]
fn top_left_respects_margins_and_gap() {
    let p = corner_placement(
        output(),
        (480, 270),
        Placement::TopLeft,
        18,
        Margins { top: 20, left: 10, right: 0, bottom: 0 },
    );
    assert!((percent(p.x_percent) - (28.0 / 1920.0 * 100.0)).abs() < 0.001);
    assert!((percent(p.y_percent) - (38.0 / 1080.0 * 100.0)).abs() < 0.001);
}

#[test]
fn center_accounts_for_window_size() {
    let p = corner_placement(output(), (480, 270), Placement::Center, 18, Margins::default());
    assert!((percent(p.x_percent) - 37.5).abs() < 0.01);
    assert!((percent(p.y_percent) - 37.5).abs() < 0.01);
}

#[test]
fn proportion_is_exact_and_clamped() {
    assert_eq!(proportion_of(960_000, 1_920_000), 50_000_000);
    assert_eq!(proportion_of(-5, 1_920_000), 0);
    assert_eq!(proportion_of(3_000_000, 1_920_000), 100_000_000);
    assert_eq!(proportion_of(1, 3), 33_333_333);
}

#[test]
fn rounded_square_root_of_a_ratio() {
    assert_eq!(rounded_sqrt_ratio(16, 1), 4);
    assert_eq!(rounded_sqrt_ratio(2, 1), 1);
    assert_eq!(rounded_sqrt_ratio(9, 4), 2);
}
