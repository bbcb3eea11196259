use idasen_cli::range::{clamp, MAX_HEIGHT_MM, MIN_HEIGHT_MM};
use idasen_cli::resolver::{device_to_mm, plan_move, resolve_target, MoveIntent};

#[test]
fn clamp_in_range_is_identity() {
    assert_eq!(clamp(620), 620);
    assert_eq!(clamp(621), 621);
    assert_eq!(clamp(1000), 1000);
    assert_eq!(clamp(1269), 1269);
    assert_eq!(clamp(1270), 1270);
}

#[test]
fn clamp_below_range() {
    assert_eq!(clamp(619), 620);
    assert_eq!(clamp(0), 620);
    assert_eq!(clamp(-50), 620);
    assert_eq!(clamp(i32::MIN), 620);
}

#[test]
fn clamp_above_range() {
    assert_eq!(clamp(1271), 1270);
    assert_eq!(clamp(2000), 1270);
    assert_eq!(clamp(i32::MAX), 1270);
}

#[test]
fn clamp_bounds_are_the_named_limits() {
    assert_eq!(MIN_HEIGHT_MM, 620);
    assert_eq!(MAX_HEIGHT_MM, 1270);
    assert_eq!(clamp(i32::MIN), MIN_HEIGHT_MM);
    assert_eq!(clamp(i32::MAX), MAX_HEIGHT_MM);
}

#[test]
fn device_units_truncate_toward_zero() {
    assert_eq!(device_to_mm(10000), 1000);
    assert_eq!(device_to_mm(10009), 1000);
    assert_eq!(device_to_mm(6205), 620);
    assert_eq!(device_to_mm(9), 0);
}

#[test]
fn relative_move_within_range() {
    let plan = plan_move(10000, MoveIntent::Relative { delta_mm: -50 });
    assert_eq!(plan.current_mm, 1000);
    assert_eq!(plan.target_mm, 950);
    assert_eq!(plan.target_device, 9500);
}

#[test]
fn relative_move_clamped_at_bottom() {
    let plan = plan_move(6500, MoveIntent::Relative { delta_mm: -100 });
    assert_eq!(plan.current_mm, 650);
    assert_eq!(plan.target_mm, 620);
    assert_eq!(plan.target_device, 6200);
}

#[test]
fn absolute_move_clamped_at_top() {
    let plan = plan_move(10000, MoveIntent::Absolute { target_mm: 2000 });
    assert_eq!(plan.target_mm, 1270);
    assert_eq!(plan.target_device, 12700);
}

#[test]
fn absolute_move_ignores_current_height() {
    assert_eq!(resolve_target(700, MoveIntent::Absolute { target_mm: 900 }), 900);
    assert_eq!(resolve_target(1200, MoveIntent::Absolute { target_mm: 900 }), 900);
    assert_eq!(resolve_target(0, MoveIntent::Absolute { target_mm: 900 }), 900);
}

#[test]
fn relative_move_composes_with_clamp() {
    for (current, delta) in [(1000u16, 50i16), (1000, -50), (650, -100), (1250, 100), (0, 0)] {
        let raw = current as i32 + delta as i32;
        assert_eq!(
            resolve_target(current, MoveIntent::Relative { delta_mm: delta }),
            clamp(raw),
        );
    }
}
