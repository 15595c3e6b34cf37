use veoluz::types::{Curve, Message, Timer, RENDER_RAY_COUNT};

#[test]
fn message_carries_the_ray_count() {
    let m = Message::new(4, "scene");
    assert_eq!(m.id, 4);
    assert_eq!(m.config, "scene");
    assert_eq!(m.count, 200_000);
    assert_eq!(RENDER_RAY_COUNT, 200_000);
}

#[test]
fn timer_keeps_its_name() {
    let t = Timer::new("Calculate");
    assert_eq!(t.name(), "Calculate");
}

#[test]
fn curves_compare() {
    assert_eq!(Curve::Linear, Curve::Linear);
    assert_ne!(Curve::SquareRoot, Curve::FourthRoot);
}

