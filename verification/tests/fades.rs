use bitdmx::channel_groups::{fade_plan, FadeStart, Moving2D, Single, RGB, RGBA};
use bitdmx::fade_curve::FadeCurve;

#[test]
fn fade_plan_steps_and_pause() {
    assert_eq!(fade_plan(1000), (30, 33));
    assert_eq!(fade_plan(100), (3, 33));
    assert_eq!(fade_plan(33), (0, 0));
    assert_eq!(fade_plan(0), (0, 0));
}

#[test]
fn curve_formulas() {
    assert_eq!(FadeCurve::Sin(2).expression_text(), Some("-cos(2.5*6.28318530718*x)*0.5+0.5".to_string()));
    assert_eq!(FadeCurve::Sin(0).expression_text(), Some("-cos(0.5*6.28318530718*x)*0.5+0.5".to_string()));
    assert_eq!(FadeCurve::Custom("x*x".to_string()).expression_text(), Some("x*x".to_string()));
    assert_eq!(FadeCurve::Linear.expression_text(), None);
    assert_eq!(FadeCurve::SquareRoot.expression_text(), None);
    assert!(matches!(FadeCurve::Custom("x".to_string()).clone(), FadeCurve::Custom(s) if s == "x"));
}

#[test]
fn group_fades() {
    let s = Single::new(9);
    let f = s.fade(FadeCurve::Linear, 500, 10, 200, true);
    assert_eq!(f.addresses, vec![9]);
    assert_eq!(f.targets, vec![200]);
    assert_eq!(f.start, FadeStart::Level(10));
    assert!(f.preheat);
    assert_eq!(s.get_addresses(), vec![9]);
    let r = RGB::new(1, 2, 3);
    assert_eq!(r.fade_simple(FadeCurve::Squared, 1, 4, 5, 6).targets, vec![4, 5, 6]);
    let w = RGBA::new(100);
    assert_eq!(w.get_addresses(), vec![100, 101, 102, 103]);
    let m = Moving2D::new(7, 8);
    let f = m.fade_simple(FadeCurve::Linear, 2, 3, 4);
    assert_eq!((f.addresses, f.targets, f.time), (vec![7, 8], vec![3, 4], 2));
}
