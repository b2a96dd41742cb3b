use trajectory_rs::constants::MAX_WIND_MULTIPLIER;
use trajectory_rs::fixed::{Fixed, SCALE};
use trajectory_rs::vector::Vec3;
use trajectory_rs::wind::{apply_wind_shear, wind_multiplier, SHEAR_CAP_HEIGHT_M};

fn fx(v: f64) -> Fixed {
    Fixed::from_raw((v * SCALE as f64).round() as i64)
}

fn raw(r: i64) -> Fixed {
    Fixed::from_raw(r)
}

#[test]
fn multiplier_is_one_up_to_the_reference_height() {
    for h in [-5.0, 0.0, 0.5, 1.0, 9.99, 10.0] {
        assert_eq!(wind_multiplier(fx(h)), fx(1.0));
    }
    assert_eq!(wind_multiplier(raw(100_000_000_001)), fx(1.0));
    assert_eq!(wind_multiplier(raw(i64::MIN)), fx(1.0));
}

#[test]
fn multiplier_follows_the_fifth_root() {
    assert_eq!(wind_multiplier(fx(15.0)), raw(10_844_717_711));
    assert_eq!(wind_multiplier(fx(20.0)), raw(11_486_983_549));
    assert_eq!(wind_multiplier(fx(50.0)), raw(13_797_296_614));
    assert_eq!(wind_multiplier(fx(100.0)), raw(15_848_931_924));
    assert_eq!(wind_multiplier(fx(141.9856)), raw(16_999_997_605));
}

#[test]
fn multiplier_agrees_with_the_power_law() {
    for h in [11.0_f64, 12.5, 20.0, 33.0, 64.0, 90.0, 130.0] {
        let expected = (h / 10.0).powf(0.20);
        let got = wind_multiplier(fx(h)).raw as f64 / SCALE as f64;
        assert!((got - expected).abs() < 2.0e-10);
    }
}

#[test]
fn multiplier_is_capped() {
    assert_eq!(MAX_WIND_MULTIPLIER, 17_000_000_000);
    assert_eq!(wind_multiplier(raw(SHEAR_CAP_HEIGHT_M)), fx(1.7));
    assert_eq!(wind_multiplier(raw(SHEAR_CAP_HEIGHT_M - 1)), raw(16_999_999_999));
    assert_eq!(wind_multiplier(fx(200.0)), fx(1.7));
    assert_eq!(wind_multiplier(fx(1.0e6)), fx(1.7));
    assert_eq!(wind_multiplier(raw(i64::MAX)), fx(1.7));
}

#[test]
fn multiplier_never_falls_with_height() {
    let mut previous = wind_multiplier(fx(-10.0));
    let mut h = -10.0;
    while h < 160.0 {
        let m = wind_multiplier(fx(h));
        assert!(previous.raw <= m.raw);
        assert!(fx(1.0).raw <= m.raw && m.raw <= fx(1.7).raw);
        previous = m;
        h += 0.37;
    }
}

#[test]
fn wind_grows_without_turning() {
    let base = Vec3::new(fx(3.0), fx(-4.0), fx(0.5));
    assert_eq!(
        apply_wind_shear(base, fx(20.0)),
        Vec3::new(
            raw(34_460_950_647),
            raw(-45_947_934_196),
            raw(5_743_491_774)
        )
    );
    assert_eq!(apply_wind_shear(base, fx(5.0)), base);
    assert_eq!(
        apply_wind_shear(base, fx(500.0)),
        Vec3::new(fx(5.1), fx(-6.8), fx(0.85))
    );
    assert_eq!(apply_wind_shear(Vec3::zero(), fx(50.0)), Vec3::zero());
}
