//! Channel arithmetic under the 0..1 semantic.

use pix::channel::scale_i32;
use pix::{Ch16, Ch8, Channel};

#[test]
fn ch8_mul() {
    assert_eq!(Ch8::new(255), Ch8::new(255).mul(Ch8::new(255)));
    assert_eq!(Ch8::new(128), Ch8::new(255).mul(Ch8::new(128)));
    assert_eq!(Ch8::new(64), Ch8::new(255).mul(Ch8::new(64)));
    assert_eq!(Ch8::new(32), Ch8::new(255).mul(Ch8::new(32)));
    assert_eq!(Ch8::new(16), Ch8::new(255).mul(Ch8::new(16)));
    assert_eq!(Ch8::new(64), Ch8::new(128).mul(Ch8::new(128)));
    assert_eq!(Ch8::new(32), Ch8::new(128).mul(Ch8::new(64)));
    assert_eq!(Ch8::new(16), Ch8::new(128).mul(Ch8::new(32)));
    assert_eq!(Ch8::new(8), Ch8::new(128).mul(Ch8::new(16)));
}

#[test]
fn ch8_div() {
    assert_eq!(Ch8::new(255), Ch8::new(255).div(Ch8::new(255)));
    assert_eq!(Ch8::new(255), Ch8::new(128).div(Ch8::new(128)));
    assert_eq!(Ch8::new(255), Ch8::new(64).div(Ch8::new(64)));
    assert_eq!(Ch8::new(255), Ch8::new(32).div(Ch8::new(32)));
    assert_eq!(Ch8::new(255), Ch8::new(16).div(Ch8::new(16)));
    assert_eq!(Ch8::new(128), Ch8::new(128).div(Ch8::new(255)));
    assert_eq!(Ch8::new(128), Ch8::new(64).div(Ch8::new(128)));
    assert_eq!(Ch8::new(128), Ch8::new(32).div(Ch8::new(64)));
    assert_eq!(Ch8::new(128), Ch8::new(16).div(Ch8::new(32)));
    assert_eq!(Ch8::new(64), Ch8::new(64).div(Ch8::new(255)));
    assert_eq!(Ch8::new(64), Ch8::new(32).div(Ch8::new(128)));
    assert_eq!(Ch8::new(64), Ch8::new(16).div(Ch8::new(64)));
}

#[test]
fn ch16_mul() {
    assert_eq!(Ch16::new(65535), Ch16::new(65535).mul(Ch16::new(65535)));
    assert_eq!(Ch16::new(32768), Ch16::new(65535).mul(Ch16::new(32768)));
    assert_eq!(Ch16::new(16384), Ch16::new(65535).mul(Ch16::new(16384)));
    assert_eq!(Ch16::new(8192), Ch16::new(65535).mul(Ch16::new(8192)));
    assert_eq!(Ch16::new(4096), Ch16::new(65535).mul(Ch16::new(4096)));
    assert_eq!(Ch16::new(16384), Ch16::new(32768).mul(Ch16::new(32768)));
    assert_eq!(Ch16::new(8192), Ch16::new(32768).mul(Ch16::new(16384)));
    assert_eq!(Ch16::new(4096), Ch16::new(32768).mul(Ch16::new(8192)));
    assert_eq!(Ch16::new(2048), Ch16::new(32768).mul(Ch16::new(4096)));
}

#[test]
fn ch16_div() {
    assert_eq!(Ch16::new(65535), Ch16::new(65535).div(Ch16::new(65535)));
    assert_eq!(Ch16::new(65535), Ch16::new(32768).div(Ch16::new(32768)));
    assert_eq!(Ch16::new(65535), Ch16::new(16384).div(Ch16::new(16384)));
    assert_eq!(Ch16::new(65535), Ch16::new(8192).div(Ch16::new(8192)));
    assert_eq!(Ch16::new(65535), Ch16::new(4096).div(Ch16::new(4096)));
    assert_eq!(Ch16::new(32768), Ch16::new(32768).div(Ch16::new(65535)));
    assert_eq!(Ch16::new(32768), Ch16::new(16384).div(Ch16::new(32768)));
    assert_eq!(Ch16::new(32768), Ch16::new(8192).div(Ch16::new(16384)));
    assert_eq!(Ch16::new(32768), Ch16::new(4096).div(Ch16::new(8192)));
    assert_eq!(Ch16::new(16384), Ch16::new(16384).div(Ch16::new(65535)));
    assert_eq!(Ch16::new(16384), Ch16::new(8192).div(Ch16::new(32768)));
    assert_eq!(Ch16::new(16384), Ch16::new(4096).div(Ch16::new(16384)));
}

#[test]
fn mul_commutative_all_pairs() {
    for a in 0..=255u8 {
        for b in 0..=255u8 {
            assert_eq!(
                Ch8::new(a).mul(Ch8::new(b)),
                Ch8::new(b).mul(Ch8::new(a))
            );
        }
    }
}

#[test]
fn mul_max_identity() {
    let max = Ch8::new(255);
    assert_eq!(Ch8::new(0), Ch8::new(0).mul(max));
    for a in 16..=255u8 {
        assert_eq!(Ch8::new(a), Ch8::new(a).mul(max));
    }
    let max16 = Ch16::new(65535);
    assert_eq!(Ch16::new(0), Ch16::new(0).mul(max16));
    for a in (256..=65535u16).step_by(7) {
        assert_eq!(Ch16::new(a), Ch16::new(a).mul(max16));
    }
    // small nonzero values lose one unit to fixed-point truncation
    assert_eq!(Ch8::new(0), Ch8::new(1).mul(max));
    assert_eq!(Ch8::new(14), Ch8::new(15).mul(max));
}

#[test]
fn mul_div_roundtrip_by_max() {
    let max = Ch8::new(255);
    for a in 0..=255u8 {
        let r = Ch8::new(a).mul(max).div(max).value();
        assert!(a.wrapping_sub(r) <= 1, "a={} r={}", a, r);
        assert!(r <= a);
    }
    let max16 = Ch16::new(65535);
    for a in (0..=65535u16).step_by(3) {
        let r = Ch16::new(a).mul(max16).div(max16).value();
        assert!(a.wrapping_sub(r) <= 1, "a={} r={}", a, r);
        assert!(r <= a);
    }
}

#[test]
fn div_by_zero_is_zero() {
    for a in [0u8, 1, 100, 255] {
        assert_eq!(Ch8::new(0), Ch8::new(a).div(Ch8::new(0)));
    }
    assert_eq!(Ch16::new(0), Ch16::new(12345).div(Ch16::new(0)));
}

#[test]
fn div_saturates() {
    // dividing by something smaller saturates at the maximum
    assert_eq!(Ch8::new(255), Ch8::new(200).div(Ch8::new(100)));
    assert_eq!(Ch16::new(65535), Ch16::new(60000).div(Ch16::new(30000)));
}

#[test]
fn lerp_alpha_values() {
    assert_eq!(Ch8::new(128), Ch8::new(255).lerp_alpha(Ch8::new(0), Ch8::new(128)));
    assert_eq!(Ch8::new(127), Ch8::new(0).lerp_alpha(Ch8::new(255), Ch8::new(128)));
    assert_eq!(Ch8::new(100), Ch8::new(200).lerp_alpha(Ch8::new(100), Ch8::new(0)));
    assert_eq!(Ch8::new(200), Ch8::new(200).lerp_alpha(Ch8::new(100), Ch8::new(255)));
    assert_eq!(
        Ch16::new(32768),
        Ch16::new(65535).lerp_alpha(Ch16::new(0), Ch16::new(32768))
    );
    // even a tiny 16-bit opacity contributes: no bits of alpha are dropped
    assert_eq!(
        Ch16::new(255),
        Ch16::new(65535).lerp_alpha(Ch16::new(0), Ch16::new(255))
    );
    assert_eq!(
        Ch16::new(0),
        Ch16::new(0).lerp_alpha(Ch16::new(65535), Ch16::new(65535))
    );
    assert_eq!(
        Ch16::new(19155),
        Ch16::new(40000).lerp_alpha(Ch16::new(10000), Ch16::new(20000))
    );
}

#[test]
fn lerp16_matches_continuous_formula() {
    // dest + alpha * (top - dest) / 65535, within one unit in the last place
    for top in (0..=65535u32).step_by(4099) {
        for bot in (0..=65535u32).step_by(5101) {
            for alpha in [0u32, 1, 255, 32768, 65534, 65535] {
                let r = Ch16::new(top as u16)
                    .lerp_alpha(Ch16::new(bot as u16), Ch16::new(alpha as u16))
                    .value() as f64;
                let exact =
                    bot as f64 + alpha as f64 * (top as f64 - bot as f64) / 65535.0;
                assert!((r - exact).abs() <= 1.0, "top={} bot={} a={}", top, bot, alpha);
            }
        }
    }
}

#[test]
fn lerp_alpha_stays_between_endpoints() {
    for top in (0..=255u8).step_by(5) {
        for bot in (0..=255u8).step_by(5) {
            for alpha in (0..=255u8).step_by(15) {
                let r = Ch8::new(top).lerp_alpha(Ch8::new(bot), Ch8::new(alpha)).value();
                let lo = top.min(bot);
                let hi = top.max(bot);
                assert!(lo <= r && r <= hi, "top={} bot={} alpha={} r={}", top, bot, alpha, r);
            }
        }
    }
    for top in (0..=65535u16).step_by(3001) {
        for bot in (0..=65535u16).step_by(4021) {
            for alpha in [0u16, 9, 32768, 65535] {
                let r = Ch16::new(top).lerp_alpha(Ch16::new(bot), Ch16::new(alpha)).value();
                assert!(top.min(bot) <= r && r <= top.max(bot));
            }
        }
    }
}

#[test]
fn scale_i32_matches_division_closely() {
    // the add-and-shift approximates v * a / 255 within one unit
    for a in 0..=255u8 {
        for v in -255..=255i32 {
            let r = scale_i32(a, v);
            let exact = (v as f64) * (a as f64) / 255.0;
            assert!((r as f64 - exact).abs() <= 1.0, "a={} v={} r={}", a, v, r);
        }
    }
}

#[test]
fn mul_accuracy_within_one_unit() {
    // the fixed-point product stays within one unit of a*b/MAX
    for a in 0..=255u32 {
        for b in 0..=255u32 {
            let m = Ch8::new(a as u8).mul(Ch8::new(b as u8)).value() as i64;
            let d = 255 * m - (a * b) as i64;
            assert!(d.abs() <= 255, "a={} b={} m={}", a, b, m);
        }
    }
    for a in (0..=65535u64).step_by(509) {
        for b in (0..=65535u64).step_by(523) {
            let m = Ch16::new(a as u16).mul(Ch16::new(b as u16)).value() as i64;
            let d = 65535 * m - (a * b) as i64;
            assert!(d.abs() <= 65535, "a={} b={} m={}", a, b, m);
        }
    }
}
