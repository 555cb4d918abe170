use mgs2smf::ir::{
    apply_dots, checked_dots, denominator_to_steps, velocity_from_source, Rational, SourceFamily,
};
use mgs2smf::render::events::tempo_at_tick;
use mgs2smf::render::notes::scale_velocity;
use mgs2smf::render::requests::split_sevens;
use mgs2smf::render::rounding::count_glide_steps;
use mgs2smf::smfmap::{default_program, Numbering};

fn steps(num: i64, den: i64) -> Rational {
    Rational { num, den }
}

#[test]
fn fractions_are_kept_in_lowest_terms() {
    assert_eq!(Rational::new(6, -4), steps(-3, 2));
    assert_eq!(Rational::new(0, 7), steps(0, 1));
    assert_eq!(Rational::new(1, 6).add(Rational::new(1, 3)), steps(1, 2));
    assert_eq!(Rational::new(3, 4).mul_i64(2), steps(3, 2));
    assert_eq!(Rational::new(3, 4).div_i64(6), steps(1, 8));
    assert_eq!(Rational::from_i64(5).checked_sub(steps(1, 2)), Some(steps(9, 2)));
    assert!(Rational::new(1, 3).lt(Rational::new(1, 2)));
    assert!(!Rational::new(2, 4).lt(Rational::new(1, 2)));
    assert_eq!(Rational::from_i64(i64::MAX).checked_add(Rational::from_i64(1)), None);
    assert_eq!(
        Rational::new(1, 6).add(Rational::new(1, 3)),
        Rational::new(1, 3).add(Rational::new(1, 6))
    );
}

#[test]
fn lengths_are_exact() {
    assert_eq!(denominator_to_steps(4), Some(steps(48, 1)));
    assert_eq!(denominator_to_steps(5), Some(steps(192, 5)));
    assert_eq!(denominator_to_steps(0), None);
    assert_eq!(apply_dots(steps(48, 1), 2), steps(84, 1));
    assert_eq!(apply_dots(steps(48, 1), 0), steps(48, 1));
    assert_eq!(checked_dots(steps(1, 1), 100), None);
}

#[test]
fn ticks_are_rounded_to_the_nearest() {
    assert_eq!(steps(48, 1).to_midi_ticks(3600), 3600);
    assert_eq!(steps(192, 5).to_midi_ticks(480), 384);
    assert_eq!(steps(1, 1).to_midi_ticks(24), 1);
    assert_eq!(steps(1, 3).to_midi_ticks(48), 0);
    assert_eq!(steps(-5, 1).to_midi_ticks(48), 0);
    assert_eq!(steps(3, 2).to_source_step_json(), "\"3/2\"");
    assert_eq!(steps(96, 1).to_source_step_json(), "96");
}

#[test]
fn volumes_become_velocities() {
    assert_eq!(velocity_from_source(15), 127);
    assert_eq!(velocity_from_source(99), 127);
    assert_eq!(velocity_from_source(8), 68);
    assert_eq!(velocity_from_source(1), 8);
    assert_eq!(velocity_from_source(0), 1);
    assert_eq!(velocity_from_source(-3), 1);
    assert_eq!(scale_velocity(127, 64), 64);
    assert_eq!(scale_velocity(100, 127), 100);
    assert_eq!(scale_velocity(1, 63), 0);
}

#[test]
fn values_of_fourteen_bits_are_split() {
    assert_eq!(split_sevens(8192), (64, 0));
    assert_eq!(split_sevens(16383), (127, 127));
    assert_eq!(split_sevens(300), (2, 44));
    assert_eq!(split_sevens(u16::MAX), (127, 127));
}

#[test]
fn tempos_hold_until_the_next() {
    let points = [(10, 150), (20, 90)];
    assert_eq!(tempo_at_tick(&points, 0), 120);
    assert_eq!(tempo_at_tick(&points, 10), 150);
    assert_eq!(tempo_at_tick(&points, 19), 150);
    assert_eq!(tempo_at_tick(&points, 4000), 90);
}

#[test]
fn glide_steps_follow_time() {
    // Half a second at sixty steps a second.
    assert_eq!(count_glide_steps(480, 480, 120, 60), 30);
    assert_eq!(count_glide_steps(3600, 3600, 120, 60), 30);
    assert_eq!(count_glide_steps(0, 480, 120, 60), 0);
    let ticks = 1234u64;
    let expected = (ticks as f64 * 60.0 / (3600.0 * 133.0) * 60.0).round() as u64;
    assert_eq!(count_glide_steps(ticks, 3600, 133, 60), expected);
}

#[test]
fn families_have_their_names() {
    for family in [
        SourceFamily::Psg,
        SourceFamily::PsgNoise,
        SourceFamily::Scc,
        SourceFamily::Opll,
        SourceFamily::Rhythm,
    ] {
        assert_eq!(SourceFamily::parse(family.as_str()), Some(family));
    }
    assert_eq!(SourceFamily::parse("ssg"), None);
}

#[test]
fn numbers_are_counted_from_zero_or_one() {
    assert_eq!(Numbering::parse("one"), Some(Numbering::OneBased));
    assert_eq!(Numbering::OneBased.normalize(81), 80);
    assert_eq!(Numbering::OneBased.normalize(0), 0);
    assert_eq!(Numbering::ZeroBased.normalize(81), 81);
    assert_eq!(default_program(0), Some(("violin", 40)));
    assert_eq!(default_program(2), Some(("piano", 0)));
}

#[test]
fn division_takes_multiplication_back() {
    for a in [steps(3, 4), steps(-192, 5), steps(0, 1), steps(i64::MAX, 2)] {
        for n in [1, 2, -3, 48, i64::MAX] {
            if let Some(product) = a.checked_mul(n) {
                assert_eq!(product.checked_div(n), Some(a));
            }
        }
    }
    assert_eq!(steps(3, 4).checked_mul(48), Some(steps(36, 1)));
}

#[test]
fn sums_can_be_grouped() {
    let (a, b, c) = (steps(1, 6), steps(-7, 4), steps(192, 5));
    assert_eq!(a.add(b).add(c), a.add(b.add(c)));
    assert_eq!(a.add(b).add(c), steps(2209, 60));
}

#[test]
fn dots_add_up_to_nearly_the_double() {
    for dots in 0..20u32 {
        let parts: i64 = 1 << dots;
        let whole = apply_dots(steps(48, 5), dots);
        assert_eq!(whole.mul_i64(parts), steps(48, 5).mul_i64(2 * parts - 1));
    }
}
