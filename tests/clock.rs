use polysynth::clock::{period_us, rest_us};
use polysynth::{Clock, Phase};

#[test]
fn period_follows_tempo() {
    assert_eq!(period_us(120), 250_000);
    assert_eq!(period_us(60), 500_000);
    assert_eq!(period_us(7), 4_285_714);
    assert_eq!(rest_us(120), 25_000);
}

#[test]
fn phases_alternate_starting_with_tock() {
    let mut clock = Clock::new();
    assert_eq!(clock.poll(100, 120), None);
    assert_eq!(clock.residue(), 0);
    assert_eq!(clock.poll(250_000, 120), Some(Phase::Tock));
    assert_eq!(clock.poll(250_000, 120), Some(Phase::Tick));
    assert_eq!(clock.poll(250_000, 120), Some(Phase::Tock));
}

#[test]
fn late_transition_shortens_the_next_one() {
    let mut clock = Clock::new();
    assert_eq!(clock.poll(250_300, 120), Some(Phase::Tock));
    assert_eq!(clock.residue(), 300);
    assert_eq!(clock.poll(249_600, 120), None);
    assert_eq!(clock.poll(249_700, 120), Some(Phase::Tick));
    assert_eq!(clock.residue(), 0);
}

#[test]
fn average_period_converges_under_fixed_overshoot() {
    // Each transition is observed `eps` after it was allowed.
    let eps: i128 = 700;
    let period = period_us(100) as i128;
    let mut clock = Clock::new();
    let mut total: i128 = 0;
    let n: i128 = 1000;
    for _ in 0..n {
        let allowed = period - clock.residue();
        assert_eq!(clock.poll(allowed - 1, 100), None);
        let elapsed = allowed + eps;
        assert!(clock.poll(elapsed, 100).is_some());
        assert_eq!(clock.residue(), eps);
        total += elapsed;
    }
    assert!(total >= n * period && total <= n * period + eps);
    assert_eq!(total, n * period + eps);
}

#[test]
fn tempo_change_takes_effect_on_the_next_poll() {
    let mut clock = Clock::new();
    assert_eq!(clock.poll(250_000, 120), Some(Phase::Tock));
    assert_eq!(clock.poll(250_000, 60), None);
    assert_eq!(clock.poll(500_000, 60), Some(Phase::Tick));
}
