use parrot_pet::rng::{SimpleRng, FRACTION_ONE};

#[test]
fn next_is_deterministic_for_a_fixed_seed() {
    let mut rng = SimpleRng::from_seed(42);
    assert_eq!(rng.next(), 46347652635);
    assert_eq!(rng.next(), 14251853105267829688);
    assert_eq!(rng.next(), 7335485157495086481);
    assert_eq!(rng.next(), 5026830740666840310);
    assert_eq!(rng.next(), 9540341004312277239);
}

#[test]
fn two_generators_with_one_seed_agree() {
    let mut a = SimpleRng::from_seed(12345678901234567890);
    let mut b = SimpleRng::from_seed(12345678901234567890);
    for _ in 0..1000 {
        assert_eq!(a.next(), b.next());
    }
}

#[test]
fn next_follows_the_linear_recurrence() {
    let mut rng = SimpleRng::from_seed(12345678901234567890);
    assert_eq!(rng.next(), 12206404692513638307);
    assert_eq!(rng.next(), 6166714700407888544);
    assert_eq!(rng.next(), 8776716242765678169);
}

#[test]
fn fractions_stay_in_the_unit_interval() {
    let mut rng = SimpleRng::from_seed(7);
    for _ in 0..10000 {
        let frac = rng.next_fraction();
        assert!(frac < FRACTION_ONE);
        let unit = frac as f32 / 0xFFFFFF as f32;
        assert!(0.0 <= unit && unit < 1.0);
    }
}

#[test]
fn fraction_keeps_the_low_bits() {
    let mut rng = SimpleRng::from_seed(42);
    assert_eq!(rng.next_fraction(), 8982043);
    assert_eq!(rng.next_fraction(), 9006008);
    assert_eq!(rng.next_fraction(), 10821009);
}
