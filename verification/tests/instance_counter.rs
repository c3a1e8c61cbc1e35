use q3a_muncher::{CauseOfDeath, Error, InstanceCounter, CAUSES_OF_DEATH};

#[test]
fn instance_counter_adds_correctly() {
    let mut counter: InstanceCounter<CauseOfDeath, CAUSES_OF_DEATH> = InstanceCounter::new();

    counter.add(CauseOfDeath::Bfg).unwrap();
    counter.add(CauseOfDeath::Bfg).unwrap();

    assert_eq!(counter.get(CauseOfDeath::Bfg).unwrap(), 2);
    assert_eq!(counter.get(CauseOfDeath::Rocket).unwrap(), 0);
}

#[test]
fn a_new_counter_has_seen_nothing() {
    let counter: InstanceCounter<CauseOfDeath, CAUSES_OF_DEATH> = InstanceCounter::new();

    for cause in CauseOfDeath::all() {
        assert_eq!(counter.get(cause), Some(0));
    }
}

#[test]
fn an_element_beyond_the_counter_is_refused() {
    let mut counter: InstanceCounter<u8, 4> = InstanceCounter::new();

    counter.add(3).unwrap();
    assert_eq!(counter.get(3), Some(1));

    match counter.add(4) {
        Err(Error::Assertion(message)) => {
            assert_eq!(message, "Element would not fit in the counter buffer")
        }
        other => panic!("{other:?}"),
    }
    assert_eq!(counter.get(4), None);
    assert_eq!(counter.get(255), None);
    for position in 0..3 {
        assert_eq!(counter.get(position), Some(0));
    }
    assert_eq!(counter.get(3), Some(1));
}

#[test]
fn a_full_count_overflows_and_stays() {
    let mut counter: InstanceCounter<CauseOfDeath, CAUSES_OF_DEATH> = InstanceCounter::new();

    for _ in 0..255 {
        counter.add(CauseOfDeath::Lava).unwrap();
    }
    assert_eq!(counter.get(CauseOfDeath::Lava), Some(255));
    assert!(matches!(counter.add(CauseOfDeath::Lava), Err(Error::Overflow)));
    assert_eq!(counter.get(CauseOfDeath::Lava), Some(255));
    assert_eq!(counter.get(CauseOfDeath::Slime), Some(0));
    counter.add(CauseOfDeath::Slime).unwrap();
    assert_eq!(counter.get(CauseOfDeath::Slime), Some(1));
}
