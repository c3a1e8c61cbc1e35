use q3a_muncher::{CauseOfDeath, Error, CAUSES_OF_DEATH};

/// Every cause of death, in the order in which the game numbers them.
fn all_causes() -> Vec<CauseOfDeath> {
    vec![
        CauseOfDeath::Shotgun,
        CauseOfDeath::Gauntlet,
        CauseOfDeath::Machinegun,
        CauseOfDeath::Grenade,
        CauseOfDeath::GrenadeSplash,
        CauseOfDeath::Rocket,
        CauseOfDeath::RocketSplash,
        CauseOfDeath::Plasma,
        CauseOfDeath::PlasmaSplash,
        CauseOfDeath::Railgun,
        CauseOfDeath::Lightning,
        CauseOfDeath::Bfg,
        CauseOfDeath::BfgSplash,
        CauseOfDeath::Water,
        CauseOfDeath::Slime,
        CauseOfDeath::Lava,
        CauseOfDeath::Crush,
        CauseOfDeath::Telefrag,
        CauseOfDeath::Falling,
        CauseOfDeath::Suicide,
        CauseOfDeath::TargetLaser,
        CauseOfDeath::TriggerHurt,
        CauseOfDeath::Nail,
        CauseOfDeath::Chaingun,
        CauseOfDeath::ProximityMine,
        CauseOfDeath::Kamikaze,
        CauseOfDeath::Juiced,
        CauseOfDeath::Grapple,
        CauseOfDeath::Unknown,
    ]
}

/// Converts a mean of death into the expected
/// Quake format
///
/// E.g.:
///     `CauseOfDeath::Rocket` becomes "MOD_ROCKET"
///     `CauseOfDeath::BfgSplash` becomes "MOD_BFG_SPLASH"
fn to_quake_format(cause: CauseOfDeath) -> String {
    let debug_msg = format!("{:?}", cause);

    let as_shouty = heck::AsShoutySnakeCase(debug_msg);

    format!("MOD_{as_shouty}")
}

#[test]
fn has_correct_total_of_causes_of_death() {
    assert_eq!(CAUSES_OF_DEATH, all_causes().len());
    assert_eq!(CAUSES_OF_DEATH, CauseOfDeath::all().len());
}

#[test]
fn parses_cause_of_death_from_str() {
    let input = all_causes().into_iter().map(CauseOfDeath::as_str);
    let expected = all_causes().into_iter();

    for (string_representation, expected_cause_of_death) in input.zip(expected) {
        assert_eq!(
            string_representation.parse::<CauseOfDeath>().unwrap(),
            expected_cause_of_death
        )
    }
}

#[test]
/// Ensures that `CauseOfDeath::as_str` returns
/// a String in the expected Quake format
fn cause_of_death_to_str_adds_mod_prefix() {
    for cause_of_death in all_causes() {
        assert_eq!(cause_of_death.as_str(), to_quake_format(cause_of_death));
    }
}

#[test]
/// Ensures that `CauseOfDeath::as_str` returns
/// a String in the expected Quake format
fn death_cause_to_str_adds_mod_prefix() {
    for mean in CauseOfDeath::all() {
        assert_eq!(mean.as_str(), to_quake_format(mean));
    }
}

#[test]
fn check_into_u8_impl() {
    let expected_numbers = 0..all_causes().len();

    for (cause_of_death, expected_number) in all_causes().into_iter().zip(expected_numbers) {
        let byte: u8 = cause_of_death.into();
        assert_eq!(byte as usize, expected_number);
    }
}

#[test]
fn check_from_u8_impl() {
    for (idx, expected_cause) in (0..all_causes().len()).zip(all_causes()) {
        let cause_of_death = CauseOfDeath::try_from(idx as u8).unwrap();

        assert_eq!(cause_of_death, expected_cause);
    }
}

#[test]
fn all_lists_the_causes_by_code() {
    assert_eq!(CauseOfDeath::all().to_vec(), all_causes());
}

#[test]
fn names_round_trip() {
    for cause in all_causes() {
        assert_eq!(CauseOfDeath::from_str(cause.as_str()).unwrap(), cause);
        assert_eq!(CauseOfDeath::from_str(cause.as_str()).unwrap().as_str(), cause.as_str());
    }
    assert_eq!(CauseOfDeath::from_str("MOD_ROCKET_SPLASH").unwrap().as_str(), "MOD_ROCKET_SPLASH");
}

#[test]
fn codes_round_trip() {
    for code in 0..29u8 {
        assert_eq!(u8::from(CauseOfDeath::try_from(code).unwrap()), code);
    }
    assert_eq!(u8::from(CauseOfDeath::Shotgun), 0);
    assert_eq!(u8::from(CauseOfDeath::TriggerHurt), 21);
    assert_eq!(u8::from(CauseOfDeath::Unknown), 28);
}

#[test]
fn rejects_names_that_are_not_canonical() {
    for text in ["", "MOD_", "mod_rocket", "MOD_ROCKET ", " MOD_ROCKET", "ROCKET", "MOD_ROCKETS", "MOD_ROCKE"] {
        match CauseOfDeath::from_str(text) {
            Err(Error::UnknownCauseOfDeath(reported)) => assert_eq!(reported, text),
            other => panic!("{text:?} gave {other:?}"),
        }
        assert!(text.parse::<CauseOfDeath>().is_err());
    }
}

#[test]
fn rejects_codes_that_no_cause_has() {
    for code in 29..=255u8 {
        match CauseOfDeath::try_from(code) {
            Err(Error::CauseOfDeathFromByte(reported)) => assert_eq!(reported, code),
            other => panic!("{code} gave {other:?}"),
        }
    }
}

#[test]
fn as_ref_is_the_canonical_name() {
    for cause in all_causes() {
        let name: &str = cause.as_ref();
        assert_eq!(name, cause.as_str());
    }
    let name: &str = CauseOfDeath::ProximityMine.as_ref();
    assert_eq!(name, "MOD_PROXIMITY_MINE");
}
