use std::str::FromStr;
use vstd::prelude::*;
use vstd::std_specs::convert::{FromSpecImpl, TryFromSpecImpl};

use crate::error::{Error, ErrorView};
use crate::text::str_eq;

verus! {

/// How many causes of death there are.
pub const CAUSES_OF_DEATH: usize = 29;

/// Possible causes of death within a Q3A game.
///
/// Each cause has a canonical name, [`CauseOfDeath::wire`], and a code,
/// [`CauseOfDeath::code`]; the codes are `0..CAUSES_OF_DEATH` in the order of
/// the variants below.
#[derive(Clone, Copy, PartialEq, Eq, Debug)]
pub enum CauseOfDeath {
    Shotgun,
    Gauntlet,
    Machinegun,
    Grenade,
    GrenadeSplash,
    Rocket,
    RocketSplash,
    Plasma,
    PlasmaSplash,
    Railgun,
    Lightning,
    Bfg,
    BfgSplash,
    Water,
    Slime,
    Lava,
    Crush,
    Telefrag,
    Falling,
    Suicide,
    TargetLaser,
    TriggerHurt,
    Nail,
    Chaingun,
    ProximityMine,
    Kamikaze,
    Juiced,
    Grapple,
    Unknown,
}

impl CauseOfDeath {
    /// The canonical name of the cause, as the game writes it in its log.
    pub open spec fn wire(self) -> Seq<char> {
        match self {
            CauseOfDeath::Shotgun => "MOD_SHOTGUN"@,
            CauseOfDeath::Gauntlet => "MOD_GAUNTLET"@,
            CauseOfDeath::Machinegun => "MOD_MACHINEGUN"@,
            CauseOfDeath::Grenade => "MOD_GRENADE"@,
            CauseOfDeath::GrenadeSplash => "MOD_GRENADE_SPLASH"@,
            CauseOfDeath::Rocket => "MOD_ROCKET"@,
            CauseOfDeath::RocketSplash => "MOD_ROCKET_SPLASH"@,
            CauseOfDeath::Plasma => "MOD_PLASMA"@,
            CauseOfDeath::PlasmaSplash => "MOD_PLASMA_SPLASH"@,
            CauseOfDeath::Railgun => "MOD_RAILGUN"@,
            CauseOfDeath::Lightning => "MOD_LIGHTNING"@,
            CauseOfDeath::Bfg => "MOD_BFG"@,
            CauseOfDeath::BfgSplash => "MOD_BFG_SPLASH"@,
            CauseOfDeath::Water => "MOD_WATER"@,
            CauseOfDeath::Slime => "MOD_SLIME"@,
            CauseOfDeath::Lava => "MOD_LAVA"@,
            CauseOfDeath::Crush => "MOD_CRUSH"@,
            CauseOfDeath::Telefrag => "MOD_TELEFRAG"@,
            CauseOfDeath::Falling => "MOD_FALLING"@,
            CauseOfDeath::Suicide => "MOD_SUICIDE"@,
            CauseOfDeath::TargetLaser => "MOD_TARGET_LASER"@,
            CauseOfDeath::TriggerHurt => "MOD_TRIGGER_HURT"@,
            CauseOfDeath::Nail => "MOD_NAIL"@,
            CauseOfDeath::Chaingun => "MOD_CHAINGUN"@,
            CauseOfDeath::ProximityMine => "MOD_PROXIMITY_MINE"@,
            CauseOfDeath::Kamikaze => "MOD_KAMIKAZE"@,
            CauseOfDeath::Juiced => "MOD_JUICED"@,
            CauseOfDeath::Grapple => "MOD_GRAPPLE"@,
            CauseOfDeath::Unknown => "MOD_UNKNOWN"@,
        }
    }

    /// The code of the cause: its position among the variants.
    pub open spec fn code(self) -> u8 {
        match self {
            CauseOfDeath::Shotgun => 0,
            CauseOfDeath::Gauntlet => 1,
            CauseOfDeath::Machinegun => 2,
            CauseOfDeath::Grenade => 3,
            CauseOfDeath::GrenadeSplash => 4,
            CauseOfDeath::Rocket => 5,
            CauseOfDeath::RocketSplash => 6,
            CauseOfDeath::Plasma => 7,
            CauseOfDeath::PlasmaSplash => 8,
            CauseOfDeath::Railgun => 9,
            CauseOfDeath::Lightning => 10,
            CauseOfDeath::Bfg => 11,
            CauseOfDeath::BfgSplash => 12,
            CauseOfDeath::Water => 13,
            CauseOfDeath::Slime => 14,
            CauseOfDeath::Lava => 15,
            CauseOfDeath::Crush => 16,
            CauseOfDeath::Telefrag => 17,
            CauseOfDeath::Falling => 18,
            CauseOfDeath::Suicide => 19,
            CauseOfDeath::TargetLaser => 20,
            CauseOfDeath::TriggerHurt => 21,
            CauseOfDeath::Nail => 22,
            CauseOfDeath::Chaingun => 23,
            CauseOfDeath::ProximityMine => 24,
            CauseOfDeath::Kamikaze => 25,
            CauseOfDeath::Juiced => 26,
            CauseOfDeath::Grapple => 27,
            CauseOfDeath::Unknown => 28,
        }
    }

    /// The cause with the given canonical name, if there is one.
    pub open spec fn from_wire(text: Seq<char>) -> Option<CauseOfDeath> {
        if exists|cause: CauseOfDeath| cause.wire() == text {
            Some(choose|cause: CauseOfDeath| cause.wire() == text)
        } else {
            None
        }
    }

    /// The cause with the given code, if there is one.
    pub open spec fn from_code(code: u8) -> Option<CauseOfDeath> {
        if exists|cause: CauseOfDeath| cause.code() == code {
            Some(choose|cause: CauseOfDeath| cause.code() == code)
        } else {
            None
        }
    }

    /// Every cause of death, in the order of the codes.
    pub fn all() -> (causes: [CauseOfDeath; CAUSES_OF_DEATH])
        ensures
            forall|code: int|
                0 <= code < CAUSES_OF_DEATH ==> (#[trigger] causes@[code]).code() == code,
    {
        [
            CauseOfDeath::Shotgun,
            CauseOfDeath::Gauntlet,
            CauseOfDeath::Machinegun,
            CauseOfDeath::Grenade,
            CauseOfDeath::GrenadeSplash,
            CauseOfDeath::Rocket,
            CauseOfDeath::RocketSplash,
            CauseOfDeath::Plasma,
            CauseOfDeath::PlasmaSplash,
            CauseOfDeath::Railgun,
            CauseOfDeath::Lightning,
            CauseOfDeath::Bfg,
            CauseOfDeath::BfgSplash,
            CauseOfDeath::Water,
            CauseOfDeath::Slime,
            CauseOfDeath::Lava,
            CauseOfDeath::Crush,
            CauseOfDeath::Telefrag,
            CauseOfDeath::Falling,
            CauseOfDeath::Suicide,
            CauseOfDeath::TargetLaser,
            CauseOfDeath::TriggerHurt,
            CauseOfDeath::Nail,
            CauseOfDeath::Chaingun,
            CauseOfDeath::ProximityMine,
            CauseOfDeath::Kamikaze,
            CauseOfDeath::Juiced,
            CauseOfDeath::Grapple,
            CauseOfDeath::Unknown,
        ]
    }

    /// Converts a cause of death into its expected Q3A formatting.
    pub fn as_str(self) -> (name: &'static str)
        ensures
            name@ == self.wire(),
    {
        match self {
            CauseOfDeath::Shotgun => "MOD_SHOTGUN",
            CauseOfDeath::Gauntlet => "MOD_GAUNTLET",
            CauseOfDeath::Machinegun => "MOD_MACHINEGUN",
            CauseOfDeath::Grenade => "MOD_GRENADE",
            CauseOfDeath::GrenadeSplash => "MOD_GRENADE_SPLASH",
            CauseOfDeath::Rocket => "MOD_ROCKET",
            CauseOfDeath::RocketSplash => "MOD_ROCKET_SPLASH",
            CauseOfDeath::Plasma => "MOD_PLASMA",
            CauseOfDeath::PlasmaSplash => "MOD_PLASMA_SPLASH",
            CauseOfDeath::Railgun => "MOD_RAILGUN",
            CauseOfDeath::Lightning => "MOD_LIGHTNING",
            CauseOfDeath::Bfg => "MOD_BFG",
            CauseOfDeath::BfgSplash => "MOD_BFG_SPLASH",
            CauseOfDeath::Water => "MOD_WATER",
            CauseOfDeath::Slime => "MOD_SLIME",
            CauseOfDeath::Lava => "MOD_LAVA",
            CauseOfDeath::Crush => "MOD_CRUSH",
            CauseOfDeath::Telefrag => "MOD_TELEFRAG",
            CauseOfDeath::Falling => "MOD_FALLING",
            CauseOfDeath::Suicide => "MOD_SUICIDE",
            CauseOfDeath::TargetLaser => "MOD_TARGET_LASER",
            CauseOfDeath::TriggerHurt => "MOD_TRIGGER_HURT",
            CauseOfDeath::Nail => "MOD_NAIL",
            CauseOfDeath::Chaingun => "MOD_CHAINGUN",
            CauseOfDeath::ProximityMine => "MOD_PROXIMITY_MINE",
            CauseOfDeath::Kamikaze => "MOD_KAMIKAZE",
            CauseOfDeath::Juiced => "MOD_JUICED",
            CauseOfDeath::Grapple => "MOD_GRAPPLE",
            CauseOfDeath::Unknown => "MOD_UNKNOWN",
        }
    }

    /// Reads a cause of death from its canonical name. The match is exact:
    /// any other text, a name in another case or with blanks around it
    /// included, is reported as unknown together with the text itself.
    pub fn from_str(input: &str) -> (res: Result<CauseOfDeath, Error>)
        ensures
            match res {
                Ok(cause) => CauseOfDeath::from_wire(input@) == Some(cause),
                Err(error) => CauseOfDeath::from_wire(input@).is_none()
                    && error@ == ErrorView::UnknownCauseOfDeath(input@),
            },
    {
        let cause =
            if str_eq(input, "MOD_SHOTGUN") {
                CauseOfDeath::Shotgun
            } else if str_eq(input, "MOD_GAUNTLET") {
                CauseOfDeath::Gauntlet
            } else if str_eq(input, "MOD_MACHINEGUN") {
                CauseOfDeath::Machinegun
            } else if str_eq(input, "MOD_GRENADE") {
                CauseOfDeath::Grenade
            } else if str_eq(input, "MOD_GRENADE_SPLASH") {
                CauseOfDeath::GrenadeSplash
            } else if str_eq(input, "MOD_ROCKET") {
                CauseOfDeath::Rocket
            } else if str_eq(input, "MOD_ROCKET_SPLASH") {
                CauseOfDeath::RocketSplash
            } else if str_eq(input, "MOD_PLASMA") {
                CauseOfDeath::Plasma
            } else if str_eq(input, "MOD_PLASMA_SPLASH") {
                CauseOfDeath::PlasmaSplash
            } else if str_eq(input, "MOD_RAILGUN") {
                CauseOfDeath::Railgun
            } else if str_eq(input, "MOD_LIGHTNING") {
                CauseOfDeath::Lightning
            } else if str_eq(input, "MOD_BFG") {
                CauseOfDeath::Bfg
            } else if str_eq(input, "MOD_BFG_SPLASH") {
                CauseOfDeath::BfgSplash
            } else if str_eq(input, "MOD_WATER") {
                CauseOfDeath::Water
            } else if str_eq(input, "MOD_SLIME") {
                CauseOfDeath::Slime
            } else if str_eq(input, "MOD_LAVA") {
                CauseOfDeath::Lava
            } else if str_eq(input, "MOD_CRUSH") {
                CauseOfDeath::Crush
            } else if str_eq(input, "MOD_TELEFRAG") {
                CauseOfDeath::Telefrag
            } else if str_eq(input, "MOD_FALLING") {
                CauseOfDeath::Falling
            } else if str_eq(input, "MOD_SUICIDE") {
                CauseOfDeath::Suicide
            } else if str_eq(input, "MOD_TARGET_LASER") {
                CauseOfDeath::TargetLaser
            } else if str_eq(input, "MOD_TRIGGER_HURT") {
                CauseOfDeath::TriggerHurt
            } else if str_eq(input, "MOD_NAIL") {
                CauseOfDeath::Nail
            } else if str_eq(input, "MOD_CHAINGUN") {
                CauseOfDeath::Chaingun
            } else if str_eq(input, "MOD_PROXIMITY_MINE") {
                CauseOfDeath::ProximityMine
            } else if str_eq(input, "MOD_KAMIKAZE") {
                CauseOfDeath::Kamikaze
            } else if str_eq(input, "MOD_JUICED") {
                CauseOfDeath::Juiced
            } else if str_eq(input, "MOD_GRAPPLE") {
                CauseOfDeath::Grapple
            } else if str_eq(input, "MOD_UNKNOWN") {
                CauseOfDeath::Unknown
            } else {
                assert forall|cause: CauseOfDeath| cause.wire() != input@ by {}
                return Err(Error::UnknownCauseOfDeath(input.to_owned()));
            };
        proof {
            assert(cause.wire() == input@);
            lemma_wire_injective();
        }
        Ok(cause)
    }
}

impl From<CauseOfDeath> for u8 {
    /// The code of the cause, see [`CauseOfDeath::code`].
    fn from(cause: CauseOfDeath) -> (code: u8) {
        match cause {
            CauseOfDeath::Shotgun => 0,
            CauseOfDeath::Gauntlet => 1,
            CauseOfDeath::Machinegun => 2,
            CauseOfDeath::Grenade => 3,
            CauseOfDeath::GrenadeSplash => 4,
            CauseOfDeath::Rocket => 5,
            CauseOfDeath::RocketSplash => 6,
            CauseOfDeath::Plasma => 7,
            CauseOfDeath::PlasmaSplash => 8,
            CauseOfDeath::Railgun => 9,
            CauseOfDeath::Lightning => 10,
            CauseOfDeath::Bfg => 11,
            CauseOfDeath::BfgSplash => 12,
            CauseOfDeath::Water => 13,
            CauseOfDeath::Slime => 14,
            CauseOfDeath::Lava => 15,
            CauseOfDeath::Crush => 16,
            CauseOfDeath::Telefrag => 17,
            CauseOfDeath::Falling => 18,
            CauseOfDeath::Suicide => 19,
            CauseOfDeath::TargetLaser => 20,
            CauseOfDeath::TriggerHurt => 21,
            CauseOfDeath::Nail => 22,
            CauseOfDeath::Chaingun => 23,
            CauseOfDeath::ProximityMine => 24,
            CauseOfDeath::Kamikaze => 25,
            CauseOfDeath::Juiced => 26,
            CauseOfDeath::Grapple => 27,
            CauseOfDeath::Unknown => 28,
        }
    }
}

impl FromSpecImpl<CauseOfDeath> for u8 {
    open spec fn obeys_from_spec() -> bool {
        true
    }

    open spec fn from_spec(cause: CauseOfDeath) -> u8 {
        cause.code()
    }
}

impl TryFrom<u8> for CauseOfDeath {
    type Error = Error;

    /// The cause with the given code, see [`CauseOfDeath::from_code`]. A
    /// number that is the code of no cause is reported as such, together
    /// with the number itself.
    fn try_from(value: u8) -> (res: Result<CauseOfDeath, Error>) {
        let cause = match value {
            0 => CauseOfDeath::Shotgun,
            1 => CauseOfDeath::Gauntlet,
            2 => CauseOfDeath::Machinegun,
            3 => CauseOfDeath::Grenade,
            4 => CauseOfDeath::GrenadeSplash,
            5 => CauseOfDeath::Rocket,
            6 => CauseOfDeath::RocketSplash,
            7 => CauseOfDeath::Plasma,
            8 => CauseOfDeath::PlasmaSplash,
            9 => CauseOfDeath::Railgun,
            10 => CauseOfDeath::Lightning,
            11 => CauseOfDeath::Bfg,
            12 => CauseOfDeath::BfgSplash,
            13 => CauseOfDeath::Water,
            14 => CauseOfDeath::Slime,
            15 => CauseOfDeath::Lava,
            16 => CauseOfDeath::Crush,
            17 => CauseOfDeath::Telefrag,
            18 => CauseOfDeath::Falling,
            19 => CauseOfDeath::Suicide,
            20 => CauseOfDeath::TargetLaser,
            21 => CauseOfDeath::TriggerHurt,
            22 => CauseOfDeath::Nail,
            23 => CauseOfDeath::Chaingun,
            24 => CauseOfDeath::ProximityMine,
            25 => CauseOfDeath::Kamikaze,
            26 => CauseOfDeath::Juiced,
            27 => CauseOfDeath::Grapple,
            28 => CauseOfDeath::Unknown,
            _ => {
                assert forall|cause: CauseOfDeath| cause.code() != value by {}
                return Err(Error::CauseOfDeathFromByte(value));
            },
        };
        proof {
            assert(cause.code() == value);
            lemma_code_injective();
        }
        Ok(cause)
    }
}

impl TryFromSpecImpl<u8> for CauseOfDeath {
    open spec fn obeys_try_from_spec() -> bool {
        true
    }

    open spec fn try_from_spec(value: u8) -> Result<CauseOfDeath, Error> {
        match CauseOfDeath::from_code(value) {
            Some(cause) => Ok(cause),
            None => Err(Error::CauseOfDeathFromByte(value)),
        }
    }
}

impl AsRef<str> for CauseOfDeath {
    /// The canonical name of the cause.
    fn as_ref(&self) -> (name: &str)
        ensures
            name@ == self.wire(),
    {
        self.as_str()
    }
}

impl FromStr for CauseOfDeath {
    type Err = Error;

    /// Reads a cause of death from its canonical name, as
    /// [`CauseOfDeath::from_str`] does.
    fn from_str(input: &str) -> (res: Result<CauseOfDeath, Error>)
        ensures
            match res {
                Ok(cause) => CauseOfDeath::from_wire(input@) == Some(cause),
                Err(error) => CauseOfDeath::from_wire(input@).is_none()
                    && error@ == ErrorView::UnknownCauseOfDeath(input@),
            },
    {
        CauseOfDeath::from_str(input)
    }
}

/// No two causes share a code.
pub proof fn lemma_code_injective()
    ensures
        forall|a: CauseOfDeath, b: CauseOfDeath| a.code() == b.code() ==> a == b,
{
}

/// No two causes share a canonical name.
pub proof fn lemma_wire_injective()
    ensures
        forall|a: CauseOfDeath, b: CauseOfDeath| a.wire() == b.wire() ==> a == b,
{
    reveal_strlit("MOD_SHOTGUN");
    reveal_strlit("MOD_GAUNTLET");
    reveal_strlit("MOD_MACHINEGUN");
    reveal_strlit("MOD_GRENADE");
    reveal_strlit("MOD_GRENADE_SPLASH");
    reveal_strlit("MOD_ROCKET");
    reveal_strlit("MOD_ROCKET_SPLASH");
    reveal_strlit("MOD_PLASMA");
    reveal_strlit("MOD_PLASMA_SPLASH");
    reveal_strlit("MOD_RAILGUN");
    reveal_strlit("MOD_LIGHTNING");
    reveal_strlit("MOD_BFG");
    reveal_strlit("MOD_BFG_SPLASH");
    reveal_strlit("MOD_WATER");
    reveal_strlit("MOD_SLIME");
    reveal_strlit("MOD_LAVA");
    reveal_strlit("MOD_CRUSH");
    reveal_strlit("MOD_TELEFRAG");
    reveal_strlit("MOD_FALLING");
    reveal_strlit("MOD_SUICIDE");
    reveal_strlit("MOD_TARGET_LASER");
    reveal_strlit("MOD_TRIGGER_HURT");
    reveal_strlit("MOD_NAIL");
    reveal_strlit("MOD_CHAINGUN");
    reveal_strlit("MOD_PROXIMITY_MINE");
    reveal_strlit("MOD_KAMIKAZE");
    reveal_strlit("MOD_JUICED");
    reveal_strlit("MOD_GRAPPLE");
    reveal_strlit("MOD_UNKNOWN");
    // The length together with the fifth and the seventh character tells any
    // two names apart.
    assert forall|a: CauseOfDeath, b: CauseOfDeath| a.wire() == b.wire() implies a == b by {
        assert(a.wire().len() == b.wire().len());
        assert(a.wire()[4] == b.wire()[4]);
        assert(a.wire()[6] == b.wire()[6]);
    }
}

/// A cause for every code: the one that has it, where there is one.
spec fn cause_with_code(code: int) -> CauseOfDeath {
    if code == 0 {
        CauseOfDeath::Shotgun
    } else if code == 1 {
        CauseOfDeath::Gauntlet
    } else if code == 2 {
        CauseOfDeath::Machinegun
    } else if code == 3 {
        CauseOfDeath::Grenade
    } else if code == 4 {
        CauseOfDeath::GrenadeSplash
    } else if code == 5 {
        CauseOfDeath::Rocket
    } else if code == 6 {
        CauseOfDeath::RocketSplash
    } else if code == 7 {
        CauseOfDeath::Plasma
    } else if code == 8 {
        CauseOfDeath::PlasmaSplash
    } else if code == 9 {
        CauseOfDeath::Railgun
    } else if code == 10 {
        CauseOfDeath::Lightning
    } else if code == 11 {
        CauseOfDeath::Bfg
    } else if code == 12 {
        CauseOfDeath::BfgSplash
    } else if code == 13 {
        CauseOfDeath::Water
    } else if code == 14 {
        CauseOfDeath::Slime
    } else if code == 15 {
        CauseOfDeath::Lava
    } else if code == 16 {
        CauseOfDeath::Crush
    } else if code == 17 {
        CauseOfDeath::Telefrag
    } else if code == 18 {
        CauseOfDeath::Falling
    } else if code == 19 {
        CauseOfDeath::Suicide
    } else if code == 20 {
        CauseOfDeath::TargetLaser
    } else if code == 21 {
        CauseOfDeath::TriggerHurt
    } else if code == 22 {
        CauseOfDeath::Nail
    } else if code == 23 {
        CauseOfDeath::Chaingun
    } else if code == 24 {
        CauseOfDeath::ProximityMine
    } else if code == 25 {
        CauseOfDeath::Kamikaze
    } else if code == 26 {
        CauseOfDeath::Juiced
    } else if code == 27 {
        CauseOfDeath::Grapple
    } else {
        CauseOfDeath::Unknown
    }
}

/// A canonical name that is read and written again is the same name.
pub proof fn lemma_name_read_then_written(text: Seq<char>)
    requires
        CauseOfDeath::from_wire(text).is_some(),
    ensures
        CauseOfDeath::from_wire(text).unwrap().wire() == text,
{
}

/// A cause whose name is written and read again is the same cause.
pub proof fn lemma_name_written_then_read(cause: CauseOfDeath)
    ensures
        CauseOfDeath::from_wire(cause.wire()) == Some(cause),
{
    lemma_wire_injective();
}

/// Every number below `CAUSES_OF_DEATH` is the code of a cause, and that
/// cause has the number as its code.
pub proof fn lemma_code_read_then_written(code: u8)
    requires
        code < CAUSES_OF_DEATH,
    ensures
        CauseOfDeath::from_code(code).is_some(),
        CauseOfDeath::from_code(code).unwrap().code() == code,
{
    let causes = Seq::new(CAUSES_OF_DEATH as nat, |i: int| cause_with_code(i));
    assert(causes[code as int].code() == code);
}

/// The code of a cause is below `CAUSES_OF_DEATH`, and it is the code of
/// that cause alone.
pub proof fn lemma_code_written_then_read(cause: CauseOfDeath)
    ensures
        cause.code() < CAUSES_OF_DEATH,
        CauseOfDeath::from_code(cause.code()) == Some(cause),
{
    lemma_code_injective();
}

} // verus!
