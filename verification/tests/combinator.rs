use q3a_muncher::parser::combinator::{
    parse_decimals, parse_kill, parse_kill_message, parse_kill_metadata, parse_spacer_line,
    parse_timestamp, parse_ws,
};
use q3a_muncher::{CauseOfDeath, Expected, KillMessage, ParseError};

#[test]
fn parses_kill_message() {
    assert_eq!(
        parse_kill_message("<world> killed Isgalamido by MOD_TRIGGER_HURT"),
        Ok((
            "",
            KillMessage {
                attacker: "<world>",
                victim: "Isgalamido",
                cause_of_death: CauseOfDeath::TriggerHurt,
            }
        ))
    );

    assert_eq!(
        parse_kill_message("<world> killed Dono da Bola by MOD_FALLING"),
        Ok((
            "",
            KillMessage {
                attacker: "<world>",
                victim: "Dono da Bola",
                cause_of_death: CauseOfDeath::Falling,
            }
        ))
    );
}

#[test]
fn parses_timestamps() {
    assert_eq!(parse_timestamp(" 5:40"), Ok(("", ("5", "40"))));

    assert_eq!(parse_timestamp("20:00 "), Ok((" ", ("20", "00"))));
}

#[test]
fn parses_kill_metadata() {
    assert_eq!(
        parse_kill_metadata(": 1022 2 22:"),
        Ok(("", ("1022", "2", "22")))
    )
}

fn hyphens(count: usize) -> String {
    "-".repeat(count)
}

fn failure(position: usize, expected: Expected) -> ParseError {
    ParseError { position, expected }
}

#[test]
fn spacer_line_is_exactly_sixty_hyphens() {
    let sixty = hyphens(60);
    assert_eq!(parse_spacer_line(&sixty), Ok(("", sixty.as_str())));

    assert_eq!(parse_spacer_line(&hyphens(59)), Err(failure(0, Expected::Spacer)));
    assert_eq!(parse_spacer_line(&hyphens(61)), Err(failure(0, Expected::Spacer)));
    assert_eq!(parse_spacer_line(&hyphens(120)), Err(failure(0, Expected::Spacer)));
    assert_eq!(parse_spacer_line(""), Err(failure(0, Expected::Spacer)));
}

#[test]
fn spacer_line_stops_at_the_first_other_character() {
    let line = format!("{} InitGame", hyphens(60));
    assert_eq!(parse_spacer_line(&line), Ok((" InitGame", hyphens(60).as_str())));

    let broken = format!("{}_{}", hyphens(30), hyphens(29));
    assert_eq!(parse_spacer_line(&broken), Err(failure(0, Expected::Spacer)));

    let late = format!(" {}", hyphens(60));
    assert_eq!(parse_spacer_line(&late), Err(failure(0, Expected::Spacer)));
}

#[test]
fn blanks_are_the_five_of_the_grammar() {
    assert_eq!(parse_ws(" \t\n\x0C\r x "), Ok(("x ", " \t\n\x0C\r ")));
    assert_eq!(parse_ws("x "), Ok(("x ", "")));
    assert_eq!(parse_ws(""), Ok(("", "")));
    assert_eq!(parse_ws("   "), Ok(("", "   ")));
    // Neither the vertical tab nor the no-break space is one of them.
    assert_eq!(parse_ws("\x0Bx"), Ok(("\x0Bx", "")));
    assert_eq!(parse_ws(" \u{a0}x"), Ok(("\u{a0}x", " ")));
}

#[test]
fn decimals_may_be_empty() {
    assert_eq!(parse_decimals("1022 2"), Ok((" 2", "1022")));
    assert_eq!(parse_decimals("007"), Ok(("", "007")));
    assert_eq!(parse_decimals("x1"), Ok(("x1", "")));
    assert_eq!(parse_decimals(""), Ok(("", "")));
    assert_eq!(parse_decimals("-1"), Ok(("-1", "")));
    // Digits of other scripts are no decimal digits.
    assert_eq!(parse_decimals("\u{663}4"), Ok(("\u{663}4", "")));
}

#[test]
fn timestamp_needs_its_colon_only() {
    assert_eq!(parse_timestamp(":"), Ok(("", ("", ""))));
    assert_eq!(parse_timestamp(" \t 981:39 ShutdownGame:"), Ok((" ShutdownGame:", ("981", "39"))));
    assert_eq!(parse_timestamp("3:x"), Ok(("x", ("3", ""))));
    assert_eq!(parse_timestamp("1:2:3"), Ok((":3", ("1", "2"))));

    assert_eq!(parse_timestamp(""), Err(failure(0, Expected::Colon)));
    assert_eq!(parse_timestamp("12"), Err(failure(2, Expected::Colon)));
    assert_eq!(parse_timestamp("  12x:30"), Err(failure(4, Expected::Colon)));
    assert_eq!(parse_timestamp("12 :30"), Err(failure(2, Expected::Colon)));
    assert_eq!(parse_timestamp("Kill: 1 2 3:"), Err(failure(0, Expected::Colon)));
}

#[test]
fn kill_metadata_is_three_numbers_between_colons() {
    assert_eq!(parse_kill_metadata(": 6 2 7: Zeh"), Ok((" Zeh", ("6", "2", "7"))));
    assert_eq!(parse_kill_metadata(":6 2 7:"), Ok(("", ("6", "2", "7"))));
    assert_eq!(parse_kill_metadata(": \t 10 20 30::"), Ok((":", ("10", "20", "30"))));

    assert_eq!(parse_kill_metadata(""), Err(failure(0, Expected::Colon)));
    assert_eq!(parse_kill_metadata("1022 2 22:"), Err(failure(0, Expected::Colon)));
    assert_eq!(parse_kill_metadata(" : 1 2 3:"), Err(failure(0, Expected::Colon)));
    assert_eq!(parse_kill_metadata(": x 2 22:"), Err(failure(2, Expected::Digits)));
    assert_eq!(parse_kill_metadata(":"), Err(failure(1, Expected::Digits)));
    assert_eq!(parse_kill_metadata(": 1022"), Err(failure(6, Expected::Space)));
    assert_eq!(parse_kill_metadata(": 1022\t2 22:"), Err(failure(6, Expected::Space)));
    assert_eq!(parse_kill_metadata(": 1022  22:"), Err(failure(7, Expected::Digits)));
    assert_eq!(parse_kill_metadata(":  2 22:"), Err(failure(7, Expected::Space)));
    assert_eq!(parse_kill_metadata(": 1022 2 :"), Err(failure(9, Expected::Digits)));
    assert_eq!(parse_kill_metadata(": 1022 2 22"), Err(failure(11, Expected::Colon)));
    assert_eq!(parse_kill_metadata(": 1022 2 22 :"), Err(failure(11, Expected::Colon)));
    assert_eq!(parse_kill_metadata(": 1022 2 -22:"), Err(failure(9, Expected::Digits)));
}

#[test]
fn kill_message_takes_names_as_they_stand() {
    assert_eq!(
        parse_kill_message(" \t Assasinu Credi killed Zeh by MOD_ROCKET_SPLASH\n"),
        Ok((
            "\n",
            KillMessage {
                attacker: "Assasinu Credi",
                victim: "Zeh",
                cause_of_death: CauseOfDeath::RocketSplash,
            }
        ))
    );
    assert_eq!(
        parse_kill_message("Z\u{e9} killed \u{dc}n\u{ef} by MOD_BFG and more"),
        Ok((
            " and more",
            KillMessage {
                attacker: "Z\u{e9}",
                victim: "\u{dc}n\u{ef}",
                cause_of_death: CauseOfDeath::Bfg,
            }
        ))
    );
    // Only the blanks before the attacker are skipped.
    assert_eq!(
        parse_kill_message("a  killed  b  by MOD_LAVA"),
        Ok((
            "",
            KillMessage { attacker: "a ", victim: " b ", cause_of_death: CauseOfDeath::Lava }
        ))
    );
}

#[test]
fn kill_message_cuts_a_name_at_the_first_separator() {
    assert_eq!(
        parse_kill_message("x killed y killed z by MOD_CRUSH"),
        Ok((
            "",
            KillMessage { attacker: "x", victim: "y killed z", cause_of_death: CauseOfDeath::Crush }
        ))
    );
    assert_eq!(
        parse_kill_message("a killed stand by MOD_NAIL by MOD_ROCKET"),
        Ok((
            " by MOD_ROCKET",
            KillMessage { attacker: "a", victim: "stand", cause_of_death: CauseOfDeath::Nail }
        ))
    );
    assert_eq!(
        parse_kill_message("a killed stand by me by MOD_ROCKET"),
        Err(failure(18, Expected::KnownCause))
    );
}

#[test]
fn kill_message_failures() {
    assert_eq!(parse_kill_message(""), Err(failure(0, Expected::Killed)));
    assert_eq!(parse_kill_message("  Zeh slew Mal"), Err(failure(2, Expected::Killed)));
    assert_eq!(parse_kill_message("Zeh Killed Mal by MOD_ROCKET"), Err(failure(0, Expected::Killed)));
    // The blank before `killed` is taken for a leading one: no attacker.
    assert_eq!(parse_kill_message(" killed Mal by MOD_ROCKET"), Err(failure(1, Expected::Killed)));
    assert_eq!(parse_kill_message("Zeh killed Mal"), Err(failure(11, Expected::By)));
    assert_eq!(parse_kill_message("Zeh killed  by MOD_ROCKET"), Err(failure(11, Expected::By)));
    assert_eq!(parse_kill_message("Zeh killed Mal by "), Err(failure(18, Expected::CauseToken)));
    assert_eq!(parse_kill_message("Zeh killed Mal by  MOD_ROCKET"), Err(failure(18, Expected::CauseToken)));
    assert_eq!(parse_kill_message("Zeh killed Mal by MOD_NOPE"), Err(failure(18, Expected::KnownCause)));
    assert_eq!(parse_kill_message("Zeh killed Mal by mod_rocket"), Err(failure(18, Expected::KnownCause)));
    assert_eq!(parse_kill_message("Zeh killed Mal by MOD_ROCKET,"), Err(failure(18, Expected::KnownCause)));
}

#[test]
fn kill_is_metadata_then_message() {
    assert_eq!(
        parse_kill(": 1022 2 22: <world> killed Isgalamido by MOD_TRIGGER_HURT"),
        Ok((
            "",
            KillMessage {
                attacker: "<world>",
                victim: "Isgalamido",
                cause_of_death: CauseOfDeath::TriggerHurt,
            }
        ))
    );
    assert_eq!(
        parse_kill(": 3 4 10: Isgalamido killed Zeh by MOD_RAILGUN \r\n"),
        Ok((
            " \r\n",
            KillMessage {
                attacker: "Isgalamido",
                victim: "Zeh",
                cause_of_death: CauseOfDeath::Railgun,
            }
        ))
    );
    assert_eq!(parse_kill(" 3 4 10: a killed b by MOD_BFG"), Err(failure(0, Expected::Colon)));
    assert_eq!(parse_kill(": 3 4 10: a slew b"), Err(failure(10, Expected::Killed)));
    assert_eq!(parse_kill(": 3 4 10: a killed b by MOD_BFG_"), Err(failure(24, Expected::KnownCause)));
}
