use q3a_muncher::parser::header::parse_header;
use q3a_muncher::{Expected, Header, ParseError};

#[test]
fn parses_headers() {
    assert_eq!(
        parse_header("  1:53 ------------------------------------------------------------"),
        Ok(("", Header::Spacer))
    );

    assert_eq!(
        parse_header("  1:47 ClientBegin: 3"),
        Ok((": 3", Header::ClientBegin))
    );

    assert_eq!(
        parse_header("  0:00 InitGame: \\capturelimit\\8"),
        Ok((": \\capturelimit\\8", Header::InitGame))
    );

    assert_eq!(
        parse_header("  27:14 Exit: Timelimit hit."),
        Ok((": Timelimit hit.", Header::Exit))
    );

    assert_eq!(
        parse_header("  2:33 Item: 4 ammo_shells"),
        Ok((": 4 ammo_shells", Header::Item))
    );

    assert_eq!(
        parse_header("54:21 ShutdownGame:"),
        Ok((":", Header::ShutdownGame))
    );

    assert_eq!(
        parse_header("11:57 score: 20  ping: 4  client: 4 Zeh"),
        Ok((": 20  ping: 4  client: 4 Zeh", Header::Score))
    );

    assert_eq!(
        parse_header("  2:43 Kill: 3 4 10: Isgalamido killed Zeh by MOD_RAILGUN"),
        Ok((
            ": 3 4 10: Isgalamido killed Zeh by MOD_RAILGUN",
            Header::Kill
        ))
    );
}

fn failure(position: usize, expected: Expected) -> ParseError {
    ParseError { position, expected }
}

#[test]
fn every_keyword_has_its_header() {
    assert_eq!(parse_header("0:00 InitGame"), Ok(("", Header::InitGame)));
    assert_eq!(parse_header("0:00 Kill"), Ok(("", Header::Kill)));
    assert_eq!(parse_header("0:00 ClientBegin"), Ok(("", Header::ClientBegin)));
    assert_eq!(
        parse_header("0:00 ClientUserinfoChanged: 2 n\\Isgalamido"),
        Ok((": 2 n\\Isgalamido", Header::ClientUserinfoChanged))
    );
    assert_eq!(parse_header("0:00 ClientConnect: 2"), Ok((": 2", Header::ClientConnect)));
    assert_eq!(parse_header("0:00 ShutdownGame"), Ok(("", Header::ShutdownGame)));
    assert_eq!(parse_header("0:00 score"), Ok(("", Header::Score)));
    assert_eq!(parse_header("0:00 Item"), Ok(("", Header::Item)));
    assert_eq!(parse_header("0:00 Exit"), Ok(("", Header::Exit)));
}

#[test]
fn header_ends_right_behind_its_keyword() {
    assert_eq!(parse_header("0:00 Killer: 1"), Ok(("er: 1", Header::Kill)));
    assert_eq!(parse_header(":Exit"), Ok(("", Header::Exit)));
    assert_eq!(parse_header("1:2\t \nItem 3"), Ok((" 3", Header::Item)));
}

#[test]
fn header_needs_a_timestamp() {
    assert_eq!(parse_header(""), Err(failure(0, Expected::Colon)));
    assert_eq!(parse_header("Kill: 3 4 10: a killed b by MOD_BFG"), Err(failure(0, Expected::Colon)));
    assert_eq!(parse_header("  12 Kill:"), Err(failure(4, Expected::Colon)));
}

#[test]
fn unknown_headers_are_refused() {
    assert_eq!(parse_header("0:00 say: hello"), Err(failure(5, Expected::Header)));
    assert_eq!(parse_header("0:00 kill: 1 2 3:"), Err(failure(5, Expected::Header)));
    assert_eq!(parse_header("0:00 Score: 20"), Err(failure(5, Expected::Header)));
    assert_eq!(parse_header("0:00 Kil"), Err(failure(5, Expected::Header)));
    assert_eq!(parse_header("0:00"), Err(failure(4, Expected::Header)));
    assert_eq!(parse_header(" 0:00   "), Err(failure(8, Expected::Header)));
}

#[test]
fn spacer_header_is_exactly_sixty_hyphens() {
    assert_eq!(parse_header(&format!("981:39 {}", "-".repeat(60))), Ok(("", Header::Spacer)));
    assert_eq!(parse_header(&format!("0:00 {} x", "-".repeat(60))), Ok((" x", Header::Spacer)));
    assert_eq!(
        parse_header(&format!("0:00 {}", "-".repeat(59))),
        Err(failure(5, Expected::Header))
    );
    assert_eq!(
        parse_header(&format!("0:00 {}", "-".repeat(61))),
        Err(failure(5, Expected::Header))
    );
}
