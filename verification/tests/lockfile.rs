use scrimora_link::lockfile::{credentials_from_contents, parse_lockfile_contents, select_lockfile, LockfileError};
use scrimora_link::text::IntErrorKind;

#[test]
fn parses_the_standard_league_lockfile_shape() {
    let (port, password, protocol) =
        parse_lockfile_contents("LeagueClientUx:14752:51923:s3cr3t:https")
            .expect("lockfile to parse");

    assert_eq!(port, 51923);
    assert_eq!(password, "s3cr3t");
    assert_eq!(protocol, "https");
}

#[test]
fn trims_the_contents_before_splitting() {
    let creds = credentials_from_contents("  LeagueClient:1:8080:pw:http\r\n").unwrap();
    assert_eq!(creds.port, 8080);
    assert_eq!(creds.password, "pw");
    assert_eq!(creds.protocol, "http");
}

#[test]
fn rejects_the_wrong_number_of_fields() {
    let err = parse_lockfile_contents("a:b:1:c").unwrap_err();
    assert_eq!(err, LockfileError::UnrecognizedFormat);
    assert_eq!(err.message(), "The League lockfile format was not recognized.");
    assert_eq!(parse_lockfile_contents("a:b:1:c:d:e").unwrap_err(), LockfileError::UnrecognizedFormat);
}

#[test]
fn reports_port_errors_as_integer_parsing_does() {
    assert_eq!(
        parse_lockfile_contents("a:b::c:d").unwrap_err(),
        LockfileError::InvalidPort(IntErrorKind::Empty)
    );
    assert_eq!(
        parse_lockfile_contents("a:b:12x:c:d").unwrap_err(),
        LockfileError::InvalidPort(IntErrorKind::InvalidDigit)
    );
    assert_eq!(
        parse_lockfile_contents("a:b:65536:c:d").unwrap_err(),
        LockfileError::InvalidPort(IntErrorKind::PosOverflow)
    );
    assert_eq!(
        parse_lockfile_contents("a:b:-1:c:d").unwrap_err(),
        LockfileError::InvalidPort(IntErrorKind::InvalidDigit)
    );
    assert_eq!(parse_lockfile_contents("a:b:+65535:c:d").unwrap().0, 65535);
    for (text, kind) in [
        ("", IntErrorKind::Empty),
        ("+", IntErrorKind::InvalidDigit),
        ("x", IntErrorKind::InvalidDigit),
        ("99999x", IntErrorKind::PosOverflow),
        ("9x9999", IntErrorKind::InvalidDigit),
    ] {
        let std_kind = text.parse::<u16>().unwrap_err();
        let expected = match std_kind.kind() {
            std::num::IntErrorKind::Empty => IntErrorKind::Empty,
            std::num::IntErrorKind::InvalidDigit => IntErrorKind::InvalidDigit,
            std::num::IntErrorKind::PosOverflow => IntErrorKind::PosOverflow,
            _ => unreachable!(),
        };
        assert_eq!(expected, kind);
        let contents = format!("a:b:{text}:c:d");
        assert_eq!(parse_lockfile_contents(&contents).unwrap_err(), LockfileError::InvalidPort(kind));
        assert_eq!(LockfileError::InvalidPort(kind).message(), std_kind.to_string());
    }
}

#[test]
fn selects_the_single_running_client() {
    assert_eq!(select_lockfile(&vec![]), Err(LockfileError::NoClientFound));
    assert_eq!(
        LockfileError::NoClientFound.message(),
        "No running League client lockfile was found."
    );
    let a = b"/games/League/lockfile".to_vec();
    let b = b"/other/League/lockfile".to_vec();
    assert_eq!(select_lockfile(&vec![a.clone(), a.clone()]), Ok(0));
    assert_eq!(select_lockfile(&vec![a.clone(), b.clone()]), Err(LockfileError::MultipleClients));
    assert_eq!(
        LockfileError::MultipleClients.message(),
        "Multiple running League clients were detected. Scrimora Link currently supports one client at a time."
    );
}

#[test]
fn a_written_lockfile_line_reads_back() {
    for port in [0u16, 7, 80, 51923, 65535] {
        for (password, protocol) in [("s3cr3t", "https"), ("", "http"), ("pässwörd", "h")] {
            let line = format!("LeagueClient:1234:{port}:{password}:{protocol}");
            let (p, pw, proto) = parse_lockfile_contents(&line).unwrap();
            assert_eq!((p, pw.as_str(), proto.as_str()), (port, password, protocol));
        }
    }
}
