use progrs::events::{Event, Timestamp};
use progrs::parser::{ParseError, Parser};

fn ts(h: u32, m: u32, s: u32, ms: u32) -> Timestamp {
    let dt = chrono::NaiveDate::from_ymd_opt(2024, 4, 13)
        .unwrap()
        .and_hms_milli_opt(h, m, s, ms)
        .unwrap()
        .and_utc();
    Timestamp { secs: dt.timestamp(), nanos: dt.timestamp_subsec_nanos() }
}

const START: &str = "4/13/2024 20:43:36.411  ENCOUNTER_START,2902,\"Ulgrax the Devourer\",16,20,2657\n";
const END: &str = "4/13/2024 20:50:00.000  ENCOUNTER_END,2902,\"Ulgrax the Devourer\",16,20,1,380000\n";
const NOISE: &str = "4/13/2024 20:44:00.000  SPELL_CAST_SUCCESS,Player-1-A,\"Someone\",0x511,0x0\n";

fn death(name: &str, flag: &str, last: &str) -> String {
    format!(
        "4/13/2024 20:45:01.123  UNIT_DIED,0000000000000000,nil,0x80000000,0x80000000,Player-1234-0ABCDEF0,\"{name}\",{flag},0x0,{last}\n"
    )
}

fn parse(s: &str) -> Result<(Vec<Event>, usize), ParseError> {
    Parser::new().parse(s.as_bytes()).map(|p| (p.events, p.consumed))
}

fn is_start(e: &Event, t: Timestamp, name: &str) -> bool {
    matches!(e, Event::EncounterStart(et, n) if *et == t && n == name)
}

fn is_death(e: &Event, name: &str) -> bool {
    matches!(e, Event::PlayerDeath(t, n) if *t == ts(20, 45, 1, 123) && n == name)
}

#[test]
fn single_start_line_is_reported() {
    let buf = format!("{NOISE}{START}");
    let (events, consumed) = parse(&buf).unwrap();
    assert_eq!(events.len(), 1);
    assert!(is_start(&events[0], ts(20, 43, 36, 411), "Ulgrax_the_Devourer"));
    assert_eq!(consumed, buf.len());
}

#[test]
fn start_then_end_over_two_reads() {
    let (events, consumed) = parse(START).unwrap();
    assert_eq!(events.len(), 1);
    assert_eq!(consumed, START.len());
    let second = format!("{}{NOISE}{}{END}", death("Tank-Realm", "0x514", "0"), death("Healer-Realm", "0x514", "0"));
    let (events, consumed) = parse(&second).unwrap();
    assert_eq!(events.len(), 3);
    assert!(is_death(&events[0], "Tank-Realm"));
    assert!(is_death(&events[1], "Healer-Realm"));
    assert!(matches!(events[2], Event::EncounterEnd));
    assert_eq!(consumed, second.len());
}

#[test]
fn closed_encounter_in_one_read_is_skipped() {
    let buf = format!("{START}{}{END}", death("Tank-Realm", "0x514", "0"));
    let (events, consumed) = parse(&buf).unwrap();
    assert!(events.is_empty());
    assert_eq!(consumed, buf.len());
}

#[test]
fn superseded_pair_is_not_reported() {
    let fresh = "4/13/2024 21:00:00.000  ENCOUNTER_START,2917,\"The Bloodbound Horror\",16,20,2657\n";
    let buf = format!("{START}{}{END}{NOISE}{fresh}", death("Tank-Realm", "0x514", "0"));
    let (events, _) = parse(&buf).unwrap();
    assert_eq!(events.len(), 1);
    assert!(is_start(&events[0], ts(21, 0, 0, 0), "The_Bloodbound_Horror"));
}

#[test]
fn deaths_without_start_are_reported() {
    let buf = format!("{NOISE}{}", death("Tank-Realm", "0x514", "0"));
    let (events, _) = parse(&buf).unwrap();
    assert_eq!(events.len(), 1);
    assert!(is_death(&events[0], "Tank-Realm"));
}

#[test]
fn death_needs_both_flag_bits_and_conscious_unit() {
    let (e, _) = parse(&death("A-R", "0x514", "0")).unwrap();
    assert_eq!(e.len(), 1);
    let (e, _) = parse(&death("A-R", "0x100", "0")).unwrap();
    assert!(e.is_empty());
    let (e, _) = parse(&death("A-R", "0x400", "0")).unwrap();
    assert!(e.is_empty());
    let (e, _) = parse(&death("A-R", "0x514", "1")).unwrap();
    assert!(e.is_empty());
}

#[test]
fn death_tolerates_carriage_return() {
    let line = death("A-R", "0x514", "0").replace('\n', "\r\n");
    let (e, _) = parse(&line).unwrap();
    assert_eq!(e.len(), 1);
}

#[test]
fn unterminated_line_is_kept() {
    let buf = format!("{NOISE}4/13/2024 20:45:01.123  UNIT_DI");
    let (events, consumed) = parse(&buf).unwrap();
    assert!(events.is_empty());
    assert_eq!(consumed, NOISE.len());
}

#[test]
fn unterminated_start_waits_for_its_line_end() {
    let partial = &START[..START.len() - 1];
    let (events, consumed) = parse(partial).unwrap();
    assert!(events.is_empty());
    assert_eq!(consumed, 0);
}

#[test]
fn rest_parses_to_nothing() {
    let buf = format!("{START}{}4/13/2024 20:46", death("A-R", "0x514", "0"));
    let (events, consumed) = parse(&buf).unwrap();
    assert_eq!(events.len(), 2);
    let (again, consumed_again) = parse(&buf[consumed..]).unwrap();
    assert!(again.is_empty());
    assert_eq!(consumed_again, 0);
}

#[test]
fn empty_buffer() {
    let (events, consumed) = parse("").unwrap();
    assert!(events.is_empty());
    assert_eq!(consumed, 0);
}

#[test]
fn malformed_time_is_an_error() {
    let r = parse("13/45/2024 20:43:36.411  ENCOUNTER_START,2902,\"Boss\",16,20,2657\n");
    assert_eq!(r.err(), Some(ParseError::Timestamp));
    let r = parse("ENCOUNTER_START,2902,\"Boss\",16,20,2657\n");
    assert_eq!(r.err(), Some(ParseError::Timestamp));
}

#[test]
fn missing_name_is_an_error() {
    let r = parse("4/13/2024 20:43:36.411  ENCOUNTER_START,2902,Boss,16,20,2657\n");
    assert_eq!(r.err(), Some(ParseError::Name));
}

#[test]
fn malformed_flags_are_an_error() {
    let r = parse(&death("A-R", "0xZZ", "0"));
    assert_eq!(r.err(), Some(ParseError::Flags));
    let r = parse("4/13/2024 20:45:01.123  UNIT_DIED,0,nil,0x0,0x0,Player-1-A,\"A-R\"\n");
    assert_eq!(r.err(), Some(ParseError::Flags));
}

#[test]
fn start_name_must_be_utf8() {
    let mut buf = b"4/13/2024 20:43:36.411  ENCOUNTER_START,2902,\"Bad ".to_vec();
    buf.push(0xff);
    buf.extend_from_slice(b"\",16,20,2657\n");
    let r = Parser::new().parse(&buf);
    assert_eq!(r.err(), Some(ParseError::Name));
}

#[test]
fn player_name_is_decoded_lossily() {
    let mut buf = b"4/13/2024 20:45:01.123  UNIT_DIED,0,nil,0x0,0x0,Player-1-A,\"T".to_vec();
    buf.push(0xff);
    buf.extend_from_slice(b"\",0x514,0x0,0\n");
    let p = Parser::new().parse(&buf).unwrap();
    assert_eq!(p.events.len(), 1);
    assert!(matches!(&p.events[0], Event::PlayerDeath(_, n) if n == "T\u{fffd}"));
}
