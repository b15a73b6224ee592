use progrs::config::{executable, FileFacts};
use progrs::events::Event;
use progrs::follower::{newest_log, starts_with, DirEntryInfo, Follower};

fn entry(name: &str, is_file: bool, modified: u128) -> DirEntryInfo {
    DirEntryInfo { name: name.as_bytes().to_vec(), is_file, modified }
}

#[test]
fn newest_log_file_is_chosen() {
    let entries = vec![
        entry("WoWCombatLog-1.txt", true, 10),
        entry("WoWCombatLog-3.txt", true, 30),
        entry("other.txt", true, 99),
        entry("WoWCombatLog-dir", false, 99),
        entry("WoWCombatLog-2.txt", true, 20),
    ];
    assert_eq!(newest_log(&entries, b"WoWCombatLog-"), Some(1));
    let tie = vec![entry("WoWCombatLog-a", true, 5), entry("WoWCombatLog-b", true, 5)];
    assert_eq!(newest_log(&tie, b"WoWCombatLog-"), Some(1));
    assert_eq!(newest_log(&vec![entry("x", true, 1)], b"WoWCombatLog-"), None);
    assert_eq!(newest_log(&vec![], b"WoWCombatLog-"), None);
}

#[test]
fn prefix_test() {
    assert!(starts_with(b"WoWCombatLog-1.txt", b"WoWCombatLog-"));
    assert!(!starts_with(b"WoWCombat", b"WoWCombatLog-"));
    assert!(starts_with(b"anything", b""));
}

#[test]
fn partial_lines_wait_for_the_next_read() {
    let mut f = Follower::new(b"WoWCombatLog-".to_vec(), b"WoWCombatLog-1.txt".to_vec());
    let line = "4/13/2024 20:43:36.411  ENCOUNTER_START,2902,\"Ulgrax the Devourer\",16,20,2657\n";
    let (a, b) = line.split_at(30);
    assert!(f.on_data(a.as_bytes()).unwrap().is_empty());
    let events = f.on_data(b.as_bytes()).unwrap();
    assert_eq!(events.len(), 1);
    assert!(matches!(&events[0], Event::EncounterStart(_, n) if n == "Ulgrax_the_Devourer"));
    assert!(f.on_data(b"").unwrap().is_empty());
}

#[test]
fn rotation_switches_file_and_drops_rest() {
    let mut f = Follower::new(b"WoWCombatLog-".to_vec(), b"WoWCombatLog-1.txt".to_vec());
    assert!(f.on_data(b"4/13/2024 20:43:36.411  ENCOUNTER_ST").unwrap().is_empty());
    assert!(!f.on_created(b"notes.txt"));
    assert_eq!(f.file(), b"WoWCombatLog-1.txt");
    assert!(f.on_created(b"WoWCombatLog-2.txt"));
    assert_eq!(f.file(), b"WoWCombatLog-2.txt");
    assert!(f.on_data(b"ART,2902,\"Boss\",16,20,2657\n").unwrap().is_empty());
}

#[test]
fn executable_verdicts() {
    assert_eq!(executable(None), Err("Could not determine metadata"));
    assert_eq!(executable(Some(FileFacts { is_file: false, mode: 0o755 })), Err("not a file"));
    assert_eq!(executable(Some(FileFacts { is_file: true, mode: 0o644 })), Err("not executable"));
    assert_eq!(executable(Some(FileFacts { is_file: true, mode: 0o100 })), Ok(()));
}
