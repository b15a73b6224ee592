use progrs::events::{Event, Timestamp};
use progrs::recorder::{after_merge, Action, Activity, Conflict, Recorder, Recording, Teardown};

fn t(secs: i64, millis: u32) -> Timestamp {
    // 2024-04-13 20:43:36 UTC
    Timestamp { secs: 1_713_041_016 + secs, nanos: millis * 1_000_000 }
}

fn recorder() -> Recorder {
    Recorder::new("/vid".to_string(), "/usr/bin/rec".to_string(), Some("/usr/bin/mkvmerge".to_string()))
}

#[test]
fn raid_session_end_to_end() {
    let mut r = recorder();
    let mut starts = 0;
    let mut stops = 0;
    let a = r.handle(Event::EncounterStart(t(0, 0), "Heroic_Boss".to_string()));
    match a {
        Action::Start(c) => {
            starts += 1;
            assert_eq!(c.program, "/usr/bin/rec");
            assert_eq!(c.args.len(), 24);
            assert_eq!(c.args[0], "-w");
            assert_eq!(c.args[22], "-o");
            assert_eq!(c.args[23], "/vid/20240413_204336_Heroic_Boss.mkv");
        }
        _ => panic!("expected a start"),
    }
    assert!(matches!(r.handle(Event::PlayerDeath(t(5, 0), "Tank".to_string())), Action::Nothing));
    match r.handle(Event::EncounterEnd) {
        Action::Stop(p) => {
            stops += 1;
            assert_eq!(p.chapters, "CHAPTER01=00:00:05.000\nCHAPTER01NAME=Death: Tank\n");
            assert_eq!(p.capture_file, "/vid/20240413_204336_Heroic_Boss.mkv");
            assert_eq!(p.chapter_file, "/vid/20240413_204336_Heroic_Boss.txt");
            assert_eq!(p.final_file, "/vid/20240413_204336_Heroic_Boss_final.mkv");
            assert_eq!(p.merge.as_deref(), Some("/usr/bin/mkvmerge"));
        }
        _ => panic!("expected a stop"),
    }
    assert_eq!(starts, 1);
    assert_eq!(stops, 1);
    assert!(r.recording.is_none());
}

#[test]
fn dungeon_collects_nested_encounters() {
    let mut r = recorder();
    assert!(matches!(
        r.handle(Event::ChallengeModeStart(t(0, 0), "Ara-Kara".to_string())),
        Action::Start(_)
    ));
    assert!(matches!(r.handle(Event::EncounterStart(t(60, 0), "Avanoxx".to_string())), Action::Nothing));
    assert!(matches!(r.handle(Event::EncounterStart(t(300, 250), "Anubzekt".to_string())), Action::Nothing));
    assert!(matches!(r.handle(Event::EncounterEnd), Action::Ignored(Conflict::NoRaidRecording)));
    assert!(r.recording.as_ref().unwrap().is_mythicplus());
    match r.handle(Event::ChallengeModeEnd) {
        Action::Stop(p) => assert_eq!(
            p.chapters,
            "CHAPTER01=00:01:00.000\nCHAPTER01NAME=Encounter Start: Avanoxx\n\
             CHAPTER02=00:05:00.250\nCHAPTER02NAME=Encounter Start: Anubzekt\n"
        ),
        _ => panic!("expected a stop"),
    }
}

#[test]
fn conflicting_events_are_ignored() {
    let mut r = recorder();
    assert!(matches!(r.handle(Event::EncounterEnd), Action::Ignored(Conflict::NoRaidRecording)));
    assert!(matches!(r.handle(Event::ChallengeModeEnd), Action::Ignored(Conflict::NoDungeonRecording)));
    assert!(matches!(r.handle(Event::PlayerDeath(t(1, 0), "X".to_string())), Action::Nothing));
    assert!(matches!(r.handle(Event::EncounterStart(t(0, 0), "Boss".to_string())), Action::Start(_)));
    assert!(matches!(
        r.handle(Event::EncounterStart(t(2, 0), "Other".to_string())),
        Action::Ignored(Conflict::RaidInProgress)
    ));
    assert!(matches!(
        r.handle(Event::ChallengeModeStart(t(2, 0), "Dungeon".to_string())),
        Action::Ignored(Conflict::ActivityInProgress)
    ));
    assert!(matches!(r.handle(Event::ChallengeModeEnd), Action::Ignored(Conflict::NoDungeonRecording)));
    assert!(r.recording.as_ref().unwrap().is_raid());
}

#[test]
fn interrupt_stops_then_exits() {
    let mut r = recorder();
    assert!(matches!(r.handle(Event::EncounterStart(t(0, 0), "Boss".to_string())), Action::Start(_)));
    assert!(matches!(r.handle(Event::CtrlC), Action::Stop(_)));
    assert!(matches!(r.handle(Event::CtrlC), Action::Exit));
}

#[test]
fn io_failure_exits() {
    let mut r = recorder();
    assert!(matches!(r.handle(Event::IoErr("gone".to_string())), Action::Exit));
}

#[test]
fn out_of_range_time_is_ignored() {
    let mut r = recorder();
    let a = r.handle(Event::EncounterStart(Timestamp { secs: i64::MAX, nanos: 0 }, "Boss".to_string()));
    assert!(matches!(a, Action::Ignored(Conflict::TimeOutOfRange)));
    assert!(r.recording.is_none());
}

#[test]
fn chapters_before_start_and_long_sessions() {
    let mut rec = Recording::new(t(0, 0), "x".to_string(), Activity::Raid("Boss".to_string()));
    rec.add_death(t(-2, 500), "Early".to_string());
    rec.add_death(t(100 * 3600 + 61, 7), "Late".to_string());
    assert_eq!(
        rec.create_chapters(&t(0, 0)),
        "CHAPTER01=00:00:-1.-500\nCHAPTER01NAME=Death: Early\n\
         CHAPTER02=100:01:01.007\nCHAPTER02NAME=Death: Late\n"
    );
}

#[test]
fn chapter_index_keeps_two_digits() {
    let mut rec = Recording::new(t(0, 0), "x".to_string(), Activity::MythicPlus("D".to_string()));
    for i in 0..10 {
        rec.add_encounter(t(i, 0), "E".to_string());
    }
    let text = rec.create_chapters(&t(0, 0));
    assert!(text.starts_with("CHAPTER01=00:00:00.000\n"));
    assert!(text.contains("CHAPTER10=00:00:09.000\nCHAPTER10NAME=Encounter Start: E\n"));
}

#[test]
fn activity_kinds() {
    let raid = Recording::new(t(0, 0), "x".to_string(), Activity::Raid("Boss".to_string()));
    assert!(raid.is_raid() && !raid.is_mythicplus());
    assert_eq!(raid.activity.to_string(), "Boss");
    let dungeon = Recording::new(t(0, 0), "x".to_string(), Activity::MythicPlus("Dungeon".to_string()));
    assert!(dungeon.is_mythicplus() && !dungeon.is_raid());
}

#[test]
fn teardown_steps() {
    let mut r = recorder();
    r.handle(Event::EncounterStart(t(0, 0), "Boss".to_string()));
    let plan = match r.handle(Event::EncounterEnd) {
        Action::Stop(p) => p,
        _ => panic!("expected a stop"),
    };
    assert_eq!(plan.after_capture(false), Teardown::KeepCapture);
    assert_eq!(plan.after_capture(true), Teardown::Merge);
    assert_eq!(
        plan.merge_arguments(),
        vec![
            "--chapters".to_string(),
            "/vid/20240413_204336_Boss.txt".to_string(),
            "-o".to_string(),
            "/vid/20240413_204336_Boss_final.mkv".to_string(),
            "/vid/20240413_204336_Boss.mkv".to_string(),
        ]
    );
    assert_eq!(after_merge(true), Teardown::RemoveIntermediates);
    assert_eq!(after_merge(false), Teardown::KeepIntermediates);

    let mut plain = Recorder::new("/vid".to_string(), "/usr/bin/rec".to_string(), None);
    plain.handle(Event::EncounterStart(t(0, 0), "Boss".to_string()));
    match plain.handle(Event::EncounterEnd) {
        Action::Stop(p) => assert_eq!(p.after_capture(true), Teardown::Done),
        _ => panic!("expected a stop"),
    }
}
