//! The session manager: starts and stops recordings as events arrive.
use vstd::prelude::*;
use vstd::string::StringExecFns;
use crate::chapters::{chapters_text, push_entry};
use crate::events::{Event, EventModel, Timestamp, models, lemma_models_push};

verus! {

/// What is being recorded.
pub enum Activity {
    /// A raid boss, with its name.
    Raid(String),
    /// A timed dungeon, with its name.
    MythicPlus(String),
}

/// The mathematical content of an [`Activity`].
pub enum ActivityModel {
    Raid(Seq<char>),
    MythicPlus(Seq<char>),
}

impl ActivityModel {
    pub open spec fn name(self) -> Seq<char> {
        match self {
            ActivityModel::Raid(s) => s,
            ActivityModel::MythicPlus(s) => s,
        }
    }
}

impl View for Activity {
    type V = ActivityModel;

    open spec fn view(&self) -> ActivityModel {
        match self {
            Activity::Raid(s) => ActivityModel::Raid(s@),
            Activity::MythicPlus(s) => ActivityModel::MythicPlus(s@),
        }
    }
}

impl Activity {
    /// The display name of the activity.
    pub fn to_string(&self) -> (r: String)
        ensures
            r@ == self@.name(),
    {
        match self {
            Activity::Raid(s) => s.clone(),
            Activity::MythicPlus(s) => s.clone(),
        }
    }
}

/// A recording in progress.
pub struct Recording {
    starttime: Timestamp,
    filename: String,
    events: Vec<Event>,
    pub activity: Activity,
}

/// The mathematical content of a [`Recording`].
pub struct RecordingModel {
    pub starttime: Timestamp,
    pub filename: Seq<char>,
    pub events: Seq<EventModel>,
    pub activity: ActivityModel,
}

impl View for Recording {
    type V = RecordingModel;

    closed spec fn view(&self) -> RecordingModel {
        RecordingModel {
            starttime: self.starttime,
            filename: self.filename@,
            events: models(self.events@),
            activity: self.activity@,
        }
    }
}

/// `r` with one more chapter-worthy event.
pub open spec fn with_event(r: RecordingModel, e: EventModel) -> RecordingModel {
    RecordingModel {
        starttime: r.starttime,
        filename: r.filename,
        events: r.events.push(e),
        activity: r.activity,
    }
}

impl Recording {
    pub fn new(starttime: Timestamp, filename: String, activity: Activity) -> (r: Self)
        ensures
            r@ == (RecordingModel {
                starttime,
                filename: filename@,
                events: seq![],
                activity: activity@,
            }),
    {
        let r = Recording { starttime, filename, events: Vec::new(), activity };
        assert(models(r.events@) =~= seq![]);
        r
    }

    pub fn is_raid(&self) -> (r: bool)
        ensures
            r == self@.activity is Raid,
    {
        match self.activity {
            Activity::Raid(_) => true,
            Activity::MythicPlus(_) => false,
        }
    }

    pub fn is_mythicplus(&self) -> (r: bool)
        ensures
            r == self@.activity is MythicPlus,
    {
        match self.activity {
            Activity::Raid(_) => false,
            Activity::MythicPlus(_) => true,
        }
    }

    /// Records a player's death as a chapter.
    pub fn add_death(&mut self, datetime: Timestamp, name: String)
        ensures
            final(self)@ == with_event(old(self)@, EventModel::PlayerDeath(datetime, name@)),
    {
        let ev = Event::PlayerDeath(datetime, name);
        proof {
            lemma_models_push(self.events@, ev);
        }
        self.events.push(ev);
    }

    /// Records the start of an encounter inside the activity as a chapter.
    pub fn add_encounter(&mut self, datetime: Timestamp, name: String)
        ensures
            final(self)@ == with_event(old(self)@, EventModel::EncounterStart(datetime, name@)),
    {
        let ev = Event::EncounterStart(datetime, name);
        proof {
            lemma_models_push(self.events@, ev);
        }
        self.events.push(ev);
    }

    /// The chapter file of the recorded events, with times relative to `starttime`.
    pub fn create_chapters(&self, starttime: &Timestamp) -> (r: String)
        ensures
            r@ == chapters_text(self@.events, *starttime),
    {
        let mut s = String::new();
        let mut i: usize = 0;
        let n = self.events.len();
        while i < n
            invariant
                i <= n == self.events@.len(),
                s@ == chapters_text(models(self.events@).subrange(0, i as int), *starttime),
            decreases n - i,
        {
            let ghost evs = models(self.events@);
            push_entry(&mut s, i + 1, &self.events[i], *starttime);
            assert(evs.subrange(0, i + 1).drop_last() =~= evs.subrange(0, i as int));
            i = i + 1;
        }
        assert(models(self.events@).subrange(0, n as int) =~= models(self.events@));
        s
    }
}

/// The file-name stamp `%Y%m%d_%H%M%S` that chrono writes for `t`, if chrono
/// can represent `t`.
pub uninterp spec fn file_stamp_of(t: Timestamp) -> Option<Seq<char>>;

/// Relies on chrono::DateTime::from_timestamp and its `format` with
/// `%Y%m%d_%H%M%S`: the stamp depends on the time alone.
#[verifier::external_body]
fn file_stamp(t: Timestamp) -> (r: Option<String>)
    ensures
        match r {
            Some(s) => file_stamp_of(t) == Some(s@),
            None => file_stamp_of(t).is_none(),
        },
{
    match chrono::DateTime::from_timestamp(t.secs, t.nanos) {
        Some(d) => Some(d.format("%Y%m%d_%H%M%S").to_string()),
        None => None,
    }
}

/// The views of a sequence of strings.
pub open spec fn texts(v: Seq<String>) -> Seq<Seq<char>> {
    v.map_values(|s: String| s@)
}

/// The base name of a recording: its stamp and the activity's name.
pub open spec fn recording_name(stamp: Seq<char>, act: ActivityModel) -> Seq<char> {
    stamp + "_"@ + act.name()
}

/// `<viddir>/<base><suffix>`.
pub open spec fn video_path(viddir: Seq<char>, base: Seq<char>, suffix: Seq<char>) -> Seq<char> {
    viddir + "/"@ + base + suffix
}

/// The arguments of the capture program, ending with the output file.
pub open spec fn capture_args(output: Seq<char>) -> Seq<Seq<char>> {
    seq![
        "-w"@, "DisplayPort-0"@, "-c"@, "mkv"@, "-k"@, "hevc"@, "-ac"@, "opus"@, "-f"@, "60"@,
        "-cursor"@, "yes"@, "-restore-portal-session"@, "yes"@, "-cr"@, "limited"@, "-encoder"@,
        "gpu"@, "-q"@, "very_high"@, "-a"@, "device:default_output"@, "-o"@, output,
    ]
}

/// How to start the capture program.
pub struct CaptureStart {
    pub program: String,
    pub args: Vec<String>,
}

pub struct CaptureModel {
    pub program: Seq<char>,
    pub args: Seq<Seq<char>>,
}

impl View for CaptureStart {
    type V = CaptureModel;

    open spec fn view(&self) -> CaptureModel {
        CaptureModel { program: self.program@, args: texts(self.args@) }
    }
}

/// What to do once a recording is stopped: the chapter text, the files
/// involved and the merge program, if one is configured.
pub struct StopPlan {
    pub chapters: String,
    pub capture_file: String,
    pub chapter_file: String,
    pub final_file: String,
    pub merge: Option<String>,
}

pub struct StopModel {
    pub chapters: Seq<char>,
    pub capture_file: Seq<char>,
    pub chapter_file: Seq<char>,
    pub final_file: Seq<char>,
    pub merge: Option<Seq<char>>,
}

/// The view of an optional string.
pub open spec fn opt_text(o: Option<String>) -> Option<Seq<char>> {
    match o {
        Some(s) => Some(s@),
        None => None,
    }
}

impl View for StopPlan {
    type V = StopModel;

    open spec fn view(&self) -> StopModel {
        StopModel {
            chapters: self.chapters@,
            capture_file: self.capture_file@,
            chapter_file: self.chapter_file@,
            final_file: self.final_file@,
            merge: opt_text(self.merge),
        }
    }
}

/// The plan for stopping the recording `rec`.
pub open spec fn stop_model(viddir: Seq<char>, merge: Option<Seq<char>>, rec: RecordingModel) -> StopModel {
    StopModel {
        chapters: chapters_text(rec.events, rec.starttime),
        capture_file: video_path(viddir, rec.filename, ".mkv"@),
        chapter_file: video_path(viddir, rec.filename, ".txt"@),
        final_file: video_path(viddir, rec.filename, "_final.mkv"@),
        merge,
    }
}

/// The next step of tearing a recording down.
#[derive(Clone, Copy, PartialEq, Eq, Debug)]
pub enum Teardown {
    /// The capture program failed: keep what it wrote and merge nothing.
    KeepCapture,
    /// No merge program is configured: nothing more to do.
    Done,
    /// Write the chapter file and run the merge program.
    Merge,
    /// The merge succeeded: remove the capture and chapter files.
    RemoveIntermediates,
    /// The merge failed: keep the capture and chapter files.
    KeepIntermediates,
}

impl StopPlan {
    /// The arguments of the merge program.
    pub fn merge_arguments(&self) -> (r: Vec<String>)
        ensures
            texts(r@) == seq!["--chapters"@, self.chapter_file@, "-o"@, self.final_file@, self.capture_file@],
    {
        let mut v: Vec<String> = Vec::new();
        v.push(String::from_str("--chapters"));
        v.push(self.chapter_file.clone());
        v.push(String::from_str("-o"));
        v.push(self.final_file.clone());
        v.push(self.capture_file.clone());
        assert(texts(v@) =~= seq!["--chapters"@, self.chapter_file@, "-o"@, self.final_file@, self.capture_file@]);
        v
    }

    /// What follows once the capture program has exited.
    pub fn after_capture(&self, exited_ok: bool) -> (r: Teardown)
        ensures
            r == (if !exited_ok {
                Teardown::KeepCapture
            } else if self.merge is None {
                Teardown::Done
            } else {
                Teardown::Merge
            }),
    {
        if !exited_ok {
            Teardown::KeepCapture
        } else if self.merge.is_none() {
            Teardown::Done
        } else {
            Teardown::Merge
        }
    }
}

/// What follows once the merge program has exited.
pub fn after_merge(merged_ok: bool) -> (r: Teardown)
    ensures
        r == (if merged_ok { Teardown::RemoveIntermediates } else { Teardown::KeepIntermediates }),
{
    if merged_ok {
        Teardown::RemoveIntermediates
    } else {
        Teardown::KeepIntermediates
    }
}

/// Why an event was ignored.
#[derive(Clone, Copy, PartialEq, Eq, Debug)]
pub enum Conflict {
    /// An encounter started while a raid boss is being recorded.
    RaidInProgress,
    /// A timed dungeon started while something is being recorded.
    ActivityInProgress,
    /// An encounter ended, but no raid boss is being recorded.
    NoRaidRecording,
    /// A timed dungeon ended, but none is being recorded.
    NoDungeonRecording,
    /// The start time has no calendar representation.
    TimeOutOfRange,
}

/// What the caller must do after an event.
pub enum Action {
    /// Nothing.
    Nothing,
    /// Start the capture program.
    Start(CaptureStart),
    /// Stop the capture program and tear the recording down.
    Stop(StopPlan),
    /// The event was ignored; worth a diagnostic.
    Ignored(Conflict),
    /// Stop the whole process.
    Exit,
}

pub enum ActionModel {
    Nothing,
    Start(CaptureModel),
    Stop(StopModel),
    Ignored(Conflict),
    Exit,
}

impl View for Action {
    type V = ActionModel;

    open spec fn view(&self) -> ActionModel {
        match self {
            Action::Nothing => ActionModel::Nothing,
            Action::Start(c) => ActionModel::Start(c@),
            Action::Stop(p) => ActionModel::Stop(p@),
            Action::Ignored(c) => ActionModel::Ignored(*c),
            Action::Exit => ActionModel::Exit,
        }
    }
}

/// The recording begun at `t` for `act`, if its time can be stamped.
pub open spec fn started(t: Timestamp, act: ActivityModel) -> Option<RecordingModel> {
    match file_stamp_of(t) {
        Some(st) => Some(
            RecordingModel { starttime: t, filename: recording_name(st, act), events: seq![], activity: act },
        ),
        None => None,
    }
}

/// Starting a recording begun at `t` for `act`.
pub open spec fn start_action(command: Seq<char>, viddir: Seq<char>, t: Timestamp, act: ActivityModel) -> ActionModel {
    match file_stamp_of(t) {
        Some(st) => ActionModel::Start(
            CaptureModel {
                program: command,
                args: capture_args(video_path(viddir, recording_name(st, act), ".mkv"@)),
            },
        ),
        None => ActionModel::Ignored(Conflict::TimeOutOfRange),
    }
}

/// The recording after the event `ev`.
pub open spec fn next_recording(rec: Option<RecordingModel>, ev: EventModel) -> Option<RecordingModel> {
    match ev {
        EventModel::EncounterStart(t, n) => match rec {
            None => started(t, ActivityModel::Raid(n)),
            Some(r) => if r.activity is MythicPlus {
                Some(with_event(r, ev))
            } else {
                rec
            },
        },
        EventModel::EncounterEnd => match rec {
            Some(r) => if r.activity is Raid {
                None
            } else {
                rec
            },
            None => None,
        },
        EventModel::ChallengeModeStart(t, n) => match rec {
            None => started(t, ActivityModel::MythicPlus(n)),
            Some(_) => rec,
        },
        EventModel::ChallengeModeEnd => match rec {
            Some(r) => if r.activity is MythicPlus {
                None
            } else {
                rec
            },
            None => None,
        },
        EventModel::PlayerDeath(_, _) => match rec {
            Some(r) => Some(with_event(r, ev)),
            None => None,
        },
        EventModel::IoErr(_) => rec,
        EventModel::CtrlC => None,
    }
}

/// What the caller must do after the event `ev`.
pub open spec fn action_of(
    command: Seq<char>,
    viddir: Seq<char>,
    merge: Option<Seq<char>>,
    rec: Option<RecordingModel>,
    ev: EventModel,
) -> ActionModel {
    match ev {
        EventModel::EncounterStart(t, n) => match rec {
            None => start_action(command, viddir, t, ActivityModel::Raid(n)),
            Some(r) => if r.activity is MythicPlus {
                ActionModel::Nothing
            } else {
                ActionModel::Ignored(Conflict::RaidInProgress)
            },
        },
        EventModel::EncounterEnd => match rec {
            Some(r) => if r.activity is Raid {
                ActionModel::Stop(stop_model(viddir, merge, r))
            } else {
                ActionModel::Ignored(Conflict::NoRaidRecording)
            },
            None => ActionModel::Ignored(Conflict::NoRaidRecording),
        },
        EventModel::ChallengeModeStart(t, n) => match rec {
            None => start_action(command, viddir, t, ActivityModel::MythicPlus(n)),
            Some(_) => ActionModel::Ignored(Conflict::ActivityInProgress),
        },
        EventModel::ChallengeModeEnd => match rec {
            Some(r) => if r.activity is MythicPlus {
                ActionModel::Stop(stop_model(viddir, merge, r))
            } else {
                ActionModel::Ignored(Conflict::NoDungeonRecording)
            },
            None => ActionModel::Ignored(Conflict::NoDungeonRecording),
        },
        EventModel::PlayerDeath(_, _) => ActionModel::Nothing,
        EventModel::IoErr(_) => ActionModel::Exit,
        EventModel::CtrlC => match rec {
            None => ActionModel::Exit,
            Some(r) => ActionModel::Stop(stop_model(viddir, merge, r)),
        },
    }
}

/// The session manager.
pub struct Recorder {
    pub viddir: String,
    pub command: String,
    pub mkvmerge: Option<String>,
    pub recording: Option<Recording>,
}

fn capture_arguments(output: String) -> (r: Vec<String>)
    ensures
        texts(r@) == capture_args(output@),
{
    let mut v: Vec<String> = Vec::new();
    v.push(String::from_str("-w"));
    v.push(String::from_str("DisplayPort-0"));
    v.push(String::from_str("-c"));
    v.push(String::from_str("mkv"));
    v.push(String::from_str("-k"));
    v.push(String::from_str("hevc"));
    v.push(String::from_str("-ac"));
    v.push(String::from_str("opus"));
    v.push(String::from_str("-f"));
    v.push(String::from_str("60"));
    v.push(String::from_str("-cursor"));
    v.push(String::from_str("yes"));
    v.push(String::from_str("-restore-portal-session"));
    v.push(String::from_str("yes"));
    v.push(String::from_str("-cr"));
    v.push(String::from_str("limited"));
    v.push(String::from_str("-encoder"));
    v.push(String::from_str("gpu"));
    v.push(String::from_str("-q"));
    v.push(String::from_str("very_high"));
    v.push(String::from_str("-a"));
    v.push(String::from_str("device:default_output"));
    v.push(String::from_str("-o"));
    v.push(output);
    assert(texts(v@) =~= capture_args(output@));
    v
}

/// `<viddir>/<base><suffix>`.
fn make_path(viddir: &String, base: &String, suffix: &str) -> (r: String)
    ensures
        r@ == video_path(viddir@, base@, suffix@),
{
    let mut p = viddir.clone();
    p.append("/");
    p.append(base.as_str());
    p.append(suffix);
    p
}

impl Recorder {
    /// The recording in progress, as a model.
    pub open spec fn current(&self) -> Option<RecordingModel> {
        match self.recording {
            Some(r) => Some(r@),
            None => None,
        }
    }

    /// A session manager that is not recording; `mkvmerge` is the merge program,
    /// if one is usable.
    pub fn new(viddir: String, command: String, mkvmerge: Option<String>) -> (r: Self)
        ensures
            r.viddir == viddir,
            r.command == command,
            r.mkvmerge == mkvmerge,
            r.recording is None,
    {
        Recorder { viddir, command, mkvmerge, recording: None }
    }

    /// Begins a recording of `activity` at `time`; returns how to start the
    /// capture program, or `None` where the time cannot be stamped.
    pub fn start_recording(&mut self, time: Timestamp, activity: Activity) -> (r: Option<CaptureStart>)
        ensures
            final(self).viddir == old(self).viddir,
            final(self).command == old(self).command,
            final(self).mkvmerge == old(self).mkvmerge,
            match started(time, activity@) {
                Some(rec) => final(self).current() == Some(rec) && (r matches Some(c)
                    && ActionModel::Start(c@) == start_action(old(self).command@, old(self).viddir@, time, activity@)),
                None => final(self).current() == old(self).current() && r is None,
            },
    {
        let stamp = match file_stamp(time) {
            Some(s) => s,
            None => return None,
        };
        let mut filename = stamp;
        filename.append("_");
        let name = activity.to_string();
        filename.append(name.as_str());
        let output = make_path(&self.viddir, &filename, ".mkv");
        let args = capture_arguments(output);
        self.recording = Some(Recording::new(time, filename, activity));
        Some(CaptureStart { program: self.command.clone(), args })
    }

    /// Ends the recording in progress, if any; returns the plan for tearing it down.
    pub fn stop_recording(&mut self) -> (r: Option<StopPlan>)
        ensures
            final(self).viddir == old(self).viddir,
            final(self).command == old(self).command,
            final(self).mkvmerge == old(self).mkvmerge,
            final(self).recording is None,
            match old(self).current() {
                Some(rec) => r matches Some(p) && p@ == stop_model(old(self).viddir@, opt_text(old(self).mkvmerge), rec),
                None => r is None,
            },
    {
        let recording = match self.recording.take() {
            Some(r) => r,
            None => return None,
        };
        let chapters = recording.create_chapters(&recording.starttime);
        let capture_file = make_path(&self.viddir, &recording.filename, ".mkv");
        let chapter_file = make_path(&self.viddir, &recording.filename, ".txt");
        let final_file = make_path(&self.viddir, &recording.filename, "_final.mkv");
        let merge = match &self.mkvmerge {
            Some(m) => Some(m.clone()),
            None => None,
        };
        Some(StopPlan { chapters, capture_file, chapter_file, final_file, merge })
    }

    /// Reacts to one event: updates the recording and says what to do.
    pub fn handle(&mut self, event: Event) -> (r: Action)
        ensures
            final(self).viddir == old(self).viddir,
            final(self).command == old(self).command,
            final(self).mkvmerge == old(self).mkvmerge,
            final(self).current() == next_recording(old(self).current(), event@),
            r@ == action_of(old(self).command@, old(self).viddir@, opt_text(old(self).mkvmerge), old(self).current(), event@),
    {
        match event {
            Event::EncounterStart(t, n) => {
                match &mut self.recording {
                    None => {},
                    Some(rec) => {
                        if rec.is_mythicplus() {
                            rec.add_encounter(t, n);
                            return Action::Nothing;
                        } else {
                            return Action::Ignored(Conflict::RaidInProgress);
                        }
                    },
                }
                match self.start_recording(t, Activity::Raid(n)) {
                    Some(c) => Action::Start(c),
                    None => Action::Ignored(Conflict::TimeOutOfRange),
                }
            },
            Event::ChallengeModeStart(t, n) => {
                if self.recording.is_some() {
                    return Action::Ignored(Conflict::ActivityInProgress);
                }
                match self.start_recording(t, Activity::MythicPlus(n)) {
                    Some(c) => Action::Start(c),
                    None => Action::Ignored(Conflict::TimeOutOfRange),
                }
            },
            Event::EncounterEnd => {
                let raid = match &self.recording {
                    Some(rec) => rec.is_raid(),
                    None => false,
                };
                if raid {
                    match self.stop_recording() {
                        Some(p) => Action::Stop(p),
                        None => Action::Nothing,
                    }
                } else {
                    Action::Ignored(Conflict::NoRaidRecording)
                }
            },
            Event::ChallengeModeEnd => {
                let dungeon = match &self.recording {
                    Some(rec) => rec.is_mythicplus(),
                    None => false,
                };
                if dungeon {
                    match self.stop_recording() {
                        Some(p) => Action::Stop(p),
                        None => Action::Nothing,
                    }
                } else {
                    Action::Ignored(Conflict::NoDungeonRecording)
                }
            },
            Event::PlayerDeath(t, n) => {
                match &mut self.recording {
                    Some(rec) => rec.add_death(t, n),
                    None => {},
                }
                Action::Nothing
            },
            Event::IoErr(_) => Action::Exit,
            Event::CtrlC => {
                match self.stop_recording() {
                    Some(p) => Action::Stop(p),
                    None => Action::Exit,
                }
            },
        }
    }
}

/// While a timed dungeon is being recorded, two encounter starts in a row
/// become two chapters of that same recording, and neither starts another
/// capture.
pub proof fn lemma_dungeon_collects_encounters(
    command: Seq<char>,
    viddir: Seq<char>,
    merge: Option<Seq<char>>,
    rec: RecordingModel,
    t1: Timestamp,
    n1: Seq<char>,
    t2: Timestamp,
    n2: Seq<char>,
)
    requires
        rec.activity is MythicPlus,
    ensures
        ({
            let e1 = EventModel::EncounterStart(t1, n1);
            let e2 = EventModel::EncounterStart(t2, n2);
            let after1 = next_recording(Some(rec), e1);
            &&& action_of(command, viddir, merge, Some(rec), e1) == ActionModel::Nothing
            &&& action_of(command, viddir, merge, after1, e2) == ActionModel::Nothing
            &&& next_recording(after1, e2) == Some(
                RecordingModel {
                    starttime: rec.starttime,
                    filename: rec.filename,
                    events: rec.events.push(e1).push(e2),
                    activity: rec.activity,
                },
            )
        }),
{
}

} // verus!
