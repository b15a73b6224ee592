//! Domain events and the timestamps they carry.
use vstd::prelude::*;

verus! {

/// A point in time read from the log: whole seconds since 1970-01-01 00:00:00
/// and the nanoseconds past that second.
#[derive(Clone, Copy, PartialEq, Eq, Debug)]
pub struct Timestamp {
    pub secs: i64,
    pub nanos: u32,
}

impl Timestamp {
    /// The time as nanoseconds since the epoch.
    pub open spec fn total_nanos(self) -> int {
        self.secs as int * 1_000_000_000 + self.nanos as int
    }
}

/// Milliseconds from `from` to `to`, truncated toward zero.
pub open spec fn millis_between(from: Timestamp, to: Timestamp) -> int {
    let d = to.total_nanos() - from.total_nanos();
    if d >= 0 {
        d / 1_000_000
    } else {
        -((-d) / 1_000_000)
    }
}

/// Milliseconds from `from` to `to`, truncated toward zero.
pub fn millis_since(from: Timestamp, to: Timestamp) -> (r: i128)
    ensures
        r as int == millis_between(from, to),
{
    let d: i128 = (to.secs as i128 - from.secs as i128) * 1_000_000_000i128 + (to.nanos as i128
        - from.nanos as i128);
    assert(d as int == to.total_nanos() - from.total_nanos());
    if d >= 0 {
        d / 1_000_000
    } else {
        -((-d) / 1_000_000)
    }
}

/// What the log follower hands to the session manager.
#[derive(Debug)]
pub enum Event {
    /// A boss encounter began: its time and its name, blanks turned into underscores.
    EncounterStart(Timestamp, String),
    /// A boss encounter ended.
    EncounterEnd,
    /// A player character died: the time and the character's name.
    PlayerDeath(Timestamp, String),
    /// A timed dungeon run began: its time and the dungeon's name.
    ChallengeModeStart(Timestamp, String),
    /// A timed dungeon run ended.
    ChallengeModeEnd,
    /// Reading the log failed; the detail says how.
    IoErr(String),
    /// The process was asked to stop.
    CtrlC,
}

/// The mathematical content of an [`Event`].
pub enum EventModel {
    EncounterStart(Timestamp, Seq<char>),
    EncounterEnd,
    PlayerDeath(Timestamp, Seq<char>),
    ChallengeModeStart(Timestamp, Seq<char>),
    ChallengeModeEnd,
    IoErr(Seq<char>),
    CtrlC,
}

impl View for Event {
    type V = EventModel;

    open spec fn view(&self) -> EventModel {
        match self {
            Event::EncounterStart(t, n) => EventModel::EncounterStart(*t, n@),
            Event::EncounterEnd => EventModel::EncounterEnd,
            Event::PlayerDeath(t, n) => EventModel::PlayerDeath(*t, n@),
            Event::ChallengeModeStart(t, n) => EventModel::ChallengeModeStart(*t, n@),
            Event::ChallengeModeEnd => EventModel::ChallengeModeEnd,
            Event::IoErr(d) => EventModel::IoErr(d@),
            Event::CtrlC => EventModel::CtrlC,
        }
    }
}

/// The models of a sequence of events.
pub open spec fn models(v: Seq<Event>) -> Seq<EventModel> {
    v.map_values(|e: Event| e@)
}

pub proof fn lemma_models_push(v: Seq<Event>, e: Event)
    ensures
        models(v.push(e)) == models(v).push(e@),
{
    assert(models(v.push(e)) =~= models(v).push(e@));
}

} // verus!
