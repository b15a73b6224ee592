//! The incremental event parser: turns newly appended log bytes into events.
use vstd::prelude::*;
use vstd::utf8::{decode_utf8, valid_utf8};
use crate::events::{Event, EventModel, Timestamp, models, lemma_models_push};
use crate::flags::{Flags, HasFlag, flag_field_value, parse_flag_field};
use crate::scan::{
    matches_at, is_last_match, no_match, lemma_byte_match, lemma_last_match_exists,
    lemma_match_results, lemma_last_match_shift, lemma_matches_at_shift, lemma_newline_at,
    lemma_next_line_bound, lemma_last_match,
    lemma_no_first_match, lemma_no_match_in_empty, first_match, last_match, line_start_of, line_end_of, next_line_of, newline, find_byte,
    rfind_byte, find_marker, rfind_marker, line_start, line_end, next_line,
};

verus! {

/// The marker of a line that opens an encounter.
pub open spec fn start_marker() -> Seq<u8> {
    seq![69u8, 78u8, 67u8, 79u8, 85u8, 78u8, 84u8, 69u8, 82u8, 95u8, 83u8, 84u8, 65u8, 82u8, 84u8]
}

/// The marker of a line that closes an encounter.
pub open spec fn end_marker() -> Seq<u8> {
    seq![69u8, 78u8, 67u8, 79u8, 85u8, 78u8, 84u8, 69u8, 82u8, 95u8, 69u8, 78u8, 68u8]
}

/// The marker of a line that reports a death.
pub open spec fn died_marker() -> Seq<u8> {
    seq![85u8, 78u8, 73u8, 84u8, 95u8, 68u8, 73u8, 69u8, 68u8]
}

/// The token that introduces a player character's identifier.
pub open spec fn player_marker() -> Seq<u8> {
    seq![44u8, 80u8, 108u8, 97u8, 121u8, 101u8, 114u8, 45u8]
}

fn start_marker_bytes() -> (r: Vec<u8>)
    ensures
        r@ == start_marker(),
{
    let r = vec![69u8, 78u8, 67u8, 79u8, 85u8, 78u8, 84u8, 69u8, 82u8, 95u8, 83u8, 84u8, 65u8, 82u8, 84u8];
    assert(r@ =~= start_marker());
    r
}

fn end_marker_bytes() -> (r: Vec<u8>)
    ensures
        r@ == end_marker(),
{
    let r = vec![69u8, 78u8, 67u8, 79u8, 85u8, 78u8, 84u8, 69u8, 82u8, 95u8, 69u8, 78u8, 68u8];
    assert(r@ =~= end_marker());
    r
}

fn died_marker_bytes() -> (r: Vec<u8>)
    ensures
        r@ == died_marker(),
{
    let r = vec![85u8, 78u8, 73u8, 84u8, 95u8, 68u8, 73u8, 69u8, 68u8];
    assert(r@ =~= died_marker());
    r
}

fn player_marker_bytes() -> (r: Vec<u8>)
    ensures
        r@ == player_marker(),
{
    let r = vec![44u8, 80u8, 108u8, 97u8, 121u8, 101u8, 114u8, 45u8];
    assert(r@ =~= player_marker());
    r
}

/// Why a log line could not be read.
#[derive(Clone, Copy, PartialEq, Eq, Debug)]
pub enum ParseError {
    /// The leading date and time are missing or malformed.
    Timestamp,
    /// The quoted name is missing or is not valid UTF-8.
    Name,
    /// The flag field after a player's name is missing or malformed.
    Flags,
}

/// The time that chrono reads from `s` in the log's format, if it reads one.
pub uninterp spec fn log_time_of(s: Seq<char>) -> Option<Timestamp>;

/// The text that lossy UTF-8 decoding makes of `b`.
pub uninterp spec fn lossy_text(b: Seq<u8>) -> Seq<char>;

/// Relies on chrono::NaiveDateTime::parse_from_str with the log's format
/// `month/day/year hour:minute:second.fraction`; the result is kept as seconds
/// and nanoseconds since the epoch.
#[verifier::external_body]
fn parse_log_time(s: &str) -> (r: Option<Timestamp>)
    ensures
        r == log_time_of(s@),
{
    match chrono::NaiveDateTime::parse_from_str(s, "%-m/%-d/%Y %H:%M:%S%.f") {
        Ok(dt) => Some(Timestamp { secs: dt.and_utc().timestamp(), nanos: dt.and_utc().timestamp_subsec_nanos() }),
        Err(_) => None,
    }
}

/// Relies on String::from_utf8: succeeds exactly on valid UTF-8 and then holds
/// the decoded characters.
#[verifier::external_body]
fn decode_strict(b: &[u8]) -> (r: Option<String>)
    ensures
        r.is_some() == valid_utf8(b@),
        r matches Some(s) ==> s@ == decode_utf8(b@),
{
    String::from_utf8(b.to_vec()).ok()
}

/// Relies on String::from_utf8_lossy: valid UTF-8 is decoded as it is.
#[verifier::external_body]
fn decode_lossy(b: &[u8]) -> (r: String)
    ensures
        r@ == lossy_text(b@),
        valid_utf8(b@) ==> r@ == decode_utf8(b@),
{
    String::from_utf8_lossy(b).into_owned()
}

/// Where the leading date-and-time field of a line ends: at its second blank.
pub open spec fn time_field_end(line: Seq<u8>) -> Option<int> {
    match first_match(line, seq![32u8]) {
        None => None,
        Some(b1) => match first_match(line.subrange(b1 + 1, line.len() as int), seq![32u8]) {
            None => None,
            Some(b2) => Some(b1 + 1 + b2),
        },
    }
}

/// The time of a line and where its time field ends.
pub open spec fn line_time(line: Seq<u8>) -> Result<(Timestamp, int), ParseError> {
    match time_field_end(line) {
        None => Err(ParseError::Timestamp),
        Some(e) => {
            let field = line.subrange(0, e);
            if !valid_utf8(field) {
                Err(ParseError::Timestamp)
            } else {
                match log_time_of(decode_utf8(field)) {
                    None => Err(ParseError::Timestamp),
                    Some(t) => Ok((t, e)),
                }
            }
        },
    }
}

/// The span strictly between the first two double quotes of `s`.
pub open spec fn quoted_span(s: Seq<u8>) -> Option<(int, int)> {
    match first_match(s, seq![34u8]) {
        None => None,
        Some(q1) => match first_match(s.subrange(q1 + 1, s.len() as int), seq![34u8]) {
            None => None,
            Some(q2) => Some((q1 + 1, q1 + 1 + q2)),
        },
    }
}

/// `s` with every blank turned into an underscore.
pub open spec fn underscored(s: Seq<u8>) -> Seq<u8> {
    s.map_values(|c: u8| if c == 32u8 { 95u8 } else { c })
}

/// The time and normalised name of an encounter's opening line.
pub open spec fn start_fields(line: Seq<u8>) -> Result<(Timestamp, Seq<char>), ParseError> {
    match line_time(line) {
        Err(e) => Err(e),
        Ok((t, e)) => {
            let rest = line.subrange(e, line.len() as int);
            match quoted_span(rest) {
                None => Err(ParseError::Name),
                Some((a, b)) => {
                    let raw = underscored(rest.subrange(a, b));
                    if valid_utf8(raw) {
                        Ok((t, decode_utf8(raw)))
                    } else {
                        Err(ParseError::Name)
                    }
                },
            }
        },
    }
}

/// The last or second-to-last byte of the line is `0`: the unit was conscious
/// when it died.
pub open spec fn ends_conscious(line: Seq<u8>) -> bool {
    ||| (line.len() >= 1 && line[line.len() - 1] == 48u8)
    ||| (line.len() >= 2 && line[line.len() - 2] == 48u8)
}

/// The flag value counts as a player character's death.
pub open spec fn is_player_flag(flag: i32) -> bool {
    flag.spec_has_flag(Flags::ControlPlayer) && flag.spec_has_flag(Flags::TypePlayer)
}

/// The fields of a line that holds the death marker: its time, and, where the
/// dead unit is a player's, the raw name and the flag value.
pub open spec fn death_fields(line: Seq<u8>) -> Result<Option<(Timestamp, Seq<u8>, i32)>, ParseError> {
    match line_time(line) {
        Err(e) => Err(e),
        Ok((t, e)) => {
            let rest = line.subrange(e, line.len() as int);
            match first_match(rest, player_marker()) {
                None => Ok(None),
                Some(p) => {
                    let unit = rest.subrange(p, rest.len() as int);
                    match quoted_span(unit) {
                        None => Err(ParseError::Name),
                        Some((a, b)) => {
                            let fs = b + 2;
                            if fs > unit.len() {
                                Err(ParseError::Flags)
                            } else {
                                match first_match(unit.subrange(fs, unit.len() as int), seq![44u8]) {
                                    None => Err(ParseError::Flags),
                                    Some(fe) => match flag_field_value(unit.subrange(fs, fs + fe)) {
                                        None => Err(ParseError::Flags),
                                        Some(flag) => Ok(Some((t, unit.subrange(a, b), flag))),
                                    },
                                }
                            }
                        },
                    }
                },
            }
        },
    }
}

/// What a line that holds the death marker reports: the death of a player
/// character who was conscious when it died, or nothing.
pub open spec fn death_of_line(line: Seq<u8>) -> Result<Option<EventModel>, ParseError> {
    match death_fields(line) {
        Err(e) => Err(e),
        Ok(None) => Ok(None),
        Ok(Some((t, name, flag))) => if is_player_flag(flag) && ends_conscious(line) {
            Ok(Some(EventModel::PlayerDeath(t, lossy_text(name))))
        } else {
            Ok(None)
        },
    }
}

/// Reads the time of a line; returns it with the end of its field.
fn read_time(line: &[u8]) -> (r: Result<(Timestamp, usize), ParseError>)
    ensures
        match r {
            Ok((t, e)) => line_time(line@) == Ok::<(Timestamp, int), ParseError>((t, e as int)) && e <= line@.len(),
            Err(x) => line_time(line@) == Err::<(Timestamp, int), ParseError>(x),
        },
{
    let b1 = match find_byte(line, 32u8) {
        Some(b) => b,
        None => return Err(ParseError::Timestamp),
    };
    let len = line.len();
    let b2 = match find_byte(vstd::slice::slice_subrange(line, b1 + 1, len), 32u8) {
        Some(b) => b,
        None => return Err(ParseError::Timestamp),
    };
    let e = b1 + 1 + b2;
    let text = match decode_strict(vstd::slice::slice_subrange(line, 0, e)) {
        Some(s) => s,
        None => return Err(ParseError::Timestamp),
    };
    match parse_log_time(text.as_str()) {
        Some(t) => Ok((t, e)),
        None => Err(ParseError::Timestamp),
    }
}

/// Finds the span between the first two double quotes.
fn read_quoted(s: &[u8]) -> (r: Option<(usize, usize)>)
    ensures
        match r {
            Some((a, b)) => quoted_span(s@) == Some((a as int, b as int)) && a <= b <= s@.len(),
            None => quoted_span(s@).is_none(),
        },
{
    let q1 = match find_byte(s, 34u8) {
        Some(q) => q,
        None => return None,
    };
    let len = s.len();
    match find_byte(vstd::slice::slice_subrange(s, q1 + 1, len), 34u8) {
        Some(q2) => Some((q1 + 1, q1 + 1 + q2)),
        None => None,
    }
}

/// The time and normalised name of an encounter's opening line.
pub fn read_start_fields(line: &[u8]) -> (r: Result<(Timestamp, String), ParseError>)
    ensures
        match r {
            Ok((t, n)) => start_fields(line@) == Ok::<(Timestamp, Seq<char>), ParseError>((t, n@)),
            Err(x) => start_fields(line@) == Err::<(Timestamp, Seq<char>), ParseError>(x),
        },
{
    let (t, e) = read_time(line)?;
    let rest = vstd::slice::slice_subrange(line, e, line.len());
    let (a, b) = match read_quoted(rest) {
        Some(span) => span,
        None => return Err(ParseError::Name),
    };
    let mut raw: Vec<u8> = Vec::new();
    let mut i: usize = a;
    while i < b
        invariant
            a <= i <= b <= rest@.len(),
            raw@ == underscored(rest@.subrange(a as int, i as int)),
        decreases b - i,
    {
        let c = rest[i];
        raw.push(if c == 32u8 { 95u8 } else { c });
        i = i + 1;
        assert(raw@ =~= underscored(rest@.subrange(a as int, i as int)));
    }
    match decode_strict(raw.as_slice()) {
        Some(n) => Ok((t, n)),
        None => Err(ParseError::Name),
    }
}

/// What a line that holds the death marker reports.
pub fn read_death(line: &[u8]) -> (r: Result<Option<Event>, ParseError>)
    ensures
        match r {
            Ok(Some(ev)) => death_of_line(line@) == Ok::<Option<EventModel>, ParseError>(Some(ev@)),
            Ok(None) => death_of_line(line@) == Ok::<Option<EventModel>, ParseError>(None),
            Err(x) => death_of_line(line@) == Err::<Option<EventModel>, ParseError>(x),
        },
{
    let (t, e) = read_time(line)?;
    let rest = vstd::slice::slice_subrange(line, e, line.len());
    let pm = player_marker_bytes();
    let p = match find_marker(rest, pm.as_slice()) {
        Some(p) => p,
        None => return Ok(None),
    };
    let unit = vstd::slice::slice_subrange(rest, p, rest.len());
    let (a, b) = match read_quoted(unit) {
        Some(span) => span,
        None => return Err(ParseError::Name),
    };
    let fs = b + 2;
    if fs > unit.len() {
        return Err(ParseError::Flags);
    }
    let fe = match find_byte(vstd::slice::slice_subrange(unit, fs, unit.len()), 44u8) {
        Some(f) => f,
        None => return Err(ParseError::Flags),
    };
    let flag = match parse_flag_field(vstd::slice::slice_subrange(unit, fs, fs + fe)) {
        Some(f) => f,
        None => return Err(ParseError::Flags),
    };
    let n = line.len();
    let conscious = (n >= 1 && line[n - 1] == 48u8) || (n >= 2 && line[n - 2] == 48u8);
    if flag.has_flag(Flags::ControlPlayer) && flag.has_flag(Flags::TypePlayer) && conscious {
        let name = decode_lossy(vstd::slice::slice_subrange(unit, a, b));
        Ok(Some(Event::PlayerDeath(t, name)))
    } else {
        Ok(None)
    }
}

/// The events of an optional event.
pub open spec fn opt_seq(o: Option<EventModel>) -> Seq<EventModel> {
    match o {
        Some(e) => seq![e],
        None => seq![],
    }
}

/// `acc` followed by what `r` holds, or the error of `r`.
pub open spec fn glue(acc: Seq<EventModel>, r: Result<Seq<EventModel>, ParseError>) -> Result<
    Seq<EventModel>,
    ParseError,
> {
    match r {
        Ok(s) => Ok(acc + s),
        Err(e) => Err(e),
    }
}

/// The deaths reported on the lines of `span` that hold a death marker at or
/// after index `i`, in order; or the error of the first such line that is malformed.
pub open spec fn deaths_from(span: Seq<u8>, i: int) -> Result<Seq<EventModel>, ParseError>
    decreases span.len() - i,
{
    if i < 0 || i > span.len() {
        Ok(seq![])
    } else {
        match first_match(span.subrange(i, span.len() as int), died_marker()) {
            None => Ok(seq![]),
            Some(k) => {
                let idx = i + k;
                let line = span.subrange(line_start_of(span, idx), line_end_of(span, idx));
                match death_of_line(line) {
                    Err(e) => Err(e),
                    Ok(o) => if k < 0 {
                        Ok(seq![])
                    } else {
                        glue(opt_seq(o), deaths_from(span, idx + died_marker().len()))
                    },
                }
            },
        }
    }
}

/// The deaths reported in `span`.
pub open spec fn deaths_in(span: Seq<u8>) -> Result<Seq<EventModel>, ParseError> {
    deaths_from(span, 0)
}

proof fn lemma_glue_glue(a: Seq<EventModel>, b: Seq<EventModel>, r: Result<Seq<EventModel>, ParseError>)
    ensures
        glue(a, glue(b, r)) == glue(a + b, r),
{
    if let Ok(s) = r {
        assert(a + (b + s) =~= (a + b) + s);
    }
}

/// Appends to `out` the deaths reported in `span`.
fn collect_deaths(span: &[u8], out: &mut Vec<Event>) -> (r: Result<(), ParseError>)
    ensures
        match deaths_in(span@) {
            Ok(d) => r is Ok && models(final(out)@) == models(old(out)@) + d,
            Err(e) => r == Err::<(), ParseError>(e),
        },
{
    let dm = died_marker_bytes();
    let len = span.len();
    let mut i: usize = 0;
    let ghost mut acc: Seq<EventModel> = seq![];
    assert(models(out@) =~= models(old(out)@) + acc);
    assert(deaths_in(span@) == glue(acc, deaths_from(span@, 0))) by {
        if let Ok(s) = deaths_from(span@, 0) {
            assert(acc + s =~= s);
        }
    }
    loop
        invariant
            i <= len == span@.len(),
            dm@ == died_marker(),
            models(out@) == models(old(out)@) + acc,
            deaths_in(span@) == glue(acc, deaths_from(span@, i as int)),
        decreases len - i,
    {
        let k = match find_marker(vstd::slice::slice_subrange(span, i, len), dm.as_slice()) {
            Some(k) => k,
            None => {
                assert(acc + seq![] =~= acc);
                return Ok(());
            },
        };
        let idx = i + k;
        let ls = line_start(span, idx);
        let le = line_end(span, idx);
        let found = match read_death(vstd::slice::slice_subrange(span, ls, le)) {
            Ok(f) => f,
            Err(e) => return Err(e),
        };
        let ghost o = match &found {
            Some(ev) => Some(ev@),
            None => None::<EventModel>,
        };
        proof {
            lemma_glue_glue(acc, opt_seq(o), deaths_from(span@, idx + 9));
        }
        match found {
            Some(ev) => {
                proof {
                    lemma_models_push(out@, ev);
                }
                out.push(ev);
            },
            None => {},
        }
        proof {
            acc = acc + opt_seq(o);
            assert(models(out@) =~= models(old(out)@) + acc);
        }
        i = idx + 9;
    }
}

/// Length of the part of `b` made of whole lines: up to and including its last separator.
pub open spec fn complete_len(b: Seq<u8>) -> int {
    match last_match(b, newline()) {
        Some(n) => n + 1,
        None => 0,
    }
}

/// The opening of an encounter in the whole lines `r`, and where scanning goes on.
///
/// Only the last line holding the start marker counts. If the end marker occurs
/// at or after that line, the encounter is already closed: nothing is reported
/// and scanning goes on after the line of the last end marker. Otherwise the
/// encounter's start is reported and scanning goes on after its line.
#[verifier::opaque]
pub open spec fn head_events(r: Seq<u8>) -> Result<(Seq<EventModel>, int), ParseError> {
    match last_match(r, start_marker()) {
        None => Ok((seq![], 0)),
        Some(s) => {
            let ls = line_start_of(r, s);
            match last_match(r.subrange(ls, r.len() as int), end_marker()) {
                Some(e) => Ok((seq![], next_line_of(r, ls + e))),
                None => match start_fields(r.subrange(ls, line_end_of(r, ls))) {
                    Err(x) => Err(x),
                    Ok((t, n)) => Ok((seq![EventModel::EncounterStart(t, n)], next_line_of(r, ls))),
                },
            }
        },
    }
}

/// What the whole lines `r` report from index `pos` on: the deaths before the
/// first end marker and then the end, or, with no end marker, all deaths.
#[verifier::opaque]
pub open spec fn tail_events(r: Seq<u8>, pos: int) -> Result<Seq<EventModel>, ParseError> {
    let rest = r.subrange(pos, r.len() as int);
    match first_match(rest, end_marker()) {
        Some(e) => match deaths_in(rest.subrange(0, e)) {
            Ok(d) => Ok(d.push(EventModel::EncounterEnd)),
            Err(x) => Err(x),
        },
        None => deaths_in(rest),
    }
}

/// The events that a buffer reports, and how many of its leading bytes are
/// consumed: its whole lines. An unterminated last line is left for later.
pub open spec fn parse_model(b: Seq<u8>) -> Result<(Seq<EventModel>, int), ParseError> {
    let limit = complete_len(b);
    let r = b.subrange(0, limit);
    match head_events(r) {
        Err(x) => Err(x),
        Ok((h, pos)) => match tail_events(r, pos) {
            Err(x) => Err(x),
            Ok(t) => Ok((h + t, limit)),
        },
    }
}

/// Appends to `out` the opening of an encounter in the whole lines `r`; returns
/// where scanning goes on.
fn read_head(r: &[u8], out: &mut Vec<Event>) -> (res: Result<usize, ParseError>)
    ensures
        match head_events(r@) {
            Ok((h, pos)) => res == Ok::<usize, ParseError>(pos as usize) && 0 <= pos <= r@.len()
                && models(final(out)@) == models(old(out)@) + h,
            Err(e) => res == Err::<usize, ParseError>(e),
        },
{
    reveal(head_events);
    let len = r.len();
    let sm = start_marker_bytes();
    let em = end_marker_bytes();
    match rfind_marker(r, sm.as_slice()) {
        None => {
            assert(models(out@) =~= models(out@) + seq![]);
            Ok(0)
        },
        Some(s) => {
            let ls = line_start(r, s);
            match rfind_marker(vstd::slice::slice_subrange(r, ls, len), em.as_slice()) {
                Some(e) => {
                    assert(models(out@) =~= models(out@) + seq![]);
                    Ok(next_line(r, ls + e))
                },
                None => {
                    let le = line_end(r, ls);
                    let (t, n) = read_start_fields(vstd::slice::slice_subrange(r, ls, le))?;
                    let ev = Event::EncounterStart(t, n);
                    proof {
                        lemma_models_push(out@, ev);
                    }
                    out.push(ev);
                    assert(models(out@) =~= models(old(out)@) + seq![EventModel::EncounterStart(t, n@)]);
                    Ok(next_line(r, ls))
                },
            }
        },
    }
}

/// Appends to `out` what the whole lines `r` report from index `pos` on.
fn read_tail(r: &[u8], pos: usize, out: &mut Vec<Event>) -> (res: Result<(), ParseError>)
    requires
        pos <= r@.len(),
    ensures
        match tail_events(r@, pos as int) {
            Ok(t) => res is Ok && models(final(out)@) == models(old(out)@) + t,
            Err(e) => res == Err::<(), ParseError>(e),
        },
{
    reveal(tail_events);
    let len = r.len();
    let em = end_marker_bytes();
    let rest = vstd::slice::slice_subrange(r, pos, len);
    match find_marker(rest, em.as_slice()) {
        Some(e) => {
            collect_deaths(vstd::slice::slice_subrange(rest, 0, e), out)?;
            let ghost before = models(out@);
            let ghost d = deaths_in(rest@.subrange(0, e as int)).unwrap();
            proof {
                lemma_models_push(out@, Event::EncounterEnd);
            }
            out.push(Event::EncounterEnd);
            assert(models(out@) =~= models(old(out)@) + d.push(EventModel::EncounterEnd));
            Ok(())
        },
        None => collect_deaths(rest, out),
    }
}

/// The outcome of one parse: the events, in order, and the length of the
/// consumed prefix of the buffer.
pub struct Parsed {
    pub events: Vec<Event>,
    pub consumed: usize,
}

/// The incremental event parser.
#[derive(Default)]
pub struct Parser {}

impl Parser {
    pub fn new() -> Self {
        Parser {  }
    }

    /// Reads the events of `buffer`. Everything up to and including the last
    /// line separator is consumed; the unterminated rest must be kept and
    /// handed in again, with what is appended to it later.
    pub fn parse(&self, buffer: &[u8]) -> (r: Result<Parsed, ParseError>)
        ensures
            match parse_model(buffer@) {
                Ok((evs, c)) => r matches Ok(p) && models(p.events@) == evs && p.consumed as int == c,
                Err(e) => r == Err::<Parsed, ParseError>(e),
            },
    {
        let blen = buffer.len();
        let limit = match rfind_byte(buffer, 10u8) {
            Some(n) => n + 1,
            None => 0,
        };
        let region = vstd::slice::slice_subrange(buffer, 0, limit);
        assert(limit as int == complete_len(buffer@));
        let len = region.len();
        let mut events: Vec<Event> = Vec::new();
        assert(models(events@) =~= seq![]);
        let pos = read_head(region, &mut events)?;
        let ghost head = models(events@);
        read_tail(region, pos, &mut events)?;
        assert(parse_model(buffer@) == Ok::<(Seq<EventModel>, int), ParseError>((models(events@), limit as int)));
        Ok(Parsed { events, consumed: limit })
    }
}

/// What a parse leaves unconsumed holds no line separator.
pub proof fn lemma_rest_has_no_newline(b: Seq<u8>)
    ensures
        no_match(b.subrange(complete_len(b), b.len() as int), newline()),
{
    let c = complete_len(b);
    let rest = b.subrange(c, b.len() as int);
    assert forall|j: int| 0 <= j <= rest.len() implies !matches_at(rest, newline(), j) by {
        lemma_byte_match(rest, 10u8, j);
        lemma_byte_match(b, 10u8, c + j);
        if 0 <= j < rest.len() && rest[j] == 10u8 {
            assert(matches_at(b, newline(), c + j));
            match last_match(b, newline()) {
                Some(n) => {
                    let k = choose|k: int| is_last_match(b, newline(), k);
                    assert(is_last_match(b, newline(), k));
                    assert(n == k);
                },
                None => {
                    lemma_last_match_exists(b, newline(), c + j);
                },
            }
        }
    }
}

/// Parsing what a parse left unconsumed, with nothing appended, reports
/// nothing and consumes nothing: no event is ever reported twice.
pub proof fn lemma_parse_rest_is_quiet(b: Seq<u8>)
    ensures
        parse_model(b.subrange(complete_len(b), b.len() as int)) == Ok::<(Seq<EventModel>, int), ParseError>(
            (seq![], 0),
        ),
{
    let rest = b.subrange(complete_len(b), b.len() as int);
    lemma_rest_has_no_newline(b);
    lemma_no_first_match(rest, newline());
    let r = rest.subrange(0, 0);
    assert(r =~= Seq::<u8>::empty());
    lemma_no_match_in_empty(start_marker());
    lemma_no_match_in_empty(end_marker());
    lemma_no_match_in_empty(died_marker());
    reveal(head_events);
    reveal(tail_events);
    assert(r.subrange(0, 0) =~= Seq::<u8>::empty());
    assert(head_events(r) == Ok::<(Seq<EventModel>, int), ParseError>((seq![], 0)));
    assert(deaths_in(r.subrange(0, 0)) == Ok::<Seq<EventModel>, ParseError>(seq![]));
    assert(tail_events(r, 0) == Ok::<Seq<EventModel>, ParseError>(seq![]));
    assert(Seq::<EventModel>::empty() + Seq::<EventModel>::empty() =~= Seq::<EventModel>::empty());
}

/// A death line with well-formed fields is reported exactly when its flag
/// value has both the player-controlled bit (0x100) and the player-type bit
/// (0x400) set and its last or second-to-last byte is `0`; otherwise it
/// reports nothing.
pub proof fn lemma_death_reported_iff(line: Seq<u8>, t: Timestamp, name: Seq<u8>, flag: i32)
    requires
        death_fields(line) == Ok::<Option<(Timestamp, Seq<u8>, i32)>, ParseError>(Some((t, name, flag))),
    ensures
        death_of_line(line) == Ok::<Option<EventModel>, ParseError>(Some(EventModel::PlayerDeath(t, lossy_text(name))))
            <==> (flag & 0x100 != 0 && flag & 0x400 != 0 && ends_conscious(line)),
        !(flag & 0x100 != 0 && flag & 0x400 != 0 && ends_conscious(line))
            ==> death_of_line(line) == Ok::<Option<EventModel>, ParseError>(None),
{
}

/// A parse result with its consumed length moved on by `by`.
pub open spec fn shifted(r: Result<(Seq<EventModel>, int), ParseError>, by: int) -> Result<
    (Seq<EventModel>, int),
    ParseError,
> {
    match r {
        Ok((e, c)) => Ok((e, c + by)),
        Err(x) => Err(x),
    }
}

proof fn lemma_lines_shift(stale: Seq<u8>, y: Seq<u8>, x: int)
    requires
        0 <= x <= y.len(),
    ensures
        next_line_of(stale + y, stale.len() + x) == stale.len() + next_line_of(y, x),
        line_end_of(stale + y, stale.len() + x) == stale.len() + line_end_of(y, x),
        (stale + y).subrange(stale.len() + x, (stale + y).len() as int) == y.subrange(x, y.len() as int),
{
    let z = stale + y;
    let l = stale.len() as int;
    assert(z.subrange(l + x, z.len() as int) =~= y.subrange(x, y.len() as int));
}

proof fn lemma_line_start_shift(stale: Seq<u8>, y: Seq<u8>, s: int)
    requires
        stale.len() == 0 || stale.last() == 10u8,
        0 <= s <= y.len(),
    ensures
        line_start_of(stale + y, stale.len() + s) == stale.len() + line_start_of(y, s),
{
    let l = stale.len() as int;
    let ys = y.subrange(0, s);
    let z = stale + ys;
    assert((stale + y).subrange(0, l + s) =~= z);
    lemma_match_results(ys, newline());
    if last_match(ys, newline()) is Some {
        lemma_last_match_shift(stale, ys, newline());
    } else if l > 0 {
        lemma_newline_at(z, l - 1);
        assert forall|j: int| l - 1 < j <= z.len() implies !matches_at(z, newline(), j) by {
            lemma_matches_at_shift(stale, ys, newline(), j - l);
        }
        lemma_last_match(z, newline(), l - 1);
    } else {
        assert(z =~= ys);
    }
}

proof fn lemma_head_shift(stale: Seq<u8>, rf: Seq<u8>)
    requires
        stale.len() == 0 || stale.last() == 10u8,
        last_match(rf, start_marker()) is Some,
    ensures
        match head_events(rf) {
            Ok((h, pos)) => head_events(stale + rf) == Ok::<(Seq<EventModel>, int), ParseError>((h, stale.len() + pos))
                && 0 <= pos <= rf.len(),
            Err(x) => head_events(stale + rf) == Err::<(Seq<EventModel>, int), ParseError>(x),
        },
{
    reveal(head_events);
    let l = stale.len() as int;
    let rb = stale + rf;
    lemma_match_results(rf, start_marker());
    lemma_last_match_shift(stale, rf, start_marker());
    let st = last_match(rf, start_marker()).unwrap();
    let lsf = line_start_of(rf, st);
    lemma_line_start_shift(stale, rf, st);
    assert(0 <= lsf <= st) by {
        lemma_match_results(rf.subrange(0, st), newline());
    }
    lemma_lines_shift(stale, rf, lsf);
    let tail_f = rf.subrange(lsf, rf.len() as int);
    lemma_match_results(tail_f, end_marker());
    lemma_next_line_bound(rf, lsf);
    match last_match(tail_f, end_marker()) {
        Some(e) => {
            lemma_lines_shift(stale, rf, lsf + e);
            lemma_next_line_bound(rf, lsf + e);
        },
        None => {
            let lef = line_end_of(rf, lsf);
            assert(rb.subrange(l + lsf, l + lef) =~= rf.subrange(lsf, lef));
        },
    }
}

proof fn lemma_tail_shift(stale: Seq<u8>, rf: Seq<u8>, pos: int)
    requires
        0 <= pos <= rf.len(),
    ensures
        tail_events(stale + rf, stale.len() + pos) == tail_events(rf, pos),
{
    reveal(tail_events);
    lemma_lines_shift(stale, rf, pos);
}

/// Whole lines in front of the buffer's last complete line that holds the
/// start marker change nothing that a parse reports: a start and end pair
/// among them, superseded by that later start, is not reported.
pub proof fn lemma_stale_lines_ignored(stale: Seq<u8>, fresh: Seq<u8>)
    requires
        stale.len() == 0 || stale.last() == 10u8,
        last_match(fresh.subrange(0, complete_len(fresh)), start_marker()) is Some,
    ensures
        parse_model(stale + fresh) == shifted(parse_model(fresh), stale.len() as int),
{
    let b = stale + fresh;
    let l = stale.len() as int;
    let cf = complete_len(fresh);
    let rf = fresh.subrange(0, cf);
    lemma_match_results(fresh, newline());
    if last_match(fresh, newline()) is None {
        assert(rf =~= Seq::<u8>::empty());
        lemma_no_match_in_empty(start_marker());
    }
    lemma_last_match_shift(stale, fresh, newline());
    assert(complete_len(b) == l + cf);
    let rb = b.subrange(0, l + cf);
    assert(rb =~= stale + rf);
    lemma_head_shift(stale, rf);
    if let Ok((h, pos)) = head_events(rf) {
        lemma_tail_shift(stale, rf, pos);
    }
}

proof fn lemma_no_match_in_suffix(s: Seq<u8>, pat: Seq<u8>, k: int)
    requires
        0 <= k <= s.len(),
        no_match(s, pat),
    ensures
        no_match(s.subrange(k, s.len() as int), pat),
{
    let t = s.subrange(k, s.len() as int);
    assert forall|j: int| 0 <= j <= t.len() implies !matches_at(t, pat, j) by {
        if matches_at(t, pat, j) {
            assert(s.subrange(k + j, k + j + pat.len()) =~= t.subrange(j, j + pat.len()));
            assert(matches_at(s, pat, k + j));
        }
    }
}

/// A buffer whose last complete line holding the start marker has
/// well-formed fields, with no end marker from that line on and no death
/// marker after it, reports exactly that encounter's start, with its time and
/// its name with blanks made underscores; everything up to the last line
/// separator is consumed, so the start is not reported again.
pub proof fn lemma_open_start_reported(b: Seq<u8>, s: int, t: Timestamp, n: Seq<char>)
    requires
        ({
            let r = b.subrange(0, complete_len(b));
            let ls = line_start_of(r, s);
            &&& last_match(r, start_marker()) == Some(s)
            &&& last_match(r.subrange(ls, r.len() as int), end_marker()) is None
            &&& start_fields(r.subrange(ls, line_end_of(r, ls))) == Ok::<(Timestamp, Seq<char>), ParseError>((t, n))
            &&& first_match(r.subrange(next_line_of(r, ls), r.len() as int), died_marker()) is None
        }),
    ensures
        parse_model(b) == Ok::<(Seq<EventModel>, int), ParseError>(
            (seq![EventModel::EncounterStart(t, n)], complete_len(b)),
        ),
{
    reveal(head_events);
    reveal(tail_events);
    let r = b.subrange(0, complete_len(b));
    let ls = line_start_of(r, s);
    let pos = next_line_of(r, ls);
    let rest = r.subrange(pos, r.len() as int);
    lemma_match_results(rest, died_marker());
    lemma_match_results(r, start_marker());
    lemma_match_results(r.subrange(0, s), newline());
    lemma_next_line_bound(r, ls);
    let tail = r.subrange(ls, r.len() as int);
    lemma_match_results(tail, end_marker());
    assert(rest =~= tail.subrange(pos - ls, tail.len() as int));
    lemma_no_match_in_suffix(tail, end_marker(), pos - ls);
    lemma_no_first_match(rest, end_marker());
    assert(rest.subrange(0, rest.len() as int) =~= rest);
    assert(deaths_in(rest) == Ok::<Seq<EventModel>, ParseError>(seq![]));
    assert(seq![EventModel::EncounterStart(t, n)] + Seq::<EventModel>::empty() =~= seq![EventModel::EncounterStart(t, n)]);
}

/// A read with no start marker in its whole lines reports the deaths on the
/// lines before its first end marker, in line order, and then the end; it
/// consumes everything up to its last line separator. Together with the read
/// that reported the start, an encounter thus reports its start, its deaths
/// and its end, in that order.
pub proof fn lemma_end_reported_after_deaths(b: Seq<u8>, e: int, d: Seq<EventModel>)
    requires
        ({
            let r = b.subrange(0, complete_len(b));
            &&& last_match(r, start_marker()) is None
            &&& first_match(r, end_marker()) == Some(e)
            &&& deaths_in(r.subrange(0, e)) == Ok::<Seq<EventModel>, ParseError>(d)
        }),
    ensures
        parse_model(b) == Ok::<(Seq<EventModel>, int), ParseError>(
            (d.push(EventModel::EncounterEnd), complete_len(b)),
        ),
{
    reveal(head_events);
    reveal(tail_events);
    let r = b.subrange(0, complete_len(b));
    assert(r.subrange(0, r.len() as int) =~= r);
    assert(Seq::<EventModel>::empty() + d.push(EventModel::EncounterEnd) =~= d.push(EventModel::EncounterEnd));
}

} // verus!
