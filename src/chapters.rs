//! Chapter markers: text lines `CHAPTERnn=HH:MM:SS.mmm` and `CHAPTERnnNAME=<label>`.
use vstd::prelude::*;
use vstd::string::{StringExecFns, StrSliceExecFns};
use crate::events::{EventModel, Timestamp, millis_between};

verus! {

/// The text of a decimal digit.
pub open spec fn digit_text(d: int) -> Seq<char> {
    if d == 0 {
        "0"@
    } else if d == 1 {
        "1"@
    } else if d == 2 {
        "2"@
    } else if d == 3 {
        "3"@
    } else if d == 4 {
        "4"@
    } else if d == 5 {
        "5"@
    } else if d == 6 {
        "6"@
    } else if d == 7 {
        "7"@
    } else if d == 8 {
        "8"@
    } else {
        "9"@
    }
}

/// The decimal digits of `n`.
pub open spec fn decimal(n: nat) -> Seq<char>
    decreases n,
{
    if n < 10 {
        digit_text(n as int)
    } else {
        decimal(n / 10) + digit_text((n % 10) as int)
    }
}

/// `k` zeros.
pub open spec fn zeros(k: int) -> Seq<char>
    decreases k,
{
    if k <= 0 {
        seq![]
    } else {
        zeros(k - 1) + "0"@
    }
}

/// `n` in decimal, zero-padded on the left to `w` digits.
#[verifier::opaque]
pub open spec fn padded(n: nat, w: int) -> Seq<char> {
    zeros(w - decimal(n).len()) + decimal(n)
}

/// `v` in decimal, zero-padded after its sign to a total width of `w`.
#[verifier::opaque]
pub open spec fn signed_padded(v: int, w: int) -> Seq<char> {
    if v < 0 {
        "-"@ + padded((-v) as nat, w - 1)
    } else {
        padded(v as nat, w)
    }
}

/// `x`, negated when `neg` holds.
pub open spec fn with_sign(neg: bool, x: int) -> int {
    if neg {
        -x
    } else {
        x
    }
}

/// A signed span of milliseconds as `HH:MM:SS.mmm`; each part of a negative
/// span carries its own sign.
#[verifier::opaque]
pub open spec fn timecode(ms: int) -> Seq<char> {
    let neg = ms < 0;
    let a = if neg { -ms } else { ms };
    signed_padded(with_sign(neg, a / 3_600_000), 2) + ":"@ + signed_padded(
        with_sign(neg, (a / 60_000) % 60),
        2,
    ) + ":"@ + signed_padded(with_sign(neg, (a / 1000) % 60), 2) + "."@ + signed_padded(
        with_sign(neg, a % 1000),
        3,
    )
}

/// The first line of chapter `index`: its time relative to `start`.
#[verifier::opaque]
pub open spec fn chapter_time_line(index: nat, t: Timestamp, start: Timestamp) -> Seq<char> {
    "CHAPTER"@ + padded(index, 2) + "="@ + timecode(millis_between(start, t)) + "\n"@
}

/// The lines of chapter `index` for the event `ev`: a death or the start of
/// an encounter; other events make none.
pub open spec fn chapter_entry(index: nat, ev: EventModel, start: Timestamp) -> Seq<char> {
    match ev {
        EventModel::PlayerDeath(t, n) => chapter_time_line(index, t, start) + "CHAPTER"@ + padded(
            index,
            2,
        ) + "NAME=Death: "@ + n + "\n"@,
        EventModel::EncounterStart(t, n) => chapter_time_line(index, t, start) + "CHAPTER"@
            + padded(index, 2) + "NAME=Encounter Start: "@ + n + "\n"@,
        _ => seq![],
    }
}

/// The chapter file for the events `evs` of a recording begun at `start`;
/// chapters are numbered from 1 in the order of the events.
pub open spec fn chapters_text(evs: Seq<EventModel>, start: Timestamp) -> Seq<char>
    decreases evs.len(),
{
    if evs.len() == 0 {
        seq![]
    } else {
        chapters_text(evs.drop_last(), start) + chapter_entry(evs.len(), evs.last(), start)
    }
}

fn digit_str(d: u128) -> (r: &'static str)
    requires
        d < 10,
    ensures
        r@ == digit_text(d as int),
{
    if d == 0 {
        "0"
    } else if d == 1 {
        "1"
    } else if d == 2 {
        "2"
    } else if d == 3 {
        "3"
    } else if d == 4 {
        "4"
    } else if d == 5 {
        "5"
    } else if d == 6 {
        "6"
    } else if d == 7 {
        "7"
    } else if d == 8 {
        "8"
    } else {
        "9"
    }
}

/// Appends the decimal digits of `n`.
pub fn push_decimal(s: &mut String, n: u128)
    ensures
        final(s)@ == old(s)@ + decimal(n as nat),
    decreases n,
{
    if n >= 10 {
        push_decimal(s, n / 10);
        s.append(digit_str(n % 10));
        assert(final(s)@ =~= old(s)@ + decimal(n as nat));
    } else {
        s.append(digit_str(n));
    }
}

/// Appends `n` zero-padded to `w` digits.
pub fn push_padded(s: &mut String, n: u128, w: usize)
    ensures
        final(s)@ == old(s)@ + padded(n as nat, w as int),
{
    let mut digits = String::new();
    push_decimal(&mut digits, n);
    assert(digits@ =~= decimal(n as nat));
    let l = digits.as_str().unicode_len();
    let mut k: usize = 0;
    let ghost start = s@;
    while k < w && w - k > l
        invariant
            l as int == decimal(n as nat).len(),
            k <= w,
            k + l <= w || k == 0,
            s@ == start + zeros(k as int),
        decreases w - k,
    {
        s.append("0");
        k = k + 1;
    }
    assert(zeros(k as int) == zeros(w - decimal(n as nat).len())) by {
        if k > 0 {
            assert(k as int == w - l);
        } else {
            assert(w - l <= 0);
        }
    }
    s.append(digits.as_str());
    reveal(padded);
    assert(s@ =~= start + padded(n as nat, w as int));
}

/// Appends `v` zero-padded after its sign to a total width of `w`.
pub fn push_signed_padded(s: &mut String, neg: bool, mag: u128, w: usize)
    requires
        w >= 1,
    ensures
        final(s)@ == old(s)@ + signed_padded(with_sign(neg, mag as int), w as int),
{
    reveal(signed_padded);
    if neg && mag > 0 {
        s.append("-");
        push_padded(s, mag, w - 1);
        assert(final(s)@ =~= old(s)@ + ("-"@ + padded(mag as nat, w - 1)));
    } else {
        push_padded(s, mag, w);
    }
}

/// Appends the time line of chapter `index` for an event at `t`.
fn push_time_line(s: &mut String, index: usize, t: Timestamp, start: Timestamp)
    ensures
        final(s)@ == old(s)@ + chapter_time_line(index as nat, t, start),
{
    let ms = crate::events::millis_since(start, t);
    let neg = ms < 0;
    let a: u128 = if neg { (-ms) as u128 } else { ms as u128 };
    s.append("CHAPTER");
    push_padded(s, index as u128, 2);
    s.append("=");
    push_signed_padded(s, neg, a / 3_600_000, 2);
    s.append(":");
    push_signed_padded(s, neg, (a / 60_000) % 60, 2);
    s.append(":");
    push_signed_padded(s, neg, (a / 1000) % 60, 2);
    s.append(".");
    push_signed_padded(s, neg, a % 1000, 3);
    s.append("\n");
    proof {
        let msi = millis_between(start, t);
        let ai = if msi < 0 { -msi } else { msi };
        assert(a as int == ai);
    }
    reveal(timecode);
    reveal(chapter_time_line);
    assert(final(s)@ =~= old(s)@ + chapter_time_line(index as nat, t, start));
}

/// Appends the lines of chapter `index` for the event `ev`.
pub fn push_entry(s: &mut String, index: usize, ev: &crate::events::Event, start: Timestamp)
    ensures
        final(s)@ == old(s)@ + chapter_entry(index as nat, ev@, start),
{
    match ev {
        crate::events::Event::PlayerDeath(t, n) => {
            push_time_line(s, index, *t, start);
            s.append("CHAPTER");
            push_padded(s, index as u128, 2);
            s.append("NAME=Death: ");
            s.append(n.as_str());
            s.append("\n");
            assert(final(s)@ =~= old(s)@ + chapter_entry(index as nat, ev@, start));
        },
        crate::events::Event::EncounterStart(t, n) => {
            push_time_line(s, index, *t, start);
            s.append("CHAPTER");
            push_padded(s, index as u128, 2);
            s.append("NAME=Encounter Start: ");
            s.append(n.as_str());
            s.append("\n");
            assert(final(s)@ =~= old(s)@ + chapter_entry(index as nat, ev@, start));
        },
        _ => {
            assert(final(s)@ =~= old(s)@ + chapter_entry(index as nat, ev@, start));
        },
    }
}

} // verus!
