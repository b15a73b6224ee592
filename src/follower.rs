//! The decisions of the log follower: which file to tail, and what to do with
//! the bytes read from it.
use vstd::prelude::*;
use crate::events::{Event, EventModel, models};
use crate::parser::{ParseError, Parser, parse_model, complete_len, lemma_parse_rest_is_quiet};

verus! {

/// `name` begins with `prefix`.
pub open spec fn has_prefix(name: Seq<u8>, prefix: Seq<u8>) -> bool {
    prefix.len() <= name.len() && name.subrange(0, prefix.len() as int) == prefix
}

/// Whether `name` begins with `prefix`.
pub fn starts_with(name: &[u8], prefix: &[u8]) -> (r: bool)
    ensures
        r == has_prefix(name@, prefix@),
{
    if prefix.len() > name.len() {
        return false;
    }
    let mut i: usize = 0;
    while i < prefix.len()
        invariant
            prefix@.len() <= name@.len(),
            i <= prefix@.len(),
            forall|j: int| 0 <= j < i ==> name@[j] == prefix@[j],
        decreases prefix@.len() - i,
    {
        if name[i] != prefix[i] {
            assert(name@.subrange(0, prefix@.len() as int)[i as int] != prefix@[i as int]);
            return false;
        }
        i = i + 1;
    }
    assert(name@.subrange(0, prefix@.len() as int) =~= prefix@);
    true
}

/// What the follower knows of one entry of the watched directory.
pub struct DirEntryInfo {
    pub name: Vec<u8>,
    pub is_file: bool,
    /// Modification time, in nanoseconds since the epoch.
    pub modified: u128,
}

/// The entry may be tailed: a file whose name begins with `prefix`.
pub open spec fn is_candidate(e: DirEntryInfo, prefix: Seq<u8>) -> bool {
    e.is_file && has_prefix(e.name@, prefix)
}

/// The index of the newest candidate among `entries` (the last of equally new
/// ones), or `None` where there is no candidate.
pub fn newest_log(entries: &Vec<DirEntryInfo>, prefix: &[u8]) -> (r: Option<usize>)
    ensures
        r is None <==> forall|j: int| 0 <= j < entries@.len() ==> !is_candidate(#[trigger] entries@[j], prefix@),
        r matches Some(i) ==> i < entries@.len() && is_candidate(entries@[i as int], prefix@)
            && (forall|j: int| 0 <= j < i && is_candidate(#[trigger] entries@[j], prefix@)
                ==> entries@[j].modified <= entries@[i as int].modified)
            && (forall|j: int| i < j < entries@.len() && is_candidate(#[trigger] entries@[j], prefix@)
                ==> entries@[j].modified < entries@[i as int].modified),
{
    let mut best: Option<usize> = None;
    let mut k: usize = 0;
    while k < entries.len()
        invariant
            k <= entries@.len(),
            best is None <==> forall|j: int| 0 <= j < k ==> !is_candidate(#[trigger] entries@[j], prefix@),
            best matches Some(i) ==> i < k && is_candidate(entries@[i as int], prefix@)
                && (forall|j: int| 0 <= j < i && is_candidate(#[trigger] entries@[j], prefix@)
                    ==> entries@[j].modified <= entries@[i as int].modified)
                && (forall|j: int| i < j < k && is_candidate(#[trigger] entries@[j], prefix@)
                    ==> entries@[j].modified < entries@[i as int].modified),
        decreases entries@.len() - k,
    {
        let e = &entries[k];
        if e.is_file && starts_with(e.name.as_slice(), prefix) {
            match best {
                None => {
                    best = Some(k);
                },
                Some(b) => {
                    if entries[b].modified <= e.modified {
                        best = Some(k);
                    }
                },
            }
        }
        k = k + 1;
    }
    best
}

/// The follower's state: the name prefix of log files, the name of the file
/// being tailed and the bytes read but not yet consumed by the parser.
pub struct Follower {
    prefix: Vec<u8>,
    file: Vec<u8>,
    pending: Vec<u8>,
}

impl Follower {
    /// The name prefix of log files.
    pub closed spec fn prefix_bytes(&self) -> Seq<u8> {
        self.prefix@
    }

    /// The name of the file being tailed.
    pub closed spec fn file_name(&self) -> Seq<u8> {
        self.file@
    }

    /// The name of the file being tailed.
    pub fn file(&self) -> (r: &[u8])
        ensures
            r@ == self.file_name(),
    {
        self.file.as_slice()
    }

    /// The bytes read but not consumed yet.
    pub closed spec fn pending_bytes(&self) -> Seq<u8> {
        self.pending@
    }

    /// A follower of `file`, with nothing read yet.
    pub fn new(prefix: Vec<u8>, file: Vec<u8>) -> (r: Self)
        ensures
            r.prefix_bytes() == prefix@,
            r.file_name() == file@,
            r.pending_bytes() == Seq::<u8>::empty(),
    {
        Follower { prefix, file, pending: Vec::new() }
    }

    /// A file was created in the watched directory. Where its name is that of
    /// a log file, it becomes the tailed file and the unconsumed bytes are
    /// dropped: the caller must read it from its start.
    pub fn on_created(&mut self, name: &[u8]) -> (r: bool)
        ensures
            r == has_prefix(name@, old(self).prefix_bytes()),
            final(self).prefix_bytes() == old(self).prefix_bytes(),
            r ==> final(self).file_name() == name@ && final(self).pending_bytes() == Seq::<u8>::empty(),
            !r ==> final(self).file_name() == old(self).file_name() && final(self).pending_bytes() == old(self).pending_bytes(),
    {
        if starts_with(name, self.prefix.as_slice()) {
            let mut file: Vec<u8> = Vec::new();
            file.extend_from_slice(name);
            assert(file@ =~= name@);
            self.file = file;
            self.pending = Vec::new();
            true
        } else {
            false
        }
    }

    /// Bytes were appended to the tailed file. They are parsed together with
    /// the unconsumed rest of earlier reads; what the parser consumes is
    /// dropped, the rest is kept. On a parse error nothing is consumed.
    pub fn on_data(&mut self, bytes: &[u8]) -> (r: Result<Vec<Event>, ParseError>)
        ensures
            final(self).prefix_bytes() == old(self).prefix_bytes(),
            final(self).file_name() == old(self).file_name(),
            match parse_model(old(self).pending_bytes() + bytes@) {
                Ok((evs, c)) => r matches Ok(v) && models(v@) == evs
                    && final(self).pending_bytes() == (old(self).pending_bytes() + bytes@).subrange(
                    c,
                    (old(self).pending_bytes() + bytes@).len() as int,
                ),
                Err(e) => r == Err::<Vec<Event>, ParseError>(e)
                    && final(self).pending_bytes() == old(self).pending_bytes() + bytes@,
            },
    {
        self.pending.extend_from_slice(bytes);
        assert(self.pending@ =~= old(self).pending@ + bytes@);
        let parser = Parser::new();
        let parsed = match parser.parse(self.pending.as_slice()) {
            Ok(p) => p,
            Err(e) => return Err(e),
        };
        let n = self.pending.len();
        let mut rest: Vec<u8> = Vec::new();
        let mut i: usize = parsed.consumed;
        while i < n
            invariant
                parsed.consumed <= i <= n == self.pending@.len(),
                rest@ == self.pending@.subrange(parsed.consumed as int, i as int),
            decreases n - i,
        {
            rest.push(self.pending[i]);
            i = i + 1;
            assert(rest@ =~= self.pending@.subrange(parsed.consumed as int, i as int));
        }
        self.pending = rest;
        Ok(parsed.events)
    }
}

/// Once bytes have been fed and parsed, feeding nothing more reports nothing:
/// the follower never hands the parser a consumed byte again.
pub proof fn lemma_no_replay(pending: Seq<u8>, bytes: Seq<u8>)
    ensures
        ({
            let all = pending + bytes;
            match parse_model(all) {
                Ok((evs, c)) => parse_model(all.subrange(c, all.len() as int) + Seq::<u8>::empty())
                    == Ok::<(Seq<EventModel>, int), ParseError>((seq![], 0)),
                Err(_) => true,
            }
        }),
{
    let all = pending + bytes;
    lemma_parse_rest_is_quiet(all);
    let rest = all.subrange(complete_len(all), all.len() as int);
    assert(rest + Seq::<u8>::empty() =~= rest);
}

} // verus!
