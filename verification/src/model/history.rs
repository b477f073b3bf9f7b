//! Transfer history that outlives the session.
//!
//! Only finished transfers are stored: an interrupted one cannot be resumed
//! after a restart. Received paths are checked when the history is read back,
//! so a record never offers to open something that has since been deleted.
use vstd::prelude::*;
use super::state::{Transfer, TransferRate, TransferStatus};
use crate::localsend::{OfferedFile, clone_files};
use crate::seqs::{kept, lemma_kept_step, lemma_kept_all, lemma_filter_step};
use crate::system::{WallTime, clone_path, clone_paths};

verus! {

/// How many records are kept: the newest ones are worth keeping.
pub const LIMIT: usize = 100;

/// How a stored transfer ended.
#[derive(Clone, Copy, Debug, PartialEq, Eq, Structural)]
pub enum Outcome {
    Completed,
    Cancelled,
    Failed,
}

/// One finished transfer as it is stored.
#[derive(Debug)]
pub struct Record {
    pub id: String,
    pub peer: String,
    pub sending: bool,
    pub files: Vec<OfferedFile>,
    pub total: u64,
    pub paths: Vec<std::path::PathBuf>,
    pub outcome: Outcome,
    pub error: Option<String>,
    /// Seconds since the Unix epoch.
    pub when: u64,
}

/// Whether a transfer has ended, one way or another.
pub open spec fn finished_status() -> spec_fn(Transfer) -> bool {
    |t: Transfer| !(t.status is Active)
}

/// The finished transfers of `ts`, in order.
pub open spec fn finished(ts: Seq<Transfer>) -> Seq<Transfer> {
    ts.filter(finished_status())
}

/// `r` stores the finished transfer `t`.
pub open spec fn records(t: Transfer, r: Record) -> bool {
    &&& r.id == t.id
    &&& r.peer == t.peer
    &&& r.sending == t.sending
    &&& r.files@ == t.files@
    &&& r.total == t.total
    &&& r.paths@ == t.paths@
    &&& r.when == t.when.secs
    &&& match t.status {
        TransferStatus::Completed => r.outcome == Outcome::Completed && r.error is None,
        TransferStatus::Cancelled => r.outcome == Outcome::Cancelled && r.error is None,
        TransferStatus::Failed(e) => r.outcome == Outcome::Failed && r.error == Some(e),
        TransferStatus::Active => false,
    }
}

/// `u` is the record `r` read back, keeping the paths flagged in `present`:
/// a finished transfer with nothing pending, timed at the stored second.
pub open spec fn restores(r: Record, present: Seq<bool>, u: Transfer) -> bool {
    &&& u.id == r.id
    &&& u.peer == r.peer
    &&& u.sending == r.sending
    &&& u.files@ == r.files@
    &&& u.total == r.total
    &&& u.paths@ == kept(r.paths@, present)
    &&& u.when == WallTime { secs: r.when, nanos: 0 }
    &&& match r.outcome {
        Outcome::Completed => u.status == TransferStatus::Completed,
        Outcome::Cancelled => u.status == TransferStatus::Cancelled,
        Outcome::Failed => match r.error {
            Some(e) => u.status == TransferStatus::Failed(e),
            None => u.status matches TransferStatus::Failed(e) && e@.len() == 0,
        },
    }
    &&& u.peer_id is None
    &&& !u.awaiting_acceptance
    &&& u.composer_ids@.len() == 0
    &&& u.transferred == (if u.status is Completed { u.total } else { 0 })
    &&& u.rate == TransferRate::new_spec()
}

/// The records kept of `ts`: those of the newest `LIMIT` finished transfers,
/// oldest first.
pub open spec fn kept_records(ts: Seq<Transfer>, rs: Seq<Record>) -> bool {
    let f = finished(ts);
    let start = if f.len() > LIMIT { f.len() - LIMIT } else { 0 };
    &&& rs.len() == f.len() - start
    &&& forall|i: int| 0 <= i < rs.len() ==> records(#[trigger] f[start + i], rs[i])
}

impl Record {
    /// The record of a finished transfer; an active one has none.
    pub fn of(transfer: &Transfer) -> (r: Option<Record>)
        ensures
            r is None <==> transfer.status is Active,
            r matches Some(rec) ==> records(*transfer, rec),
    {
        let (outcome, error) = match &transfer.status {
            TransferStatus::Completed => (Outcome::Completed, None),
            TransferStatus::Cancelled => (Outcome::Cancelled, None),
            TransferStatus::Failed(error) => (Outcome::Failed, Some(error.clone())),
            TransferStatus::Active => {
                return None;
            },
        };
        Some(
            Record {
                id: transfer.id.clone(),
                peer: transfer.peer.clone(),
                sending: transfer.sending,
                files: clone_files(&transfer.files),
                total: transfer.total,
                paths: clone_paths(&transfer.paths),
                outcome,
                error,
                when: transfer.when.secs,
            },
        )
    }

    /// The transfer this record stands for. `present` says, path by path,
    /// whether the received file is still there: a record must never offer
    /// to open a file that is gone.
    pub fn into_transfer(self, present: &Vec<bool>) -> (u: Transfer)
        requires
            present@.len() == self.paths@.len(),
        ensures
            restores(self, present@, u),
    {
        let status = match self.outcome {
            Outcome::Completed => TransferStatus::Completed,
            Outcome::Cancelled => TransferStatus::Cancelled,
            Outcome::Failed => match self.error {
                Some(error) => TransferStatus::Failed(error),
                None => TransferStatus::Failed(String::new()),
            },
        };
        let mut paths: Vec<std::path::PathBuf> = Vec::new();
        let mut i: usize = 0;
        while i < self.paths.len()
            invariant
                i <= self.paths@.len(),
                present@.len() == self.paths@.len(),
                paths@ == kept(self.paths@.subrange(0, i as int), present@.subrange(0, i as int)),
            decreases self.paths@.len() - i,
        {
            proof {
                lemma_kept_step(self.paths@, present@, i as int);
            }
            if present[i] {
                paths.push(clone_path(&self.paths[i]));
            }
            i += 1;
        }
        assert(self.paths@.subrange(0, self.paths@.len() as int) =~= self.paths@);
        assert(present@.subrange(0, present@.len() as int) =~= present@);
        Transfer::restored(
            self.id,
            self.peer,
            self.sending,
            self.files,
            self.total,
            paths,
            status,
            WallTime { secs: self.when, nanos: 0 },
        )
    }
}

/// The records to store for the session's `transfers`: the newest `LIMIT`
/// finished ones, oldest first.
pub fn kept_history(transfers: &Vec<Transfer>) -> (rs: Vec<Record>)
    ensures
        kept_records(transfers@, rs@),
{
    let ghost ts = transfers@;
    let ghost p = finished_status();
    let mut count: usize = 0;
    let mut i: usize = 0;
    while i < transfers.len()
        invariant
            ts == transfers@,
            p == finished_status(),
            i <= ts.len(),
            count == ts.subrange(0, i as int).filter(p).len(),
        decreases ts.len() - i,
    {
        proof {
            lemma_filter_step(ts, p, i as int);
        }
        match transfers[i].status {
            TransferStatus::Active => {},
            _ => {
                count += 1;
            },
        }
        i += 1;
    }
    assert(ts.subrange(0, ts.len() as int) =~= ts);
    let skip: usize = if count > LIMIT { count - LIMIT } else { 0 };
    let ghost f = finished(ts);
    let mut rs: Vec<Record> = Vec::new();
    let mut seen: usize = 0;
    let mut j: usize = 0;
    while j < transfers.len()
        invariant
            ts == transfers@,
            p == finished_status(),
            f == finished(ts),
            f.len() == count,
            skip == (if count > LIMIT { count - LIMIT } else { 0 }),
            j <= ts.len(),
            seen == ts.subrange(0, j as int).filter(p).len(),
            rs@.len() == (if seen > skip { seen - skip } else { 0 }),
            forall|k: int| 0 <= k < rs@.len() ==> records(#[trigger] f[skip + k], rs@[k]),
        decreases ts.len() - j,
    {
        proof {
            lemma_filter_step(ts, p, j as int);
            lemma_prefix_filter(ts, p, j as int);
        }
        match Record::of(&transfers[j]) {
            Some(record) => {
                proof {
                    assert(f[seen as int] == ts[j as int]);
                }
                if seen >= skip {
                    rs.push(record);
                }
                seen += 1;
            },
            None => {},
        }
        j += 1;
    }
    rs
}

/// A prefix of `s` filters to a prefix of the filtered whole, and the element
/// at `i`, when it passes, comes right after it.
proof fn lemma_prefix_filter(s: Seq<Transfer>, p: spec_fn(Transfer) -> bool, i: int)
    requires
        0 <= i < s.len(),
    ensures
        s.subrange(0, i).filter(p).len() <= s.filter(p).len(),
        forall|k: int|
            0 <= k < s.subrange(0, i).filter(p).len() ==> #[trigger] s.subrange(0, i).filter(p)[k]
                == s.filter(p)[k],
        p(s[i]) ==> s.subrange(0, i).filter(p).len() < s.filter(p).len() && s.filter(p)[s.subrange(0, i).filter(p).len() as int] == s[i],
    decreases s.len() - i,
{
    lemma_filter_step(s, p, i);
    let a = s.subrange(0, i).filter(p);
    let b = s.subrange(0, i + 1).filter(p);
    if i + 1 < s.len() {
        lemma_prefix_filter(s, p, i + 1);
    } else {
        assert(s.subrange(0, i + 1) =~= s);
    }
    assert forall|k: int| 0 <= k < b.len() implies #[trigger] b[k] == s.filter(p)[k] by {
        if i + 1 < s.len() {
            assert(s.subrange(0, i + 1).filter(p)[k] == s.filter(p)[k]);
        }
    }
    assert forall|k: int| 0 <= k < a.len() implies #[trigger] a[k] == s.filter(p)[k] by {
        assert(a[k] == b[k]);
    }
    if p(s[i]) {
        assert(b[a.len() as int] == s[i]);
    }
}

/// A finished transfer survives being stored and read back with all its
/// received files present: same id, peer, direction, files, size, paths,
/// outcome and second.
pub proof fn history_round_trip(t: Transfer, r: Record, present: Seq<bool>, u: Transfer)
    requires
        records(t, r),
        present.len() == r.paths@.len(),
        forall|j: int| 0 <= j < present.len() ==> #[trigger] present[j],
        restores(r, present, u),
    ensures
        u.id == t.id,
        u.peer == t.peer,
        u.sending == t.sending,
        u.files@ == t.files@,
        u.total == t.total,
        u.paths@ == t.paths@,
        u.status == t.status,
        u.when.secs == t.when.secs,
{
    lemma_kept_all(r.paths@, present);
}

} // verus!
