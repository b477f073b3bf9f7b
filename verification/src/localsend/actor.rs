//! The decisions of the network node.
//!
//! The node runs one loop over user commands, protocol-server events, file
//! progress, finished tasks and a timer. Channels, tasks and the protocol
//! server live outside this module: they report what happened, and the
//! handlers here update the sessions in flight and return the actions to
//! perform, in order.
use vstd::prelude::*;
use vstd::seq_lib::{to_multiset_build, to_multiset_insert};
use super::{Device, OfferedFile, TransferEvent};
use super::adapter::{OfferEntry, check_request, offer_verdict, scan_offer, request_verdict, offer_error_text};
use crate::text::{chars_of, string_of, extend_chars, str_eq, text_le, text_le_chars, lemma_text_le_total, lemma_text_le_transitive};

verus! {

/// How long a request may wait for the user's answer, in nanoseconds.
pub const DECISION_TIMEOUT: u64 = 300_000_000_000;

/// How long an accepted session may go without activity, in nanoseconds.
pub const IDLE_TIMEOUT: u64 = 90_000_000_000;

/// Bytes received so far of one file.
#[derive(Debug)]
pub struct FileBytes {
    pub file: String,
    pub bytes: u64,
}

/// The incoming session: from the request until all its files are saved.
#[derive(Debug)]
pub struct Incoming {
    pub id: String,
    pub peer: Device,
    pub files: Vec<OfferEntry>,
    /// The request still waits for the user's answer.
    pub awaiting_decision: bool,
    pub progress: Vec<FileBytes>,
    pub paths: Vec<std::path::PathBuf>,
    pub saved: usize,
    /// The full text of a text message among the saved files.
    pub text: Option<String>,
    /// Monotonic nanoseconds of the last sign of life.
    pub last_activity: u64,
}

/// A file of the incoming session that its file task saved: where, and, for
/// a text message, the full text that the task read.
#[derive(Debug)]
pub struct SavedFile {
    pub path: std::path::PathBuf,
    pub text: Option<String>,
}

/// A transfer this node sends.
#[derive(Debug)]
pub struct Outgoing {
    pub id: String,
    pub host: String,
    pub cancelled: bool,
}

/// An answer to a transfer request.
#[derive(Debug)]
pub enum Answer {
    /// Accept the files with these keys.
    Accept(Vec<String>),
    Decline,
}

/// What the node must do, in the order handlers return them.
#[derive(Debug)]
pub enum Action {
    /// Report an event to the application.
    Emit(TransferEvent),
    /// Answer the request that was just made.
    AnswerNew(Answer),
    /// Answer the request held for the incoming session.
    AnswerHeld(Answer),
    /// Stop the file tasks of the incoming session.
    CancelIncoming,
    /// Stop the sending task of this transfer.
    CancelOutgoing(String),
    /// End this session in the protocol server.
    EndSession(String),
    /// Start sending this transfer.
    SpawnSend(String),
}

/// The sessions in flight, as the node knows them.
#[derive(Debug)]
pub struct Actor {
    incoming: Option<Incoming>,
    outgoing: Vec<Outgoing>,
}

/// The sessions of an actor.
pub struct ActorView {
    pub incoming: Option<Incoming>,
    pub outgoing: Seq<Outgoing>,
}

impl View for Actor {
    type V = ActorView;

    closed spec fn view(&self) -> ActorView {
        ActorView { incoming: self.incoming, outgoing: self.outgoing@ }
    }
}

/// The bytes offered from position `k` on.
pub open spec fn sizes_from(files: Seq<OfferEntry>, k: int) -> int
    decreases files.len() - k,
{
    if k < 0 || k >= files.len() {
        0
    } else {
        files[k].size + sizes_from(files, k + 1)
    }
}

/// The bytes of a whole offer.
pub open spec fn offered_total(files: Seq<OfferEntry>) -> int {
    sizes_from(files, 0)
}

/// The bytes of a list of offered files.
pub open spec fn files_size(files: Seq<OfferedFile>) -> int
    decreases files.len(),
{
    if files.len() == 0 {
        0
    } else {
        files_size(files.drop_last()) + files.last().size
    }
}

/// The bytes received over all files.
pub open spec fn received(progress: Seq<FileBytes>) -> int
    decreases progress.len(),
{
    if progress.len() == 0 {
        0
    } else {
        received(progress.drop_last()) + progress.last().bytes
    }
}

/// A count saturated at `u64::MAX`.
pub open spec fn capped(x: int) -> u64 {
    if x > u64::MAX {
        u64::MAX
    } else {
        x as u64
    }
}

/// How an offer entry is shown.
pub open spec fn offered_file(e: OfferEntry) -> OfferedFile {
    OfferedFile { name: e.file_name, size: e.size, mime: e.file_type }
}

/// How the entries of an offer are shown, in order.
pub open spec fn offered_files(files: Seq<OfferEntry>) -> Seq<OfferedFile> {
    files.map_values(|e: OfferEntry| offered_file(e))
}

/// Files ordered by name.
pub open spec fn sorted_by_name(files: Seq<OfferedFile>) -> bool {
    forall|i: int, j: int| 0 <= i < j < files.len() ==> text_le(#[trigger] files[i].name@, #[trigger] files[j].name@)
}

/// The keys the files are filed under, in order.
pub open spec fn keys_of(files: Seq<OfferEntry>) -> Seq<Seq<char>> {
    files.map_values(|e: OfferEntry| e.key@)
}

/// The characters of each string.
pub open spec fn string_views(v: Seq<String>) -> Seq<Seq<char>> {
    v.map_values(|s: String| s@)
}

/// The outgoing transfers other than `id`.
pub open spec fn without(outs: Seq<Outgoing>, id: Seq<char>) -> Seq<Outgoing>
    decreases outs.len(),
{
    if outs.len() == 0 {
        outs
    } else {
        let rest = without(outs.drop_last(), id);
        if outs.last().id@ == id {
            rest
        } else {
            rest.push(outs.last())
        }
    }
}

/// The outgoing transfers with `id` marked cancelled.
pub open spec fn cancelled_ids(outs: Seq<Outgoing>, id: Seq<char>) -> Seq<Outgoing> {
    outs.map_values(|o: Outgoing| if o.id@ == id {
        Outgoing { id: o.id, host: o.host, cancelled: true }
    } else {
        o
    })
}

/// Whether an outgoing transfer has `id`.
pub open spec fn has_outgoing(outs: Seq<Outgoing>, id: Seq<char>) -> bool {
    exists|k: int| 0 <= k < outs.len() && (#[trigger] outs[k]).id@ == id
}

/// Whether some outgoing transfer with `id` was cancelled.
pub open spec fn was_cancelled(outs: Seq<Outgoing>, id: Seq<char>) -> bool {
    exists|k: int| 0 <= k < outs.len() && (#[trigger] outs[k]).id@ == id && outs[k].cancelled
}

/// The incoming session, when it has id `id`.
pub open spec fn incoming_is(a: ActorView, id: Seq<char>) -> bool {
    a.incoming matches Some(i) && i.id@ == id
}

/// The actions of cancelling the incoming session `i`.
pub open spec fn incoming_cancel_actions(i: Incoming, actions: Seq<Action>) -> bool {
    let k: int = if i.awaiting_decision { 1 } else { 0 };
    &&& actions.len() == 3 + k
    &&& actions[0] is CancelIncoming
    &&& i.awaiting_decision ==> (actions[1] matches Action::AnswerHeld(Answer::Decline))
    &&& actions[1 + k] matches Action::EndSession(s)
    &&& s@ == i.id@
    &&& actions[2 + k] matches Action::Emit(TransferEvent::Cancelled { id })
    &&& id@ == i.id@
}

/// Cancelling `id`: its sending task stops and, when it is the incoming
/// session, the session ends with a declined request, an ended protocol
/// session and a cancellation report.
pub open spec fn cancelled(o: ActorView, id: Seq<char>, n: ActorView, actions: Seq<Action>) -> bool {
    let k: int = if has_outgoing(o.outgoing, id) { 1 } else { 0 };
    &&& k <= actions.len()
    &&& n.outgoing == cancelled_ids(o.outgoing, id)
    &&& has_outgoing(o.outgoing, id) ==> (actions[0] matches Action::CancelOutgoing(x) && x@ == id)
    &&& if incoming_is(o, id) {
        &&& n.incoming is None
        &&& incoming_cancel_actions(o.incoming->0, actions.subrange(k, actions.len() as int))
    } else {
        &&& n.incoming == o.incoming
        &&& actions.len() == k
    }
}

impl Actor {
    #[verifier::type_invariant]
    spec fn sound(&self) -> bool {
        self.incoming matches Some(i) ==> offered_total(i.files@) <= u64::MAX && i.saved < i.files@.len()
    }

    /// A node with no session in flight.
    pub fn new() -> (r: Actor)
        ensures
            r@.incoming is None,
            r@.outgoing.len() == 0,
    {
        Actor { incoming: None, outgoing: Vec::new() }
    }

    /// The incoming session, if any.
    pub fn incoming(&self) -> (r: Option<&Incoming>)
        ensures
            match r {
                Some(i) => self@.incoming == Some(*i),
                None => self@.incoming is None,
            },
    {
        match &self.incoming {
            Some(i) => Some(i),
            None => None,
        }
    }

    /// The transfers this node sends.
    pub fn outgoing(&self) -> (r: &Vec<Outgoing>)
        ensures
            r@ == self@.outgoing,
    {
        &self.outgoing
    }
}

/// Marks the transfers with `id` cancelled; tells whether there was one.
fn mark_cancelled(outs: &Vec<Outgoing>, id: &str) -> (r: (Vec<Outgoing>, bool))
    ensures
        r.0@ == cancelled_ids(outs@, id@),
        r.1 == has_outgoing(outs@, id@),
{
    let mut next: Vec<Outgoing> = Vec::new();
    let mut found = false;
    let mut k: usize = 0;
    while k < outs.len()
        invariant
            k <= outs@.len(),
            next@ == cancelled_ids(outs@.subrange(0, k as int), id@),
            found == has_outgoing(outs@.subrange(0, k as int), id@),
        decreases outs@.len() - k,
    {
        let o = &outs[k];
        let hit = str_eq(o.id.as_str(), id);
        next.push(Outgoing { id: o.id.clone(), host: o.host.clone(), cancelled: o.cancelled || hit });
        proof {
            let before = outs@.subrange(0, k as int);
            let after = outs@.subrange(0, k + 1);
            assert(after =~= before.push(outs@[k as int]));
            assert(next@ =~= cancelled_ids(after, id@));
            if found {
                let w = choose|w: int| 0 <= w < before.len() && (#[trigger] before[w]).id@ == id@;
                assert(after[w] == before[w]);
            }
            if hit {
                assert(after[k as int].id@ == id@);
            }
            if has_outgoing(after, id@) && !hit {
                let w = choose|w: int| 0 <= w < after.len() && (#[trigger] after[w]).id@ == id@;
                assert(before[w] == after[w]);
            }
        }
        found = found || hit;
        k += 1;
    }
    assert(outs@.subrange(0, outs@.len() as int) =~= outs@);
    (next, found)
}

/// The transfers other than `id`.
fn without_id(outs: Vec<Outgoing>, id: &str) -> (r: Vec<Outgoing>)
    ensures
        r@ == without(outs@, id@),
{
    let mut next: Vec<Outgoing> = Vec::new();
    let mut k: usize = 0;
    let ghost all = outs@;
    let n = outs.len();
    let mut rest = outs;
    while rest.len() > 0
        invariant
            all.len() == n,
            k + rest@.len() == all.len(),
            rest@ == all.subrange(k as int, all.len() as int),
            next@ == without(all.subrange(0, k as int), id@),
        decreases rest@.len(),
    {
        let o = rest.remove(0);
        proof {
            assert(rest@ =~= all.subrange(k + 1, all.len() as int));
            assert(all.subrange(0, k + 1).drop_last() =~= all.subrange(0, k as int));
        }
        if !str_eq(o.id.as_str(), id) {
            next.push(o);
        }
        k += 1;
    }
    assert(all.subrange(0, all.len() as int) =~= all);
    next
}

impl Actor {
    /// Cancels `id`: stops its sending task, and, when it is the incoming
    /// session, declines the request still waiting for an answer, ends the
    /// protocol session and reports the cancellation.
    pub fn cancel(&mut self, id: &str) -> (actions: Vec<Action>)
        ensures
            cancelled(old(self)@, id@, final(self)@, actions@),
    {
        proof {
            use_type_invariant(&*self);
        }
        let ghost o = self@;
        let (outs, found) = mark_cancelled(&self.outgoing, id);
        self.outgoing = outs;
        let mut actions: Vec<Action> = Vec::new();
        if found {
            actions.push(Action::CancelOutgoing(id.to_owned()));
        }
        let ghost k: int = if found { 1 } else { 0 };
        let matches = match &self.incoming {
            Some(i) => str_eq(i.id.as_str(), id),
            None => false,
        };
        if matches {
            let mut taken: Option<Incoming> = None;
            std::mem::swap(&mut taken, &mut self.incoming);
            let i = taken.unwrap();
            actions.push(Action::CancelIncoming);
            if i.awaiting_decision {
                actions.push(Action::AnswerHeld(Answer::Decline));
            }
            actions.push(Action::EndSession(id.to_owned()));
            actions.push(Action::Emit(TransferEvent::Cancelled { id: id.to_owned() }));
            assert(actions@.subrange(k, actions@.len() as int)[0] == actions@[k]);
        }
        actions
    }
}

/// A request that passes its checks offers at most `u64::MAX` bytes in at
/// least one file.
proof fn lemma_scan_total(files: Seq<OfferEntry>, k: nat, t: int)
    requires
        0 <= t <= u64::MAX,
        scan_offer(files, k, t) is Ok,
    ensures
        t + sizes_from(files, k as int) <= u64::MAX,
    decreases files.len() - k,
{
    if k < files.len() {
        lemma_scan_total(files, k + 1, t + files[k as int].size);
    }
}

/// Offered sizes are never negative.
proof fn lemma_sizes_nonneg(files: Seq<OfferEntry>, k: int)
    ensures
        sizes_from(files, k) >= 0,
    decreases files.len() - k,
{
    if 0 <= k < files.len() {
        lemma_sizes_nonneg(files, k + 1);
    }
}

/// The total of an offer that fits in a `u64`.
fn total_of(files: &Vec<OfferEntry>) -> (r: u64)
    requires
        offered_total(files@) <= u64::MAX,
    ensures
        r == offered_total(files@),
{
    let mut acc: u64 = 0;
    let mut k: usize = 0;
    while k < files.len()
        invariant
            k <= files@.len(),
            offered_total(files@) <= u64::MAX,
            acc + sizes_from(files@, k as int) == offered_total(files@),
        decreases files@.len() - k,
    {
        proof {
            lemma_sizes_nonneg(files@, k + 1);
        }
        acc = acc + files[k].size;
        k += 1;
    }
    acc
}

/// How the entries of an offer are shown, in order.
fn offered_list(files: &Vec<OfferEntry>) -> (r: Vec<OfferedFile>)
    ensures
        r@ == offered_files(files@),
{
    let mut out: Vec<OfferedFile> = Vec::new();
    let mut k: usize = 0;
    while k < files.len()
        invariant
            k <= files@.len(),
            out@ == offered_files(files@.subrange(0, k as int)),
        decreases files@.len() - k,
    {
        let e = &files[k];
        out.push(OfferedFile { name: e.file_name.clone(), size: e.size, mime: e.file_type.clone() });
        assert(out@ =~= offered_files(files@.subrange(0, k + 1)));
        k += 1;
    }
    assert(files@.subrange(0, files@.len() as int) =~= files@);
    out
}

/// The offered files ordered by name.
fn sort_by_name(files: Vec<OfferedFile>) -> (r: Vec<OfferedFile>)
    ensures
        sorted_by_name(r@),
        r@.to_multiset() == files@.to_multiset(),
{
    let mut out: Vec<OfferedFile> = Vec::new();
    let mut i: usize = 0;
    assert(out@ =~= files@.subrange(0, 0));
    while i < files.len()
        invariant
            i <= files@.len(),
            sorted_by_name(out@),
            out@.to_multiset() == files@.subrange(0, i as int).to_multiset(),
        decreases files@.len() - i,
    {
        let x = files[i].clone();
        let name = chars_of(x.name.as_str());
        let mut k: usize = 0;
        loop
            invariant
                k <= out@.len(),
                name@ == x.name@,
                forall|j: int| 0 <= j < k ==> text_le(#[trigger] out@[j].name@, x.name@),
            ensures
                k <= out@.len(),
                forall|j: int| 0 <= j < k ==> text_le(#[trigger] out@[j].name@, x.name@),
                k < out@.len() ==> !text_le(out@[k as int].name@, x.name@),
            decreases out@.len() - k,
        {
            if k == out.len() {
                break;
            }
            if !text_le_chars(chars_of(out[k].name.as_str()).as_slice(), name.as_slice()) {
                break;
            }
            k += 1;
        }
        let ghost before = out@;
        proof {
            if k < before.len() {
                lemma_text_le_total(before[k as int].name@, x.name@);
                assert forall|j: int| k <= j < before.len() implies text_le(x.name@, #[trigger] before[j].name@) by {
                    if j > k {
                        lemma_text_le_transitive(x.name@, before[k as int].name@, before[j].name@);
                    }
                }
            }
        }
        out.insert(k, x);
        proof {
            let after = out@;
            assert(after == before.insert(k as int, x));
            assert forall|a: int, b: int| 0 <= a < b < after.len() implies text_le(#[trigger] after[a].name@, #[trigger] after[b].name@) by {
                if b < k {
                    assert(after[a] == before[a] && after[b] == before[b]);
                } else if b == k {
                    assert(after[a] == before[a]);
                } else if a == k {
                    assert(after[b] == before[b - 1]);
                } else if a < k {
                    assert(after[a] == before[a] && after[b] == before[b - 1]);
                    lemma_text_le_transitive(before[a].name@, x.name@, before[b - 1].name@);
                } else {
                    assert(after[a] == before[a - 1] && after[b] == before[b - 1]);
                }
            }
            to_multiset_insert(before, k as int, x);
            assert(files@.subrange(0, i + 1) =~= files@.subrange(0, i as int).push(files@[i as int]));
            to_multiset_build(files@.subrange(0, i as int), files@[i as int]);
        }
        i += 1;
    }
    assert(files@.subrange(0, files@.len() as int) =~= files@);
    out
}

/// Whether the incoming session `i` has gone quiet for too long at `now`:
/// five minutes while its request waits for an answer, ninety seconds once
/// files flow.
pub open spec fn timed_out(i: Incoming, now: u64) -> bool {
    let elapsed: int = if now >= i.last_activity { now - i.last_activity } else { 0 };
    elapsed > (if i.awaiting_decision { DECISION_TIMEOUT } else { IDLE_TIMEOUT })
}

/// The state is left as it was.
pub open spec fn unchanged(o: ActorView, n: ActorView) -> bool {
    n.incoming == o.incoming && n.outgoing == o.outgoing
}

/// The incoming session `u` is `i` with a new sign of life at `now`; its
/// answer and progress are stated apart.
pub open spec fn touched(i: Incoming, now: u64, u: Incoming) -> bool {
    &&& u.id == i.id
    &&& u.peer == i.peer
    &&& u.files == i.files
    &&& u.paths == i.paths
    &&& u.saved == i.saved
    &&& u.text == i.text
    &&& u.last_activity == now
}

/// Whether progress entry `p` counts file `file`.
pub open spec fn same_file(file: Seq<char>) -> spec_fn(FileBytes) -> bool {
    |p: FileBytes| p.file@ == file
}

/// The progress with `file` at `bytes`: its entry updated, or added.
pub open spec fn upserted(progress: Seq<FileBytes>, file: String, bytes: u64) -> Seq<FileBytes> {
    match crate::seqs::first_where(progress, same_file(file@)) {
        Some(k) => progress.update(k, FileBytes { file: progress[k].file, bytes }),
        None => progress.push(FileBytes { file, bytes }),
    }
}

/// The remote session of the `k`-th outgoing transfer.
pub open spec fn remote_at(remotes: Seq<Option<String>>, k: int) -> Option<String> {
    if 0 <= k < remotes.len() {
        remotes[k]
    } else {
        None
    }
}

/// Whether the peer at `host` cancelling `session` names the `k`-th
/// outgoing transfer.
pub open spec fn names_transfer(outs: Seq<Outgoing>, remotes: Seq<Option<String>>, host: Seq<char>, session: Seq<char>, k: int) -> bool {
    &&& outs[k].host@ == host
    &&& remote_at(remotes, k) matches Some(s)
    &&& s@ == session
}

/// The ids of the outgoing transfers a remote cancellation names, in order.
pub open spec fn named_ids(outs: Seq<Outgoing>, remotes: Seq<Option<String>>, host: Seq<char>, session: Seq<char>, n: int) -> Seq<Seq<char>>
    decreases n,
{
    if n <= 0 {
        Seq::empty()
    } else {
        let rest = named_ids(outs, remotes, host, session, n - 1);
        if names_transfer(outs, remotes, host, session, n - 1) {
            rest.push(outs[n - 1].id@)
        } else {
            rest
        }
    }
}

/// The actions that stop everything in flight: the incoming session's
/// tasks, then each sending task in order.
pub open spec fn stops_all(a: ActorView, actions: Seq<Action>) -> bool {
    let base: int = if a.incoming is Some { 1 } else { 0 };
    &&& actions.len() == a.outgoing.len() + base
    &&& a.incoming is Some ==> actions[0] is CancelIncoming
    &&& forall|k: int| base <= k < actions.len() ==> ((#[trigger] actions[k]) matches Action::CancelOutgoing(id) && id == a.outgoing[k - base].id)
}

impl Actor {
    /// The timer: an incoming session that has gone quiet for too long is
    /// cancelled.
    pub fn tick(&mut self, now: u64) -> (actions: Vec<Action>)
        ensures
            match old(self)@.incoming {
                Some(i) => if timed_out(i, now) {
                    cancelled(old(self)@, i.id@, final(self)@, actions@)
                } else {
                    unchanged(old(self)@, final(self)@) && actions@.len() == 0
                },
                None => unchanged(old(self)@, final(self)@) && actions@.len() == 0,
            },
    {
        let expired = match &self.incoming {
            Some(i) => {
                let elapsed = if now >= i.last_activity {
                    now - i.last_activity
                } else {
                    0
                };
                let limit = if i.awaiting_decision {
                    DECISION_TIMEOUT
                } else {
                    IDLE_TIMEOUT
                };
                if elapsed > limit {
                    Some(i.id.clone())
                } else {
                    None
                }
            },
            None => None,
        };
        match expired {
            Some(id) => self.cancel(id.as_str()),
            None => Vec::new(),
        }
    }

    /// Stopping the node: every transfer in flight is cancelled.
    pub fn shutdown(&self) -> (actions: Vec<Action>)
        ensures
            stops_all(self@, actions@),
    {
        let mut actions: Vec<Action> = Vec::new();
        if self.incoming.is_some() {
            actions.push(Action::CancelIncoming);
        }
        let ghost base: int = actions@.len() as int;
        let mut k: usize = 0;
        while k < self.outgoing.len()
            invariant
                k <= self.outgoing@.len(),
                base == (if self@.incoming is Some { 1int } else { 0int }),
                self@.incoming is Some ==> actions@[0] is CancelIncoming,
                actions@.len() == base + k,
                forall|j: int| base <= j < actions@.len() ==> ((#[trigger] actions@[j]) matches Action::CancelOutgoing(id)
                    && id == self.outgoing@[j - base].id),
            decreases self.outgoing@.len() - k,
        {
            actions.push(Action::CancelOutgoing(self.outgoing[k].id.clone()));
            k += 1;
        }
        actions
    }

    /// A user's send of `files` to `peer` as transfer `id`: refused when the
    /// sizes overflow, else tracked, reported as started and handed to a
    /// sending task.
    pub fn start_send(&mut self, id: String, peer: &Device, files: Vec<OfferedFile>) -> (actions: Vec<Action>)
        ensures
            files_size(files@) > u64::MAX ==> {
                &&& unchanged(old(self)@, final(self)@)
                &&& actions@.len() == 1
                &&& actions@[0] matches Action::Emit(TransferEvent::Failed { id: x, error })
                &&& x == id
                &&& error@ == "Transfer is too large"@
            },
            files_size(files@) <= u64::MAX ==> {
                &&& final(self)@.incoming == old(self)@.incoming
                &&& final(self)@.outgoing == without(old(self)@.outgoing, id@).push(
                    Outgoing { id, host: peer.host, cancelled: false },
                )
                &&& actions@ == seq![
                    Action::Emit(
                        TransferEvent::Started {
                            id,
                            peer: peer.alias,
                            sending: true,
                            files,
                            total: files_size(files@) as u64,
                        },
                    ),
                    Action::SpawnSend(id),
                ]
            },
    {
        proof {
            use_type_invariant(&*self);
        }
        let mut total: u64 = 0;
        let mut overflow = false;
        let mut k: usize = 0;
        while k < files.len()
            invariant
                k <= files@.len(),
                !overflow ==> total == files_size(files@.subrange(0, k as int)),
                overflow ==> files_size(files@.subrange(0, k as int)) > u64::MAX,
            decreases files@.len() - k,
        {
            proof {
                assert(files@.subrange(0, k + 1).drop_last() =~= files@.subrange(0, k as int));
                lemma_files_size_nonneg(files@.subrange(0, k as int));
            }
            if !overflow {
                if files[k].size > u64::MAX - total {
                    overflow = true;
                } else {
                    total = total + files[k].size;
                }
            }
            k += 1;
        }
        assert(files@.subrange(0, files@.len() as int) =~= files@);
        let mut actions: Vec<Action> = Vec::new();
        if overflow {
            actions.push(Action::Emit(TransferEvent::Failed { id, error: "Transfer is too large".to_owned() }));
            return actions;
        }
        let mut outs: Vec<Outgoing> = Vec::new();
        std::mem::swap(&mut outs, &mut self.outgoing);
        let mut outs = without_id(outs, id.as_str());
        outs.push(Outgoing { id: id.clone(), host: peer.host.clone(), cancelled: false });
        self.outgoing = outs;
        actions.push(Action::Emit(TransferEvent::Started {
            id: id.clone(),
            peer: peer.alias.clone(),
            sending: true,
            files,
            total,
        }));
        actions.push(Action::SpawnSend(id));
        actions
    }
}

/// File sizes are never negative.
proof fn lemma_files_size_nonneg(files: Seq<OfferedFile>)
    ensures
        files_size(files) >= 0,
    decreases files.len(),
{
    if files.len() > 0 {
        lemma_files_size_nonneg(files.drop_last());
    }
}

/// The keys of an offer's files, in order.
fn keys_list(files: &Vec<OfferEntry>) -> (r: Vec<String>)
    ensures
        string_views(r@) == keys_of(files@),
{
    let mut out: Vec<String> = Vec::new();
    let mut k: usize = 0;
    while k < files.len()
        invariant
            k <= files@.len(),
            out@.len() == k,
            string_views(out@) == keys_of(files@.subrange(0, k as int)),
        decreases files@.len() - k,
    {
        let ghost before = out@;
        out.push(files[k].key.clone());
        assert forall|j: int| 0 <= j < out@.len() implies #[trigger] string_views(out@)[j] == keys_of(
            files@.subrange(0, k + 1),
        )[j] by {
            if j < k {
                assert(string_views(before)[j] == keys_of(files@.subrange(0, k as int))[j]);
                assert(out@[j] == before[j]);
            }
        }
        assert(string_views(out@) =~= keys_of(files@.subrange(0, k + 1)));
        k += 1;
    }
    assert(files@.subrange(0, files@.len() as int) =~= files@);
    out
}

/// The incoming session `i` waits for an answer under id `id`.
pub open spec fn awaits(a: ActorView, id: Seq<char>) -> bool {
    incoming_is(a, id) && a.incoming->0.awaiting_decision
}

/// The peer of a request, as the request describes it.
pub open spec fn request_peer(peer: Device, fingerprint: String, alias: String, model: Option<String>, host: String, port: u16) -> bool {
    &&& peer.fingerprint == fingerprint
    &&& peer.alias == alias
    &&& peer.model@ == (match model {
        Some(m) => m@,
        None => Seq::empty(),
    })
    &&& peer.host == host
    &&& peer.port == port
}

/// The user decided `accept` on `id`, and the answer reached the peer when
/// `delivered`: an accepted request that reached the peer starts receiving;
/// any other decision ends the session as cancelled; a decision on no
/// waiting request changes nothing.
pub open spec fn decided_to(o: ActorView, id: Seq<char>, accept: bool, delivered: bool, now: u64, n: ActorView, actions: Seq<Action>) -> bool {
    if !awaits(o, id) {
        unchanged(o, n) && actions.len() == 0
    } else if accept && delivered {
        let i = o.incoming->0;
        &&& n.outgoing == o.outgoing
        &&& n.incoming matches Some(u)
        &&& touched(i, now, u)
        &&& !u.awaiting_decision
        &&& u.progress == i.progress
        &&& actions.len() == 1
        &&& actions[0] matches Action::Emit(TransferEvent::Started { id: x, peer, sending, files, total })
        &&& x@ == id
        &&& peer == i.peer.alias
        &&& !sending
        &&& files@ == offered_files(i.files@)
        &&& total == offered_total(i.files@)
    } else {
        &&& n.outgoing == o.outgoing
        &&& n.incoming is None
        &&& actions.len() == 1
        &&& actions[0] matches Action::Emit(TransferEvent::Cancelled { id: x })
        &&& x@ == id
    }
}

/// Whether an upload of `file` in `session` is taken: only for an accepted
/// session that offered that file.
pub open spec fn takes_upload(a: ActorView, session: Seq<char>, file: Seq<char>) -> bool {
    &&& incoming_is(a, session)
    &&& !a.incoming->0.awaiting_decision
    &&& keys_of(a.incoming->0.files@).contains(file)
}

/// A request waiting for the user's answer takes no upload: no byte is
/// received before the user accepts.
pub proof fn held_request_takes_no_upload(a: ActorView, session: Seq<char>, file: Seq<char>)
    requires
        a.incoming matches Some(i) && i.awaiting_decision,
    ensures
        !takes_upload(a, session, file),
{
}

/// Once the user declines a request, or an accepted answer no longer
/// reaches the peer, the session takes no upload of any file.
pub proof fn declined_request_takes_no_upload(
    o: ActorView,
    id: Seq<char>,
    accept: bool,
    delivered: bool,
    now: u64,
    n: ActorView,
    actions: Seq<Action>,
    file: Seq<char>,
)
    requires
        awaits(o, id),
        !(accept && delivered),
        decided_to(o, id, accept, delivered, now, n, actions),
    ensures
        !takes_upload(n, id, file),
        actions.len() == 1,
{
}

/// Cancelling a session whose request waits for an answer declines that
/// request and ends the protocol session, so the peer is not left waiting.
pub proof fn cancelling_a_held_request_declines_it(o: ActorView, id: Seq<char>, n: ActorView, actions: Seq<Action>)
    requires
        awaits(o, id),
        cancelled(o, id, n, actions),
    ensures
        n.incoming is None,
        exists|k: int| 0 <= k < actions.len() && (#[trigger] actions[k]) matches Action::AnswerHeld(Answer::Decline),
        exists|k: int| 0 <= k < actions.len() && ((#[trigger] actions[k]) matches Action::EndSession(s) && s@ == id),
{
    let k: int = if has_outgoing(o.outgoing, id) { 1 } else { 0 };
    let tail = actions.subrange(k, actions.len() as int);
    assert(tail[1] == actions[k + 1]);
    assert(tail[2] == actions[k + 2]);
}

impl Actor {
    /// The answer to give the held request when the user decides on `id`:
    /// none when no request of that id waits; the keys of all its files when
    /// accepted.
    pub fn decision(&self, id: &str, accept: bool) -> (r: Option<Answer>)
        ensures
            !awaits(self@, id@) ==> r is None,
            awaits(self@, id@) && accept ==> (r matches Some(Answer::Accept(keys)) && string_views(keys@)
                == keys_of(self@.incoming->0.files@)),
            awaits(self@, id@) && !accept ==> (r matches Some(Answer::Decline)),
    {
        match &self.incoming {
            Some(i) => {
                if !str_eq(i.id.as_str(), id) || !i.awaiting_decision {
                    None
                } else if accept {
                    Some(Answer::Accept(keys_list(&i.files)))
                } else {
                    Some(Answer::Decline)
                }
            },
            None => None,
        }
    }

    /// The user's decision on `id`, once the answer has been given to the
    /// held request; `delivered` says whether the peer was still there to
    /// take it. An accepted request that reached the peer starts receiving;
    /// otherwise the session ends as cancelled.
    pub fn decided(&mut self, id: &str, accept: bool, delivered: bool, now: u64) -> (actions: Vec<Action>)
        ensures
            decided_to(old(self)@, id@, accept, delivered, now, final(self)@, actions@),
    {
        proof {
            use_type_invariant(&*self);
        }
        let waiting = match &self.incoming {
            Some(i) => str_eq(i.id.as_str(), id) && i.awaiting_decision,
            None => false,
        };
        let mut actions: Vec<Action> = Vec::new();
        if !waiting {
            return actions;
        }
        let mut taken: Option<Incoming> = None;
        std::mem::swap(&mut taken, &mut self.incoming);
        let mut i = taken.unwrap();
        if accept && delivered {
            let total = total_of(&i.files);
            let files = offered_list(&i.files);
            let peer = i.peer.alias.clone();
            i.awaiting_decision = false;
            i.last_activity = now;
            self.incoming = Some(i);
            actions.push(Action::Emit(TransferEvent::Started {
                id: id.to_owned(),
                peer,
                sending: false,
                files,
                total,
            }));
        } else {
            actions.push(Action::Emit(TransferEvent::Cancelled { id: id.to_owned() }));
        }
        actions
    }

    /// A transfer request `session` from the peer at `host`. While another
    /// request is in flight it is declined at once; a request that fails
    /// its checks is declined and reported as failed; otherwise it is held
    /// for the user's answer and shown with its files ordered by name.
    pub fn request(
        &mut self,
        session: String,
        host: String,
        alias: String,
        model: Option<String>,
        port: u16,
        fingerprint: Option<String>,
        files: Vec<OfferEntry>,
        now: u64,
    ) -> (actions: Vec<Action>)
        ensures
            old(self)@.incoming is Some ==> (actions@[0] matches Action::AnswerNew(Answer::Decline)
                && unchanged(old(self)@, final(self)@) && actions@.len() == 1),
            old(self)@.incoming is None ==> match request_verdict(files@, fingerprint is Some) {
                Err(e) => {
                    &&& unchanged(old(self)@, final(self)@)
                    &&& actions@.len() == 2
                    &&& actions@[0] matches Action::AnswerNew(Answer::Decline)
                    &&& actions@[1] matches Action::Emit(TransferEvent::Failed { id, error })
                    &&& id == session
                    &&& error@ == offer_error_text(e)
                },
                Ok(()) => {
                    &&& final(self)@.outgoing == old(self)@.outgoing
                    &&& final(self)@.incoming matches Some(i)
                    &&& i.id == session
                    &&& request_peer(i.peer, fingerprint->0, alias, model, host, port)
                    &&& i.files == files
                    &&& i.awaiting_decision
                    &&& i.progress@.len() == 0
                    &&& i.paths@.len() == 0
                    &&& i.saved == 0
                    &&& i.text is None
                    &&& i.last_activity == now
                    &&& actions@.len() == 1
                    &&& actions@[0] matches Action::Emit(TransferEvent::IncomingRequest { id, peer, files: shown })
                    &&& id == session
                    &&& peer == i.peer
                    &&& sorted_by_name(shown@)
                    &&& shown@.to_multiset() == offered_files(files@).to_multiset()
                },
            },
    {
        proof {
            use_type_invariant(&*self);
        }
        let mut actions: Vec<Action> = Vec::new();
        if self.incoming.is_some() {
            actions.push(Action::AnswerNew(Answer::Decline));
            return actions;
        }
        match check_request(&files, fingerprint.is_some()) {
            Err(e) => {
                actions.push(Action::AnswerNew(Answer::Decline));
                actions.push(Action::Emit(TransferEvent::Failed { id: session, error: e.message() }));
                return actions;
            },
            Ok(()) => {},
        }
        proof {
            lemma_scan_total(files@, 0, 0);
        }
        let peer = Device {
            fingerprint: fingerprint.unwrap(),
            alias,
            model: match model {
                Some(m) => m,
                None => String::new(),
            },
            host,
            port,
        };
        let shown = sort_by_name(offered_list(&files));
        actions.push(Action::Emit(TransferEvent::IncomingRequest { id: session.clone(), peer: peer.clone(), files: shown }));
        self.incoming = Some(Incoming {
            id: session,
            peer,
            files,
            awaiting_decision: true,
            progress: Vec::new(),
            paths: Vec::new(),
            saved: 0,
            text: None,
            last_activity: now,
        });
        actions
    }

    /// An upload of file `file_id` in session `session`: taken only for an
    /// accepted session that offered that file; it counts as a sign of life.
    pub fn upload(&mut self, session: &str, file_id: &str, now: u64) -> (r: bool)
        ensures
            r == takes_upload(old(self)@, session@, file_id@),
            r ==> (final(self)@.incoming matches Some(u) && touched(old(self)@.incoming->0, now, u)
                && u.progress == old(self)@.incoming->0.progress && u.awaiting_decision
                == old(self)@.incoming->0.awaiting_decision && final(self)@.outgoing == old(self)@.outgoing),
            !r ==> unchanged(old(self)@, final(self)@),
    {
        proof {
            use_type_invariant(&*self);
        }
        let known = match &self.incoming {
            Some(i) => {
                if str_eq(i.id.as_str(), session) && !i.awaiting_decision {
                    let mut found = false;
                    let mut k: usize = 0;
                    while k < i.files.len()
                        invariant
                            k <= i.files@.len(),
                            found == keys_of(i.files@.subrange(0, k as int)).contains(file_id@),
                        decreases i.files@.len() - k,
                    {
                        let ghost before = keys_of(i.files@.subrange(0, k as int));
                        let ghost after = keys_of(i.files@.subrange(0, k + 1));
                        proof {
                            assert(after =~= before.push(i.files@[k as int].key@));
                        }
                        let hit = str_eq(i.files[k].key.as_str(), file_id);
                        proof {
                            if hit {
                                assert(after[k as int] == file_id@);
                            }
                            if found {
                                let w = choose|w: int| 0 <= w < before.len() && before[w] == file_id@;
                                assert(after[w] == before[w]);
                            }
                            if after.contains(file_id@) && !hit {
                                let w = choose|w: int| 0 <= w < after.len() && after[w] == file_id@;
                                assert(w < before.len());
                                assert(before[w] == after[w]);
                            }
                        }
                        found = found || hit;
                        k += 1;
                    }
                    assert(i.files@.subrange(0, i.files@.len() as int) =~= i.files@);
                    found
                } else {
                    false
                }
            },
            None => false,
        };
        if known {
            let mut taken: Option<Incoming> = None;
            std::mem::swap(&mut taken, &mut self.incoming);
            let mut i = taken.unwrap();
            i.last_activity = now;
            self.incoming = Some(i);
        }
        known
    }
}

/// Records `bytes` for `file`.
fn upsert_progress(progress: &mut Vec<FileBytes>, file: String, bytes: u64)
    ensures
        final(progress)@ == upserted(old(progress)@, file, bytes),
{
    let ghost p = same_file(file@);
    proof {
        crate::seqs::lemma_first_where(progress@, p);
    }
    let mut k: usize = 0;
    while k < progress.len()
        invariant
            p == same_file(file@),
            progress@ == old(progress)@,
            k <= progress@.len(),
            forall|j: int| 0 <= j < k ==> !p(#[trigger] progress@[j]),
        decreases progress@.len() - k,
    {
        if str_eq(progress[k].file.as_str(), file.as_str()) {
            proof {
                crate::seqs::lemma_first_where_at(progress@, p, k as int);
            }
            progress[k].bytes = bytes;
            return;
        }
        k += 1;
    }
    proof {
        crate::seqs::lemma_first_where_none(progress@, p);
    }
    progress.push(FileBytes { file, bytes });
}

/// The bytes received over all files, saturated at `u64::MAX`.
fn received_total(progress: &Vec<FileBytes>) -> (r: u64)
    ensures
        r == capped(received(progress@)),
{
    let mut acc: u64 = 0;
    let mut k: usize = 0;
    while k < progress.len()
        invariant
            k <= progress@.len(),
            acc == capped(received(progress@.subrange(0, k as int))),
        decreases progress@.len() - k,
    {
        proof {
            assert(progress@.subrange(0, k + 1).drop_last() =~= progress@.subrange(0, k as int));
            lemma_received_nonneg(progress@.subrange(0, k as int));
        }
        acc = acc.saturating_add(progress[k].bytes);
        k += 1;
    }
    assert(progress@.subrange(0, progress@.len() as int) =~= progress@);
    acc
}

/// Received counts are never negative.
proof fn lemma_received_nonneg(progress: Seq<FileBytes>)
    ensures
        received(progress) >= 0,
    decreases progress.len(),
{
    if progress.len() > 0 {
        lemma_received_nonneg(progress.drop_last());
    }
}

impl Actor {
    /// Progress of `file` in session `id`: a sign of life, reported with the
    /// bytes received over all files (saturated at `u64::MAX`) and the size
    /// of the offer.
    pub fn progress(&mut self, id: &str, file: String, bytes: u64, now: u64) -> (actions: Vec<Action>)
        ensures
            !incoming_is(old(self)@, id@) ==> unchanged(old(self)@, final(self)@) && actions@.len() == 0,
            incoming_is(old(self)@, id@) ==> {
                let i = old(self)@.incoming->0;
                &&& final(self)@.outgoing == old(self)@.outgoing
                &&& final(self)@.incoming matches Some(u)
                &&& touched(i, now, u)
                &&& u.awaiting_decision == i.awaiting_decision
                &&& u.progress@ == upserted(i.progress@, file, bytes)
                &&& actions@.len() == 1
                &&& actions@[0] matches Action::Emit(TransferEvent::Progress { id: x, transferred, total })
                &&& x@ == id@
                &&& transferred == capped(received(u.progress@))
                &&& total == offered_total(i.files@)
            },
    {
        proof {
            use_type_invariant(&*self);
        }
        let matches = match &self.incoming {
            Some(i) => str_eq(i.id.as_str(), id),
            None => false,
        };
        let mut actions: Vec<Action> = Vec::new();
        if !matches {
            return actions;
        }
        let mut taken: Option<Incoming> = None;
        std::mem::swap(&mut taken, &mut self.incoming);
        let mut i = taken.unwrap();
        i.last_activity = now;
        upsert_progress(&mut i.progress, file, bytes);
        let transferred = received_total(&i.progress);
        let total = total_of(&i.files);
        self.incoming = Some(i);
        actions.push(Action::Emit(TransferEvent::Progress { id: id.to_owned(), transferred, total }));
        actions
    }

    /// A sending task ended: a cancelled transfer is reported cancelled
    /// whatever the task returned; otherwise as completed or failed.
    pub fn send_finished(&mut self, id: &str, result: Result<(), String>) -> (event: TransferEvent)
        ensures
            final(self)@.incoming == old(self)@.incoming,
            final(self)@.outgoing == without(old(self)@.outgoing, id@),
            was_cancelled(old(self)@.outgoing, id@) ==> (event matches TransferEvent::Cancelled { id: x } && x@ == id@),
            !was_cancelled(old(self)@.outgoing, id@) ==> match result {
                Ok(()) => event matches TransferEvent::Completed { id: x, paths } && x@ == id@ && paths@.len() == 0,
                Err(message) => event matches TransferEvent::Failed { id: x, error } && x@ == id@ && error == message,
            },
    {
        proof {
            use_type_invariant(&*self);
        }
        let mut cancelled = false;
        let mut k: usize = 0;
        while k < self.outgoing.len()
            invariant
                k <= self.outgoing@.len(),
                cancelled == was_cancelled(self.outgoing@.subrange(0, k as int), id@),
            decreases self.outgoing@.len() - k,
        {
            let ghost before = self.outgoing@.subrange(0, k as int);
            let ghost after = self.outgoing@.subrange(0, k + 1);
            let hit = self.outgoing[k].cancelled && str_eq(self.outgoing[k].id.as_str(), id);
            proof {
                if hit {
                    assert(after[k as int] == self.outgoing@[k as int]);
                }
                if cancelled {
                    let w = choose|w: int| 0 <= w < before.len() && (#[trigger] before[w]).id@ == id@ && before[w].cancelled;
                    assert(after[w] == before[w]);
                }
                if was_cancelled(after, id@) && !hit {
                    let w = choose|w: int| 0 <= w < after.len() && (#[trigger] after[w]).id@ == id@ && after[w].cancelled;
                    assert(w < before.len());
                    assert(before[w] == after[w]);
                }
            }
            cancelled = cancelled || hit;
            k += 1;
        }
        assert(self.outgoing@.subrange(0, self.outgoing@.len() as int) =~= self.outgoing@);
        let mut outs: Vec<Outgoing> = Vec::new();
        std::mem::swap(&mut outs, &mut self.outgoing);
        self.outgoing = without_id(outs, id);
        if cancelled {
            TransferEvent::Cancelled { id: id.to_owned() }
        } else {
            match result {
                Ok(()) => TransferEvent::Completed { id: id.to_owned(), paths: Vec::new() },
                Err(message) => TransferEvent::Failed { id: id.to_owned(), error: message },
            }
        }
    }

    /// A file task of session `id` ended. A saved file is counted, and the
    /// session completes with the last one: the full text of a received text
    /// message is reported first, then the completion with the saved paths.
    /// A failure ends the session, its other file tasks and the protocol
    /// session, and is reported.
    pub fn receive_finished(&mut self, id: &str, result: Result<SavedFile, String>) -> (actions: Vec<Action>)
        ensures
            !incoming_is(old(self)@, id@) ==> unchanged(old(self)@, final(self)@) && actions@.len() == 0,
            incoming_is(old(self)@, id@) ==> {
                let i = old(self)@.incoming->0;
                &&& final(self)@.outgoing == old(self)@.outgoing
                &&& match result {
                    Ok(saved) => {
                        let text = if saved.text is Some { saved.text } else { i.text };
                        if i.saved + 1 == i.files@.len() {
                            &&& final(self)@.incoming is None
                            &&& actions@.len() == (if text is Some { 2int } else { 1int })
                            &&& text matches Some(t) ==> (actions@[0] matches Action::Emit(
                                TransferEvent::ReceivedText { id: x, text: y },
                            ) && x@ == id@ && y == t)
                            &&& actions@.last() matches Action::Emit(TransferEvent::Completed { id: x, paths })
                            &&& x@ == id@
                            &&& paths@ == i.paths@.push(saved.path)
                        } else {
                            &&& final(self)@.incoming matches Some(u)
                            &&& u.id == i.id && u.peer == i.peer && u.files == i.files
                            &&& u.awaiting_decision == i.awaiting_decision && u.progress == i.progress
                            &&& u.last_activity == i.last_activity
                            &&& u.paths@ == i.paths@.push(saved.path)
                            &&& u.saved == i.saved + 1
                            &&& u.text == text
                            &&& actions@.len() == 0
                        }
                    },
                    Err(message) => {
                        &&& final(self)@.incoming is None
                        &&& actions@.len() == 3
                        &&& actions@[0] is CancelIncoming
                        &&& actions@[1] matches Action::EndSession(x)
                        &&& x@ == id@
                        &&& actions@[2] matches Action::Emit(TransferEvent::Failed { id: y, error })
                        &&& y@ == id@
                        &&& error == message
                    },
                }
            },
    {
        proof {
            use_type_invariant(&*self);
        }
        let matches = match &self.incoming {
            Some(i) => str_eq(i.id.as_str(), id),
            None => false,
        };
        let mut actions: Vec<Action> = Vec::new();
        if !matches {
            return actions;
        }
        let mut taken: Option<Incoming> = None;
        std::mem::swap(&mut taken, &mut self.incoming);
        let mut i = taken.unwrap();
        match result {
            Ok(saved) => {
                let count = i.files.len();
                assert(i.saved < count);
                i.paths.push(saved.path);
                i.saved = i.saved + 1;
                match saved.text {
                    Some(text) => {
                        i.text = Some(text);
                    },
                    None => {},
                }
                if i.saved == i.files.len() {
                    match i.text {
                        Some(text) => {
                            actions.push(Action::Emit(TransferEvent::ReceivedText { id: id.to_owned(), text }));
                        },
                        None => {},
                    }
                    actions.push(Action::Emit(TransferEvent::Completed { id: id.to_owned(), paths: i.paths }));
                } else {
                    self.incoming = Some(i);
                }
            },
            Err(message) => {
                actions.push(Action::CancelIncoming);
                actions.push(Action::EndSession(id.to_owned()));
                actions.push(Action::Emit(TransferEvent::Failed { id: id.to_owned(), error: message }));
            },
        }
        actions
    }

    /// The peer at `host` cancelled its session `session`: the transfers it
    /// names stop. `remotes` holds, position by position, the remote
    /// session of each transfer in `outgoing()`, as far as it is known.
    pub fn cancel_received(&mut self, host: &str, session: &str, remotes: &Vec<Option<String>>) -> (actions: Vec<Action>)
        ensures
            final(self)@.incoming == old(self)@.incoming,
            final(self)@.outgoing.len() == old(self)@.outgoing.len(),
            forall|k: int|
                0 <= k < old(self)@.outgoing.len() ==> (#[trigger] final(self)@.outgoing[k]) == (if names_transfer(
                    old(self)@.outgoing,
                    remotes@,
                    host@,
                    session@,
                    k,
                ) {
                    Outgoing { id: old(self)@.outgoing[k].id, host: old(self)@.outgoing[k].host, cancelled: true }
                } else {
                    old(self)@.outgoing[k]
                }),
            actions@.len() == named_ids(old(self)@.outgoing, remotes@, host@, session@, old(self)@.outgoing.len() as int).len(),
            forall|j: int|
                0 <= j < actions@.len() ==> ((#[trigger] actions@[j]) matches Action::CancelOutgoing(x) && x@ == named_ids(
                    old(self)@.outgoing,
                    remotes@,
                    host@,
                    session@,
                    old(self)@.outgoing.len() as int,
                )[j]),
    {
        proof {
            use_type_invariant(&*self);
        }
        let ghost outs = self.outgoing@;
        let mut next: Vec<Outgoing> = Vec::new();
        let mut actions: Vec<Action> = Vec::new();
        let mut k: usize = 0;
        while k < self.outgoing.len()
            invariant
                outs == self.outgoing@,
                k <= outs.len(),
                next@.len() == k,
                forall|j: int| 0 <= j < k ==> (#[trigger] next@[j]) == (if names_transfer(outs, remotes@, host@, session@, j) {
                    Outgoing { id: outs[j].id, host: outs[j].host, cancelled: true }
                } else {
                    outs[j]
                }),
                actions@.len() == named_ids(outs, remotes@, host@, session@, k as int).len(),
                forall|j: int| 0 <= j < actions@.len() ==> ((#[trigger] actions@[j]) matches Action::CancelOutgoing(x) && x@
                    == named_ids(outs, remotes@, host@, session@, k as int)[j]),
            decreases outs.len() - k,
        {
            let o = &self.outgoing[k];
            let named = if str_eq(o.host.as_str(), host) && k < remotes.len() {
                match &remotes[k] {
                    Some(s) => str_eq(s.as_str(), session),
                    None => false,
                }
            } else {
                false
            };
            assert(named == names_transfer(outs, remotes@, host@, session@, k as int));
            let ghost ids_before = named_ids(outs, remotes@, host@, session@, k as int);
            let ghost acts_before = actions@;
            next.push(Outgoing { id: o.id.clone(), host: o.host.clone(), cancelled: o.cancelled || named });
            if named {
                actions.push(Action::CancelOutgoing(o.id.clone()));
            }
            proof {
                let ids_after = named_ids(outs, remotes@, host@, session@, k + 1);
                assert forall|j: int| 0 <= j < actions@.len() implies ((#[trigger] actions@[j]) matches Action::CancelOutgoing(x)
                    && x@ == ids_after[j]) by {
                    if j < acts_before.len() {
                        assert(actions@[j] == acts_before[j]);
                        assert(ids_after[j] == ids_before[j]);
                    }
                }
            }
            k += 1;
        }
        self.outgoing = next;
        actions
    }
}

/// The report of a protocol listener that stopped.
pub fn listener_failed(error: &str) -> (event: TransferEvent)
    ensures
        event matches TransferEvent::NetworkError(m) && m@ == "Receiving stopped: "@ + error@
            + ". Reopen OmaSend to reconnect."@,
{
    let mut out = chars_of("Receiving stopped: ");
    extend_chars(&mut out, chars_of(error).as_slice());
    extend_chars(&mut out, chars_of(". Reopen OmaSend to reconnect.").as_slice());
    TransferEvent::NetworkError(string_of(out.as_slice()))
}

/// The report of a transfer task that stopped without a result.
pub fn task_stopped(detail: &str) -> (event: TransferEvent)
    ensures
        event matches TransferEvent::NetworkError(m) && m@ == "Transfer task stopped: "@ + detail@,
{
    let mut out = chars_of("Transfer task stopped: ");
    extend_chars(&mut out, chars_of(detail).as_slice());
    TransferEvent::NetworkError(string_of(out.as_slice()))
}

/// Progress reports are cumulative per file: a report of `b` bytes for a file
/// replaces whatever was reported for it before, so two reports in a row
/// leave exactly what the second alone would.
pub proof fn latest_progress_report_wins(p: Seq<FileBytes>, file: String, a: u64, b: u64)
    ensures
        upserted(upserted(p, file, a), file, b) == upserted(p, file, b),
{
    let sf = same_file(file@);
    crate::seqs::lemma_first_where(p, sf);
    let q = upserted(p, file, a);
    match crate::seqs::first_where(p, sf) {
        Some(k) => {
            assert forall|j: int| 0 <= j < k implies !sf(#[trigger] q[j]) by {
                assert(q[j] == p[j]);
            }
            crate::seqs::lemma_first_where_at(q, sf, k);
            assert(upserted(q, file, b) =~= upserted(p, file, b));
        },
        None => {
            assert forall|j: int| 0 <= j < p.len() implies !sf(#[trigger] q[j]) by {
                assert(q[j] == p[j]);
            }
            crate::seqs::lemma_first_where_at(q, sf, p.len() as int);
            assert(upserted(q, file, b) =~= upserted(p, file, b));
        },
    }
}

/// After a report of `b` bytes for a file, the count recorded for that file
/// is exactly `b`, and what was recorded for every other file stays.
pub proof fn progress_report_is_recorded(p: Seq<FileBytes>, file: String, b: u64)
    ensures
        crate::seqs::first_where(upserted(p, file, b), same_file(file@)) matches Some(k)
            && upserted(p, file, b)[k].bytes == b,
        upserted(p, file, b).len() >= p.len(),
        forall|j: int| 0 <= j < p.len() && p[j].file@ != file@ ==> #[trigger] upserted(p, file, b)[j] == p[j],
{
    let sf = same_file(file@);
    crate::seqs::lemma_first_where(p, sf);
    let q = upserted(p, file, b);
    match crate::seqs::first_where(p, sf) {
        Some(k) => {
            assert forall|j: int| 0 <= j < k implies !sf(#[trigger] q[j]) by {
                assert(q[j] == p[j]);
            }
            crate::seqs::lemma_first_where_at(q, sf, k);
        },
        None => {
            assert forall|j: int| 0 <= j < p.len() implies !sf(#[trigger] q[j]) by {
                assert(q[j] == p[j]);
            }
            crate::seqs::lemma_first_where_at(q, sf, p.len() as int);
        },
    }
}

} // verus!
