//! Which discovered peers are shown, and which discovery failures are
//! reported.
//!
//! The discovery service keeps its own store of peers. Events about it may
//! be dropped in a burst, so the store is read on every event and on a timer,
//! and the published list is brought in line with it here.
use vstd::prelude::*;
use super::{Device, TransferEvent};
use crate::seqs::{first_where, lemma_first_where, lemma_first_where_at, lemma_first_where_none};
use crate::system::WallTime;
use crate::text::{chars_of, string_of, extend_chars, contains, contains_chars, ascii_lowercase, to_ascii_lowercase, str_eq};

verus! {

/// A peer stays listed this long after its last sign of life, in nanoseconds.
pub const FRESH_FOR: u64 = 15_000_000_000;

/// A failed identity check is reported at most once per host in this long,
/// in nanoseconds.
pub const FAILURE_QUIET: u64 = 60_000_000_000;

/// How a peer can be reached over HTTP.
#[derive(Debug)]
pub struct Channel {
    pub host: String,
    pub port: u16,
    pub https: bool,
}

/// A peer as the discovery service stores it.
#[derive(Debug)]
pub struct PeerRecord {
    pub fingerprint: String,
    pub alias: String,
    pub model: Option<String>,
    pub channel: Option<Channel>,
    /// When the last log entry about the peer was made, if any.
    pub last_seen: Option<WallTime>,
}

/// Nanoseconds since the Unix epoch.
pub open spec fn nanos_of(t: WallTime) -> int {
    t.secs * 1_000_000_000 + t.nanos
}

/// A published device `d` of record `r`, field by field.
pub open spec fn device_of(r: PeerRecord, d: Device) -> bool {
    &&& d.fingerprint == r.fingerprint
    &&& d.alias == r.alias
    &&& d.model@ == (match r.model {
        Some(m) => m@,
        None => Seq::empty(),
    })
    &&& d.host == r.channel->0.host
    &&& d.port == r.channel->0.port
}

/// Whether record `r` publishes a peer at `now`: only one heard from within
/// the last fifteen seconds (a time in the future counts as now), reachable
/// over HTTPS.
pub open spec fn publishes(r: PeerRecord, now: WallTime) -> bool {
    &&& r.last_seen matches Some(seen)
    &&& r.channel matches Some(c)
    &&& nanos_of(now) - nanos_of(seen) <= FRESH_FOR
    &&& c.https
}

/// The same peer with the same name, model and address.
pub open spec fn same_details(a: Device, b: Device) -> bool {
    &&& a.fingerprint@ == b.fingerprint@
    &&& a.alias@ == b.alias@
    &&& a.model@ == b.model@
    &&& a.host@ == b.host@
    &&& a.port == b.port
}

/// Whether `d` is already shown exactly as it is.
pub open spec fn shown_as_is(visible: Seq<Device>, d: Device) -> bool {
    exists|k: int| 0 <= k < visible.len() && same_details(#[trigger] visible[k], d)
}

/// Whether a device with fingerprint `fp` is listed.
pub open spec fn lists(devices: Seq<Device>, fp: Seq<char>) -> bool {
    exists|k: int| 0 <= k < devices.len() && (#[trigger] devices[k]).fingerprint@ == fp
}

/// Whether a device has fingerprint `fp`.
pub open spec fn fingerprint_is(fp: Seq<char>) -> spec_fn(Device) -> bool {
    |d: Device| d.fingerprint@ == fp
}

/// The list with `d` put in the place of the device with its fingerprint, or
/// added at the end.
pub open spec fn put(list: Seq<Device>, d: Device) -> Seq<Device> {
    match first_where(list, fingerprint_is(d.fingerprint@)) {
        Some(k) => list.update(k, d),
        None => list.push(d),
    }
}

/// The devices `ds` merged by fingerprint, a later one replacing an earlier.
pub open spec fn merged(ds: Seq<Device>) -> Seq<Device>
    decreases ds.len(),
{
    if ds.len() == 0 {
        ds
    } else {
        put(merged(ds.drop_last()), ds.last())
    }
}

/// The fingerprints of the `visible` devices that `next` no longer lists, in
/// order.
pub open spec fn lost_ids(visible: Seq<Device>, next: Seq<Device>) -> Seq<Seq<char>>
    decreases visible.len(),
{
    if visible.len() == 0 {
        Seq::empty()
    } else {
        let rest = lost_ids(visible.drop_last(), next);
        if lists(next, visible.last().fingerprint@) {
            rest
        } else {
            rest.push(visible.last().fingerprint@)
        }
    }
}

/// The published devices of `records`, in order.
pub open spec fn publications(records: Seq<PeerRecord>, now: WallTime, ds: Seq<Device>) -> bool {
    exists|idx: Seq<int>| {
        &&& idx.len() == ds.len()
        &&& forall|j: int| 0 <= j < idx.len() ==> 0 <= #[trigger] idx[j] < records.len()
        &&& forall|a: int, b: int| 0 <= a < b < idx.len() ==> #[trigger] idx[a] < #[trigger] idx[b]
        &&& forall|j: int| 0 <= j < idx.len() ==> device_of(records[#[trigger] idx[j]], ds[j])
        &&& forall|k: int| 0 <= k < records.len() && publishes(#[trigger] records[k], now) ==> exists|j: int|
            0 <= j < idx.len() && idx[j] == k
        &&& forall|j: int| 0 <= j < idx.len() ==> publishes(records[#[trigger] idx[j]], now)
    }
}

/// The nanoseconds since the epoch of a wall-clock time.
fn nanos_since_epoch(t: WallTime) -> (r: u128)
    ensures
        r == nanos_of(t),
{
    t.secs as u128 * 1_000_000_000 + t.nanos as u128
}

/// Whether the record publishes a peer at `now`.
fn is_published(r: &PeerRecord, now: WallTime) -> (b: bool)
    ensures
        b == publishes(*r, now),
{
    match (&r.last_seen, &r.channel) {
        (Some(seen), Some(c)) => {
            let n = nanos_since_epoch(now);
            let s = nanos_since_epoch(*seen);
            (n <= s || n - s <= FRESH_FOR as u128) && c.https
        },
        _ => false,
    }
}

/// The devices the records publish at `now`, in order.
fn published_devices(records: &Vec<PeerRecord>, now: WallTime) -> (ds: Vec<Device>)
    ensures
        publications(records@, now, ds@),
{
    let mut ds: Vec<Device> = Vec::new();
    let ghost mut idx: Seq<int> = Seq::empty();
    let mut k: usize = 0;
    while k < records.len()
        invariant
            k <= records@.len(),
            idx.len() == ds@.len(),
            forall|j: int| 0 <= j < idx.len() ==> 0 <= #[trigger] idx[j] < k,
            forall|a: int, b: int| 0 <= a < b < idx.len() ==> #[trigger] idx[a] < #[trigger] idx[b],
            forall|j: int| 0 <= j < idx.len() ==> device_of(records@[#[trigger] idx[j]], ds@[j]),
            forall|m: int| 0 <= m < k && publishes(#[trigger] records@[m], now) ==> exists|j: int|
                0 <= j < idx.len() && idx[j] == m,
            forall|j: int| 0 <= j < idx.len() ==> publishes(records@[#[trigger] idx[j]], now),
        decreases records@.len() - k,
    {
        let r = &records[k];
        if is_published(r, now) {
            let c = r.channel.as_ref().unwrap();
            ds.push(Device {
                fingerprint: r.fingerprint.clone(),
                alias: r.alias.clone(),
                model: match &r.model {
                    Some(m) => m.clone(),
                    None => String::new(),
                },
                host: c.host.clone(),
                port: c.port,
            });
            proof {
                let old_idx = idx;
                idx = idx.push(k as int);
                assert forall|m: int| 0 <= m < k + 1 && publishes(#[trigger] records@[m], now) implies exists|j: int|
                    0 <= j < idx.len() && idx[j] == m by {
                    if m < k {
                        let j = choose|j: int| 0 <= j < old_idx.len() && old_idx[j] == m;
                        assert(idx[j] == m);
                    } else {
                        assert(idx[idx.len() - 1] == m);
                    }
                }
            }
        }
        k += 1;
    }
    ds
}

/// Whether `d` is already shown exactly as it is.
fn is_shown_as_is(visible: &Vec<Device>, d: &Device) -> (r: bool)
    ensures
        r == shown_as_is(visible@, *d),
{
    let mut k: usize = 0;
    while k < visible.len()
        invariant
            k <= visible@.len(),
            forall|j: int| 0 <= j < k ==> !same_details(#[trigger] visible@[j], *d),
        decreases visible@.len() - k,
    {
        let v = &visible[k];
        if str_eq(v.fingerprint.as_str(), d.fingerprint.as_str()) && str_eq(v.alias.as_str(), d.alias.as_str())
            && str_eq(v.model.as_str(), d.model.as_str()) && str_eq(v.host.as_str(), d.host.as_str())
            && v.port == d.port {
            assert(same_details(visible@[k as int], *d));
            return true;
        }
        k += 1;
    }
    false
}

/// Whether a device with fingerprint `fp` is listed.
fn is_listed(devices: &Vec<Device>, fp: &str) -> (r: bool)
    ensures
        r == lists(devices@, fp@),
{
    let mut k: usize = 0;
    while k < devices.len()
        invariant
            k <= devices@.len(),
            forall|j: int| 0 <= j < k ==> (#[trigger] devices@[j]).fingerprint@ != fp@,
        decreases devices@.len() - k,
    {
        if str_eq(devices[k].fingerprint.as_str(), fp) {
            return true;
        }
        k += 1;
    }
    false
}

/// Puts `d` in place of the device with its fingerprint, or at the end.
fn put_device(list: &mut Vec<Device>, d: Device)
    ensures
        final(list)@ == put(old(list)@, d),
{
    let ghost p = fingerprint_is(d.fingerprint@);
    let mut k: usize = 0;
    while k < list.len()
        invariant
            p == fingerprint_is(d.fingerprint@),
            list@ == old(list)@,
            k <= list@.len(),
            forall|j: int| 0 <= j < k ==> !p(#[trigger] list@[j]),
        decreases list@.len() - k,
    {
        if str_eq(list[k].fingerprint.as_str(), d.fingerprint.as_str()) {
            proof {
                lemma_first_where_at(list@, p, k as int);
            }
            list.set(k, d);
            return;
        }
        k += 1;
    }
    proof {
        lemma_first_where_none(list@, p);
    }
    list.push(d);
}

/// Putting a device keeps fingerprints apart.
proof fn lemma_put_unique(list: Seq<Device>, d: Device)
    requires
        crate::model::laws::fingerprints_unique(list),
    ensures
        crate::model::laws::fingerprints_unique(put(list, d)),
        forall|fp: Seq<char>| lists(put(list, d), fp) <==> (lists(list, fp) || fp == d.fingerprint@),
{
    let p = fingerprint_is(d.fingerprint@);
    lemma_first_where(list, p);
    let n = put(list, d);
    match first_where(list, p) {
        Some(k) => {
            assert forall|i: int, j: int| 0 <= i < j < n.len() implies (#[trigger] n[i]).fingerprint@ != (#[trigger] n[j]).fingerprint@ by {
                if i == k {
                    assert(list[k].fingerprint@ == d.fingerprint@);
                } else if j == k {
                    assert(list[k].fingerprint@ == d.fingerprint@);
                }
            }
            assert forall|fp: Seq<char>| lists(n, fp) <==> (lists(list, fp) || fp == d.fingerprint@) by {
                if lists(list, fp) {
                    let w = choose|w: int| 0 <= w < list.len() && (#[trigger] list[w]).fingerprint@ == fp;
                    if w == k {
                        assert(n[k].fingerprint@ == fp);
                    } else {
                        assert(n[w] == list[w]);
                    }
                }
                if fp == d.fingerprint@ {
                    assert(n[k] == d);
                }
                if lists(n, fp) {
                    let w = choose|w: int| 0 <= w < n.len() && (#[trigger] n[w]).fingerprint@ == fp;
                    if w != k {
                        assert(list[w] == n[w]);
                    }
                }
            }
        },
        None => {
            assert forall|i: int, j: int| 0 <= i < j < n.len() implies (#[trigger] n[i]).fingerprint@ != (#[trigger] n[j]).fingerprint@ by {
                if j == list.len() {
                    assert(!p(list[i]));
                }
            }
            assert forall|fp: Seq<char>| lists(n, fp) <==> (lists(list, fp) || fp == d.fingerprint@) by {
                if lists(list, fp) {
                    let w = choose|w: int| 0 <= w < list.len() && (#[trigger] list[w]).fingerprint@ == fp;
                    assert(n[w] == list[w]);
                }
                if fp == d.fingerprint@ {
                    assert(n[list.len() as int] == d);
                }
                if lists(n, fp) {
                    let w = choose|w: int| 0 <= w < n.len() && (#[trigger] n[w]).fingerprint@ == fp;
                    if w < list.len() {
                        assert(list[w] == n[w]);
                    }
                }
            }
        },
    }
}

/// Whether a device is new to the `visible` list or changed.
pub open spec fn not_shown(visible: Seq<Device>) -> spec_fn(Device) -> bool {
    |d: Device| !shown_as_is(visible, d)
}

/// `r` is the snapshot of the published devices `ds` against `visible`: the
/// devices merged by fingerprint, one report for each new or changed device,
/// then one for each listed device no longer published.
pub open spec fn snapshot_of(visible: Seq<Device>, ds: Seq<Device>, r: Snapshot) -> bool {
    let found = ds.filter(not_shown(visible));
    let lost = lost_ids(visible, r.devices@);
    &&& r.devices@ == merged(ds)
    &&& crate::model::laws::fingerprints_unique(r.devices@)
    &&& forall|fp: Seq<char>| lists(r.devices@, fp) <==> exists|j: int| 0 <= j < ds.len() && (#[trigger] ds[j]).fingerprint@ == fp
    &&& r.events@.len() == found.len() + lost.len()
    &&& forall|j: int| 0 <= j < found.len() ==> ((#[trigger] r.events@[j]) matches TransferEvent::DeviceFound(d) && d == found[j])
    &&& forall|j: int| found.len() <= j < r.events@.len() ==> ((#[trigger] r.events@[j]) matches TransferEvent::DeviceLost(fp) && fp@ == lost[j - found.len()])
}

/// What a read of the discovery store changes in the published list.
#[derive(Debug)]
pub struct Snapshot {
    /// The devices now listed, one per fingerprint.
    pub devices: Vec<Device>,
    /// The reports to make: each published device that is new or changed,
    /// in the order read, then each listed device that is gone.
    pub events: Vec<TransferEvent>,
}

/// Reads the discovery `records` at `now` against the `visible` list: a
/// device is reported as found when it is new or changed, and as lost when
/// it is no longer published; the devices published become the list.
pub fn publish_discovery_snapshot(visible: &Vec<Device>, records: &Vec<PeerRecord>, now: WallTime) -> (r: Snapshot)
    ensures
        exists|ds: Seq<Device>| #[trigger] publications(records@, now, ds) && snapshot_of(visible@, ds, r),
{
    let ds = published_devices(records, now);
    let ghost dsv = ds@;
    let ghost pred = not_shown(visible@);
    let mut events: Vec<TransferEvent> = Vec::new();
    let mut next: Vec<Device> = Vec::new();
    let mut k: usize = 0;
    while k < ds.len()
        invariant
            dsv == ds@,
            pred == not_shown(visible@),
            k <= dsv.len(),
            next@ == merged(dsv.subrange(0, k as int)),
            crate::model::laws::fingerprints_unique(next@),
            forall|fp: Seq<char>| lists(next@, fp) <==> exists|j: int| 0 <= j < k && (#[trigger] dsv[j]).fingerprint@ == fp,
            events@.len() == dsv.subrange(0, k as int).filter(pred).len(),
            forall|j: int| 0 <= j < events@.len() ==> ((#[trigger] events@[j]) matches TransferEvent::DeviceFound(d) && d == dsv.subrange(0, k as int).filter(pred)[j]),
        decreases dsv.len() - k,
    {
        let d = &ds[k];
        let ghost before_events = events@;
        let ghost before_next = next@;
        proof {
            crate::seqs::lemma_filter_step(dsv, pred, k as int);
            assert(pred(dsv[k as int]) == !shown_as_is(visible@, dsv[k as int]));
            assert(dsv.subrange(0, k + 1).drop_last() =~= dsv.subrange(0, k as int));
            lemma_put_unique(before_next, dsv[k as int]);
        }
        if !is_shown_as_is(visible, d) {
            events.push(TransferEvent::DeviceFound(d.clone()));
        }
        put_device(&mut next, d.clone());
        proof {
            assert forall|fp: Seq<char>| lists(next@, fp) <==> exists|j: int| 0 <= j < k + 1 && (#[trigger] dsv[j]).fingerprint@ == fp by {
                if lists(before_next, fp) {
                    let j = choose|j: int| 0 <= j < k && (#[trigger] dsv[j]).fingerprint@ == fp;
                    assert(0 <= j < k + 1 && dsv[j].fingerprint@ == fp);
                }
                if fp == dsv[k as int].fingerprint@ {
                    assert(0 <= k < k + 1 && dsv[k as int].fingerprint@ == fp);
                }
                if exists|j: int| 0 <= j < k + 1 && (#[trigger] dsv[j]).fingerprint@ == fp {
                    let j = choose|j: int| 0 <= j < k + 1 && (#[trigger] dsv[j]).fingerprint@ == fp;
                    if j < k {
                        assert(lists(before_next, fp));
                    }
                }
            }
            assert forall|j: int| 0 <= j < events@.len() implies (#[trigger] events@[j]) matches TransferEvent::DeviceFound(d) && d == dsv.subrange(0, k + 1).filter(pred)[j] by {
                if j < before_events.len() {
                    assert(events@[j] == before_events[j]);
                }
            }
        }
        k += 1;
    }
    assert(dsv.subrange(0, dsv.len() as int) =~= dsv);
    let ghost found_count = events@.len();
    let mut m: usize = 0;
    while m < visible.len()
        invariant
            pred == not_shown(visible@),
            m <= visible@.len(),
            found_count == dsv.filter(pred).len(),
            events@.len() == found_count + lost_ids(visible@.subrange(0, m as int), next@).len(),
            forall|j: int| 0 <= j < found_count ==> ((#[trigger] events@[j]) matches TransferEvent::DeviceFound(d) && d == dsv.filter(pred)[j]),
            forall|j: int| found_count <= j < events@.len() ==> ((#[trigger] events@[j]) matches TransferEvent::DeviceLost(fp) && fp@ == lost_ids(visible@.subrange(0, m as int), next@)[j - found_count]),
        decreases visible@.len() - m,
    {
        let ghost before_events = events@;
        proof {
            assert(visible@.subrange(0, m + 1).drop_last() =~= visible@.subrange(0, m as int));
        }
        if !is_listed(&next, visible[m].fingerprint.as_str()) {
            events.push(TransferEvent::DeviceLost(visible[m].fingerprint.clone()));
        }
        proof {
            assert forall|j: int| 0 <= j < events@.len() implies #[trigger] events@[j] == (if j < before_events.len() { before_events[j] } else { events@[j] }) by {}
        }
        m += 1;
    }
    assert(visible@.subrange(0, visible@.len() as int) =~= visible@);
    Snapshot { devices: next, events }
}

/// When an identity check last failed for a host.
#[derive(Debug)]
pub struct FailureMark {
    pub host: String,
    /// Monotonic nanoseconds.
    pub at: u64,
}

/// Identity failures reported within the last minute, one per host.
#[derive(Debug)]
pub struct ProbeFailures {
    pub recent: Vec<FailureMark>,
}

/// Whether a failure mark is still within the quiet minute at `now`.
pub open spec fn still_quiet(now: u64) -> spec_fn(FailureMark) -> bool {
    |m: FailureMark| (if now >= m.at { now - m.at } else { 0 }) < FAILURE_QUIET
}

/// Whether a probe failure is about the peer's identity. Peers routinely
/// disappear or time out; only certificate and fingerprint failures are
/// worth telling the user.
pub open spec fn identity_failure(error: Seq<char>) -> bool {
    contains(ascii_lowercase(error), "certificate"@) || contains(ascii_lowercase(error), "fingerprint"@)
}

/// Whether a host has a failure mark.
pub open spec fn marks(recent: Seq<FailureMark>, host: Seq<char>) -> bool {
    exists|k: int| 0 <= k < recent.len() && (#[trigger] recent[k]).host@ == host
}

/// The report of a peer whose identity could not be verified.
pub open spec fn identity_report(alias: Seq<char>, host: Seq<char>) -> Seq<char> {
    "Nearby device identity could not be verified: "@ + alias + " ("@ + host + ")"@
}

impl ProbeFailures {
    /// No failure reported yet.
    pub fn new() -> (r: ProbeFailures)
        ensures
            r.recent@.len() == 0,
    {
        ProbeFailures { recent: Vec::new() }
    }

    /// A probe of `host`, the peer `alias`, failed with `error` at `now`.
    /// An identity failure is reported unless the same host was reported
    /// within the last minute; marks older than a minute are forgotten.
    pub fn probe_failed(&mut self, host: &str, alias: &str, error: &str, now: u64) -> (r: Option<TransferEvent>)
        ensures
            !identity_failure(error@) ==> final(self).recent@ == old(self).recent@ && r is None,
            identity_failure(error@) ==> {
                let kept = old(self).recent@.filter(still_quiet(now));
                if marks(kept, host@) {
                    final(self).recent@ == kept && r is None
                } else {
                    &&& final(self).recent@ == kept.push(FailureMark { host: final(self).recent@.last().host, at: now })
                    &&& final(self).recent@.last().host@ == host@
                    &&& r matches Some(TransferEvent::NetworkError(m))
                    &&& m@ == identity_report(alias@, host@)
                }
            },
    {
        let lower = to_ascii_lowercase(chars_of(error).as_slice());
        if !(contains_chars(lower.as_slice(), chars_of("certificate").as_slice()) || contains_chars(
            lower.as_slice(),
            chars_of("fingerprint").as_slice(),
        )) {
            return None;
        }
        let ghost p = still_quiet(now);
        let ghost all = self.recent@;
        let mut kept: Vec<FailureMark> = Vec::new();
        let mut k: usize = 0;
        while k < self.recent.len()
            invariant
                p == still_quiet(now),
                all == self.recent@,
                k <= all.len(),
                kept@ == all.subrange(0, k as int).filter(p),
            decreases all.len() - k,
        {
            proof {
                crate::seqs::lemma_filter_step(all, p, k as int);
            }
            let m = &self.recent[k];
            let age = if now >= m.at {
                now - m.at
            } else {
                0
            };
            if age < FAILURE_QUIET {
                kept.push(FailureMark { host: m.host.clone(), at: m.at });
            }
            k += 1;
        }
        assert(all.subrange(0, all.len() as int) =~= all);
        let mut seen = false;
        let mut j: usize = 0;
        while j < kept.len()
            invariant
                j <= kept@.len(),
                seen == marks(kept@.subrange(0, j as int), host@),
            decreases kept@.len() - j,
        {
            let ghost before = kept@.subrange(0, j as int);
            let ghost after = kept@.subrange(0, j + 1);
            let hit = str_eq(kept[j].host.as_str(), host);
            proof {
                if hit {
                    assert(after[j as int] == kept@[j as int]);
                }
                if seen {
                    let w = choose|w: int| 0 <= w < before.len() && (#[trigger] before[w]).host@ == host@;
                    assert(after[w] == before[w]);
                }
                if marks(after, host@) && !hit {
                    let w = choose|w: int| 0 <= w < after.len() && (#[trigger] after[w]).host@ == host@;
                    assert(w < before.len() && before[w] == after[w]);
                }
            }
            seen = seen || hit;
            j += 1;
        }
        assert(kept@.subrange(0, kept@.len() as int) =~= kept@);
        if seen {
            self.recent = kept;
            return None;
        }
        kept.push(FailureMark { host: host.to_owned(), at: now });
        self.recent = kept;
        let mut text = chars_of("Nearby device identity could not be verified: ");
        extend_chars(&mut text, chars_of(alias).as_slice());
        extend_chars(&mut text, chars_of(" (").as_slice());
        extend_chars(&mut text, chars_of(host).as_slice());
        extend_chars(&mut text, chars_of(")").as_slice());
        Some(TransferEvent::NetworkError(string_of(text.as_slice())))
    }
}

/// The report that multicast is unavailable, with its cause.
pub fn multicast_unavailable(detail: &str) -> (event: TransferEvent)
    ensures
        event matches TransferEvent::NetworkError(m) && m@ == "Multicast unavailable; trying local network discovery: "@
            + detail@,
{
    let mut text = chars_of("Multicast unavailable; trying local network discovery: ");
    extend_chars(&mut text, chars_of(detail).as_slice());
    TransferEvent::NetworkError(string_of(text.as_slice()))
}

/// Merging devices whose fingerprints differ keeps them as they are.
proof fn lemma_merged_distinct(ds: Seq<Device>)
    requires
        crate::model::laws::fingerprints_unique(ds),
    ensures
        merged(ds) == ds,
    decreases ds.len(),
{
    if ds.len() > 0 {
        let rest = ds.drop_last();
        assert(crate::model::laws::fingerprints_unique(rest)) by {
            assert forall|i: int, j: int| 0 <= i < j < rest.len() implies (#[trigger] rest[i]).fingerprint@ != (#[trigger] rest[j]).fingerprint@ by {
                assert(rest[i] == ds[i] && rest[j] == ds[j]);
            }
        }
        lemma_merged_distinct(rest);
        let p = fingerprint_is(ds.last().fingerprint@);
        assert forall|j: int| 0 <= j < rest.len() implies !p(#[trigger] rest[j]) by {
            assert(rest[j] == ds[j]);
            assert(ds[j].fingerprint@ != ds[ds.len() - 1].fingerprint@);
        }
        lemma_first_where_none(rest, p);
        assert(rest.push(ds.last()) =~= ds);
    }
}

/// Filtering by a predicate that nothing satisfies leaves nothing.
proof fn lemma_filter_nothing(ds: Seq<Device>, p: spec_fn(Device) -> bool)
    requires
        forall|j: int| 0 <= j < ds.len() ==> !p(#[trigger] ds[j]),
    ensures
        ds.filter(p).len() == 0,
    decreases ds.len(),
{
    reveal(Seq::filter);
    if ds.len() > 0 {
        let rest = ds.drop_last();
        assert forall|j: int| 0 <= j < rest.len() implies !p(#[trigger] rest[j]) by {
            assert(rest[j] == ds[j]);
        }
        lemma_filter_nothing(rest, p);
        assert(!p(ds[ds.len() - 1]));
    }
}

/// No device is lost while every listed one is still published.
proof fn lemma_nothing_lost(visible: Seq<Device>, next: Seq<Device>)
    requires
        forall|j: int| 0 <= j < visible.len() ==> lists(next, (#[trigger] visible[j]).fingerprint@),
    ensures
        lost_ids(visible, next).len() == 0,
    decreases visible.len(),
{
    if visible.len() > 0 {
        let rest = visible.drop_last();
        assert forall|j: int| 0 <= j < rest.len() implies lists(next, (#[trigger] rest[j]).fingerprint@) by {
            assert(rest[j] == visible[j]);
        }
        lemma_nothing_lost(rest, next);
        assert(lists(next, visible[visible.len() - 1].fingerprint@));
    }
}

/// Reading the same published peers again reports nothing: unchanged peers
/// never trigger work in the interface, and the list stays as it was.
pub proof fn unchanged_store_reports_nothing(visible: Seq<Device>, ds: Seq<Device>, first: Snapshot, second: Snapshot)
    requires
        crate::model::laws::fingerprints_unique(ds),
        snapshot_of(visible, ds, first),
        snapshot_of(first.devices@, ds, second),
    ensures
        second.devices@ == first.devices@,
        second.events@.len() == 0,
{
    lemma_merged_distinct(ds);
    assert forall|j: int| 0 <= j < ds.len() implies !not_shown(ds)(#[trigger] ds[j]) by {
        assert(same_details(ds[j], ds[j]));
    }
    lemma_filter_nothing(ds, not_shown(ds));
    assert forall|j: int| 0 <= j < ds.len() implies lists(ds, (#[trigger] ds[j]).fingerprint@) by {}
    lemma_nothing_lost(ds, ds);
}

/// With no record of the store published, nothing is published.
proof fn lemma_quiet_publications(records: Seq<PeerRecord>, now: WallTime, ds: Seq<Device>)
    requires
        publications(records, now, ds),
        forall|k: int| 0 <= k < records.len() ==> !publishes(#[trigger] records[k], now),
    ensures
        ds.len() == 0,
{
    let idx = choose|idx: Seq<int>| {
        &&& idx.len() == ds.len()
        &&& forall|j: int| 0 <= j < idx.len() ==> 0 <= #[trigger] idx[j] < records.len()
        &&& forall|a: int, b: int| 0 <= a < b < idx.len() ==> #[trigger] idx[a] < #[trigger] idx[b]
        &&& forall|j: int| 0 <= j < idx.len() ==> device_of(records[#[trigger] idx[j]], ds[j])
        &&& forall|k: int| 0 <= k < records.len() && publishes(#[trigger] records[k], now) ==> exists|j: int|
            0 <= j < idx.len() && idx[j] == k
        &&& forall|j: int| 0 <= j < idx.len() ==> publishes(records[#[trigger] idx[j]], now)
    };
    if ds.len() > 0 {
        assert(publishes(records[idx[0]], now));
    }
}

/// Against an empty list, every listed device is lost, in order.
proof fn lemma_all_lost(visible: Seq<Device>)
    ensures
        lost_ids(visible, Seq::empty()) == visible.map_values(|d: Device| d.fingerprint@),
    decreases visible.len(),
{
    if visible.len() > 0 {
        lemma_all_lost(visible.drop_last());
        assert(!lists(Seq::<Device>::empty(), visible.last().fingerprint@));
        assert(visible.map_values(|d: Device| d.fingerprint@) =~= visible.drop_last().map_values(
            |d: Device| d.fingerprint@,
        ).push(visible.last().fingerprint@));
    } else {
        assert(visible.map_values(|d: Device| d.fingerprint@) =~= Seq::<Seq<char>>::empty());
    }
}

/// When no peer of the store has been heard from recently, every listed
/// device is reported lost, in order, and the list empties.
pub proof fn quiet_peers_are_all_lost(
    visible: Seq<Device>,
    records: Seq<PeerRecord>,
    now: WallTime,
    ds: Seq<Device>,
    r: Snapshot,
)
    requires
        forall|k: int| 0 <= k < records.len() ==> !publishes(#[trigger] records[k], now),
        publications(records, now, ds),
        snapshot_of(visible, ds, r),
    ensures
        r.devices@.len() == 0,
        r.events@.len() == visible.len(),
        forall|j: int| 0 <= j < visible.len() ==> ((#[trigger] r.events@[j]) matches TransferEvent::DeviceLost(fp)
            && fp@ == visible[j].fingerprint@),
{
    lemma_quiet_publications(records, now, ds);
    assert(ds =~= Seq::<Device>::empty());
    assert(merged(ds) =~= Seq::<Device>::empty());
    lemma_filter_nothing(ds, not_shown(visible));
    assert(r.devices@ =~= Seq::<Device>::empty());
    lemma_all_lost(visible);
}

} // verus!
