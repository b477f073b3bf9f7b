//! What every event keeps true of the session state.
use vstd::prelude::*;
use super::state::{AppState, Transfer, TransferRate, applied, navigated, device_position, stepped, history_trimmed, listed, busy_with, is_active, trimmed, transfer_position, has_id, unsent, reselect, pruned, keeps_device, with_expired, rate_updated};
use crate::localsend::{Device, TransferEvent};
use crate::seqs::{first_where, lemma_first_where};
use crate::system::Moment;

verus! {

/// The selection names a listed device, and something is selected whenever
/// a device is listed.
pub open spec fn selection_valid(s: AppState) -> bool {
    &&& (s.selected is None <==> s.devices@.len() == 0)
    &&& match s.selected {
        Some(f) => listed(s.devices@, f@),
        None => true,
    }
}

/// No two listed devices share a fingerprint.
pub open spec fn fingerprints_unique(devices: Seq<Device>) -> bool {
    forall|i: int, j: int|
        0 <= i < j < devices.len() ==> (#[trigger] devices[i]).fingerprint@ != (#[trigger] devices[j]).fingerprint@
}

/// Session history holds at most 100 transfers unless all of them are active.
pub open spec fn history_bounded(ts: Seq<Transfer>) -> bool {
    ts.len() <= 100 || forall|k: int| 0 <= k < ts.len() ==> is_active(#[trigger] ts[k])
}

proof fn lemma_reselect_valid(devices: Seq<Device>, selected: Option<String>)
    ensures
        reselect(devices, selected) is None <==> devices.len() == 0,
        match reselect(devices, selected) {
            Some(f) => listed(devices, f@),
            None => true,
        },
{
    match reselect(devices, selected) {
        Some(f) => {
            if devices.len() > 0 && f == devices[0].fingerprint {
                assert(devices[0].fingerprint@ == f@);
            }
        },
        None => {},
    }
}

/// Elements of a filtered sequence come from the sequence, in order.
proof fn lemma_filter_origin<T>(s: Seq<T>, p: spec_fn(T) -> bool)
    ensures
        forall|m: int| 0 <= m < s.filter(p).len() ==> exists|k: int| 0 <= k < s.len() && s[k] == #[trigger] s.filter(p)[m],
    decreases s.len(),
{
    reveal(Seq::filter);
    if s.len() > 0 {
        let t = s.drop_last();
        lemma_filter_origin(t, p);
        assert forall|m: int| 0 <= m < s.filter(p).len() implies exists|k: int| 0 <= k < s.len() && s[k] == #[trigger] s.filter(p)[m] by {
            if m < t.filter(p).len() {
                let k = choose|k: int| 0 <= k < t.len() && t[k] == #[trigger] t.filter(p)[m];
                assert(s[k] == t[k]);
            } else {
                assert(s[s.len() - 1] == s.filter(p)[m]);
            }
        }
    }
}

/// Elements that satisfy the predicate stay in the filtered sequence.
proof fn lemma_filter_keeps<T>(s: Seq<T>, p: spec_fn(T) -> bool, k: int)
    requires
        0 <= k < s.len(),
        p(s[k]),
    ensures
        exists|m: int| 0 <= m < s.filter(p).len() && s.filter(p)[m] == s[k],
    decreases s.len(),
{
    reveal(Seq::filter);
    let t = s.drop_last();
    if k == s.len() - 1 {
        assert(s.filter(p)[s.filter(p).len() - 1] == s[k]);
    } else {
        lemma_filter_keeps(t, p, k);
        let m = choose|m: int| 0 <= m < t.filter(p).len() && t.filter(p)[m] == t[k];
        assert(s.filter(p)[m] == s[k]);
    }
}

/// Filtering keeps fingerprints distinct.
proof fn lemma_filter_unique(s: Seq<Device>, p: spec_fn(Device) -> bool)
    requires
        fingerprints_unique(s),
    ensures
        fingerprints_unique(s.filter(p)),
    decreases s.len(),
{
    reveal(Seq::filter);
    if s.len() > 0 {
        let t = s.drop_last();
        assert(fingerprints_unique(t)) by {
            assert forall|i: int, j: int| 0 <= i < j < t.len() implies (#[trigger] t[i]).fingerprint@ != (#[trigger] t[j]).fingerprint@ by {
                assert(t[i] == s[i] && t[j] == s[j]);
            }
        }
        lemma_filter_unique(t, p);
        lemma_filter_origin(t, p);
        let f = s.filter(p);
        if p(s.last()) {
            assert forall|i: int, j: int| 0 <= i < j < f.len() implies (#[trigger] f[i]).fingerprint@ != (#[trigger] f[j]).fingerprint@ by {
                if j == f.len() - 1 {
                    let k = choose|k: int| 0 <= k < t.len() && t[k] == #[trigger] t.filter(p)[i];
                    assert(s[k] == t[k]);
                    assert(f[i] == t.filter(p)[i]);
                    assert(f[j] == s[s.len() - 1]);
                } else {
                    assert(f[i] == t.filter(p)[i] && f[j] == t.filter(p)[j]);
                }
            }
        }
    }
}

proof fn lemma_pruned_laws(
    devices: Seq<Device>,
    selected: Option<String>,
    expired: Seq<String>,
    transfers: Seq<Transfer>,
    n: AppState,
)
    requires
        pruned(devices, selected, expired, transfers, n),
        fingerprints_unique(devices),
    ensures
        selection_valid(n),
        fingerprints_unique(n.devices@),
{
    lemma_reselect_valid(n.devices@, selected);
    lemma_filter_unique(devices, |d: Device| keeps_device(expired, transfers, d));
}

proof fn lemma_trim_after_one_change(ts: Seq<Transfer>, j: int)
    requires
        forall|k: int| 0 <= k < ts.len() && k != j ==> is_active(#[trigger] ts[k]),
    ensures
        history_bounded(trimmed(ts)),
{
    let p = |t: Transfer| !is_active(t);
    lemma_first_where(ts, p);
    if ts.len() > 100 {
        match first_where(ts, p) {
            Some(i) => {
                assert(i == j);
                let r = ts.remove(i);
                assert forall|k: int| 0 <= k < r.len() implies is_active(#[trigger] r[k]) by {
                    if k < i {
                        assert(r[k] == ts[k]);
                    } else {
                        assert(r[k] == ts[k + 1]);
                    }
                }
            },
            None => {},
        }
    }
}

proof fn lemma_trim_short(ts: Seq<Transfer>)
    requires
        ts.len() <= 101,
    ensures
        history_bounded(trimmed(ts)),
{
    let p = |t: Transfer| !is_active(t);
    lemma_first_where(ts, p);
}

/// Every event keeps the selection valid.
pub proof fn apply_keeps_selection_valid(o: AppState, e: TransferEvent, now: Moment, n: AppState)
    requires
        selection_valid(o),
        fingerprints_unique(o.devices@),
        applied(o, e, now, n),
    ensures
        selection_valid(n),
{
    apply_keeps_device_laws(o, e, now, n);
}

/// Every event keeps fingerprints of listed devices distinct.
pub proof fn apply_keeps_fingerprints_unique(o: AppState, e: TransferEvent, now: Moment, n: AppState)
    requires
        selection_valid(o),
        fingerprints_unique(o.devices@),
        applied(o, e, now, n),
    ensures
        fingerprints_unique(n.devices@),
{
    apply_keeps_device_laws(o, e, now, n);
}

proof fn apply_keeps_device_laws(o: AppState, e: TransferEvent, now: Moment, n: AppState)
    requires
        selection_valid(o),
        fingerprints_unique(o.devices@),
        applied(o, e, now, n),
    ensures
        selection_valid(n),
        fingerprints_unique(n.devices@),
{
    let mid = choose|mid: AppState| stepped(o, e, now, mid) && history_trimmed(mid, n);
    match e {
        TransferEvent::DeviceFound(d) => {
            let p = |x: Device| x.fingerprint@ == d.fingerprint@;
            lemma_first_where(o.devices@, p);
            let nd = mid.devices@;
            match first_where(o.devices@, p) {
                Some(i) => {
                    assert forall|a: int, b: int| 0 <= a < b < nd.len() implies (#[trigger] nd[a]).fingerprint@ != (#[trigger] nd[b]).fingerprint@ by {
                        if a == i {
                            assert(nd[a].fingerprint@ == o.devices@[i].fingerprint@);
                        }
                        if b == i {
                            assert(nd[b].fingerprint@ == o.devices@[i].fingerprint@);
                        }
                    }
                    match o.selected {
                        Some(f) => {
                            let k = choose|k: int| 0 <= k < o.devices@.len() && (#[trigger] o.devices@[k]).fingerprint@ == f@;
                            if k == i {
                                assert(nd[k].fingerprint@ == f@);
                            } else {
                                assert(nd[k] == o.devices@[k]);
                            }
                        },
                        None => {},
                    }
                },
                None => {
                    assert forall|a: int, b: int| 0 <= a < b < nd.len() implies (#[trigger] nd[a]).fingerprint@ != (#[trigger] nd[b]).fingerprint@ by {
                        if b == nd.len() - 1 {
                            assert(!p(o.devices@[a]));
                        } else {
                            assert(nd[a] == o.devices@[a] && nd[b] == o.devices@[b]);
                        }
                    }
                    match o.selected {
                        Some(f) => {
                            let k = choose|k: int| 0 <= k < o.devices@.len() && (#[trigger] o.devices@[k]).fingerprint@ == f@;
                            assert(nd[k] == o.devices@[k]);
                        },
                        None => {
                            assert(nd[0].fingerprint@ == nd[0].fingerprint@);
                        },
                    }
                },
            }
        },
        TransferEvent::DeviceLost(id) => {
            lemma_pruned_laws(o.devices@, o.selected, with_expired(o.expired_devices@, id), o.transfers@, mid);
        },
        TransferEvent::Completed { id, paths } => {
            lemma_pruned_laws(o.devices@, o.selected, o.expired_devices@, mid.transfers@, mid);
        },
        TransferEvent::Cancelled { id } => {
            lemma_pruned_laws(o.devices@, o.selected, o.expired_devices@, mid.transfers@, mid);
        },
        TransferEvent::Failed { id, error } => {
            lemma_pruned_laws(o.devices@, o.selected, o.expired_devices@, mid.transfers@, mid);
        },
        _ => {},
    }
}

/// Every event keeps session history bounded: more than 100 transfers only
/// while all of them are active.
pub proof fn apply_keeps_history_bounded(o: AppState, e: TransferEvent, now: Moment, n: AppState)
    requires
        history_bounded(o.transfers@),
        applied(o, e, now, n),
    ensures
        history_bounded(n.transfers@),
{
    let mid = choose|mid: AppState| stepped(o, e, now, mid) && history_trimmed(mid, n);
    let ot = o.transfers@;
    let mt = mid.transfers@;
    if ot.len() <= 100 {
        assert(mt.len() <= ot.len() + 1) by {
            match e {
                TransferEvent::Started { id, .. } => {
                    lemma_first_where(ot, |t: Transfer| t.id@ == id@);
                },
                TransferEvent::Accepted { id } => {
                    lemma_first_where(ot, |t: Transfer| t.id@ == id@ && t.status is Active);
                },
                TransferEvent::Progress { id, .. } => {
                    lemma_first_where(ot, |t: Transfer| t.id@ == id@ && t.status is Active);
                },
                TransferEvent::ReceivedText { id, .. } => {
                    lemma_first_where(ot, |t: Transfer| t.id@ == id@ && t.status is Active);
                },
                TransferEvent::Completed { id, .. } => {
                    lemma_first_where(ot, |t: Transfer| t.id@ == id@);
                },
                TransferEvent::Cancelled { id } => {
                    lemma_first_where(ot, |t: Transfer| t.id@ == id@);
                },
                TransferEvent::Failed { id, .. } => {
                    lemma_first_where(ot, |t: Transfer| t.id@ == id@);
                },
                _ => {},
            }
        }
        lemma_trim_short(mt);
    } else {
        match e {
            TransferEvent::Started { id, .. } => {
                let p = |t: Transfer| t.id@ == id@;
                lemma_first_where(ot, p);
                match first_where(ot, p) {
                    Some(i) => {
                        assert forall|k: int| 0 <= k < mt.len() implies is_active(#[trigger] mt[k]) by {
                            if k != i {
                                assert(mt[k] == ot[k]);
                            } else {
                                assert(mt[k].status == ot[k].status);
                            }
                        }
                    },
                    None => {
                        assert forall|k: int| 0 <= k < mt.len() implies is_active(#[trigger] mt[k]) by {
                            if k < ot.len() {
                                assert(mt.drop_last()[k] == ot[k]);
                            }
                        }
                    },
                }
                lemma_trim_after_one_change(mt, 0);
            },
            TransferEvent::Accepted { id } => {
                let p = |t: Transfer| t.id@ == id@ && t.status is Active;
                lemma_first_where(ot, p);
                assert forall|k: int| 0 <= k < mt.len() implies is_active(#[trigger] mt[k]) by {
                    if first_where(ot, p) is Some && k == first_where(ot, p)->0 {
                        assert(mt[k].status == ot[k].status);
                    } else {
                        assert(mt[k] == ot[k]);
                    }
                }
                lemma_trim_after_one_change(mt, 0);
            },
            TransferEvent::Progress { id, .. } => {
                let p = |t: Transfer| t.id@ == id@ && t.status is Active;
                lemma_first_where(ot, p);
                assert forall|k: int| 0 <= k < mt.len() implies is_active(#[trigger] mt[k]) by {
                    if first_where(ot, p) is Some && k == first_where(ot, p)->0 {
                        assert(mt[k].status == ot[k].status);
                    } else {
                        assert(mt[k] == ot[k]);
                    }
                }
                lemma_trim_after_one_change(mt, 0);
            },
            TransferEvent::ReceivedText { id, .. } => {
                let p = |t: Transfer| t.id@ == id@ && t.status is Active;
                lemma_first_where(ot, p);
                assert forall|k: int| 0 <= k < mt.len() implies is_active(#[trigger] mt[k]) by {
                    if first_where(ot, p) is Some && k == first_where(ot, p)->0 {
                        assert(mt[k].status == ot[k].status);
                    } else {
                        assert(mt[k] == ot[k]);
                    }
                }
                lemma_trim_after_one_change(mt, 0);
            },
            TransferEvent::Completed { id, .. } => {
                lemma_finish_bounded(ot, mt, id@);
            },
            TransferEvent::Cancelled { id } => {
                lemma_finish_bounded(ot, mt, id@);
            },
            TransferEvent::Failed { id, .. } => {
                lemma_finish_bounded(ot, mt, id@);
            },
            _ => {
                lemma_trim_after_one_change(mt, 0);
            },
        }
    }
}

proof fn lemma_finish_bounded(ot: Seq<Transfer>, mt: Seq<Transfer>, id: Seq<char>)
    requires
        forall|k: int| 0 <= k < ot.len() ==> is_active(#[trigger] ot[k]),
        match transfer_position(ot, id) {
            Some(i) => mt == ot.update(i, mt[i]),
            None => mt == ot,
        },
    ensures
        history_bounded(trimmed(mt)),
{
    lemma_first_where(ot, has_id(id));
    match transfer_position(ot, id) {
        Some(i) => {
            assert(0 <= i < ot.len());
            assert(mt.len() == ot.len());
            assert forall|k: int| 0 <= k < mt.len() && k != i implies is_active(#[trigger] mt[k]) by {
                assert(mt[k] == ot[k]);
            }
            lemma_trim_after_one_change(mt, i);
        },
        None => {
            lemma_trim_after_one_change(mt, 0);
        },
    }
}

/// A device found for the first time counts as a new discovery; a device
/// that is already listed does not.
pub proof fn found_device_counts_new_discoveries(o: AppState, d: Device, now: Moment, n: AppState)
    requires
        applied(o, TransferEvent::DeviceFound(d), now, n),
    ensures
        n.discovery_revision == o.discovery_revision + if listed(o.devices@, d.fingerprint@) { 0int } else { 1int },
        listed(n.devices@, d.fingerprint@),
{
    let mid = choose|mid: AppState| stepped(o, TransferEvent::DeviceFound(d), now, mid) && history_trimmed(mid, n);
    let p = |x: Device| x.fingerprint@ == d.fingerprint@;
    lemma_first_where(o.devices@, p);
    match first_where(o.devices@, p) {
        Some(i) => {
            assert(o.devices@[i].fingerprint@ == d.fingerprint@);
            assert(n.devices@[i] == d);
        },
        None => {
            if listed(o.devices@, d.fingerprint@) {
                let k = choose|k: int| 0 <= k < o.devices@.len() && (#[trigger] o.devices@[k]).fingerprint@ == d.fingerprint@;
                assert(p(o.devices@[k]));
            }
            assert(n.devices@[n.devices@.len() - 1] == d);
        },
    }
}

/// Discovery losing a device does not unlist it while an active transfer
/// involves it.
pub proof fn busy_device_survives_loss(o: AppState, id: String, now: Moment, n: AppState)
    requires
        applied(o, TransferEvent::DeviceLost(id), now, n),
        listed(o.devices@, id@),
        busy_with(o.transfers@, id@),
    ensures
        listed(n.devices@, id@),
{
    let mid = choose|mid: AppState| stepped(o, TransferEvent::DeviceLost(id), now, mid) && history_trimmed(mid, n);
    let k = choose|k: int| 0 <= k < o.devices@.len() && (#[trigger] o.devices@[k]).fingerprint@ == id@;
    let p = |d: Device| keeps_device(with_expired(o.expired_devices@, id), o.transfers@, d);
    lemma_filter_keeps(o.devices@, p, k);
    let m = choose|m: int| 0 <= m < o.devices@.filter(p).len() && o.devices@.filter(p)[m] == o.devices@[k];
    assert(n.devices@[m].fingerprint@ == id@);
}

/// A completed transfer takes exactly the composer entries it sent out of the
/// composer; a cancelled or failed one leaves the composer as it was.
pub proof fn finished_transfer_settles_composer(o: AppState, e: TransferEvent, now: Moment, n: AppState)
    requires
        applied(o, e, now, n),
    ensures
        e matches TransferEvent::Completed { id, paths } ==> n.composer@ == match transfer_position(o.transfers@, id@) {
            Some(i) => unsent(o.composer@, o.transfers@[i].composer_ids@),
            None => o.composer@,
        },
        e matches TransferEvent::Cancelled { .. } ==> n.composer@ == o.composer@,
        e matches TransferEvent::Failed { .. } ==> n.composer@ == o.composer@,
{
}

/// Later progress never changes the average speed recorded at completion.
pub proof fn average_rate_stays_fixed(r: TransferRate, bytes: u64, now: u64)
    ensures
        rate_updated(r, bytes, now).average == r.average,
{
}

/// Whether event `e` ends the transfer with id `id`.
pub open spec fn ends(e: TransferEvent, id: Seq<char>) -> bool {
    match e {
        TransferEvent::Completed { id: x, .. } => x@ == id,
        TransferEvent::Cancelled { id: x } => x@ == id,
        TransferEvent::Failed { id: x, .. } => x@ == id,
        _ => false,
    }
}

/// One event keeps every transfer at its place, with its id, and keeps it
/// active unless the event ends it; new transfers only come at the end.
proof fn lemma_step_keeps_transfers(o: AppState, e: TransferEvent, now: Moment, n: AppState, k: int)
    requires
        stepped(o, e, now, n),
        0 <= k < o.transfers@.len(),
        is_active(o.transfers@[k]),
        !ends(e, o.transfers@[k].id@),
    ensures
        k < n.transfers@.len(),
        n.transfers@[k].id == o.transfers@[k].id,
        is_active(n.transfers@[k]),
{
    let ot = o.transfers@;
    match e {
        TransferEvent::Started { id, .. } => {
            lemma_first_where(ot, has_id(id@));
        },
        TransferEvent::Accepted { id } => {
            lemma_first_where(ot, |t: Transfer| t.id@ == id@ && t.status is Active);
        },
        TransferEvent::Progress { id, .. } => {
            lemma_first_where(ot, |t: Transfer| t.id@ == id@ && t.status is Active);
        },
        TransferEvent::ReceivedText { id, .. } => {
            lemma_first_where(ot, |t: Transfer| t.id@ == id@ && t.status is Active);
        },
        TransferEvent::Completed { id, .. } => {
            lemma_first_where(ot, has_id(id@));
        },
        TransferEvent::Cancelled { id } => {
            lemma_first_where(ot, has_id(id@));
        },
        TransferEvent::Failed { id, .. } => {
            lemma_first_where(ot, has_id(id@));
        },
        _ => {},
    }
}

/// Bounding session history drops finished transfers only: a transfer that
/// is active before an event, and that the event does not end, is still
/// listed and active afterwards.
pub proof fn history_bound_keeps_active_work(o: AppState, e: TransferEvent, now: Moment, n: AppState, k: int)
    requires
        applied(o, e, now, n),
        0 <= k < o.transfers@.len(),
        is_active(o.transfers@[k]),
        !ends(e, o.transfers@[k].id@),
    ensures
        exists|j: int| 0 <= j < n.transfers@.len() && (#[trigger] n.transfers@[j]).id == o.transfers@[k].id
            && is_active(n.transfers@[j]),
{
    let mid = choose|mid: AppState| stepped(o, e, now, mid) && history_trimmed(mid, n);
    lemma_step_keeps_transfers(o, e, now, mid, k);
    let ts = mid.transfers@;
    let p = |t: Transfer| !is_active(t);
    lemma_first_where(ts, p);
    if ts.len() > 100 {
        match first_where(ts, p) {
            Some(i) => {
                assert(k != i);
                if k < i {
                    assert(n.transfers@[k] == ts[k]);
                } else {
                    assert(n.transfers@[k - 1] == ts[k]);
                }
            },
            None => {
                assert(n.transfers@[k] == ts[k]);
            },
        }
    } else {
        assert(n.transfers@[k] == ts[k]);
    }
}

/// Moving the selection by `delta` and then by `-delta` returns to the
/// device that was selected.
pub proof fn navigation_round_trips(devices: Seq<Device>, selected: Option<String>, delta: int)
    requires
        fingerprints_unique(devices),
        selected matches Some(s) && listed(devices, s@),
    ensures
        navigated(devices, navigated(devices, selected, delta), -delta) matches Some(f) && f@ == selected->0@,
{
    let n = devices.len() as int;
    let s = selected->0;
    let p = |d: Device| d.fingerprint@ == s@;
    lemma_first_where(devices, p);
    let w = choose|k: int| 0 <= k < devices.len() && (#[trigger] devices[k]).fingerprint@ == s@;
    assert(p(devices[w]));
    let i = device_position(devices, s@)->0;
    assert(0 <= i < n);
    let j = (i + delta) % n;
    let f = devices[j].fingerprint;
    let q = |d: Device| d.fingerprint@ == f@;
    lemma_first_where(devices, q);
    assert(q(devices[j]));
    let jj = device_position(devices, f@)->0;
    assert(jj == j) by {
        if jj < j {
            assert(devices[jj].fingerprint@ != devices[j].fingerprint@);
        } else if jj > j {
            assert(devices[j].fingerprint@ != devices[jj].fingerprint@);
        }
    }
    assert((j + -delta) % n == i) by {
        vstd::arithmetic::div_mod::lemma_add_mod_noop(i + delta, -delta, n);
        vstd::arithmetic::div_mod::lemma_add_mod_noop(j, -delta, n);
        vstd::arithmetic::div_mod::lemma_mod_twice(i + delta, n);
        vstd::arithmetic::div_mod::lemma_small_mod(i as nat, n as nat);
    }
}

} // verus!
