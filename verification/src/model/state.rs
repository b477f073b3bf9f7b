//! The session state: nearby devices and the selection, the composer, the
//! transfers of this session, and how each network event changes them.
use vstd::prelude::*;
use super::{SendItem, temp_target};
use crate::localsend::{Device, OfferedFile, TransferEvent, clone_files};
use crate::localsend::send::Upload;
use crate::seqs::{first_where, lemma_first_where, lemma_first_where_at, lemma_first_where_none, lemma_filter_step};
use crate::system::{Moment, WallTime, instant_now, moment, file_name, file_name_of, clone_path};
use crate::text::{str_eq, chars_of, string_of, take_chars, starts_with, starts_with_chars, first_index_of, find_char, slice_chars};

verus! {

/// A random UUID as text in its hyphenated form: 36 characters, with
/// hyphens at places 8, 13, 18 and 23 and lower-case hexadecimal digits
/// elsewhere.
pub open spec fn hyphenated_uuid(s: Seq<char>) -> bool {
    &&& s.len() == 36
    &&& forall|i: int| 0 <= i < 36 ==> if i == 8 || i == 13 || i == 18 || i == 23 {
        #[trigger] s[i] == '-'
    } else {
        ('0' <= s[i] <= '9') || ('a' <= s[i] <= 'f')
    }
}

/// A new random identifier: `uuid::Uuid::new_v4` shown with `to_string`,
/// which writes its hyphenated lower-case form. Which value comes is chance.
#[verifier::external_body]
fn new_id() -> (r: String)
    ensures
        hyphenated_uuid(r@),
{
    uuid::Uuid::new_v4().to_string()
}

/// An item of the composer with the uploads it was prepared into.
#[derive(Debug)]
pub struct ComposerItem {
    pub id: String,
    pub item: SendItem,
    pub uploads: Vec<Upload>,
}

/// The offered files of a list of uploads.
pub open spec fn offers(uploads: Seq<Upload>) -> Seq<OfferedFile> {
    uploads.map_values(|u: Upload| u.offer)
}

/// The total size of a list of uploads.
pub open spec fn uploads_size(uploads: Seq<Upload>) -> int
    decreases uploads.len(),
{
    if uploads.len() == 0 {
        0
    } else {
        uploads_size(uploads.drop_last()) + uploads.last().offer.size
    }
}

/// The first line of a text (`str::lines().next()`): up to the first line
/// feed, without a carriage return before it; none for empty text.
pub open spec fn first_line(text: Seq<char>) -> Option<Seq<char>> {
    if text.len() == 0 {
        None
    } else {
        let line = match first_index_of(text, '\n') {
            Some(i) => text.subrange(0, i),
            None => text,
        };
        if line.len() > 0 && line.last() == '\r' {
            Some(line.drop_last())
        } else {
            Some(line)
        }
    }
}

/// How a file is labelled: by its file name, else `File`.
pub open spec fn file_label(path: std::path::PathBuf) -> Seq<char> {
    match file_name(path) {
        Some(name) => name,
        None => "File"@,
    }
}

impl ComposerItem {
    /// A composer entry for `item`, prepared into `uploads`, under a fresh id.
    pub fn new(item: SendItem, uploads: Vec<Upload>) -> (r: ComposerItem)
        ensures
            r.item == item,
            r.uploads == uploads,
            hyphenated_uuid(r.id@),
    {
        ComposerItem { id: new_id(), item, uploads }
    }

    /// The label of the entry: the first line of a text (at most 100
    /// characters, `Text` when there is none), else the file name, else `File`.
    pub fn name(&self) -> (r: String)
        ensures
            self.item matches SendItem::Text(t) ==> r@ == match first_line(t@) {
                Some(line) => take_chars(line, 100),
                None => "Text"@,
            },
            self.item matches SendItem::File(p) ==> r@ == file_label(p),
            self.item matches SendItem::TemporaryFile { path, .. } ==> r@ == file_label(temp_target(path)),
    {
        match &self.item {
            SendItem::Text(text) => {
                let chars = chars_of(text.as_str());
                if chars.len() == 0 {
                    return String::from_str("Text");
                }
                let line_end = match find_char(chars.as_slice(), '\n') {
                    Some(i) => i,
                    None => chars.len(),
                };
                let ghost l = match first_index_of(text@, '\n') {
                    Some(i) => text@.subrange(0, i),
                    None => text@,
                };
                assert(l =~= chars@.subrange(0, line_end as int));
                let end = if line_end > 0 && chars[line_end - 1] == '\r' {
                    line_end - 1
                } else {
                    line_end
                };
                let limit = if end > 100 {
                    100
                } else {
                    end
                };
                let line = slice_chars(chars.as_slice(), 0, limit);
                proof {
                    if l.len() > 0 && l.last() == '\r' {
                        assert(l.drop_last() =~= chars@.subrange(0, end as int));
                    } else {
                        assert(l =~= chars@.subrange(0, end as int));
                    }
                    assert(line@ =~= take_chars(first_line(text@)->0, 100));
                }
                string_of(line.as_slice())
            },
            SendItem::File(path) => match file_name_of(path) {
                Some(name) => name,
                None => String::from_str("File"),
            },
            SendItem::TemporaryFile { .. } => match self.item.path() {
                Some(path) => {
                    let r = match file_name_of(&path) {
                        Some(name) => name,
                        None => String::from_str("File"),
                    };
                    assert(r@ == file_label(path));
                    r
                },
                None => String::from_str("File"),
            },
        }
    }

    /// The total size of the entry's uploads.
    pub fn size(&self) -> (r: u64)
        requires
            uploads_size(self.uploads@) <= u64::MAX,
        ensures
            r == uploads_size(self.uploads@),
    {
        let mut total: u64 = 0;
        let mut i: usize = 0;
        while i < self.uploads.len()
            invariant
                i <= self.uploads.len(),
                uploads_size(self.uploads@) <= u64::MAX,
                total == uploads_size(self.uploads@.subrange(0, i as int)),
            decreases self.uploads.len() - i,
        {
            proof {
                assert(self.uploads@.subrange(0, i + 1).drop_last() =~= self.uploads@.subrange(0, i as int));
                lemma_uploads_size_prefix(self.uploads@, (i + 1) as nat);
            }
            total = total + self.uploads[i].offer.size;
            i += 1;
        }
        assert(self.uploads@.subrange(0, i as int) =~= self.uploads@);
        total
    }

    /// A single image upload.
    pub fn is_image(&self) -> (r: bool)
        ensures
            r == (self.uploads@.len() == 1 && starts_with(self.uploads@[0].offer.mime@, "image/"@)),
    {
        if self.uploads.len() != 1 {
            return false;
        }
        let mime = chars_of(self.uploads[0].offer.mime.as_str());
        let prefix = chars_of("image/");
        starts_with_chars(mime.as_slice(), prefix.as_slice())
    }

    /// A single video upload.
    pub fn is_video(&self) -> (r: bool)
        ensures
            r == (self.uploads@.len() == 1 && starts_with(self.uploads@[0].offer.mime@, "video/"@)),
    {
        if self.uploads.len() != 1 {
            return false;
        }
        let mime = chars_of(self.uploads[0].offer.mime.as_str());
        let prefix = chars_of("video/");
        starts_with_chars(mime.as_slice(), prefix.as_slice())
    }
}

/// A prefix of the uploads is never larger than all of them.
pub proof fn lemma_uploads_size_prefix(u: Seq<Upload>, n: nat)
    requires
        n <= u.len(),
    ensures
        uploads_size(u.subrange(0, n as int)) <= uploads_size(u),
    decreases u.len(),
{
    if n < u.len() {
        lemma_uploads_size_prefix(u.drop_last(), n);
        assert(u.drop_last().subrange(0, n as int) =~= u.subrange(0, n as int));
    } else {
        assert(u.subrange(0, n as int) =~= u);
    }
}

/// Where a transfer stands.
#[derive(Debug, PartialEq, Eq)]
pub enum TransferStatus {
    Active,
    Completed,
    Cancelled,
    Failed(String),
}

impl Clone for TransferStatus {
    fn clone(&self) -> (r: Self)
        ensures
            r == *self,
    {
        match self {
            TransferStatus::Active => TransferStatus::Active,
            TransferStatus::Completed => TransferStatus::Completed,
            TransferStatus::Cancelled => TransferStatus::Cancelled,
            TransferStatus::Failed(error) => TransferStatus::Failed(error.clone()),
        }
    }
}

/// A speed sample: when it was taken and how many bytes had moved by then.
#[derive(Clone, Copy, Debug, PartialEq, Eq, Structural)]
pub struct RateSample {
    pub at: u64,
    pub bytes: u64,
}

/// Transfer speed bookkeeping, on a monotonic clock in nanoseconds.
#[derive(Clone, Copy, Debug, PartialEq, Eq, Structural)]
pub struct TransferRate {
    /// The last sample.
    pub sample: Option<RateSample>,
    /// When the transfer started moving bytes.
    pub started: Option<u64>,
    /// The average over the whole transfer, once it completed.
    pub average: Option<u64>,
    /// The recent speed.
    pub bytes_per_second: u64,
}

/// Bytes per second for `bytes` moved in `elapsed` nanoseconds, rounded down
/// and capped at `u64::MAX`.
pub open spec fn rate_of(bytes: int, elapsed: int) -> u64 {
    let exact = bytes * 1_000_000_000 / elapsed;
    if exact > u64::MAX {
        u64::MAX
    } else {
        exact as u64
    }
}

/// Nanoseconds from `earlier` to `later`, zero when the clock reads earlier.
pub open spec fn elapsed(later: u64, earlier: u64) -> int {
    if later >= earlier {
        later - earlier
    } else {
        0
    }
}

/// The rate after observing `bytes` moved at time `now`: the first
/// observation starts the clock and takes a sample; later observations
/// update the recent speed once at least half a second has passed since the
/// last sample.
pub open spec fn rate_updated(r: TransferRate, bytes: u64, now: u64) -> TransferRate {
    let started = if r.started is None { Some(now) } else { r.started };
    match r.sample {
        None => TransferRate { sample: Some(RateSample { at: now, bytes }), started, ..r },
        Some(last) => {
            let e = elapsed(now, last.at);
            if e >= 500_000_000 {
                TransferRate {
                    sample: Some(RateSample { at: now, bytes }),
                    started,
                    bytes_per_second: rate_of(if bytes >= last.bytes { bytes - last.bytes } else { 0 }, e),
                    ..r
                }
            } else {
                TransferRate { started, ..r }
            }
        },
    }
}

/// The rate once `bytes` have moved in total at time `now`: the average over
/// the time since the start, when some time has passed.
pub open spec fn rate_finished(r: TransferRate, bytes: u64, now: u64) -> TransferRate {
    TransferRate {
        average: match r.started {
            Some(started) => if elapsed(now, started) > 0 {
                Some(rate_of(bytes as int, elapsed(now, started)))
            } else {
                None
            },
            None => None,
        },
        ..r
    }
}

/// `rate_of` computed exactly.
fn compute_rate(bytes: u64, elapsed_nanos: u64) -> (r: u64)
    requires
        elapsed_nanos > 0,
    ensures
        r == rate_of(bytes as int, elapsed_nanos as int),
{
    let scaled: u128 = (bytes as u128) * 1_000_000_000u128;
    assert(scaled == bytes as int * 1_000_000_000);
    let exact: u128 = scaled / (elapsed_nanos as u128);
    if exact > u64::MAX as u128 {
        u64::MAX
    } else {
        exact as u64
    }
}

impl TransferRate {
    /// A rate with nothing observed.
    pub fn new() -> (r: TransferRate)
        ensures
            r == (TransferRate { sample: None, started: None, average: None, bytes_per_second: 0 }),
    {
        TransferRate { sample: None, started: None, average: None, bytes_per_second: 0 }
    }

    /// Records the average over the whole transfer.
    pub fn finish(&mut self, bytes: u64, now: u64)
        ensures
            *final(self) == rate_finished(*old(self), bytes, now),
    {
        self.average = match self.started {
            Some(started) => {
                let e = if now >= started {
                    now - started
                } else {
                    0
                };
                if e > 0 {
                    Some(compute_rate(bytes, e))
                } else {
                    None
                }
            },
            None => None,
        };
    }

    /// Observes that `bytes` have moved by time `now`.
    pub fn update(&mut self, bytes: u64, now: u64)
        ensures
            *final(self) == rate_updated(*old(self), bytes, now),
    {
        if self.started.is_none() {
            self.started = Some(now);
        }
        match self.sample {
            None => {
                self.sample = Some(RateSample { at: now, bytes });
            },
            Some(last) => {
                let e = if now >= last.at {
                    now - last.at
                } else {
                    0
                };
                if e >= 500_000_000 {
                    let moved = if bytes >= last.bytes {
                        bytes - last.bytes
                    } else {
                        0
                    };
                    self.bytes_per_second = compute_rate(moved, e);
                    self.sample = Some(RateSample { at: now, bytes });
                }
            },
        }
    }
}

impl Default for TransferRate {
    fn default() -> (r: TransferRate)
        ensures
            r == (TransferRate { sample: None, started: None, average: None, bytes_per_second: 0 }),
    {
        TransferRate::new()
    }
}

/// One transfer of this session, in either direction.
#[derive(Debug)]
pub struct Transfer {
    pub id: String,
    pub peer: String,
    /// The fingerprint of the peer, when it is known.
    pub peer_id: Option<String>,
    pub sending: bool,
    pub awaiting_acceptance: bool,
    pub files: Vec<OfferedFile>,
    pub transferred: u64,
    pub total: u64,
    pub paths: Vec<std::path::PathBuf>,
    /// The full text of a received text message, once it arrived.
    pub received_text: Option<String>,
    pub status: TransferStatus,
    pub when: WallTime,
    /// The composer entries this transfer sends.
    pub composer_ids: Vec<String>,
    pub rate: TransferRate,
}

impl Transfer {
    /// The average speed of a completed transfer.
    pub fn average_bytes_per_second(&self) -> (r: Option<u64>)
        ensures
            r == self.rate.average,
    {
        self.rate.average
    }

    /// The recent speed.
    pub fn bytes_per_second(&self) -> (r: u64)
        ensures
            r == self.rate.bytes_per_second,
    {
        self.rate.bytes_per_second
    }

    /// A finished transfer read back from history: nothing to accept, no
    /// speed, no composer entries, and all bytes counted when it completed.
    pub fn restored(
        id: String,
        peer: String,
        sending: bool,
        files: Vec<OfferedFile>,
        total: u64,
        paths: Vec<std::path::PathBuf>,
        status: TransferStatus,
        when: WallTime,
    ) -> (r: Transfer)
        ensures
            r.id == id && r.peer == peer && r.sending == sending && r.files == files && r.total
                == total && r.paths == paths && r.status == status && r.when == when,
            r.peer_id is None && !r.awaiting_acceptance && r.composer_ids@.len() == 0,
            r.received_text is None,
            r.transferred == (if status is Completed { total } else { 0 }),
            r.rate == TransferRate::new_spec(),
    {
        let transferred = match status {
            TransferStatus::Completed => total,
            _ => 0,
        };
        Transfer {
            id,
            peer,
            peer_id: None,
            sending,
            awaiting_acceptance: false,
            files,
            transferred,
            total,
            paths,
            received_text: None,
            status,
            when,
            composer_ids: Vec::new(),
            rate: TransferRate::new(),
        }
    }
}

impl TransferRate {
    pub open spec fn new_spec() -> TransferRate {
        TransferRate { sample: None, started: None, average: None, bytes_per_second: 0 }
    }
}

/// A transfer request waiting for the user's decision.
#[derive(Debug)]
pub struct IncomingRequest {
    pub id: String,
    pub peer: Device,
    pub files: Vec<OfferedFile>,
}

/// The state of the application's session.
pub struct AppState {
    pub discovering: bool,
    /// Counts discoveries of devices that were not listed before.
    pub discovery_revision: u64,
    pub devices: Vec<Device>,
    /// The fingerprint of the selected device.
    pub selected: Option<String>,
    pub composer: Vec<ComposerItem>,
    pub transfers: Vec<Transfer>,
    pub incoming: Option<IncomingRequest>,
    pub error: Option<String>,
    /// Fingerprints that discovery reported lost while a transfer kept them listed.
    pub expired_devices: Vec<String>,
    /// The origin of the monotonic clock that transfer speeds use.
    pub origin: std::time::Instant,
}

// ----- what the state means -----

/// A transfer still in progress.
pub open spec fn is_active(t: Transfer) -> bool {
    t.status is Active
}

/// Position of the first device with fingerprint `fp`.
pub open spec fn device_position(devices: Seq<Device>, fp: Seq<char>) -> Option<int> {
    first_where(devices, |d: Device| d.fingerprint@ == fp)
}

/// Position of the first transfer with id `id`.
/// Whether a transfer carries the id `id`.
pub open spec fn has_id(id: Seq<char>) -> spec_fn(Transfer) -> bool {
    |t: Transfer| t.id@ == id
}

pub open spec fn transfer_position(ts: Seq<Transfer>, id: Seq<char>) -> Option<int> {
    first_where(ts, has_id(id))
}

/// Position of the first active transfer with id `id`.
pub open spec fn active_position(ts: Seq<Transfer>, id: Seq<char>) -> Option<int> {
    first_where(ts, |t: Transfer| t.id@ == id && t.status is Active)
}

/// Some device in `devices` has fingerprint `fp`.
pub open spec fn listed(devices: Seq<Device>, fp: Seq<char>) -> bool {
    exists|k: int| 0 <= k < devices.len() && (#[trigger] devices[k]).fingerprint@ == fp
}

/// The transfer is with the peer whose fingerprint is `fp`.
pub open spec fn with_peer(t: Transfer, fp: Seq<char>) -> bool {
    match t.peer_id {
        Some(p) => p@ == fp,
        None => false,
    }
}

/// An active transfer involves the peer with fingerprint `fp`.
pub open spec fn busy_with(ts: Seq<Transfer>, fp: Seq<char>) -> bool {
    exists|k: int| 0 <= k < ts.len() && is_active(#[trigger] ts[k]) && with_peer(ts[k], fp)
}

/// Some string in `v` reads `x`.
pub open spec fn names_in(v: Seq<String>, x: Seq<char>) -> bool {
    exists|k: int| 0 <= k < v.len() && (#[trigger] v[k])@ == x
}

/// A device stays listed unless discovery lost it and no active transfer
/// involves it.
pub open spec fn keeps_device(expired: Seq<String>, ts: Seq<Transfer>, d: Device) -> bool {
    !names_in(expired, d.fingerprint@) || busy_with(ts, d.fingerprint@)
}

/// The selection after the device list changed: kept while it names a listed
/// device, else the first device, else nothing.
pub open spec fn reselect(devices: Seq<Device>, selected: Option<String>) -> Option<String> {
    if (match selected {
        Some(s) => listed(devices, s@),
        None => false,
    }) {
        selected
    } else if devices.len() > 0 {
        Some(devices[0].fingerprint)
    } else {
        None
    }
}

/// The composer entries that remain after a transfer of entries `sent`
/// completed.
pub open spec fn unsent(composer: Seq<ComposerItem>, sent: Seq<String>) -> Seq<ComposerItem> {
    composer.filter(|c: ComposerItem| !names_in(sent, c.id@))
}

/// Session history is bounded: past 100 transfers, the oldest finished one
/// is dropped; active transfers are never dropped.
pub open spec fn trimmed(ts: Seq<Transfer>) -> Seq<Transfer> {
    if ts.len() > 100 {
        match first_where(ts, |t: Transfer| !is_active(t)) {
            Some(i) => ts.remove(i),
            None => ts,
        }
    } else {
        ts
    }
}

/// The offered files of all composer entries, in order.
pub open spec fn composer_files(c: Seq<ComposerItem>) -> Seq<OfferedFile>
    decreases c.len(),
{
    if c.len() == 0 {
        Seq::empty()
    } else {
        composer_files(c.drop_last()) + offers(c.last().uploads@)
    }
}

/// The total size of all composer entries.
pub open spec fn composer_size(c: Seq<ComposerItem>) -> int
    decreases c.len(),
{
    if c.len() == 0 {
        0
    } else {
        composer_size(c.drop_last()) + uploads_size(c.last().uploads@)
    }
}

/// The device that the selection names, if it is listed.
pub open spec fn selected_position(devices: Seq<Device>, selected: Option<String>) -> Option<int> {
    match selected {
        Some(s) => device_position(devices, s@),
        None => None,
    }
}

impl AppState {
    /// The fingerprints that discovery reported lost and that are still listed.
    pub open spec fn expired(&self) -> Seq<Seq<char>> {
        self.expired_devices@.map_values(|s: String| s@)
    }

    /// A fresh session: nothing discovered, selected, composed or transferred.
    pub fn new() -> (r: AppState)
        ensures
            !r.discovering && r.discovery_revision == 0 && r.devices@.len() == 0 && r.selected is None
                && r.composer@.len() == 0 && r.transfers@.len() == 0 && r.incoming is None && r.error is None,
            r.expired().len() == 0,
    {
        AppState {
            discovering: false,
            discovery_revision: 0,
            devices: Vec::new(),
            selected: None,
            composer: Vec::new(),
            transfers: Vec::new(),
            incoming: None,
            error: None,
            expired_devices: Vec::new(),
            origin: instant_now(),
        }
    }
}

impl Default for AppState {
    fn default() -> (r: AppState)
        ensures
            !r.discovering && r.discovery_revision == 0 && r.devices@.len() == 0 && r.selected is None
                && r.composer@.len() == 0 && r.transfers@.len() == 0 && r.incoming is None && r.error is None,
            r.expired().len() == 0,
    {
        AppState::new()
    }
}


// ----- searching -----

/// Whether some string in `v` reads `x`.
pub fn contains_name(v: &Vec<String>, x: &str) -> (r: bool)
    ensures
        r == names_in(v@, x@),
{
    let mut k: usize = 0;
    while k < v.len()
        invariant
            k <= v.len(),
            forall|j: int| 0 <= j < k ==> (#[trigger] v@[j])@ != x@,
        decreases v.len() - k,
    {
        if str_eq(v[k].as_str(), x) {
            return true;
        }
        k += 1;
    }
    false
}

/// Position of the first device with fingerprint `fp`.
fn device_index(devices: &Vec<Device>, fp: &str) -> (r: Option<usize>)
    ensures
        r matches Some(k) ==> device_position(devices@, fp@) == Some(k as int) && k < devices@.len(),
        r is None ==> device_position(devices@, fp@) is None,
{
    let ghost p = |d: Device| d.fingerprint@ == fp@;
    let mut k: usize = 0;
    while k < devices.len()
        invariant
            k <= devices.len(),
            p == (|d: Device| d.fingerprint@ == fp@),
            forall|j: int| 0 <= j < k ==> !p(#[trigger] devices@[j]),
        decreases devices.len() - k,
    {
        if str_eq(devices[k].fingerprint.as_str(), fp) {
            proof {
                lemma_first_where_at(devices@, p, k as int);
            }
            return Some(k);
        }
        k += 1;
    }
    proof {
        lemma_first_where_none(devices@, p);
    }
    None
}

/// Whether some device has fingerprint `fp`.
fn is_listed(devices: &Vec<Device>, fp: &str) -> (r: bool)
    ensures
        r == listed(devices@, fp@),
{
    let mut k: usize = 0;
    while k < devices.len()
        invariant
            k <= devices.len(),
            forall|j: int| 0 <= j < k ==> (#[trigger] devices@[j]).fingerprint@ != fp@,
        decreases devices.len() - k,
    {
        if str_eq(devices[k].fingerprint.as_str(), fp) {
            return true;
        }
        k += 1;
    }
    false
}

/// Position of the first transfer with id `id`.
fn transfer_index(ts: &Vec<Transfer>, id: &str) -> (r: Option<usize>)
    ensures
        r matches Some(k) ==> transfer_position(ts@, id@) == Some(k as int) && k < ts@.len(),
        r is None ==> transfer_position(ts@, id@) is None,
{
    let ghost p = |t: Transfer| t.id@ == id@;
    let mut k: usize = 0;
    while k < ts.len()
        invariant
            k <= ts.len(),
            p == (|t: Transfer| t.id@ == id@),
            forall|j: int| 0 <= j < k ==> !p(#[trigger] ts@[j]),
        decreases ts.len() - k,
    {
        if str_eq(ts[k].id.as_str(), id) {
            proof {
                lemma_first_where_at(ts@, p, k as int);
            }
            return Some(k);
        }
        k += 1;
    }
    proof {
        lemma_first_where_none(ts@, p);
    }
    None
}

/// Position of the first active transfer with id `id`.
fn active_index(ts: &Vec<Transfer>, id: &str) -> (r: Option<usize>)
    ensures
        r matches Some(k) ==> active_position(ts@, id@) == Some(k as int) && k < ts@.len(),
        r is None ==> active_position(ts@, id@) is None,
{
    let ghost p = |t: Transfer| t.id@ == id@ && t.status is Active;
    let mut k: usize = 0;
    while k < ts.len()
        invariant
            k <= ts.len(),
            p == (|t: Transfer| t.id@ == id@ && t.status is Active),
            forall|j: int| 0 <= j < k ==> !p(#[trigger] ts@[j]),
        decreases ts.len() - k,
    {
        if str_eq(ts[k].id.as_str(), id) && matches!(ts[k].status, TransferStatus::Active) {
            proof {
                lemma_first_where_at(ts@, p, k as int);
            }
            return Some(k);
        }
        k += 1;
    }
    proof {
        lemma_first_where_none(ts@, p);
    }
    None
}

/// Whether an active transfer involves the peer with fingerprint `fp`.
fn is_busy_with(ts: &Vec<Transfer>, fp: &str) -> (r: bool)
    ensures
        r == busy_with(ts@, fp@),
{
    let mut k: usize = 0;
    while k < ts.len()
        invariant
            k <= ts.len(),
            forall|j: int| 0 <= j < k ==> !(is_active(#[trigger] ts@[j]) && with_peer(ts@[j], fp@)),
        decreases ts.len() - k,
    {
        let t = &ts[k];
        let hit = match &t.peer_id {
            Some(p) => matches!(t.status, TransferStatus::Active) && str_eq(p.as_str(), fp),
            None => false,
        };
        if hit {
            assert(is_active(ts@[k as int]) && with_peer(ts@[k as int], fp@));
            return true;
        }
        k += 1;
    }
    false
}

// ----- how events change the state -----

/// The device list, selection and lost-device list after unlisting the
/// devices that discovery lost and no active transfer needs.
pub open spec fn pruned(
    devices: Seq<Device>,
    selected: Option<String>,
    expired: Seq<String>,
    transfers: Seq<Transfer>,
    n: AppState,
) -> bool {
    &&& n.devices@ == devices.filter(|d: Device| keeps_device(expired, transfers, d))
    &&& n.selected == reselect(n.devices@, selected)
    &&& n.expired_devices@ == expired.filter(|x: String| listed(n.devices@, x@))
}

/// A device was found: it replaces the listed device with its fingerprint, or
/// joins the list and counts as a new discovery; it is no longer lost; a
/// missing selection falls on the first device.
pub open spec fn found_device(o: AppState, n: AppState, d: Device) -> bool {
    let pos = device_position(o.devices@, d.fingerprint@);
    &&& n.devices@ == match pos {
        Some(i) => o.devices@.update(i, d),
        None => o.devices@.push(d),
    }
    &&& n.discovery_revision == o.discovery_revision + if pos is None { 1int } else { 0int }
    &&& n.selected == if o.selected is None { Some(n.devices@[0].fingerprint) } else { o.selected }
    &&& n.expired_devices@ == o.expired_devices@.filter(|x: String| x@ != d.fingerprint@)
    &&& n.discovering == o.discovering
    &&& n.composer == o.composer
    &&& n.transfers == o.transfers
    &&& n.incoming == o.incoming
    &&& n.error == o.error
    &&& n.origin == o.origin
}

/// The lost-device list with `id` added.
pub open spec fn with_expired(expired: Seq<String>, id: String) -> Seq<String> {
    if names_in(expired, id@) {
        expired
    } else {
        expired.push(id)
    }
}

/// Discovery lost a device: it is unlisted unless an active transfer needs it.
pub open spec fn lost_device(o: AppState, n: AppState, id: String) -> bool {
    &&& pruned(o.devices@, o.selected, with_expired(o.expired_devices@, id), o.transfers@, n)
    &&& n.discovering == o.discovering
    &&& n.discovery_revision == o.discovery_revision
    &&& n.composer == o.composer
    &&& n.transfers == o.transfers
    &&& n.incoming == o.incoming
    &&& n.error == o.error
    &&& n.origin == o.origin
}

/// A transfer that just started.
pub open spec fn fresh_transfer(
    t: Transfer,
    id: String,
    peer: String,
    peer_id: Option<String>,
    sending: bool,
    files: Vec<OfferedFile>,
    total: u64,
    now: Moment,
) -> bool {
    &&& t.id == id && t.peer == peer && t.peer_id == peer_id
    &&& t.sending == sending && t.awaiting_acceptance == sending
    &&& t.files == files && t.total == total && t.transferred == 0
    &&& t.rate == (TransferRate {
        sample: None,
        started: if sending { None } else { Some(now.monotonic) },
        average: None,
        bytes_per_second: 0,
    })
    &&& t.paths@.len() == 0
    &&& t.received_text is None
    &&& t.status is Active
    &&& t.when == now.wall
    &&& t.composer_ids@.len() == 0
}

/// The pending request is the one with id `id`.
pub open spec fn request_is(incoming: Option<IncomingRequest>, id: Seq<char>) -> bool {
    match incoming {
        Some(r) => r.id@ == id,
        None => false,
    }
}

/// A transfer started: the pending request with its id (if any) is settled
/// and names the peer; a known transfer takes the new peer name, files and
/// total, an unknown one is added.
pub open spec fn started_transfer(
    o: AppState,
    n: AppState,
    id: String,
    peer: String,
    sending: bool,
    files: Vec<OfferedFile>,
    total: u64,
    now: Moment,
) -> bool {
    let peer_id = if request_is(o.incoming, id@) {
        Some(o.incoming->0.peer.fingerprint)
    } else {
        None
    };
    &&& n.incoming == if request_is(o.incoming, id@) { None } else { o.incoming }
    &&& match transfer_position(o.transfers@, id@) {
        Some(i) => n.transfers@ == o.transfers@.update(
            i,
            Transfer { peer, files, total, ..o.transfers@[i] },
        ),
        None => {
            &&& n.transfers@.len() == o.transfers@.len() + 1
            &&& n.transfers@.drop_last() == o.transfers@
            &&& fresh_transfer(n.transfers@.last(), id, peer, peer_id, sending, files, total, now)
        },
    }
    &&& n.discovering == o.discovering
    &&& n.discovery_revision == o.discovery_revision
    &&& n.devices == o.devices
    &&& n.selected == o.selected
    &&& n.composer == o.composer
    &&& n.error == o.error
    &&& n.expired_devices == o.expired_devices
    &&& n.origin == o.origin
}

/// The only change is to the active transfer with id `id`, if there is one,
/// which becomes `f` of itself.
pub open spec fn changed_active(o: AppState, n: AppState, id: Seq<char>, f: spec_fn(Transfer) -> Transfer) -> bool {
    &&& match active_position(o.transfers@, id) {
        Some(i) => n.transfers@ == o.transfers@.update(i, f(o.transfers@[i])),
        None => n.transfers@ == o.transfers@,
    }
    &&& n.discovering == o.discovering
    &&& n.discovery_revision == o.discovery_revision
    &&& n.devices == o.devices
    &&& n.selected == o.selected
    &&& n.composer == o.composer
    &&& n.incoming == o.incoming
    &&& n.error == o.error
    &&& n.expired_devices == o.expired_devices
    &&& n.origin == o.origin
}

/// The receiver accepted: the transfer no longer waits, and its clock starts.
pub open spec fn accepted(t: Transfer, now: Moment) -> Transfer {
    Transfer { awaiting_acceptance: false, rate: rate_updated(t.rate, 0, now.monotonic), ..t }
}

/// The full text of a received message arrived.
pub open spec fn with_text(t: Transfer, text: String) -> Transfer {
    Transfer { received_text: Some(text), ..t }
}

/// Progress: the count (capped at the total), the total and the speed.
pub open spec fn progressed(t: Transfer, transferred: u64, total: u64, now: Moment) -> Transfer {
    let x = if transferred <= total { transferred } else { total };
    Transfer { transferred: x, total, rate: rate_updated(t.rate, x, now.monotonic), ..t }
}

/// A transfer ended with `status`: its paths and time are recorded; a
/// completed one counts all its bytes and its average speed.
pub open spec fn ended(t: Transfer, status: TransferStatus, paths: Seq<std::path::PathBuf>, now: Moment, u: Transfer) -> bool {
    let completed = status is Completed;
    &&& u == Transfer {
        transferred: if completed { t.total } else { t.transferred },
        rate: if completed { rate_finished(t.rate, t.total, now.monotonic) } else { t.rate },
        status,
        paths: u.paths,
        when: now.wall,
        ..t
    }
    &&& u.paths@ == paths
}

/// A transfer with id `id` ended with `status` and `paths`: a pending request
/// with its id is settled, the transfer is updated, the entries it sent
/// leave the composer when it completed, and lost devices that it kept
/// listed are unlisted.
pub open spec fn finished_transfer(
    o: AppState,
    n: AppState,
    id: Seq<char>,
    status: TransferStatus,
    paths: Seq<std::path::PathBuf>,
    now: Moment,
) -> bool {
    let pos = transfer_position(o.transfers@, id);
    &&& n.incoming == if request_is(o.incoming, id) { None } else { o.incoming }
    &&& match pos {
        Some(i) => {
            &&& n.transfers@ == o.transfers@.update(i, n.transfers@[i])
            &&& ended(o.transfers@[i], status, paths, now, n.transfers@[i])
            &&& n.composer@ == if status is Completed {
                unsent(o.composer@, o.transfers@[i].composer_ids@)
            } else {
                o.composer@
            }
        },
        None => {
            &&& n.transfers@ == o.transfers@
            &&& n.composer@ == o.composer@
        },
    }
    &&& pruned(o.devices@, o.selected, o.expired_devices@, n.transfers@, n)
    &&& n.discovering == o.discovering
    &&& n.discovery_revision == o.discovery_revision
    &&& n.origin == o.origin
}

/// Only the fields named by the event change.
pub open spec fn unchanged_but_flags(o: AppState, n: AppState) -> bool {
    &&& n.discovery_revision == o.discovery_revision
    &&& n.devices == o.devices
    &&& n.selected == o.selected
    &&& n.composer == o.composer
    &&& n.transfers == o.transfers
    &&& n.expired_devices == o.expired_devices
    &&& n.origin == o.origin
}

/// How one event changes the state, before history is bounded.
pub open spec fn stepped(o: AppState, e: TransferEvent, now: Moment, n: AppState) -> bool {
    match e {
        TransferEvent::DiscoveryActive(active) => {
            &&& n.discovering == active
            &&& unchanged_but_flags(o, n)
            &&& n.incoming == o.incoming
            &&& n.error == o.error
        },
        TransferEvent::DeviceFound(d) => found_device(o, n, d),
        TransferEvent::DeviceLost(id) => lost_device(o, n, id),
        TransferEvent::NetworkError(error) => {
            &&& n.error == Some(error)
            &&& n.discovering == o.discovering
            &&& unchanged_but_flags(o, n)
            &&& n.incoming == o.incoming
        },
        TransferEvent::IncomingRequest { id, peer, files } => {
            &&& n.incoming == Some(IncomingRequest { id, peer, files })
            &&& n.discovering == o.discovering
            &&& unchanged_but_flags(o, n)
            &&& n.error == o.error
        },
        TransferEvent::Started { id, peer, sending, files, total } => started_transfer(
            o,
            n,
            id,
            peer,
            sending,
            files,
            total,
            now,
        ),
        TransferEvent::Accepted { id } => changed_active(o, n, id@, |t: Transfer| accepted(t, now)),
        TransferEvent::Progress { id, transferred, total } => changed_active(
            o,
            n,
            id@,
            |t: Transfer| progressed(t, transferred, total, now),
        ),
        TransferEvent::ReceivedText { id, text } => changed_active(o, n, id@, |t: Transfer| with_text(t, text)),
        TransferEvent::Completed { id, paths } => {
            &&& finished_transfer(o, n, id@, TransferStatus::Completed, paths@, now)
            &&& n.error == o.error
        },
        TransferEvent::Cancelled { id } => {
            &&& finished_transfer(o, n, id@, TransferStatus::Cancelled, Seq::empty(), now)
            &&& n.error == o.error
        },
        TransferEvent::Failed { id, error } => {
            &&& finished_transfer(o, n, id@, TransferStatus::Failed(error), Seq::empty(), now)
            &&& n.error == if transfer_position(o.transfers@, id@) is None {
                Some(error)
            } else {
                o.error
            }
        },
    }
}

/// Bounding session history changes nothing but the transfer list.
pub open spec fn history_trimmed(o: AppState, n: AppState) -> bool {
    &&& n.transfers@ == trimmed(o.transfers@)
    &&& n.discovering == o.discovering
    &&& unchanged_but_flags_except_transfers(o, n)
    &&& n.incoming == o.incoming
    &&& n.error == o.error
}

pub open spec fn unchanged_but_flags_except_transfers(o: AppState, n: AppState) -> bool {
    &&& n.discovery_revision == o.discovery_revision
    &&& n.devices == o.devices
    &&& n.selected == o.selected
    &&& n.composer == o.composer
    &&& n.expired_devices == o.expired_devices
    &&& n.origin == o.origin
}

/// Applying an event: the event's change, then the bound on history.
pub open spec fn applied(o: AppState, e: TransferEvent, now: Moment, n: AppState) -> bool {
    exists|mid: AppState| stepped(o, e, now, mid) && history_trimmed(mid, n)
}


impl AppState {
    /// Unlists the devices that discovery lost and no active transfer needs,
    /// then repairs the selection and forgets lost devices no longer listed.
    fn remove_expired_devices(&mut self)
        ensures
            pruned(old(self).devices@, old(self).selected, old(self).expired_devices@, old(self).transfers@, *final(self)),
            final(self).discovering == old(self).discovering,
            final(self).discovery_revision == old(self).discovery_revision,
            final(self).composer == old(self).composer,
            final(self).transfers == old(self).transfers,
            final(self).incoming == old(self).incoming,
            final(self).error == old(self).error,
            final(self).origin == old(self).origin,
    {
        let ghost keep = |d: Device| keeps_device(self.expired_devices@, self.transfers@, d);
        let mut devices: Vec<Device> = Vec::new();
        let mut i: usize = 0;
        while i < self.devices.len()
            invariant
                i <= self.devices.len(),
                keep == (|d: Device| keeps_device(self.expired_devices@, self.transfers@, d)),
                devices@ == self.devices@.subrange(0, i as int).filter(keep),
            decreases self.devices.len() - i,
        {
            proof {
                lemma_filter_step(self.devices@, keep, i as int);
            }
            let d = &self.devices[i];
            let lost = contains_name(&self.expired_devices, d.fingerprint.as_str());
            let busy = is_busy_with(&self.transfers, d.fingerprint.as_str());
            if !lost || busy {
                devices.push(d.clone());
            }
            i += 1;
        }
        assert(self.devices@.subrange(0, self.devices@.len() as int) =~= self.devices@);
        self.devices = devices;
        let keep_selection = match &self.selected {
            Some(s) => is_listed(&self.devices, s.as_str()),
            None => false,
        };
        if !keep_selection {
            if self.devices.len() > 0 {
                self.selected = Some(self.devices[0].fingerprint.clone());
            } else {
                self.selected = None;
            }
        }
        let ghost still = |x: String| listed(self.devices@, x@);
        let mut expired: Vec<String> = Vec::new();
        let mut k: usize = 0;
        while k < self.expired_devices.len()
            invariant
                k <= self.expired_devices.len(),
                still == (|x: String| listed(self.devices@, x@)),
                expired@ == self.expired_devices@.subrange(0, k as int).filter(still),
            decreases self.expired_devices.len() - k,
        {
            proof {
                lemma_filter_step(self.expired_devices@, still, k as int);
            }
            if is_listed(&self.devices, self.expired_devices[k].as_str()) {
                expired.push(self.expired_devices[k].clone());
            }
            k += 1;
        }
        assert(self.expired_devices@.subrange(0, self.expired_devices@.len() as int) =~= self.expired_devices@);
        self.expired_devices = expired;
    }

    /// A device was found by discovery.
    fn found_device(&mut self, device: Device)
        requires
            old(self).discovery_revision < u64::MAX,
        ensures
            found_device(*old(self), *final(self), device),
    {
        let ghost gone = |x: String| x@ != device.fingerprint@;
        let mut expired: Vec<String> = Vec::new();
        let mut k: usize = 0;
        while k < self.expired_devices.len()
            invariant
                k <= self.expired_devices.len(),
                gone == (|x: String| x@ != device.fingerprint@),
                expired@ == self.expired_devices@.subrange(0, k as int).filter(gone),
            decreases self.expired_devices.len() - k,
        {
            proof {
                lemma_filter_step(self.expired_devices@, gone, k as int);
            }
            if !str_eq(self.expired_devices[k].as_str(), device.fingerprint.as_str()) {
                expired.push(self.expired_devices[k].clone());
            }
            k += 1;
        }
        assert(self.expired_devices@.subrange(0, self.expired_devices@.len() as int) =~= self.expired_devices@);
        self.expired_devices = expired;
        assert(self.devices == old(self).devices);
        match device_index(&self.devices, device.fingerprint.as_str()) {
            Some(i) => {
                self.devices.set(i, device);
                assert(self.devices@ == old(self).devices@.update(i as int, device));
            },
            None => {
                self.discovery_revision = self.discovery_revision + 1;
                self.devices.push(device);
            },
        }
        if self.selected.is_none() {
            self.selected = Some(self.devices[0].fingerprint.clone());
        }
    }

    /// Discovery lost the device with fingerprint `id`.
    fn lost_device(&mut self, id: String)
        ensures
            lost_device(*old(self), *final(self), id),
    {
        if !contains_name(&self.expired_devices, id.as_str()) {
            self.expired_devices.push(id);
        }
        self.remove_expired_devices();
    }

    /// Whether the pending request has id `id`.
    fn request_has_id(&self, id: &str) -> (r: bool)
        ensures
            r == request_is(self.incoming, id@),
    {
        match &self.incoming {
            Some(request) => str_eq(request.id.as_str(), id),
            None => false,
        }
    }

    /// A transfer started.
    fn started(&mut self, id: String, peer: String, sending: bool, files: Vec<OfferedFile>, total: u64, now: Moment)
        ensures
            started_transfer(*old(self), *final(self), id, peer, sending, files, total, now),
    {
        let settles = self.request_has_id(id.as_str());
        let peer_id = match &self.incoming {
            Some(request) => if settles {
                Some(request.peer.fingerprint.clone())
            } else {
                None
            },
            None => None,
        };
        if settles {
            self.incoming = None;
        }
        match transfer_index(&self.transfers, id.as_str()) {
            Some(i) => {
                let mut t = self.transfers.remove(i);
                let ghost before = t;
                t.peer = peer;
                t.files = files;
                t.total = total;
                self.transfers.insert(i, t);
                assert(self.transfers@ =~= old(self).transfers@.update(i as int, Transfer { peer, files, total, ..before }));
            },
            None => {
                let started = if sending {
                    None
                } else {
                    Some(now.monotonic)
                };
                self.transfers.push(
                    Transfer {
                        id,
                        peer,
                        peer_id,
                        sending,
                        awaiting_acceptance: sending,
                        files,
                        transferred: 0,
                        total,
                        paths: Vec::new(),
                        received_text: None,
                        status: TransferStatus::Active,
                        when: now.wall,
                        composer_ids: Vec::new(),
                        rate: TransferRate { sample: None, started, average: None, bytes_per_second: 0 },
                    },
                );
                assert(self.transfers@.drop_last() =~= old(self).transfers@);
            },
        }
    }

    /// The receiver accepted the active transfer `id`.
    fn accepted(&mut self, id: &String, now: Moment)
        ensures
            changed_active(*old(self), *final(self), id@, |t: Transfer| accepted(t, now)),
    {
        match active_index(&self.transfers, id.as_str()) {
            Some(i) => {
                let mut t = self.transfers.remove(i);
                let ghost before = t;
                t.awaiting_acceptance = false;
                t.rate.update(0, now.monotonic);
                self.transfers.insert(i, t);
                assert(self.transfers@ =~= old(self).transfers@.update(i as int, accepted(before, now)));
            },
            None => {},
        }
    }

    /// The full text of the active transfer `id`, a received message, arrived.
    fn received(&mut self, id: &String, text: String)
        ensures
            changed_active(*old(self), *final(self), id@, |t: Transfer| with_text(t, text)),
    {
        match active_index(&self.transfers, id.as_str()) {
            Some(i) => {
                let mut t = self.transfers.remove(i);
                let ghost before = t;
                t.received_text = Some(text);
                self.transfers.insert(i, t);
                assert(self.transfers@ =~= old(self).transfers@.update(i as int, with_text(before, text)));
            },
            None => {},
        }
    }

    /// The active transfer `id` moved `transferred` of `total` bytes.
    fn progressed(&mut self, id: &String, transferred: u64, total: u64, now: Moment)
        ensures
            changed_active(*old(self), *final(self), id@, |t: Transfer| progressed(t, transferred, total, now)),
    {
        match active_index(&self.transfers, id.as_str()) {
            Some(i) => {
                let mut t = self.transfers.remove(i);
                let ghost before = t;
                t.transferred = if transferred <= total {
                    transferred
                } else {
                    total
                };
                t.rate.update(t.transferred, now.monotonic);
                t.total = total;
                self.transfers.insert(i, t);
                assert(self.transfers@ =~= old(self).transfers@.update(i as int, progressed(before, transferred, total, now)));
            },
            None => {},
        }
    }

    /// Removes the composer entries that `sent` names.
    fn remove_sent(&mut self, sent: &Vec<String>)
        ensures
            final(self).composer@ == unsent(old(self).composer@, sent@),
            final(self).discovering == old(self).discovering,
            final(self).discovery_revision == old(self).discovery_revision,
            final(self).devices == old(self).devices,
            final(self).selected == old(self).selected,
            final(self).transfers == old(self).transfers,
            final(self).incoming == old(self).incoming,
            final(self).error == old(self).error,
            final(self).expired_devices == old(self).expired_devices,
            final(self).origin == old(self).origin,
    {
        let ghost p = |c: ComposerItem| !names_in(sent@, c.id@);
        let ghost all = self.composer@;
        let mut rest: Vec<ComposerItem> = Vec::new();
        std::mem::swap(&mut rest, &mut self.composer);
        let mut kept: Vec<ComposerItem> = Vec::new();
        let ghost mut k: int = 0;
        while rest.len() > 0
            invariant
                p == (|c: ComposerItem| !names_in(sent@, c.id@)),
                0 <= k <= all.len(),
                rest@ == all.subrange(k, all.len() as int),
                kept@ == all.subrange(0, k).filter(p),
            decreases rest.len(),
        {
            proof {
                lemma_filter_step(all, p, k);
            }
            let item = rest.remove(0);
            if !contains_name(sent, item.id.as_str()) {
                kept.push(item);
            }
            proof {
                k = k + 1;
            }
        }
        assert(all.subrange(0, all.len() as int) =~= all);
        self.composer = kept;
    }

    /// The transfer `id` ended with `status`.
    fn finish(&mut self, id: &String, status: TransferStatus, paths: Vec<std::path::PathBuf>, now: Moment)
        ensures
            finished_transfer(*old(self), *final(self), id@, status, paths@, now),
            final(self).error == old(self).error,
    {
        if self.request_has_id(id.as_str()) {
            self.incoming = None;
        }
        let ghost after_request = *self;
        match transfer_index(&self.transfers, id.as_str()) {
            Some(i) => {
                let mut t = self.transfers.remove(i);
                let ghost before = t;
                let completed = matches!(status, TransferStatus::Completed);
                if completed {
                    t.transferred = t.total;
                    t.rate.finish(t.total, now.monotonic);
                    self.remove_sent(&t.composer_ids);
                }
                t.status = status;
                t.paths = paths;
                t.when = now.wall;
                self.transfers.insert(i, t);
                assert(self.transfers@ =~= old(self).transfers@.update(i as int, self.transfers@[i as int]));
            },
            None => {},
        }
        self.remove_expired_devices();
    }

    /// Bounds session history: past 100 transfers, the oldest finished one is
    /// dropped.
    pub fn trim_history(&mut self)
        ensures
            history_trimmed(*old(self), *final(self)),
    {
        if self.transfers.len() > 100 {
            let ghost p = |t: Transfer| !is_active(t);
            let mut k: usize = 0;
            let mut found = false;
            while k < self.transfers.len() && !found
                invariant
                    k <= self.transfers.len(),
                    p == (|t: Transfer| !is_active(t)),
                    forall|j: int| 0 <= j < k ==> !p(#[trigger] self.transfers@[j]),
                    found ==> k < self.transfers.len() && p(self.transfers@[k as int]),
                decreases self.transfers.len() - k + (if found { 0int } else { 1int }),
            {
                if !matches!(self.transfers[k].status, TransferStatus::Active) {
                    found = true;
                } else {
                    k += 1;
                }
            }
            if found {
                proof {
                    lemma_first_where_at(self.transfers@, p, k as int);
                }
                self.transfers.remove(k);
            } else {
                proof {
                    lemma_first_where_none(self.transfers@, p);
                }
            }
        }
    }

    /// Applies the change that `event` stands for, observed at `now`, before
    /// history is bounded.
    pub fn apply_event(&mut self, event: TransferEvent, now: Moment)
        requires
            event is DeviceFound ==> old(self).discovery_revision < u64::MAX,
        ensures
            stepped(*old(self), event, now, *final(self)),
    {
        match event {
            TransferEvent::DiscoveryActive(active) => {
                self.discovering = active;
            },
            TransferEvent::DeviceFound(device) => {
                self.found_device(device);
            },
            TransferEvent::DeviceLost(id) => {
                self.lost_device(id);
            },
            TransferEvent::NetworkError(error) => {
                self.error = Some(error);
            },
            TransferEvent::IncomingRequest { id, peer, files } => {
                self.incoming = Some(IncomingRequest { id, peer, files });
            },
            TransferEvent::Started { id, peer, sending, files, total } => {
                self.started(id, peer, sending, files, total, now);
            },
            TransferEvent::Accepted { id } => {
                self.accepted(&id, now);
            },
            TransferEvent::Progress { id, transferred, total } => {
                self.progressed(&id, transferred, total, now);
            },
            TransferEvent::ReceivedText { id, text } => {
                self.received(&id, text);
            },
            TransferEvent::Completed { id, paths } => {
                self.finish(&id, TransferStatus::Completed, paths, now);
            },
            TransferEvent::Cancelled { id } => {
                self.finish(&id, TransferStatus::Cancelled, Vec::new(), now);
            },
            TransferEvent::Failed { id, error } => {
                if transfer_index(&self.transfers, id.as_str()).is_none() {
                    self.error = Some(error.clone());
                }
                let ghost noted = self.error;
                self.finish(&id, TransferStatus::Failed(error), Vec::new(), now);
            },
        }
    }

    /// Applies `event`, observed at `now`: its change, then the bound on
    /// session history.
    pub fn apply_at(&mut self, event: TransferEvent, now: Moment)
        requires
            event is DeviceFound ==> old(self).discovery_revision < u64::MAX,
        ensures
            applied(*old(self), event, now, *final(self)),
    {
        self.apply_event(event, now);
        let ghost mid = *self;
        self.trim_history();
        assert(stepped(*old(self), event, now, mid) && history_trimmed(mid, *self));
    }

    /// Applies `event` at the current time.
    pub fn apply(&mut self, event: TransferEvent)
        requires
            event is DeviceFound ==> old(self).discovery_revision < u64::MAX,
        ensures
            exists|now: Moment| applied(*old(self), event, now, *final(self)),
    {
        let now = moment(&self.origin);
        self.apply_at(event, now);
    }
}


/// The selection after moving `delta` places through the device list, wrapping
/// around at either end; from the first device when nothing listed is selected.
pub open spec fn navigated(devices: Seq<Device>, selected: Option<String>, delta: int) -> Option<String> {
    if devices.len() == 0 {
        None
    } else {
        let index = match selected_position(devices, selected) {
            Some(i) => i,
            None => 0,
        };
        Some(devices[(index + delta) % (devices.len() as int)].fingerprint)
    }
}

/// A transfer to the selected device of everything in the composer.
pub open spec fn tracked_send(o: AppState, t: Transfer, id: String, now: Moment) -> bool {
    &&& t.id == id
    &&& t.peer@ == match selected_position(o.devices@, o.selected) {
        Some(i) => o.devices@[i].alias@,
        None => Seq::empty(),
    }
    &&& t.peer_id == o.selected
    &&& t.sending && t.awaiting_acceptance
    &&& t.files@ == composer_files(o.composer@)
    &&& t.transferred == 0
    &&& t.total == composer_size(o.composer@)
    &&& t.rate == TransferRate::new_spec()
    &&& t.paths@.len() == 0
    &&& t.received_text is None
    &&& t.status is Active
    &&& t.when == now.wall
    &&& t.composer_ids@ == o.composer@.map_values(|c: ComposerItem| c.id)
}

proof fn lemma_mod_step(index: int, delta: int, n: int)
    requires
        0 <= index < n,
    ensures
        delta >= 0 ==> (index + delta % n) % n == (index + delta) % n,
        delta < 0 ==> (index + n - (-delta) % n) % n == (index + delta) % n,
{
    vstd::arithmetic::div_mod::lemma_small_mod(index as nat, n as nat);
    vstd::arithmetic::div_mod::lemma_add_mod_noop(index, delta, n);
    vstd::arithmetic::div_mod::lemma_mod_twice(delta, n);
    if delta < 0 {
        vstd::arithmetic::div_mod::lemma_sub_mod_noop(index + n, -delta, n);
        vstd::arithmetic::div_mod::lemma_mod_add_multiples_vanish(index, n);
        vstd::arithmetic::div_mod::lemma_mod_add_multiples_vanish(index + delta, n);
        vstd::arithmetic::div_mod::lemma_mod_add_multiples_vanish(index - (-delta) % n, n);
        assert(n + index == index + n);
        assert(n + (index + delta) == index + n + delta);
        assert(n + (index - (-delta) % n) == index + n - (-delta) % n);
    }
}

impl AppState {
    /// Forgets finished transfers; active ones stay.
    pub fn clear_transfer_history(&mut self)
        ensures
            final(self).transfers@ == old(self).transfers@.filter(|t: Transfer| is_active(t)),
            final(self).discovering == old(self).discovering,
            unchanged_but_flags_except_transfers(*old(self), *final(self)),
            final(self).incoming == old(self).incoming,
            final(self).error == old(self).error,
    {
        let ghost p = |t: Transfer| is_active(t);
        let ghost all = self.transfers@;
        let mut rest: Vec<Transfer> = Vec::new();
        std::mem::swap(&mut rest, &mut self.transfers);
        let mut kept: Vec<Transfer> = Vec::new();
        let ghost mut k: int = 0;
        while rest.len() > 0
            invariant
                p == (|t: Transfer| is_active(t)),
                0 <= k <= all.len(),
                rest@ == all.subrange(k, all.len() as int),
                kept@ == all.subrange(0, k).filter(p),
            decreases rest.len(),
        {
            proof {
                lemma_filter_step(all, p, k);
            }
            let t = rest.remove(0);
            if matches!(t.status, TransferStatus::Active) {
                kept.push(t);
            }
            proof {
                k = k + 1;
            }
        }
        assert(all.subrange(0, all.len() as int) =~= all);
        self.transfers = kept;
    }

    /// The selected device, if it is listed.
    pub fn selected_device(&self) -> (r: Option<&Device>)
        ensures
            match selected_position(self.devices@, self.selected) {
                Some(i) => r == Some(&self.devices@[i]),
                None => r is None,
            },
    {
        match &self.selected {
            Some(s) => match device_index(&self.devices, s.as_str()) {
                Some(i) => Some(&self.devices[i]),
                None => None,
            },
            None => None,
        }
    }

    /// Whether a send is in progress.
    pub fn sending(&self) -> (r: bool)
        ensures
            r == exists|k: int| 0 <= k < self.transfers@.len() && (#[trigger] self.transfers@[k]).sending
                && is_active(self.transfers@[k]),
    {
        let mut k: usize = 0;
        while k < self.transfers.len()
            invariant
                k <= self.transfers.len(),
                forall|j: int| 0 <= j < k ==> !((#[trigger] self.transfers@[j]).sending && is_active(self.transfers@[j])),
            decreases self.transfers.len() - k,
        {
            if self.transfers[k].sending && matches!(self.transfers[k].status, TransferStatus::Active) {
                return true;
            }
            k += 1;
        }
        false
    }

    /// Moves the selection `delta` places through the device list, wrapping
    /// around at either end.
    pub fn navigate(&mut self, delta: isize)
        ensures
            final(self).selected == navigated(old(self).devices@, old(self).selected, delta as int),
            final(self).discovering == old(self).discovering,
            final(self).discovery_revision == old(self).discovery_revision,
            final(self).devices == old(self).devices,
            final(self).composer == old(self).composer,
            final(self).transfers == old(self).transfers,
            final(self).incoming == old(self).incoming,
            final(self).error == old(self).error,
            final(self).expired_devices == old(self).expired_devices,
            final(self).origin == old(self).origin,
    {
        if self.devices.len() == 0 {
            self.selected = None;
            return;
        }
        let index: usize = match &self.selected {
            Some(s) => match device_index(&self.devices, s.as_str()) {
                Some(i) => i,
                None => 0,
            },
            None => 0,
        };
        let n: u128 = self.devices.len() as u128;
        let target: u128 = if delta >= 0 {
            (index as u128 + (delta as u128) % n) % n
        } else {
            let back: u128 = ((-(delta as i128)) as u128) % n;
            (index as u128 + n - back) % n
        };
        proof {
            lemma_mod_step(index as int, delta as int, n as int);
        }
        let t = target as usize;
        self.selected = Some(self.devices[t].fingerprint.clone());
    }

    /// Records a send of everything in the composer to the selected device,
    /// started at `now`, under id `id`.
    pub fn track_send_at(&mut self, id: String, now: Moment)
        requires
            composer_size(old(self).composer@) <= u64::MAX,
        ensures
            final(self).transfers@ == old(self).transfers@.push(final(self).transfers@.last()),
            tracked_send(*old(self), final(self).transfers@.last(), id, now),
            final(self).discovering == old(self).discovering,
            final(self).discovery_revision == old(self).discovery_revision,
            final(self).devices == old(self).devices,
            final(self).selected == old(self).selected,
            final(self).composer == old(self).composer,
            final(self).incoming == old(self).incoming,
            final(self).error == old(self).error,
            final(self).expired_devices == old(self).expired_devices,
            final(self).origin == old(self).origin,
    {
        let peer = match self.selected_device() {
            Some(device) => device.alias.clone(),
            None => String::new(),
        };
        let mut files: Vec<OfferedFile> = Vec::new();
        let mut ids: Vec<String> = Vec::new();
        let mut total: u64 = 0;
        let mut i: usize = 0;
        while i < self.composer.len()
            invariant
                i <= self.composer.len(),
                composer_size(self.composer@) <= u64::MAX,
                files@ == composer_files(self.composer@.subrange(0, i as int)),
                total == composer_size(self.composer@.subrange(0, i as int)),
                ids@ == self.composer@.subrange(0, i as int).map_values(|c: ComposerItem| c.id),
            decreases self.composer.len() - i,
        {
            let item = &self.composer[i];
            proof {
                let s = self.composer@.subrange(0, i + 1);
                assert(s.drop_last() =~= self.composer@.subrange(0, i as int));
                lemma_composer_size_prefix(self.composer@, (i + 1) as nat);
                lemma_uploads_size_nonneg(item.uploads@);
            }
            let mut k: usize = 0;
            let ghost before = files@;
            while k < item.uploads.len()
                invariant
                    k <= item.uploads.len(),
                    files@ == before + offers(item.uploads@.subrange(0, k as int)),
                decreases item.uploads.len() - k,
            {
                files.push(item.uploads[k].offer.clone());
                k += 1;
                assert(offers(item.uploads@.subrange(0, k as int)) =~= offers(item.uploads@.subrange(0, k - 1)).push(item.uploads@[k - 1].offer));
            }
            assert(item.uploads@.subrange(0, item.uploads@.len() as int) =~= item.uploads@);
            let size = item.size();
            total = total + size;
            ids.push(item.id.clone());
            i += 1;
            assert(self.composer@.subrange(0, i as int).map_values(|c: ComposerItem| c.id) =~= self.composer@.subrange(0, i - 1).map_values(|c: ComposerItem| c.id).push(item.id));
        }
        assert(self.composer@.subrange(0, i as int) =~= self.composer@);
        let selected = match &self.selected {
            Some(s) => Some(s.clone()),
            None => None,
        };
        self.transfers.push(
            Transfer {
                id,
                peer,
                peer_id: selected,
                sending: true,
                awaiting_acceptance: true,
                files,
                transferred: 0,
                total,
                paths: Vec::new(),
                received_text: None,
                status: TransferStatus::Active,
                when: now.wall,
                composer_ids: ids,
                rate: TransferRate::new(),
            },
        );
    }

    /// Records a send of everything in the composer to the selected device,
    /// started now.
    pub fn track_send(&mut self, id: String)
        requires
            composer_size(old(self).composer@) <= u64::MAX,
        ensures
            final(self).transfers@ == old(self).transfers@.push(final(self).transfers@.last()),
            exists|now: Moment| tracked_send(*old(self), final(self).transfers@.last(), id, now),
            final(self).discovering == old(self).discovering,
            final(self).discovery_revision == old(self).discovery_revision,
            final(self).devices == old(self).devices,
            final(self).selected == old(self).selected,
            final(self).composer == old(self).composer,
            final(self).incoming == old(self).incoming,
            final(self).error == old(self).error,
            final(self).expired_devices == old(self).expired_devices,
            final(self).origin == old(self).origin,
    {
        let now = moment(&self.origin);
        self.track_send_at(id, now);
    }
}

/// Upload sizes are never negative.
proof fn lemma_uploads_size_nonneg(u: Seq<Upload>)
    ensures
        uploads_size(u) >= 0,
    decreases u.len(),
{
    if u.len() > 0 {
        lemma_uploads_size_nonneg(u.drop_last());
    }
}

/// A prefix of the composer is never larger than all of it.
proof fn lemma_composer_size_prefix(c: Seq<ComposerItem>, n: nat)
    requires
        n <= c.len(),
    ensures
        composer_size(c.subrange(0, n as int)) <= composer_size(c),
        composer_size(c.subrange(0, n as int)) >= 0,
    decreases c.len(),
{
    if n < c.len() {
        lemma_composer_size_prefix(c.drop_last(), n);
        assert(c.drop_last().subrange(0, n as int) =~= c.subrange(0, n as int));
        lemma_uploads_size_nonneg(c.last().uploads@);
    } else {
        assert(c.subrange(0, n as int) =~= c);
        lemma_composer_size_nonneg(c);
    }
}

proof fn lemma_composer_size_nonneg(c: Seq<ComposerItem>)
    ensures
        composer_size(c) >= 0,
    decreases c.len(),
{
    if c.len() > 0 {
        lemma_composer_size_nonneg(c.drop_last());
        lemma_uploads_size_nonneg(c.last().uploads@);
    }
}

} // verus!
