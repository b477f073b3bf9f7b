//! Policy of the network node: its configuration, which transfer requests it
//! accepts, which subnets it probes, and which discovery results it publishes.
use vstd::prelude::*;
use super::receive::{relative_path, relative_path_ok, path_error_of, PathError};
use crate::text::{chars_of, string_of, slice_chars, extend_chars, decimal, decimal_chars, trim, trim_chars, split_on, split_chars, views, ascii_lowercase, to_ascii_lowercase, str_eq};

verus! {

/// The port LocalSend peers listen on.
pub const DEFAULT_PORT: u16 = 53317;

/// How the node presents itself and where it stores received files.
#[derive(Debug)]
pub struct NodeConfig {
    pub alias: String,
    pub port: u16,
    pub downloads: std::path::PathBuf,
    pub discovery: bool,
}

/// Why the node cannot be configured.
#[derive(Clone, Copy, Debug, PartialEq, Eq, Structural)]
pub enum ConfigError {
    DownloadsMissing,
}

impl ConfigError {
    pub fn message(&self) -> (r: String)
        ensures
            r@ == "Cannot locate your Downloads folder"@,
    {
        String::from_str("Cannot locate your Downloads folder")
    }
}

/// `gethostname::gethostname`, rendered with `to_string_lossy`. The host name
/// depends on the machine; nothing is promised of it.
#[verifier::external_body]
fn host_name() -> String {
    gethostname::gethostname().to_string_lossy().into_owned()
}

/// `dirs::download_dir`: the user's Downloads folder, where the platform
/// names one. It depends on the environment; nothing is promised of it.
#[verifier::external_body]
fn download_dir() -> Option<std::path::PathBuf> {
    dirs::download_dir()
}

/// `dirs::home_dir`. It depends on the environment; nothing is promised of it.
#[verifier::external_body]
fn home_dir() -> Option<std::path::PathBuf> {
    dirs::home_dir()
}

/// The path `Path::join` makes of `base` and `part`.
pub uninterp spec fn joined(base: std::path::PathBuf, part: Seq<char>) -> std::path::PathBuf;

/// `Path::join`: the path `part` names relative to `base`, a function of the
/// two alone.
#[verifier::external_body]
fn join_path(base: &std::path::PathBuf, part: &str) -> (r: std::path::PathBuf)
    ensures
        r == joined(*base, part@),
{
    base.join(part)
}

/// The name shown to peers for a machine whose host name is `host`: the host
/// name without surrounding white space, or `OmaSend` when nothing is left.
pub open spec fn alias_for(host: Seq<char>) -> Seq<char> {
    if trim(host).len() == 0 {
        "OmaSend"@
    } else {
        trim(host)
    }
}

/// The alias for a machine with host name `host`.
pub fn alias_from_host(host: &str) -> (r: String)
    ensures
        r@ == alias_for(host@),
{
    let chars = chars_of(host);
    let trimmed = trim_chars(chars.as_slice());
    if trimmed.len() == 0 {
        String::from_str("OmaSend")
    } else {
        string_of(trimmed.as_slice())
    }
}

/// This machine's alias, derived from its host name.
pub fn machine_name() -> (r: String)
    ensures
        exists|host: Seq<char>| r@ == alias_for(host),
{
    let host = host_name();
    alias_from_host(host.as_str())
}

/// Where received files go, given the platform's Downloads folder
/// (`download`) and the home folder (`home`): the Downloads folder where
/// there is one, else `Downloads` in the home folder, else nowhere.
pub fn downloads_from(download: Option<std::path::PathBuf>, home: Option<std::path::PathBuf>) -> (r: Result<
    std::path::PathBuf,
    ConfigError,
>)
    ensures
        download matches Some(p) ==> r == Ok::<std::path::PathBuf, ConfigError>(p),
        download is None ==> (r is Ok <==> home is Some),
        download is None ==> (home matches Some(h) ==> r == Ok::<std::path::PathBuf, ConfigError>(
            joined(h, "Downloads"@),
        )),
{
    match download {
        Some(path) => Ok(path),
        None => match home {
            Some(home) => Ok(join_path(&home, "Downloads")),
            None => Err(ConfigError::DownloadsMissing),
        },
    }
}

/// Where received files go: the platform's Downloads folder, else
/// `Downloads` in the home folder. Both folders come from the environment;
/// `downloads_from` says what is made of them.
pub fn downloads_directory() -> (r: Result<std::path::PathBuf, ConfigError>) {
    let download = download_dir();
    let home = if download.is_none() {
        home_dir()
    } else {
        None
    };
    downloads_from(download, home)
}

impl NodeConfig {
    /// The configuration of a desktop node: this machine's alias, the
    /// default port, the Downloads folder, and discovery switched on.
    pub fn desktop() -> (r: Result<NodeConfig, ConfigError>)
        ensures
            r matches Ok(c) ==> (c.port == DEFAULT_PORT && c.discovery && exists|host: Seq<char>|
                c.alias@ == alias_for(host)),
    {
        let alias = machine_name();
        let downloads = match downloads_directory() {
            Ok(path) => path,
            Err(error) => return Err(error),
        };
        Ok(NodeConfig { alias, port: DEFAULT_PORT, downloads, discovery: true })
    }
}

/// One file of an incoming offer as the protocol delivers it: the key it is
/// filed under, the id it carries, its name, size and media type.
#[derive(Debug)]
pub struct OfferEntry {
    pub key: String,
    pub id: String,
    pub file_name: String,
    pub size: u64,
    pub file_type: String,
}

/// Why an incoming request is declined.
#[derive(Clone, Copy, Debug, PartialEq, Eq, Structural)]
pub enum OfferError {
    FileCount,
    IdMismatch,
    Path(PathError),
    TooLarge,
    Unencrypted,
}

impl OfferError {
    /// The message shown for this refusal.
    pub fn message(&self) -> (r: String)
        ensures
            r@ == offer_error_text(*self),
    {
        match self {
            OfferError::FileCount => String::from_str("Offer must contain between 1 and 10,000 files"),
            OfferError::IdMismatch => String::from_str("File ID does not match its metadata"),
            OfferError::Path(error) => error.message(),
            OfferError::TooLarge => String::from_str("Transfer is too large"),
            OfferError::Unencrypted => String::from_str("An encrypted connection is required"),
        }
    }
}

/// The message of each refusal.
pub open spec fn offer_error_text(e: OfferError) -> Seq<char> {
    match e {
        OfferError::FileCount => "Offer must contain between 1 and 10,000 files"@,
        OfferError::IdMismatch => "File ID does not match its metadata"@,
        OfferError::Path(PathError::InvalidName) => "Invalid file name"@,
        OfferError::Path(PathError::UnsafePath) => "Unsafe relative file path"@,
        OfferError::TooLarge => "Transfer is too large"@,
        OfferError::Unencrypted => "An encrypted connection is required"@,
    }
}

/// The outcome of checking the entries from position `k` on, with `total`
/// bytes counted before them.
pub open spec fn scan_offer(entries: Seq<OfferEntry>, k: nat, total: int) -> Result<(), OfferError>
    decreases entries.len() - k,
{
    if k >= entries.len() {
        Ok(())
    } else {
        let e = entries[k as int];
        if e.key@ != e.id@ {
            Err(OfferError::IdMismatch)
        } else if !relative_path_ok(e.file_name@) {
            Err(OfferError::Path(path_error_of(e.file_name@)))
        } else if total + e.size > u64::MAX {
            Err(OfferError::TooLarge)
        } else {
            scan_offer(entries, k + 1, total + e.size)
        }
    }
}

/// The verdict on an incoming offer: between 1 and 10,000 files, each filed
/// under its own id, each with a safe relative name, and a total size that
/// fits in a `u64`; the first entry that fails decides the refusal.
pub open spec fn offer_verdict(entries: Seq<OfferEntry>) -> Result<(), OfferError> {
    if entries.len() == 0 || entries.len() > 10_000 {
        Err(OfferError::FileCount)
    } else {
        scan_offer(entries, 0, 0)
    }
}

/// Checks an incoming offer, entry by entry in the order given.
pub fn validate_offer(entries: &Vec<OfferEntry>) -> (r: Result<(), OfferError>)
    ensures
        r == offer_verdict(entries@),
{
    if entries.len() == 0 || entries.len() > 10_000 {
        return Err(OfferError::FileCount);
    }
    let mut total: u64 = 0;
    let mut k: usize = 0;
    while k < entries.len()
        invariant
            k <= entries.len(),
            0 < entries.len() <= 10_000,
            offer_verdict(entries@) == scan_offer(entries@, k as nat, total as int),
        decreases entries.len() - k,
    {
        let e = &entries[k];
        if !str_eq(e.key.as_str(), e.id.as_str()) {
            return Err(OfferError::IdMismatch);
        }
        match relative_path(e.file_name.as_str()) {
            Err(error) => return Err(OfferError::Path(error)),
            Ok(_) => {},
        }
        if e.size > u64::MAX - total {
            return Err(OfferError::TooLarge);
        }
        total = total + e.size;
        k += 1;
    }
    Ok(())
}

/// The verdict on a transfer request: the offer's own, then a refusal of a
/// connection that is not encrypted.
pub open spec fn request_verdict(entries: Seq<OfferEntry>, encrypted: bool) -> Result<(), OfferError> {
    match offer_verdict(entries) {
        Err(e) => Err(e),
        Ok(()) => if encrypted {
            Ok(())
        } else {
            Err(OfferError::Unencrypted)
        },
    }
}

/// Checks a transfer request: the offer itself, then that it arrived over an
/// encrypted connection.
pub fn check_request(entries: &Vec<OfferEntry>, encrypted: bool) -> (r: Result<(), OfferError>)
    ensures
        r == request_verdict(entries@, encrypted),
{
    match validate_offer(entries) {
        Err(error) => Err(error),
        Ok(()) => if encrypted {
            Ok(())
        } else {
            Err(OfferError::Unencrypted)
        },
    }
}

/// An IPv4 address in a private range: 10/8, 172.16/12 or 192.168/16
/// (`Ipv4Addr::is_private`).
pub open spec fn is_private(ip: u32) -> bool {
    ||| (ip >> 24u32) == 10
    ||| (ip >> 20u32) == 0xac1
    ||| (ip >> 16u32) == 0xc0a8
}

/// The netmask with `p` leading one bits.
pub open spec fn prefix_mask(p: u32) -> u32 {
    if p == 0 {
        0
    } else {
        (0xffff_ffffu32 << ((32 - p) as u32)) as u32
    }
}

/// `mask` is a netmask of at most 24 bits.
pub open spec fn small_prefix(mask: u32) -> bool {
    exists|p: u32| p <= 24 && mask == #[trigger] prefix_mask(p)
}

/// The mask that bounds probing: the interface's own mask from /22 to /24,
/// the interface's own /24 on larger networks.
pub open spec fn probe_mask(mask: u32) -> u32 {
    if mask >= 0xffff_fc00 {
        mask
    } else {
        0xffff_ff00
    }
}

/// Whether an interface address with this mask is worth probing at all: a
/// private address on a network of at most 24 bits, neither the network nor
/// the broadcast address.
pub open spec fn probes_subnets(ip: u32, mask: u32) -> bool {
    &&& is_private(ip)
    &&& small_prefix(mask)
    &&& (ip & !mask) != 0
    &&& (ip & !mask) != !mask
}

/// How many /24 subnets the probe covers.
pub open spec fn probe_count(mask: u32) -> nat {
    ((!probe_mask(mask)) as nat + 1) / 256
}

/// The `k`-th probe target: each /24 by its network address, except the
/// interface's own /24, which is probed through the interface address.
pub open spec fn probe_target(ip: u32, mask: u32, k: int) -> u32 {
    let subnet = ((ip & probe_mask(mask)) + k * 256) as u32;
    if (ip & 0xffff_ff00) == subnet {
        ip
    } else {
        subnet
    }
}

/// The addresses to probe for peers that multicast misses, for an interface
/// with address `ip` and netmask `mask` (both as big-endian numbers): every
/// /24 of a network up to /22, or only the interface's own /24 on larger
/// networks; nothing for public addresses, masks longer than /24, or the
/// network and broadcast addresses themselves.
pub fn scan_targets(ip: u32, mask: u32) -> (r: Vec<u32>)
    ensures
        !probes_subnets(ip, mask) ==> r@.len() == 0,
        probes_subnets(ip, mask) ==> r@.len() == probe_count(mask) && forall|k: int|
            0 <= k < r@.len() ==> #[trigger] r@[k] == probe_target(ip, mask, k),
{
    let private = (ip >> 24u32) == 10 || (ip >> 20u32) == 0xac1 || (ip >> 16u32) == 0xc0a8;
    if !private {
        return Vec::new();
    }
    let mut p: u32 = 0;
    let mut found = false;
    while p <= 24 && !found
        invariant
            p <= 25,
            found ==> p <= 24,
            found ==> small_prefix(mask),
            !found ==> forall|q: u32| q < p ==> mask != #[trigger] prefix_mask(q),
        decreases 50 - 2 * p - (if found { 1int } else { 0int }),
    {
        if mask == prefix_mask_of(p) {
            assert(mask == prefix_mask(p));
            found = true;
        } else {
            p += 1;
        }
    }
    if !found {
        assert forall|q: u32| q <= 24 implies mask != #[trigger] prefix_mask(q) by {
            assert(q < p);
        }
        return Vec::new();
    }
    let host = ip & !mask;
    if host == 0 || host == !mask {
        return Vec::new();
    }
    let effective = if mask >= 0xffff_fc00 {
        mask
    } else {
        0xffff_ff00u32
    };
    let base = ip & effective;
    proof {
        lemma_probe_bounds(ip, mask);
    }
    let count: u32 = ((!effective) / 256) + 1;
    assert(count as nat == probe_count(mask));
    let mut r: Vec<u32> = Vec::new();
    let mut k: u32 = 0;
    while k < count
        invariant
            k <= count,
            count as nat == probe_count(mask),
            base == ip & probe_mask(mask),
            base as int + (count - 1) * 256 <= u32::MAX,
            r@.len() == k,
            forall|j: int| 0 <= j < k ==> #[trigger] r@[j] == probe_target(ip, mask, j),
        decreases count - k,
    {
        let subnet = base + k * 256;
        if (ip & 0xffff_ff00u32) == subnet {
            r.push(ip);
        } else {
            r.push(subnet);
        }
        k += 1;
    }
    r
}

/// `prefix_mask` computed.
fn prefix_mask_of(p: u32) -> (r: u32)
    requires
        p <= 32,
    ensures
        r == prefix_mask(p),
{
    if p == 0 {
        0
    } else {
        0xffff_ffffu32 << (32 - p)
    }
}

/// The probing mask is one of three, and the probed subnets stay within the
/// 32-bit address space.
proof fn lemma_probe_bounds(ip: u32, mask: u32)
    requires
        small_prefix(mask),
    ensures
        (probe_mask(mask) == 0xffff_ff00u32 && !probe_mask(mask) == 255u32) || (probe_mask(mask)
            == 0xffff_fe00u32 && !probe_mask(mask) == 511u32) || (probe_mask(mask) == 0xffff_fc00u32
            && !probe_mask(mask) == 1023u32),
        (ip & probe_mask(mask)) as int + (!probe_mask(mask)) as int <= u32::MAX,
{
    let p = choose|p: u32| p <= 24 && mask == #[trigger] prefix_mask(p);
    let e = probe_mask(mask);
    let shifted = if p == 0 { 0u32 } else { (0xffff_ffffu32 << ((32 - p) as u32)) as u32 };
    assert(mask == shifted);
    assert(e == (if mask >= 0xffff_fc00u32 { mask } else { 0xffff_ff00u32 }));
    assert((e == 0xffff_ff00u32 && !e == 255u32) || (e == 0xffff_fe00u32 && !e == 511u32) || (e
        == 0xffff_fc00u32 && !e == 1023u32)) by (bit_vector)
        requires
            p <= 24,
            mask == (if p == 0 { 0u32 } else { (0xffff_ffffu32 << ((32 - p) as u32)) as u32 }),
            e == (if mask >= 0xffff_fc00u32 { mask } else { 0xffff_ff00u32 }),
    ;
    assert((ip & e) as int + (!e) as int <= u32::MAX) by (bit_vector)
        requires
            e == 0xffff_ff00u32 || e == 0xffff_fc00u32 || e == 0xffff_fe00u32,
    ;
}

/// An IPv4 network interface, as far as probing cares.
#[derive(Debug)]
pub struct Interface {
    pub ip: u32,
    pub mask: u32,
    pub loopback: bool,
    pub point_to_point: bool,
}

/// Whether `t` is a probe target of the interface: loopback and
/// point-to-point links are never probed.
pub open spec fn targets_of(i: Interface, t: u32) -> bool {
    &&& !i.loopback
    &&& !i.point_to_point
    &&& probes_subnets(i.ip, i.mask)
    &&& exists|k: int| 0 <= k < probe_count(i.mask) && t == #[trigger] probe_target(i.ip, i.mask, k)
}

/// Whether `t` is a probe target of some interface.
pub open spec fn planned_target(interfaces: Seq<Interface>, t: u32) -> bool {
    exists|j: int| 0 <= j < interfaces.len() && targets_of(#[trigger] interfaces[j], t)
}

/// Strictly increasing.
pub open spec fn ascending(v: Seq<u32>) -> bool {
    forall|a: int, b: int| 0 <= a < b < v.len() ==> #[trigger] v[a] < #[trigger] v[b]
}

/// Adds `x` to an ascending list, in order and once.
fn insert_ascending(v: &mut Vec<u32>, x: u32)
    requires
        ascending(old(v)@),
    ensures
        ascending(final(v)@),
        forall|t: u32| final(v)@.contains(t) <==> (old(v)@.contains(t) || t == x),
{
    let mut k: usize = 0;
    while k < v.len() && v[k] < x
        invariant
            k <= v@.len(),
            v@ == old(v)@,
            forall|j: int| 0 <= j < k ==> #[trigger] v@[j] < x,
        decreases v@.len() - k,
    {
        k += 1;
    }
    if k < v.len() && v[k] == x {
        assert(v@[k as int] == x);
        assert(v@.contains(x));
        assert(forall|t: u32| v@.contains(t) <==> (old(v)@.contains(t) || t == x));
        return;
    }
    let ghost before = v@;
    v.insert(k, x);
    assert forall|a: int, b: int| 0 <= a < b < v@.len() implies #[trigger] v@[a] < #[trigger] v@[b] by {
        if b < k {
            assert(v@[a] == before[a] && v@[b] == before[b]);
        } else if b == k {
            assert(v@[a] == before[a]);
        } else if a == k {
            assert(v@[b] == before[b - 1]);
            assert(before[k as int] > x);
            if b - 1 > k {
                assert(before[k as int] < before[b - 1]);
            }
        } else if a < k {
            assert(v@[a] == before[a] && v@[b] == before[b - 1]);
        } else {
            assert(v@[a] == before[a - 1] && v@[b] == before[b - 1]);
        }
    }
    assert forall|t: u32| v@.contains(t) <==> (before.contains(t) || t == x) by {
        if before.contains(t) {
            let w = choose|w: int| 0 <= w < before.len() && before[w] == t;
            if w < k {
                assert(v@[w] == t);
            } else {
                assert(v@[w + 1] == t);
            }
        }
        if t == x {
            assert(v@[k as int] == x);
        }
        if v@.contains(t) {
            let w = choose|w: int| 0 <= w < v@.len() && v@[w] == t;
            if w < k {
                assert(before[w] == t);
            } else if w > k {
                assert(before[w - 1] == t);
            }
        }
    }
}

/// Adding `x` to a list that holds `before` and `seen` holds `before` and
/// `seen` followed by `x`.
proof fn lemma_contains_extended(before: Seq<u32>, mid: Seq<u32>, now: Seq<u32>, seen: Seq<u32>, x: u32)
    requires
        forall|t: u32| mid.contains(t) <==> (before.contains(t) || seen.contains(t)),
        forall|t: u32| now.contains(t) <==> (mid.contains(t) || t == x),
    ensures
        forall|t: u32| now.contains(t) <==> (before.contains(t) || seen.push(x).contains(t)),
{
    let ext = seen.push(x);
    assert forall|t: u32| now.contains(t) <==> (before.contains(t) || ext.contains(t)) by {
        if seen.contains(t) {
            let w = choose|w: int| 0 <= w < seen.len() && seen[w] == t;
            assert(ext[w] == t);
        }
        if ext.contains(t) && t != x {
            let w = choose|w: int| 0 <= w < ext.len() && ext[w] == t;
            assert(w < seen.len());
            assert(seen[w] == t);
        }
        if t == x {
            assert(ext[seen.len() as int] == t);
        }
    }
}

/// The targets listed for interface `i` are exactly its probe targets.
proof fn lemma_targets_listed(i: Interface, targets: Seq<u32>)
    requires
        (i.loopback || i.point_to_point) ==> targets.len() == 0,
        !(i.loopback || i.point_to_point) ==> {
            &&& !probes_subnets(i.ip, i.mask) ==> targets.len() == 0
            &&& probes_subnets(i.ip, i.mask) ==> targets.len() == probe_count(i.mask) && forall|k: int|
                0 <= k < targets.len() ==> #[trigger] targets[k] == probe_target(i.ip, i.mask, k)
        },
    ensures
        forall|t: u32| targets.contains(t) <==> targets_of(i, t),
{
    assert forall|t: u32| targets.contains(t) <==> targets_of(i, t) by {
        if targets.contains(t) {
            let w = choose|w: int| 0 <= w < targets.len() && targets[w] == t;
            assert(t == probe_target(i.ip, i.mask, w));
        }
        if targets_of(i, t) {
            let w = choose|w: int| 0 <= w < probe_count(i.mask) && t == #[trigger] probe_target(i.ip, i.mask, w);
            assert(targets[w] == t);
        }
    }
}

/// Adding the targets of interface `j` to those of the interfaces before it
/// gives the targets of the interfaces up to it.
proof fn lemma_plan_step(interfaces: Seq<Interface>, j: int, before: Seq<u32>, now: Seq<u32>, targets: Seq<u32>)
    requires
        0 <= j < interfaces.len(),
        forall|t: u32| before.contains(t) <==> planned_target(interfaces.subrange(0, j), t),
        forall|t: u32| now.contains(t) <==> (before.contains(t) || targets.contains(t)),
        forall|t: u32| targets.contains(t) <==> targets_of(interfaces[j], t),
    ensures
        forall|t: u32| now.contains(t) <==> planned_target(interfaces.subrange(0, j + 1), t),
{
    let prefix = interfaces.subrange(0, j);
    let next = interfaces.subrange(0, j + 1);
    assert forall|t: u32| now.contains(t) <==> planned_target(next, t) by {
        if targets_of(interfaces[j], t) {
            assert(targets_of(next[j], t));
        }
        if planned_target(prefix, t) {
            let w = choose|w: int| 0 <= w < prefix.len() && targets_of(#[trigger] prefix[w], t);
            assert(next[w] == prefix[w]);
        }
        if planned_target(next, t) {
            let w = choose|w: int| 0 <= w < next.len() && targets_of(#[trigger] next[w], t);
            if w < j {
                assert(prefix[w] == next[w]);
            } else {
                assert(next[w] == interfaces[j]);
            }
        }
    }
}

/// The addresses to probe over all interfaces, ascending and each once.
pub fn scan_plan(interfaces: &Vec<Interface>) -> (r: Vec<u32>)
    ensures
        ascending(r@),
        forall|t: u32| r@.contains(t) <==> planned_target(interfaces@, t),
{
    let mut r: Vec<u32> = Vec::new();
    let mut j: usize = 0;
    while j < interfaces.len()
        invariant
            j <= interfaces@.len(),
            ascending(r@),
            forall|t: u32| r@.contains(t) <==> planned_target(interfaces@.subrange(0, j as int), t),
        decreases interfaces@.len() - j,
    {
        let i = &interfaces[j];
        let ghost before = r@;
        let targets = if i.loopback || i.point_to_point {
            Vec::new()
        } else {
            scan_targets(i.ip, i.mask)
        };
        let mut k: usize = 0;
        while k < targets.len()
            invariant
                k <= targets@.len(),
                ascending(r@),
                forall|t: u32| r@.contains(t) <==> (before.contains(t) || targets@.subrange(0, k as int).contains(t)),
            decreases targets@.len() - k,
        {
            let ghost mid = r@;
            insert_ascending(&mut r, targets[k]);
            proof {
                assert(targets@.subrange(0, k + 1) =~= targets@.subrange(0, k as int).push(targets@[k as int]));
                lemma_contains_extended(before, mid, r@, targets@.subrange(0, k as int), targets@[k as int]);
            }
            k += 1;
        }
        proof {
            assert(targets@.subrange(0, targets@.len() as int) =~= targets@);
            lemma_targets_listed(*i, targets@);
            assert(*i == interfaces@[j as int]);
            assert(forall|t: u32| r@.contains(t) <==> (before.contains(t) || targets@.contains(t)));
            lemma_plan_step(interfaces@, j as int, before, r@, targets@);
        }
        j += 1;
    }
    assert(interfaces@.subrange(0, interfaces@.len() as int) =~= interfaces@);
    r
}

} // verus!
