//! Stable release checks, and the choice of the package an update installs.
//!
//! Fetching the release, downloading and replacing the program happen
//! outside this module; it decides what a release response means and which
//! asset of which release may be installed.
use vstd::prelude::*;
use crate::i18n::{Language, translation};
use crate::text::{split_on, chars_of, string_of, extend_chars, decimal, decimal_chars, contains, contains_chars, slice_chars, substituted};

verus! {

/// The largest release response read, in bytes.
pub const MAX_RESPONSE: usize = 1_048_576;

/// Where an update check stands.
#[derive(Debug, PartialEq, Eq)]
pub enum UpdateState {
    Idle,
    Checking,
    Current,
    NoRelease,
    Available { version: String, url: String },
    Failed,
    Installing { downloaded: u64, total: Option<u64> },
    Ready { version: String },
    InstallFailed { version: String },
}

impl Clone for UpdateState {
    fn clone(&self) -> (r: Self)
        ensures
            r == *self,
    {
        match self {
            UpdateState::Idle => UpdateState::Idle,
            UpdateState::Checking => UpdateState::Checking,
            UpdateState::Current => UpdateState::Current,
            UpdateState::NoRelease => UpdateState::NoRelease,
            UpdateState::Available { version, url } => UpdateState::Available {
                version: version.clone(),
                url: url.clone(),
            },
            UpdateState::Failed => UpdateState::Failed,
            UpdateState::Installing { downloaded, total } => UpdateState::Installing {
                downloaded: *downloaded,
                total: *total,
            },
            UpdateState::Ready { version } => UpdateState::Ready { version: version.clone() },
            UpdateState::InstallFailed { version } => UpdateState::InstallFailed {
                version: version.clone(),
            },
        }
    }
}

impl Default for UpdateState {
    fn default() -> (r: Self)
        ensures
            r == UpdateState::Idle,
    {
        UpdateState::Idle
    }
}

/// Why an update check or installation cannot go on.
#[derive(Debug, PartialEq, Eq)]
pub enum UpdateError {
    MissingVisibility,
    MissingChannel,
    MissingVersion,
    InvalidVersion,
    InvalidCurrent,
    InvalidResponse,
    TooLarge,
    Unstable,
    NotNewer,
    NoPackage(String),
}

impl UpdateError {
    /// The message shown for this error.
    pub fn message(&self) -> (r: String)
        ensures
            r@ == update_error_text(*self),
    {
        match self {
            UpdateError::MissingVisibility => "Missing release visibility".to_owned(),
            UpdateError::MissingChannel => "Missing release channel".to_owned(),
            UpdateError::MissingVersion => "Missing release version".to_owned(),
            UpdateError::InvalidVersion => "Invalid release version".to_owned(),
            UpdateError::InvalidCurrent => "Invalid application version".to_owned(),
            UpdateError::InvalidResponse => "Invalid release response".to_owned(),
            UpdateError::TooLarge => "Release response is too large".to_owned(),
            UpdateError::Unstable => "Only stable updates are supported".to_owned(),
            UpdateError::NotNewer => "Update must be newer than this application".to_owned(),
            UpdateError::NoPackage(target) => {
                let mut out = chars_of("No release package for ");
                extend_chars(&mut out, chars_of(target.as_str()).as_slice());
                string_of(out.as_slice())
            },
        }
    }
}

/// The message of each error.
pub open spec fn update_error_text(e: UpdateError) -> Seq<char> {
    match e {
        UpdateError::MissingVisibility => "Missing release visibility"@,
        UpdateError::MissingChannel => "Missing release channel"@,
        UpdateError::MissingVersion => "Missing release version"@,
        UpdateError::InvalidVersion => "Invalid release version"@,
        UpdateError::InvalidCurrent => "Invalid application version"@,
        UpdateError::InvalidResponse => "Invalid release response"@,
        UpdateError::TooLarge => "Release response is too large"@,
        UpdateError::Unstable => "Only stable updates are supported"@,
        UpdateError::NotNewer => "Update must be newer than this application"@,
        UpdateError::NoPackage(target) => "No release package for "@ + target@,
    }
}

/// What a release response says of the latest release.
#[derive(Debug)]
pub struct Release {
    pub draft: Option<bool>,
    pub prerelease: Option<bool>,
    pub tag_name: Option<String>,
}

/// A version as `semver` parses it: its numbers and the text of its
/// pre-release and build parts, each empty when absent.
#[derive(Debug)]
pub struct ParsedVersion {
    pub major: u64,
    pub minor: u64,
    pub patch: u64,
    pub pre: String,
    pub build: String,
}

/// `text` parsed as a semantic version, or `None` where it is not one.
pub uninterp spec fn semver_of(text: Seq<char>) -> Option<ParsedVersion>;

/// Whether every character is an ASCII digit.
pub open spec fn all_digits(s: Seq<char>) -> bool {
    forall|i: int| 0 <= i < s.len() ==> '0' <= #[trigger] s[i] <= '9'
}

/// A character allowed in a build identifier: an ASCII letter or digit, or
/// a hyphen.
pub open spec fn build_char(c: char) -> bool {
    ('0' <= c <= '9') || ('A' <= c <= 'Z') || ('a' <= c <= 'z') || c == '-'
}

/// Build metadata as `semver` accepts it: empty, or identifiers of build
/// characters separated by single dots.
pub open spec fn valid_build(s: Seq<char>) -> bool {
    s.len() == 0 || forall|k: int| 0 <= k < split_on(s, '.').len() ==> {
        let part = #[trigger] split_on(s, '.')[k];
        part.len() > 0 && forall|i: int| 0 <= i < part.len() ==> build_char(#[trigger] part[i])
    }
}

/// The order of two numbers: -1, 0 or 1.
pub open spec fn int_order(a: int, b: int) -> int {
    if a < b {
        -1
    } else if a > b {
        1
    } else {
        0
    }
}

/// The order of two texts, character by character (a prefix first): -1, 0
/// or 1.
pub open spec fn text_order(a: Seq<char>, b: Seq<char>) -> int
    decreases a.len(),
{
    if a.len() == 0 {
        if b.len() == 0 {
            0
        } else {
            -1
        }
    } else if b.len() == 0 {
        1
    } else if a[0] != b[0] {
        int_order(a[0] as int, b[0] as int)
    } else {
        text_order(a.drop_first(), b.drop_first())
    }
}

/// A digit string without its leading zeros.
pub open spec fn without_leading_zeros(s: Seq<char>) -> Seq<char>
    decreases s.len(),
{
    if s.len() > 0 && s[0] == '0' {
        without_leading_zeros(s.drop_first())
    } else {
        s
    }
}

/// The order of two build identifiers: numeric ones by value, then by
/// length (`0 < 00 < 1`), before every other; others character by
/// character.
pub open spec fn identifier_order(a: Seq<char>, b: Seq<char>) -> int {
    if all_digits(a) && all_digits(b) {
        let ta = without_leading_zeros(a);
        let tb = without_leading_zeros(b);
        if ta.len() != tb.len() {
            int_order(ta.len() as int, tb.len() as int)
        } else if text_order(ta, tb) != 0 {
            text_order(ta, tb)
        } else {
            int_order(a.len() as int, b.len() as int)
        }
    } else if all_digits(a) {
        -1
    } else if all_digits(b) {
        1
    } else {
        text_order(a, b)
    }
}

/// The order of two lists of build identifiers: the first that differ
/// decide, and a list comes after its own beginning.
pub open spec fn identifiers_order(a: Seq<Seq<char>>, b: Seq<Seq<char>>) -> int
    decreases a.len(),
{
    if a.len() == 0 {
        if b.len() == 0 {
            0
        } else {
            -1
        }
    } else if b.len() == 0 {
        1
    } else if identifier_order(a[0], b[0]) != 0 {
        identifier_order(a[0], b[0])
    } else {
        identifiers_order(a.drop_first(), b.drop_first())
    }
}

/// Whether build part `a` orders after build part `b` as `BuildMetadata`
/// orders them, comparing their dot-separated identifiers; a part that
/// `semver` does not accept orders after nothing.
pub open spec fn later_build(a: Seq<char>, b: Seq<char>) -> bool {
    valid_build(a) && valid_build(b) && identifiers_order(split_on(a, '.'), split_on(b, '.')) == 1
}

/// The release fields of a JSON response, or `None` where it is not JSON.
pub uninterp spec fn release_fields(data: Seq<u8>) -> Option<Release>;

/// `semver::Version::parse`, read as its major, minor and patch numbers and
/// the text of its pre-release and build parts (`Prerelease::as_str`,
/// `BuildMetadata::as_str`). The result is named as a function of the text
/// alone; nothing more is stated of it.
#[verifier::external_body]
fn parse_version(text: &str) -> (r: Option<ParsedVersion>)
    ensures
        r == semver_of(text@),
{
    semver::Version::parse(text).ok().map(|v| ParsedVersion {
        major: v.major,
        minor: v.minor,
        patch: v.patch,
        pre: v.pre.as_str().to_owned(),
        build: v.build.as_str().to_owned(),
    })
}

/// `>` on `semver::BuildMetadata` (as `BuildMetadata::new` reads each
/// part), as its `Ord` compares them; `false` where a part does not parse.
#[verifier::external_body]
fn build_is_later(a: &str, b: &str) -> (r: bool)
    ensures
        r == later_build(a@, b@),
{
    match (semver::BuildMetadata::new(a), semver::BuildMetadata::new(b)) {
        (Ok(x), Ok(y)) => x > y,
        _ => false,
    }
}

/// `serde_json::from_slice` into a `serde_json::Value`, read as the
/// release's `draft` and `prerelease` flags (`Value::get`, `Value::as_bool`)
/// and its `tag_name` (`Value::as_str`); `None` when the bytes are not JSON.
/// Named as a function of the bytes; nothing more is stated of it.
#[verifier::external_body]
fn parse_release(data: &[u8]) -> (r: Option<Release>)
    ensures
        r == release_fields(data@),
{
    let value: serde_json::Value = serde_json::from_slice(data).ok()?;
    Some(Release {
        draft: value.get("draft").and_then(|v| v.as_bool()),
        prerelease: value.get("prerelease").and_then(|v| v.as_bool()),
        tag_name: value.get("tag_name").and_then(|v| v.as_str()).map(|s| s.to_owned()),
    })
}

/// `self_update::get_target`: the target triple this program was built for.
/// Nothing is stated of it.
#[verifier::external_body]
fn build_target() -> &'static str {
    self_update::get_target()
}

/// A tag or version with one leading `v` removed.
pub open spec fn stripped(tag: Seq<char>) -> Seq<char> {
    if tag.len() > 0 && tag[0] == 'v' {
        tag.drop_first()
    } else {
        tag
    }
}

/// `a` has a smaller (major, minor, patch) than `b`.
pub open spec fn numbers_below(a: ParsedVersion, b: ParsedVersion) -> bool {
    ||| a.major < b.major
    ||| a.major == b.major && a.minor < b.minor
    ||| a.major == b.major && a.minor == b.minor && a.patch < b.patch
}

/// `a` and `b` have the same (major, minor, patch).
pub open spec fn same_numbers(a: ParsedVersion, b: ParsedVersion) -> bool {
    a.major == b.major && a.minor == b.minor && a.patch == b.patch
}

/// For a release `v` without a pre-release part: its precedence is at most
/// that of `c` (`Version::cmp_precedence(..).is_le()`). A version without a
/// pre-release part takes precedence over one with it.
pub open spec fn not_after(v: ParsedVersion, c: ParsedVersion) -> bool {
    numbers_below(v, c) || (same_numbers(v, c) && c.pre@.len() == 0)
}

/// For a release `v` without a pre-release part: it orders after `c` as
/// `Version`'s `>` orders versions, by numbers, pre-release and then build.
pub open spec fn newer(v: ParsedVersion, c: ParsedVersion) -> bool {
    numbers_below(c, v) || (same_numbers(v, c) && (c.pre@.len() > 0 || later_build(v.build@, c.build@)))
}

/// `Version`'s display: `major.minor.patch`, then `-pre` and `+build` when
/// they are present.
pub open spec fn version_text(v: ParsedVersion) -> Seq<char> {
    decimal(v.major as nat) + seq!['.'] + decimal(v.minor as nat) + seq!['.'] + decimal(v.patch as nat)
        + (if v.pre@.len() > 0 { seq!['-'] + v.pre@ } else { Seq::empty() })
        + (if v.build@.len() > 0 { seq!['+'] + v.build@ } else { Seq::empty() })
}

/// What a release says to an application at version `current`.
pub open spec fn evaluated(release: Release, current: Seq<char>, r: Result<UpdateState, UpdateError>) -> bool {
    match (release.draft, release.prerelease) {
        (None, _) => r == Err::<UpdateState, UpdateError>(UpdateError::MissingVisibility),
        (Some(_), None) => r == Err::<UpdateState, UpdateError>(UpdateError::MissingChannel),
        (Some(draft), Some(pre)) => if draft || pre {
            r == Ok::<UpdateState, UpdateError>(UpdateState::NoRelease)
        } else {
            match release.tag_name {
                None => r == Err::<UpdateState, UpdateError>(UpdateError::MissingVersion),
                Some(tag) => match semver_of(stripped(tag@)) {
                    None => r == Err::<UpdateState, UpdateError>(UpdateError::InvalidVersion),
                    Some(v) => if v.pre@.len() > 0 {
                        r == Ok::<UpdateState, UpdateError>(UpdateState::NoRelease)
                    } else {
                        match semver_of(current) {
                            None => r == Err::<UpdateState, UpdateError>(UpdateError::InvalidCurrent),
                            Some(c) => if not_after(v, c) {
                                r == Ok::<UpdateState, UpdateError>(UpdateState::Current)
                            } else {
                                &&& r matches Ok(UpdateState::Available { version, url })
                                &&& version@ == seq!['v'] + version_text(v)
                                &&& url@ == "https://github.com/huacnlee/omasend/releases/tag/"@ + tag@
                            },
                        }
                    },
                },
            }
        },
    }
}

/// Removes one leading `v`.
fn strip_v(tag: &str) -> (r: String)
    ensures
        r@ == stripped(tag@),
{
    let chars = chars_of(tag);
    if chars.len() > 0 && chars[0] == 'v' {
        let rest = slice_chars(chars.as_slice(), 1, chars.len());
        assert(rest@ =~= tag@.drop_first());
        string_of(rest.as_slice())
    } else {
        string_of(chars.as_slice())
    }
}

/// `Version`'s display.
fn display_version(v: &ParsedVersion) -> (r: Vec<char>)
    ensures
        r@ == version_text(*v),
{
    let mut out = decimal_chars(v.major);
    out.push('.');
    extend_chars(&mut out, decimal_chars(v.minor).as_slice());
    out.push('.');
    extend_chars(&mut out, decimal_chars(v.patch).as_slice());
    let ghost numbers = out@;
    let pre = chars_of(v.pre.as_str());
    if pre.len() > 0 {
        out.push('-');
        extend_chars(&mut out, pre.as_slice());
    }
    let ghost with_pre = out@;
    let build = chars_of(v.build.as_str());
    if build.len() > 0 {
        out.push('+');
        extend_chars(&mut out, build.as_slice());
    }
    assert(out@ =~= version_text(*v));
    out
}

/// Whether `v` takes precedence at most like `c`, for `v` without a
/// pre-release part.
fn is_not_after(v: &ParsedVersion, c: &ParsedVersion) -> (r: bool)
    ensures
        r == not_after(*v, *c),
{
    v.major < c.major || (v.major == c.major && v.minor < c.minor) || (v.major == c.major && v.minor
        == c.minor && v.patch < c.patch) || (v.major == c.major && v.minor == c.minor && v.patch
        == c.patch && c.pre.as_str().is_empty())
}

/// Whether `v` orders after `c`, for `v` without a pre-release part.
fn is_newer(v: &ParsedVersion, c: &ParsedVersion) -> (r: bool)
    ensures
        r == newer(*v, *c),
{
    if c.major < v.major || (c.major == v.major && c.minor < v.minor) || (c.major == v.major && c.minor
        == v.minor && c.patch < v.patch) {
        return true;
    }
    if !(v.major == c.major && v.minor == c.minor && v.patch == c.patch) {
        return false;
    }
    !c.pre.as_str().is_empty() || build_is_later(v.build.as_str(), c.build.as_str())
}

/// What a release means to the application at version `current`: drafts,
/// pre-releases and unstable versions are no release; a version that does not
/// take precedence over `current` leaves it current; anything newer is
/// offered with the page of its tag.
pub fn evaluate(release: &Release, current: &str) -> (r: Result<UpdateState, UpdateError>)
    ensures
        evaluated(*release, current@, r),
{
    let draft = match release.draft {
        None => {
            return Err(UpdateError::MissingVisibility);
        },
        Some(d) => d,
    };
    let pre = match release.prerelease {
        None => {
            return Err(UpdateError::MissingChannel);
        },
        Some(p) => p,
    };
    if draft || pre {
        return Ok(UpdateState::NoRelease);
    }
    let tag = match &release.tag_name {
        None => {
            return Err(UpdateError::MissingVersion);
        },
        Some(t) => t,
    };
    let version = match parse_version(strip_v(tag.as_str()).as_str()) {
        None => {
            return Err(UpdateError::InvalidVersion);
        },
        Some(v) => v,
    };
    if !version.pre.as_str().is_empty() {
        return Ok(UpdateState::NoRelease);
    }
    let installed = match parse_version(current) {
        None => {
            return Err(UpdateError::InvalidCurrent);
        },
        Some(c) => c,
    };
    if is_not_after(&version, &installed) {
        return Ok(UpdateState::Current);
    }
    let mut shown: Vec<char> = Vec::new();
    shown.push('v');
    extend_chars(&mut shown, display_version(&version).as_slice());
    let mut url = chars_of("https://github.com/huacnlee/omasend/releases/tag/");
    extend_chars(&mut url, chars_of(tag.as_str()).as_slice());
    assert(shown@ =~= seq!['v'] + version_text(version));
    Ok(UpdateState::Available { version: string_of(shown.as_slice()), url: string_of(url.as_slice()) })
}

/// Evaluates the body of a release response; a body that is not JSON is an
/// invalid response.
pub fn evaluate_response(data: &[u8], current: &str) -> (r: Result<UpdateState, UpdateError>)
    ensures
        match release_fields(data@) {
            None => r == Err::<UpdateState, UpdateError>(UpdateError::InvalidResponse),
            Some(release) => evaluated(release, current@, r),
        },
{
    match parse_release(data) {
        None => Err(UpdateError::InvalidResponse),
        Some(release) => evaluate(&release, current),
    }
}

/// What the status of a release response leads to.
#[derive(Clone, Copy, Debug, PartialEq, Eq, Structural)]
pub enum Reply {
    /// The repository has no release yet.
    NoRelease,
    /// The request was refused; the check failed.
    Refused,
    /// The body holds the release.
    Body,
}

/// A missing release (404) means no release yet; any other client or server
/// error fails the check.
pub fn reply_for_status(status: u16) -> (r: Reply)
    ensures
        r == (if status == 404 {
            Reply::NoRelease
        } else if 400 <= status <= 599 {
            Reply::Refused
        } else {
            Reply::Body
        }),
{
    if status == 404 {
        Reply::NoRelease
    } else if 400 <= status && status <= 599 {
        Reply::Refused
    } else {
        Reply::Body
    }
}

/// Whether a response that has delivered `received` bytes may take a chunk
/// of `chunk` more.
pub fn response_fits(received: usize, chunk: usize) -> (r: bool)
    ensures
        r == (received + chunk <= MAX_RESPONSE),
{
    received <= MAX_RESPONSE && chunk <= MAX_RESPONSE - received
}

/// What an update installs: the release tag, the archive for the target and
/// the target itself.
#[derive(Debug)]
pub struct ReleasePlan {
    pub release_tag: String,
    pub asset_name: String,
    pub target: String,
}

/// The targets that releases ship packages for.
pub open spec fn supported_target(target: Seq<char>) -> bool {
    ||| target == "aarch64-apple-darwin"@
    ||| target == "x86_64-apple-darwin"@
    ||| target == "x86_64-unknown-linux-gnu"@
    ||| target == "aarch64-unknown-linux-gnu"@
    ||| target == "x86_64-pc-windows-msvc"@
}

/// The archive format of a target's package.
pub open spec fn package_extension(target: Seq<char>) -> Seq<char> {
    if contains(target, "windows"@) {
        "zip"@
    } else {
        "tar.gz"@
    }
}

/// The installation an application at `current` on `target` may make of
/// `version`: only a stable version newer than `current`, on a target that
/// releases ship for.
pub open spec fn planned(version: Seq<char>, current: Seq<char>, target: Seq<char>, r: Result<ReleasePlan, UpdateError>) -> bool {
    match semver_of(stripped(version)) {
        None => r == Err::<ReleasePlan, UpdateError>(UpdateError::InvalidVersion),
        Some(v) => if v.pre@.len() > 0 {
            r == Err::<ReleasePlan, UpdateError>(UpdateError::Unstable)
        } else {
            match semver_of(current) {
                None => r == Err::<ReleasePlan, UpdateError>(UpdateError::InvalidCurrent),
                Some(c) => if !newer(v, c) {
                    r == Err::<ReleasePlan, UpdateError>(UpdateError::NotNewer)
                } else if !supported_target(target) {
                    r matches Err(UpdateError::NoPackage(t)) && t@ == target
                } else {
                    &&& r matches Ok(plan)
                    &&& plan.target@ == target
                    &&& plan.release_tag@ == seq!['v'] + version_text(v)
                    &&& plan.asset_name@ == "omasend-"@ + version_text(v) + seq!['-'] + target
                        + seq!['.'] + package_extension(target)
                },
            }
        },
    }
}

/// The installation an application at `current` on `target` may make of
/// `version`.
pub fn release_plan(version: &str, current: &str, target: &str) -> (r: Result<ReleasePlan, UpdateError>)
    ensures
        planned(version@, current@, target@, r),
{
    let v = match parse_version(strip_v(version).as_str()) {
        None => {
            return Err(UpdateError::InvalidVersion);
        },
        Some(v) => v,
    };
    if !v.pre.as_str().is_empty() {
        return Err(UpdateError::Unstable);
    }
    let c = match parse_version(current) {
        None => {
            return Err(UpdateError::InvalidCurrent);
        },
        Some(c) => c,
    };
    if !is_newer(&v, &c) {
        return Err(UpdateError::NotNewer);
    }
    let t = chars_of(target);
    let supported = crate::text::str_eq(target, "aarch64-apple-darwin") || crate::text::str_eq(
        target,
        "x86_64-apple-darwin",
    ) || crate::text::str_eq(target, "x86_64-unknown-linux-gnu") || crate::text::str_eq(
        target,
        "aarch64-unknown-linux-gnu",
    ) || crate::text::str_eq(target, "x86_64-pc-windows-msvc");
    if !supported {
        return Err(UpdateError::NoPackage(target.to_owned()));
    }
    let extension = if contains_chars(t.as_slice(), chars_of("windows").as_slice()) {
        "zip"
    } else {
        "tar.gz"
    };
    let text = display_version(&v);
    let mut tag: Vec<char> = Vec::new();
    tag.push('v');
    extend_chars(&mut tag, text.as_slice());
    let mut asset = chars_of("omasend-");
    extend_chars(&mut asset, text.as_slice());
    asset.push('-');
    extend_chars(&mut asset, t.as_slice());
    asset.push('.');
    extend_chars(&mut asset, chars_of(extension).as_slice());
    assert(tag@ =~= seq!['v'] + version_text(v));
    assert(asset@ =~= "omasend-"@ + version_text(v) + seq!['-'] + target@ + seq!['.'] + package_extension(target@));
    Ok(
        ReleasePlan {
            release_tag: string_of(tag.as_slice()),
            asset_name: string_of(asset.as_slice()),
            target: target.to_owned(),
        },
    )
}

/// The installation this build may make of `version`, for an application at
/// `current`: as `release_plan` on the target the program was built for.
pub fn builder(version: &str, current: &str) -> (r: Result<ReleasePlan, UpdateError>)
    ensures
        exists|target: Seq<char>| planned(version@, current@, target, r),
{
    let target = build_target();
    let r = release_plan(version, current, target);
    assert(planned(version@, current@, target@, r));
    r
}

impl UpdateState {
    /// The label of the update item in the menu.
    pub fn label(&self, language: Language) -> (r: String)
        ensures
            r@ == state_label(*self, language),
    {
        match self {
            UpdateState::Available { version, .. } => language.named("update.download", version.as_str()),
            UpdateState::Checking => language.text("update.checking"),
            UpdateState::Current => language.text("update.current"),
            UpdateState::NoRelease => language.text("update.no_release"),
            UpdateState::Failed => language.text("update.failed"),
            _ => String::new(),
        }
    }
}

/// The menu label of an update state: the version on offer, or where the
/// check stands; nothing while idle or installing.
pub open spec fn state_label(state: UpdateState, language: Language) -> Seq<char> {
    match state {
        UpdateState::Available { version, .. } => substituted(
            translation(language, "update.download"@),
            "%{name}"@,
            version@,
        ),
        UpdateState::Checking => translation(language, "update.checking"@),
        UpdateState::Current => translation(language, "update.current"@),
        UpdateState::NoRelease => translation(language, "update.no_release"@),
        UpdateState::Failed => translation(language, "update.failed"@),
        _ => Seq::empty(),
    }
}

/// A release is offered only when it is published, stable and newer than
/// the running version.
pub proof fn offered_releases_are_stable_and_newer(release: Release, current: Seq<char>, r: Result<UpdateState, UpdateError>)
    requires
        evaluated(release, current, r),
        r matches Ok(UpdateState::Available { .. }),
    ensures
        release.draft == Some(false),
        release.prerelease == Some(false),
        release.tag_name is Some,
        semver_of(stripped(release.tag_name->0@)) is Some,
        semver_of(stripped(release.tag_name->0@))->0.pre@.len() == 0,
        semver_of(current) is Some,
        !not_after(semver_of(stripped(release.tag_name->0@))->0, semver_of(current)->0),
{
}

/// An installation is planned only for a stable version newer than the
/// running one, on a target that releases ship for.
pub proof fn planned_installs_are_stable_and_newer(version: Seq<char>, current: Seq<char>, target: Seq<char>, r: Result<ReleasePlan, UpdateError>)
    requires
        planned(version, current, target, r),
        r is Ok,
    ensures
        semver_of(stripped(version)) is Some,
        semver_of(stripped(version))->0.pre@.len() == 0,
        semver_of(current) is Some,
        newer(semver_of(stripped(version))->0, semver_of(current)->0),
        supported_target(target),
{
}

/// A stable release whose version numbers come after the running version's
/// (major, then minor, then patch) is always offered, as is one with the
/// same numbers when the running version is a pre-release; the check
/// reports the running version as current only for a release whose numbers
/// are at most its own, and equal only when the running version is stable.
pub proof fn later_releases_are_offered(
    release: Release,
    current: Seq<char>,
    v: ParsedVersion,
    c: ParsedVersion,
    r: Result<UpdateState, UpdateError>,
)
    requires
        evaluated(release, current, r),
        release.draft == Some(false),
        release.prerelease == Some(false),
        release.tag_name is Some,
        semver_of(stripped(release.tag_name->0@)) == Some(v),
        v.pre@.len() == 0,
        semver_of(current) == Some(c),
    ensures
        v.major > c.major ==> r matches Ok(UpdateState::Available { .. }),
        v.major == c.major && v.minor > c.minor ==> r matches Ok(UpdateState::Available { .. }),
        v.major == c.major && v.minor == c.minor && v.patch > c.patch ==> r matches Ok(
            UpdateState::Available { .. },
        ),
        v.major == c.major && v.minor == c.minor && v.patch == c.patch && c.pre@.len() > 0 ==> r matches Ok(
            UpdateState::Available { .. },
        ),
        r == Ok::<UpdateState, UpdateError>(UpdateState::Current) ==> {
            ||| v.major < c.major
            ||| v.major == c.major && v.minor < c.minor
            ||| v.major == c.major && v.minor == c.minor && v.patch < c.patch
            ||| v.major == c.major && v.minor == c.minor && v.patch == c.patch && c.pre@.len() == 0
        },
        r is Ok,
{
}

/// An install of a stable version is planned, on a target that releases
/// ship for, whenever its numbers come after the running version's; it is
/// refused as not newer whenever its numbers come before them.
pub proof fn later_versions_can_be_installed(
    version: Seq<char>,
    current: Seq<char>,
    target: Seq<char>,
    v: ParsedVersion,
    c: ParsedVersion,
    r: Result<ReleasePlan, UpdateError>,
)
    requires
        planned(version, current, target, r),
        semver_of(stripped(version)) == Some(v),
        v.pre@.len() == 0,
        semver_of(current) == Some(c),
        supported_target(target),
    ensures
        (v.major > c.major || (v.major == c.major && v.minor > c.minor) || (v.major == c.major && v.minor
            == c.minor && v.patch > c.patch)) ==> r is Ok,
        (v.major < c.major || (v.major == c.major && v.minor < c.minor) || (v.major == c.major && v.minor
            == c.minor && v.patch < c.patch)) ==> r == Err::<ReleasePlan, UpdateError>(UpdateError::NotNewer),
{
}

} // verus!
