//! What the interface decides without drawing: the theme preference, size
//! labels, which nearby devices fit on screen, device initials, and the
//! numbers and label of a transfer's progress.
use vstd::prelude::*;
use crate::model::{AppState, Transfer, TransferStatus};
use crate::model::state::{selected_position, is_active};
use crate::text::{
    chars_of, decimal, decimal_chars, extend_chars, is_white_space, leading_space, split_on,
    split_chars, str_eq, string_of, take_chars, trim, trim_chars, views, white_space,
};

verus! {

/// The appearance the user chose.
#[derive(Clone, Copy, Debug, PartialEq, Eq, Structural)]
pub enum ThemeMode {
    System,
    Light,
    Dark,
}

impl Default for ThemeMode {
    fn default() -> (r: Self)
        ensures
            r == ThemeMode::System,
    {
        ThemeMode::System
    }
}

/// The stored word for each mode.
pub open spec fn mode_word(mode: ThemeMode) -> Seq<char> {
    match mode {
        ThemeMode::System => "system"@,
        ThemeMode::Light => "light"@,
        ThemeMode::Dark => "dark"@,
    }
}

/// The mode a stored preference names; anything unknown follows the system.
pub open spec fn parsed_mode(value: Seq<char>) -> ThemeMode {
    if trim(value) == "light"@ {
        ThemeMode::Light
    } else if trim(value) == "dark"@ {
        ThemeMode::Dark
    } else {
        ThemeMode::System
    }
}

impl ThemeMode {
    /// Reads a stored preference, surrounding white space ignored.
    pub fn parse(value: &str) -> (r: ThemeMode)
        ensures
            r == parsed_mode(value@),
    {
        let trimmed = string_of(trim_chars(chars_of(value).as_slice()).as_slice());
        if str_eq(trimmed.as_str(), "light") {
            ThemeMode::Light
        } else if str_eq(trimmed.as_str(), "dark") {
            ThemeMode::Dark
        } else {
            ThemeMode::System
        }
    }

    /// The word the preference is stored as.
    pub fn value(self) -> (r: &'static str)
        ensures
            r@ == mode_word(self),
    {
        match self {
            ThemeMode::System => "system",
            ThemeMode::Light => "light",
            ThemeMode::Dark => "dark",
        }
    }
}

/// The mode to start in: Omarchy themes the whole desktop, so there the
/// system is followed whatever was saved.
pub fn mode_for_environment(saved: Option<&str>, omarchy: bool) -> (r: ThemeMode)
    ensures
        r == (if omarchy {
            ThemeMode::System
        } else {
            match saved {
                Some(v) => parsed_mode(v@),
                None => ThemeMode::System,
            }
        }),
{
    if omarchy {
        ThemeMode::System
    } else {
        match saved {
            Some(v) => ThemeMode::parse(v),
            None => ThemeMode::System,
        }
    }
}

/// Whether a character is a quote that `ID` values may be wrapped in.
pub open spec fn is_quote(c: char) -> bool {
    c == '\'' || c == '"'
}

/// Number of leading quote characters.
pub open spec fn leading_quotes(s: Seq<char>) -> nat
    decreases s.len(),
{
    if s.len() > 0 && is_quote(s[0]) {
        leading_quotes(s.drop_first()) + 1
    } else {
        0
    }
}

/// Number of trailing quote characters.
pub open spec fn trailing_quotes(s: Seq<char>) -> nat
    decreases s.len(),
{
    if s.len() > 0 && is_quote(s.last()) {
        trailing_quotes(s.drop_last()) + 1
    } else {
        0
    }
}

/// `str::trim_matches` with both quote characters.
pub open spec fn unquoted(s: Seq<char>) -> Seq<char> {
    let rest = s.subrange(leading_quotes(s) as int, s.len() as int);
    rest.subrange(0, rest.len() - trailing_quotes(rest))
}

/// Whether one line of `/etc/os-release` says the system is Omarchy: the
/// trimmed line is `ID=` followed by `omarchy`, possibly quoted and padded.
pub open spec fn omarchy_line(line: Seq<char>) -> bool {
    let t = trim(line);
    match crate::text::first_index_of(t, '=') {
        Some(i) => t.subrange(0, i) == "ID"@ && unquoted(trim(t.subrange(i + 1, t.len() as int))) == "omarchy"@,
        None => false,
    }
}

/// Whether `/etc/os-release` identifies Omarchy.
pub open spec fn omarchy_release(contents: Seq<char>) -> bool {
    exists|k: int| 0 <= k < split_on(contents, '\n').len() && omarchy_line(#[trigger] split_on(contents, '\n')[k])
}

/// Counts leading quotes.
fn leading_quotes_len(s: &[char]) -> (r: usize)
    ensures
        r == leading_quotes(s@),
        r <= s.len(),
{
    let mut n: usize = 0;
    assert(s@.subrange(0, s.len() as int) =~= s@);
    while n < s.len() && (s[n] == '\'' || s[n] == '"')
        invariant
            n <= s.len(),
            leading_quotes(s@) == n + leading_quotes(s@.subrange(n as int, s.len() as int)),
        decreases s.len() - n,
    {
        assert(s@.subrange(n as int, s.len() as int).drop_first() =~= s@.subrange(n + 1, s.len() as int));
        n += 1;
    }
    n
}

/// Counts trailing quotes.
fn trailing_quotes_len(s: &[char]) -> (r: usize)
    ensures
        r == trailing_quotes(s@),
        r <= s.len(),
{
    let mut n: usize = s.len();
    assert(s@.subrange(0, s.len() as int) =~= s@);
    while n > 0 && (s[n - 1] == '\'' || s[n - 1] == '"')
        invariant
            n <= s.len(),
            trailing_quotes(s@) == (s.len() - n) + trailing_quotes(s@.subrange(0, n as int)),
        decreases n,
    {
        assert(s@.subrange(0, n as int).drop_last() =~= s@.subrange(0, n - 1));
        n -= 1;
    }
    s.len() - n
}

/// Whether a line of `/etc/os-release` says the system is Omarchy.
fn is_omarchy_line(line: &[char]) -> (r: bool)
    ensures
        r == omarchy_line(line@),
{
    let t = trim_chars(line);
    proof {
        crate::text::lemma_first_index_bounds(t@, '=');
    }
    match crate::text::find_char(t.as_slice(), '=') {
        None => false,
        Some(i) => {
            let key = string_of(crate::text::slice_chars(t.as_slice(), 0, i).as_slice());
            let value = trim_chars(crate::text::slice_chars(t.as_slice(), i + 1, t.len()).as_slice());
            let a = leading_quotes_len(value.as_slice());
            let rest = crate::text::slice_chars(value.as_slice(), a, value.len());
            let b = trailing_quotes_len(rest.as_slice());
            let inner = string_of(crate::text::slice_chars(rest.as_slice(), 0, rest.len() - b).as_slice());
            str_eq(key.as_str(), "ID") && str_eq(inner.as_str(), "omarchy")
        },
    }
}

/// Whether the contents of `/etc/os-release` identify Omarchy by its `ID`.
pub fn is_omarchy_os_release(contents: &str) -> (r: bool)
    ensures
        r == omarchy_release(contents@),
{
    let chars = chars_of(contents);
    let lines = split_chars(chars.as_slice(), '\n', 0);
    assert(chars@.subrange(0, chars@.len() as int) =~= chars@);
    let ghost all = views(lines@);
    let mut k: usize = 0;
    while k < lines.len()
        invariant
            all == views(lines@),
            all == split_on(contents@, '\n'),
            k <= lines@.len(),
            forall|j: int| 0 <= j < k ==> !omarchy_line(#[trigger] all[j]),
        decreases lines@.len() - k,
    {
        assert(all[k as int] == lines@[k as int]@);
        if is_omarchy_line(lines[k].as_slice()) {
            return true;
        }
        k += 1;
    }
    false
}

/// The spacing of the numbers `u64 as f64` can hold near `b`: one below
/// 2^53, doubling with each further binary digit.
pub open spec fn f64_step(b: nat) -> nat {
    if b < 0x20_0000_0000_0000 {
        1
    } else if b < 0x40_0000_0000_0000 {
        2
    } else if b < 0x80_0000_0000_0000 {
        4
    } else if b < 0x100_0000_0000_0000 {
        8
    } else if b < 0x200_0000_0000_0000 {
        16
    } else if b < 0x400_0000_0000_0000 {
        32
    } else if b < 0x800_0000_0000_0000 {
        64
    } else if b < 0x1000_0000_0000_0000 {
        128
    } else if b < 0x2000_0000_0000_0000 {
        256
    } else if b < 0x4000_0000_0000_0000 {
        512
    } else if b < 0x8000_0000_0000_0000 {
        1024
    } else {
        2048
    }
}

/// `n / d` rounded to the nearest integer, halves to even.
pub open spec fn round_half_even(n: nat, d: nat) -> nat {
    let q = n / d;
    let r = n % d;
    if 2 * r > d || (2 * r == d && q % 2 == 1) {
        q + 1
    } else {
        q
    }
}

/// The value of `b as f64`: `b` rounded to the nearest multiple of its step,
/// halves to even.
pub open spec fn f64_value(b: nat) -> nat {
    round_half_even(b, f64_step(b)) * f64_step(b)
}

/// A count of tenths written with one decimal, as `{:.1}` writes it.
pub open spec fn one_decimal(tenths: nat) -> Seq<char> {
    decimal(tenths / 10) + seq!['.'] + decimal(tenths % 10)
}

/// The size label: whole bytes below a kilobyte, else kilobytes, megabytes or
/// gigabytes (of 1024) with one decimal, rounded as formatting an `f64`
/// rounds: to the nearest tenth of the value the `f64` holds, halves to
/// even.
pub open spec fn size_text(b: u64) -> Seq<char> {
    if b < 1024 {
        decimal(b as nat) + " B"@
    } else if b < 1024 * 1024 {
        one_decimal(round_half_even(b as nat * 10, 1024)) + " KB"@
    } else if b < 1024 * 1024 * 1024 {
        one_decimal(round_half_even(b as nat * 10, 1024 * 1024)) + " MB"@
    } else {
        one_decimal(round_half_even(f64_value(b as nat) * 10, 1024 * 1024 * 1024)) + " GB"@
    }
}

/// Rounds `n / d` to the nearest integer, halves to even.
fn round_even(n: u128, d: u128) -> (r: u128)
    requires
        0 < d < 0x1_0000_0000_0000_0000,
        n < u128::MAX / 4,
    ensures
        r == round_half_even(n as nat, d as nat),
        r <= n / d + 1,
{
    let q = n / d;
    let r = n % d;
    if 2 * r > d || (2 * r == d && q % 2 == 1) {
        q + 1
    } else {
        q
    }
}

/// The step of `u64 as f64` near `b`.
fn f64_step_of(b: u64) -> (r: u128)
    ensures
        r == f64_step(b as nat),
        r >= 1,
{
    if b < 0x20_0000_0000_0000 {
        1
    } else if b < 0x40_0000_0000_0000 {
        2
    } else if b < 0x80_0000_0000_0000 {
        4
    } else if b < 0x100_0000_0000_0000 {
        8
    } else if b < 0x200_0000_0000_0000 {
        16
    } else if b < 0x400_0000_0000_0000 {
        32
    } else if b < 0x800_0000_0000_0000 {
        64
    } else if b < 0x1000_0000_0000_0000 {
        128
    } else if b < 0x2000_0000_0000_0000 {
        256
    } else if b < 0x4000_0000_0000_0000 {
        512
    } else if b < 0x8000_0000_0000_0000 {
        1024
    } else {
        2048
    }
}

/// Writes a count of tenths with one decimal.
fn one_decimal_chars(tenths: u128) -> (r: Vec<char>)
    requires
        tenths <= u64::MAX,
    ensures
        r@ == one_decimal(tenths as nat),
{
    let whole = (tenths / 10) as u64;
    let frac = (tenths % 10) as u64;
    let mut out = decimal_chars(whole);
    out.push('.');
    extend_chars(&mut out, decimal_chars(frac).as_slice());
    out
}

/// A byte count as the interface shows it.
pub fn size_label(bytes: u64) -> (r: String)
    ensures
        r@ == size_text(bytes),
{
    if bytes < 1024 {
        let mut out = decimal_chars(bytes);
        extend_chars(&mut out, chars_of(" B").as_slice());
        return string_of(out.as_slice());
    }
    let (tenths, unit) = if bytes < 1024 * 1024 {
        let t = round_even(bytes as u128 * 10, 1024);
        (t, " KB")
    } else if bytes < 1024 * 1024 * 1024 {
        let t = round_even(bytes as u128 * 10, 1024 * 1024);
        (t, " MB")
    } else {
        let step = f64_step_of(bytes);
        let q = round_even(bytes as u128, step);
        proof {
            assert(q * step <= (bytes as u128 / step + 1) * step) by (nonlinear_arith)
                requires
                    q <= bytes as u128 / step + 1,
                    step >= 1,
            ;
            assert((bytes as u128 / step + 1) * step <= bytes as u128 + step) by (nonlinear_arith)
                requires
                    step >= 1,
            ;
        }
        let value = q * step;
        let t = round_even(value * 10, 1024 * 1024 * 1024);
        proof {
            assert((value * 10) as int / 0x4000_0000int <= 0x40_0000_0000) by (nonlinear_arith)
                requires
                    value <= 0xffff_ffff_ffff_ffff + 2048,
            ;
        }
        (t, " GB")
    };
    let mut out = one_decimal_chars(tenths);
    extend_chars(&mut out, chars_of(unit).as_slice());
    string_of(out.as_slice())
}

/// The devices shown in the nearby strip: all of them when expanded, else
/// the first row, with a selected device further down shown in its last
/// place.
pub open spec fn nearby_shown(total: usize, columns: usize, expanded: bool, selected: Option<usize>, r: Seq<usize>) -> bool {
    if expanded {
        &&& r.len() == total
        &&& forall|i: int| 0 <= i < r.len() ==> #[trigger] r[i] == i
    } else {
        let n: int = if total < columns { total as int } else { columns as int };
        &&& r.len() == n
        &&& forall|i: int| 0 <= i < n - 1 ==> #[trigger] r[i] == i
        &&& n > 0 ==> r[n - 1] == (match selected {
            Some(s) => if s < total && s >= columns {
                s as int
            } else {
                n - 1
            },
            None => n - 1,
        })
    }
}

/// The indices of the devices to show.
pub fn nearby_indices(total: usize, columns: usize, expanded: bool, selected: Option<usize>) -> (r: Vec<usize>)
    ensures
        nearby_shown(total, columns, expanded, selected, r@),
{
    let n = if expanded || total < columns {
        total
    } else {
        columns
    };
    let mut r: Vec<usize> = Vec::new();
    let mut i: usize = 0;
    while i < n
        invariant
            i <= n,
            r@.len() == i,
            forall|j: int| 0 <= j < i ==> #[trigger] r@[j] == j,
        decreases n - i,
    {
        r.push(i);
        i += 1;
    }
    if !expanded && n > 0 {
        match selected {
            Some(s) => {
                if s < total && s >= columns {
                    r.set(n - 1, s);
                }
            },
            None => {},
        }
    }
    r
}

/// Unicode upper case of a string.
pub uninterp spec fn uppercase(s: Seq<char>) -> Seq<char>;

/// `str::to_uppercase`. Unicode case mapping is named as a function of the
/// text; nothing more is stated of it.
#[verifier::external_body]
fn to_upper(s: &str) -> (r: String)
    ensures
        r@ == uppercase(s@),
{
    s.to_uppercase()
}

/// Number of leading characters before the first white space.
pub open spec fn word_end(s: Seq<char>) -> nat
    decreases s.len(),
{
    if s.len() > 0 && !is_white_space(s[0]) {
        word_end(s.drop_first()) + 1
    } else {
        0
    }
}

/// The first white-space separated word of `s`, empty when there is none.
pub open spec fn first_word(s: Seq<char>) -> Seq<char> {
    let t = s.subrange(leading_space(s) as int, s.len() as int);
    t.subrange(0, word_end(t) as int)
}

/// What follows the first word of `s`.
pub open spec fn after_first_word(s: Seq<char>) -> Seq<char> {
    let t = s.subrange(leading_space(s) as int, s.len() as int);
    t.subrange(word_end(t) as int, t.len() as int)
}

/// The letters of a device name's initials: the first letters of its first
/// two words, the first two letters of a single word, or `?` for a name
/// without words.
pub open spec fn initial_letters(name: Seq<char>) -> Seq<char> {
    let a = first_word(name);
    let b = first_word(after_first_word(name));
    if a.len() == 0 {
        "?"@
    } else if b.len() > 0 {
        seq![a[0], b[0]]
    } else {
        take_chars(a, 2)
    }
}

/// Counts the characters before the first white space.
fn word_end_len(s: &[char]) -> (r: usize)
    ensures
        r == word_end(s@),
        r <= s.len(),
{
    let mut n: usize = 0;
    assert(s@.subrange(0, s.len() as int) =~= s@);
    while n < s.len() && !white_space(s[n])
        invariant
            n <= s.len(),
            word_end(s@) == n + word_end(s@.subrange(n as int, s.len() as int)),
        decreases s.len() - n,
    {
        assert(s@.subrange(n as int, s.len() as int).drop_first() =~= s@.subrange(n + 1, s.len() as int));
        n += 1;
    }
    n
}

/// Splits off the first word: the word, and what follows it.
fn split_word(s: &[char]) -> (r: (Vec<char>, Vec<char>))
    ensures
        r.0@ == first_word(s@),
        r.1@ == after_first_word(s@),
{
    let start = crate::text::leading_space_len(s);
    let t = crate::text::slice_chars(s, start, s.len());
    let end = word_end_len(t.as_slice());
    (crate::text::slice_chars(t.as_slice(), 0, end), crate::text::slice_chars(t.as_slice(), end, t.len()))
}

/// The two letters shown for a device without a picture, upper-cased.
pub fn device_initials(name: &str) -> (r: String)
    ensures
        r@ == take_chars(uppercase(initial_letters(name@)), 2),
{
    let chars = chars_of(name);
    let (a, rest) = split_word(chars.as_slice());
    let (b, _) = split_word(rest.as_slice());
    let mut letters: Vec<char> = Vec::new();
    if a.len() == 0 {
        letters.push('?');
        proof {
            reveal_strlit("?");
        }
        assert(letters@ =~= "?"@);
    } else if b.len() > 0 {
        letters.push(a[0]);
        letters.push(b[0]);
        assert(letters@ =~= seq![a@[0], b@[0]]);
    } else {
        let n = if a.len() < 2 {
            a.len()
        } else {
            2
        };
        letters = crate::text::slice_chars(a.as_slice(), 0, n);
        assert(letters@ =~= take_chars(a@, 2));
    }
    let upper = chars_of(to_upper(string_of(letters.as_slice()).as_str()).as_str());
    let n = if upper.len() < 2 {
        upper.len()
    } else {
        2
    };
    let out = crate::text::slice_chars(upper.as_slice(), 0, n);
    assert(out@ =~= take_chars(upper@, 2));
    string_of(out.as_slice())
}

/// The numbers a transfer's progress line shows: bytes done, bytes in all,
/// and speed. For one item of a send, at `offset` with `size` bytes, the
/// bytes are counted within the item, and the speed only while the item is
/// the one in flight.
pub open spec fn progress_numbers(transferred: u64, total: u64, speed: u64, item: Option<(u64, u64)>) -> (u64, u64, u64) {
    match item {
        Some((offset, size)) => {
            let done: int = if transferred >= offset { transferred - offset } else { 0 };
            let end: int = if offset + size > u64::MAX { u64::MAX as int } else { offset + size };
            (
                (if done < size { done } else { size as int }) as u64,
                size,
                if transferred < offset || transferred >= end { 0 } else { speed },
            )
        },
        None => (transferred, total, speed),
    }
}

/// The numbers of a transfer's progress line, for the whole transfer or one
/// of its items.
pub fn transfer_progress_numbers(transfer: &Transfer, item: Option<(u64, u64)>) -> (r: (u64, u64, u64))
    ensures
        r == progress_numbers(transfer.transferred, transfer.total, transfer.rate.bytes_per_second, item),
{
    let speed = transfer.bytes_per_second();
    match item {
        Some((offset, size)) => {
            let done = transfer.transferred.saturating_sub(offset);
            let done = if done < size {
                done
            } else {
                size
            };
            let quiet = transfer.transferred < offset || transfer.transferred >= offset.saturating_add(size);
            (done, size, if quiet {
                0
            } else {
                speed
            })
        },
        None => (transfer.transferred, transfer.total, speed),
    }
}

/// The word a transfer's status is shown with.
pub open spec fn status_word(t: Transfer) -> Seq<char> {
    match t.status {
        TransferStatus::Active => if t.awaiting_acceptance {
            "Waiting for receiver"@
        } else if t.sending {
            "Sending"@
        } else {
            "Receiving"@
        },
        TransferStatus::Completed => if t.sending {
            "Sent"@
        } else {
            "Received"@
        },
        TransferStatus::Cancelled => "Cancelled"@,
        TransferStatus::Failed(_) => "Failed"@,
    }
}

/// The word a transfer's status is shown with; a failure shows its error
/// instead.
pub fn transfer_status_word(transfer: &Transfer) -> (r: &'static str)
    ensures
        r@ == status_word(*transfer),
{
    match &transfer.status {
        TransferStatus::Active => if transfer.awaiting_acceptance {
            "Waiting for receiver"
        } else if transfer.sending {
            "Sending"
        } else {
            "Receiving"
        },
        TransferStatus::Completed => if transfer.sending {
            "Sent"
        } else {
            "Received"
        },
        TransferStatus::Cancelled => "Cancelled",
        TransferStatus::Failed(_) => "Failed",
    }
}

/// What covers the main screen.
#[derive(Clone, Copy, Debug, PartialEq, Eq, Structural)]
pub struct Overlays {
    pub about_open: bool,
    pub logs_open: bool,
    pub history_expanded: bool,
    pub preview_open: bool,
    pub request_open: bool,
}

/// Whether anything covers the main screen.
pub open spec fn covered(o: Overlays) -> bool {
    o.about_open || o.logs_open || o.history_expanded || o.preview_open || o.request_open
}

/// New input (pasting, adding files) is taken only while nothing is being
/// prepared and nothing covers the main screen.
pub fn accepts_input(loading_input: bool, overlays: Overlays) -> (r: bool)
    ensures
        r == (!loading_input && !covered(overlays)),
{
    !(loading_input || overlays.history_expanded || overlays.logs_open || overlays.about_open || overlays.preview_open
        || overlays.request_open)
}

/// What Escape does.
#[derive(Debug, PartialEq, Eq)]
pub enum BackAction {
    CloseAbout,
    CloseLogs,
    CloseHistory,
    ClosePreview,
    DeclineRequest,
    /// Cancel the most recent transfer still in progress.
    CancelTransfer(String),
    /// Nothing to leave: clear the error and return to the main screen.
    ClearError,
}

/// The position of the most recent active transfer among the first `n`.
pub open spec fn last_active(ts: Seq<Transfer>, n: int) -> Option<int>
    decreases n,
{
    if n <= 0 {
        None
    } else if ts[n - 1].status is Active {
        Some(n - 1)
    } else {
        last_active(ts, n - 1)
    }
}

/// Escape leaves the innermost layer first: the about box, the logs, the
/// history, a preview, a pending request (declined); then it cancels the
/// most recent transfer in progress; else it clears the error.
pub open spec fn back_target(o: Overlays, ts: Seq<Transfer>, r: BackAction) -> bool {
    if o.about_open {
        r == BackAction::CloseAbout
    } else if o.logs_open {
        r == BackAction::CloseLogs
    } else if o.history_expanded {
        r == BackAction::CloseHistory
    } else if o.preview_open {
        r == BackAction::ClosePreview
    } else if o.request_open {
        r == BackAction::DeclineRequest
    } else {
        match last_active(ts, ts.len() as int) {
            Some(k) => r == BackAction::CancelTransfer(ts[k].id),
            None => r == BackAction::ClearError,
        }
    }
}

/// What Escape does now.
pub fn back_action(overlays: Overlays, transfers: &Vec<Transfer>) -> (r: BackAction)
    ensures
        back_target(overlays, transfers@, r),
{
    if overlays.about_open {
        return BackAction::CloseAbout;
    }
    if overlays.logs_open {
        return BackAction::CloseLogs;
    }
    if overlays.history_expanded {
        return BackAction::CloseHistory;
    }
    if overlays.preview_open {
        return BackAction::ClosePreview;
    }
    if overlays.request_open {
        return BackAction::DeclineRequest;
    }
    let mut n: usize = transfers.len();
    while n > 0
        invariant
            n <= transfers@.len(),
            !covered(overlays),
            last_active(transfers@, transfers@.len() as int) == last_active(transfers@, n as int),
        decreases n,
    {
        match transfers[n - 1].status {
            TransferStatus::Active => {
                assert(last_active(transfers@, n as int) == Some(n - 1));
                let id = transfers[n - 1].id.clone();
                return BackAction::CancelTransfer(id);
            },
            _ => {},
        }
        n -= 1;
    }
    BackAction::ClearError
}

/// Whether the send button acts: the network node runs, a listed device is
/// selected, the composer holds something, no send is in progress and no
/// input is being prepared.
pub open spec fn sendable(node_ready: bool, state: AppState, loading_input: bool) -> bool {
    &&& node_ready
    &&& selected_position(state.devices@, state.selected) is Some
    &&& state.composer@.len() > 0
    &&& !(exists|k: int| 0 <= k < state.transfers@.len() && (#[trigger] state.transfers@[k]).sending && is_active(
        state.transfers@[k],
    ))
    &&& !loading_input
}

/// Whether the send button acts now.
pub fn can_send(node_ready: bool, state: &AppState, loading_input: bool) -> (r: bool)
    ensures
        r == sendable(node_ready, *state, loading_input),
{
    node_ready && state.selected_device().is_some() && state.composer.len() > 0 && !state.sending() && !loading_input
}

/// The word on the send button.
pub open spec fn send_word(ts: Seq<Transfer>) -> Seq<char> {
    if exists|k: int| 0 <= k < ts.len() && (#[trigger] ts[k]).sending && ts[k].status is Active && ts[k].awaiting_acceptance {
        "Waiting for receiver"@
    } else if exists|k: int| 0 <= k < ts.len() && (#[trigger] ts[k]).sending && ts[k].status is Active {
        "Sending"@
    } else {
        "Send"@
    }
}

/// The word on the send button for these transfers.
pub fn send_button_word(transfers: &Vec<Transfer>) -> (r: &'static str)
    ensures
        r@ == send_word(transfers@),
{
    let mut waiting = false;
    let mut sending = false;
    let mut k: usize = 0;
    while k < transfers.len()
        invariant
            k <= transfers@.len(),
            waiting == exists|j: int| 0 <= j < k && (#[trigger] transfers@[j]).sending && transfers@[j].status is Active
                && transfers@[j].awaiting_acceptance,
            sending == exists|j: int| 0 <= j < k && (#[trigger] transfers@[j]).sending && transfers@[j].status is Active,
        decreases transfers@.len() - k,
    {
        let t = &transfers[k];
        let active = match t.status {
            TransferStatus::Active => true,
            _ => false,
        };
        if t.sending && active {
            sending = true;
            if t.awaiting_acceptance {
                waiting = true;
            }
        }
        k += 1;
    }
    if waiting {
        "Waiting for receiver"
    } else if sending {
        "Sending"
    } else {
        "Send"
    }
}

/// The connection word of the status bar.
pub open spec fn connection_word(starting: bool, connected: bool, devices: nat) -> Seq<char> {
    if starting {
        "Connecting…"@
    } else if !connected {
        "Disconnected"@
    } else if devices == 0 {
        "Searching for devices…"@
    } else {
        "Connected"@
    }
}

/// The connection word of the status bar.
pub fn connection_status(starting: bool, connected: bool, devices: usize) -> (r: &'static str)
    ensures
        r@ == connection_word(starting, connected, devices as nat),
{
    if starting {
        "Connecting…"
    } else if !connected {
        "Disconnected"
    } else if devices == 0 {
        "Searching for devices…"
    } else {
        "Connected"
    }
}

/// A stored preference reads back as the mode it was stored from.
pub proof fn theme_preference_round_trips(mode: ThemeMode)
    ensures
        parsed_mode(mode_word(mode)) == mode,
{
    reveal_strlit("system");
    reveal_strlit("light");
    reveal_strlit("dark");
    let w = mode_word(mode);
    assert(crate::text::leading_space(w) == 0);
    assert(crate::text::trailing_space(w.subrange(0, w.len() as int)) == 0);
    assert(w.subrange(0, w.len() as int) =~= w);
    assert(w.subrange(0, w.len() - 0) =~= w);
    assert(trim(w) == w);
}

} // verus!
