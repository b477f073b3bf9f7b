//! What a sender offers, and how the receiver's answer is checked before any
//! byte is uploaded.
use vstd::prelude::*;
use super::OfferedFile;
use super::receive::{relative_path, PathError, relative_path_ok, path_error_of};
use crate::text::{chars_of, take_chars, slice_chars, string_of, decimal, decimal_chars, str_eq};

verus! {

/// Where the bytes of an upload come from.
#[derive(Debug)]
pub enum UploadContent {
    File(std::path::PathBuf),
    Text(String),
}

/// One file of an outgoing offer.
#[derive(Debug)]
pub struct Upload {
    pub offer: OfferedFile,
    pub content: UploadContent,
    /// Keeps a clipboard file alive while an upload still needs it.
    pub keep_alive: Option<std::sync::Arc<tempfile::TempPath>>,
}

/// The media type that `mime_guess` assigns to a file name, by its extension.
pub uninterp spec fn spec_guess_mime(name: Seq<char>) -> Seq<char>;

/// `mime_guess::from_path(name).first_or_octet_stream()`, rendered as text.
#[verifier::external_body]
fn guess_mime(name: &str) -> (r: String)
    ensures
        r@ == spec_guess_mime(name@),
{
    mime_guess::from_path(std::path::Path::new(name)).first_or_octet_stream().to_string()
}

/// What the caller read of a file before offering it.
#[derive(Clone, Copy, Debug, PartialEq, Eq, Structural)]
pub struct FileFacts {
    pub is_file: bool,
    pub len: u64,
}

/// Why a file cannot be offered.
#[derive(Debug, PartialEq, Eq)]
pub enum UploadError {
    Name(PathError),
    NotRegularFile,
}

impl Upload {
    /// A text message, offered as `Message.txt` of its UTF-8 length.
    pub fn text(text: String) -> (r: Upload)
        ensures
            r.offer.name@ == "Message.txt"@,
            r.offer.size == (vstd::utf8::encode_utf8(text@).len() as usize) as u64,
            r.offer.mime@ == "text/plain"@,
            r.content == UploadContent::Text(text),
            r.keep_alive is None,
    {
        let size = text.as_str().len() as u64;
        Upload {
            offer: OfferedFile {
                name: String::from_str("Message.txt"),
                size,
                mime: String::from_str("text/plain"),
            },
            content: UploadContent::Text(text),
            keep_alive: None,
        }
    }

    /// A file at `path`, offered under the relative `name`, given what the
    /// caller read of it. The name must be a safe relative path and the file
    /// a regular one; its type is guessed from the name's extension.
    pub fn file(path: std::path::PathBuf, name: String, facts: FileFacts) -> (r: Result<
        Upload,
        UploadError,
    >)
        ensures
            !relative_path_ok(name@) ==> r == Err::<Upload, UploadError>(
                UploadError::Name(path_error_of(name@)),
            ),
            relative_path_ok(name@) && !facts.is_file ==> r == Err::<Upload, UploadError>(
                UploadError::NotRegularFile,
            ),
            relative_path_ok(name@) && facts.is_file ==> (r matches Ok(u) && u.offer.name == name
                && u.offer.size == facts.len && u.offer.mime@ == spec_guess_mime(name@)
                && u.content == UploadContent::File(path) && u.keep_alive is None),
    {
        match relative_path(name.as_str()) {
            Err(error) => return Err(UploadError::Name(error)),
            Ok(_) => {},
        }
        if !facts.is_file {
            return Err(UploadError::NotRegularFile);
        }
        let mime = guess_mime(name.as_str());
        Ok(Upload {
            offer: OfferedFile { name, size: facts.len, mime },
            content: UploadContent::File(path),
            keep_alive: None,
        })
    }

    /// The preview the protocol carries for a text message: its first 500
    /// characters. Files carry none.
    pub fn preview(&self) -> (r: Option<String>)
        ensures
            match self.content {
                UploadContent::Text(t) => (r matches Some(p) && p@ == take_chars(t@, 500)),
                UploadContent::File(_) => r is None,
            },
    {
        match &self.content {
            UploadContent::Text(text) => {
                let chars = chars_of(text.as_str());
                let end = if chars.len() < 500 {
                    chars.len()
                } else {
                    500
                };
                let taken = slice_chars(chars.as_slice(), 0, end);
                assert(taken@ =~= take_chars(text@, 500));
                Some(string_of(taken.as_slice()))
            },
            UploadContent::File(_) => None,
        }
    }
}

/// Why a receiver's answer to an offer is refused.
#[derive(Debug, PartialEq, Eq)]
pub enum AnswerError {
    NothingAccepted,
    UnknownFileId,
    TooLarge,
}

impl AnswerError {
    /// The message shown for this failure.
    pub fn message(&self) -> (r: String)
        ensures
            r@ == match self {
                AnswerError::NothingAccepted => "The receiver accepted no files"@,
                AnswerError::UnknownFileId => "Receiver returned an unknown file ID"@,
                AnswerError::TooLarge => "Transfer is too large"@,
            },
    {
        match self {
            AnswerError::NothingAccepted => String::from_str("The receiver accepted no files"),
            AnswerError::UnknownFileId => String::from_str("Receiver returned an unknown file ID"),
            AnswerError::TooLarge => String::from_str("Transfer is too large"),
        }
    }
}

/// An id names an offered upload when it reads as an index below `count`.
pub open spec fn names_upload(id: Seq<char>, count: nat) -> bool {
    match crate::text::parse_index(id) {
        Some(i) => i < count,
        None => false,
    }
}

/// Upload `i` is accepted when the answer holds its index in decimal.
pub open spec fn is_accepted(accepted: Seq<String>, i: nat) -> bool {
    exists|k: int| 0 <= k < accepted.len() && accepted[k]@ == decimal(i)
}

/// The indices of the accepted uploads among the first `n`, in offer order.
pub open spec fn accepted_indices(accepted: Seq<String>, n: nat) -> Seq<usize>
    decreases n,
{
    if n == 0 {
        Seq::empty()
    } else if is_accepted(accepted, (n - 1) as nat) {
        accepted_indices(accepted, (n - 1) as nat).push((n - 1) as usize)
    } else {
        accepted_indices(accepted, (n - 1) as nat)
    }
}

/// The sum of the sizes of the accepted uploads among the first `n`.
pub open spec fn accepted_size(sizes: Seq<u64>, accepted: Seq<String>, n: nat) -> int
    decreases n,
{
    if n == 0 {
        0
    } else if is_accepted(accepted, (n - 1) as nat) {
        accepted_size(sizes, accepted, (n - 1) as nat) + sizes[n - 1]
    } else {
        accepted_size(sizes, accepted, (n - 1) as nat)
    }
}

/// Which uploads the receiver accepted, and their total size.
#[derive(Debug)]
pub struct AcceptedPlan {
    pub indices: Vec<usize>,
    pub total: u64,
}

/// Checks a receiver's answer (the file ids it accepted) against offered
/// uploads of the given sizes: the answer must accept something, every id must
/// name an offered upload, and the accepted sizes must fit in a `u64`. The
/// plan lists the accepted uploads in offer order.
pub fn accepted_plan(sizes: &Vec<u64>, accepted: &Vec<String>) -> (r: Result<AcceptedPlan, AnswerError>)
    ensures
        accepted@.len() == 0 ==> r == Err::<AcceptedPlan, AnswerError>(AnswerError::NothingAccepted),
        accepted@.len() > 0 && !(forall|k: int| 0 <= k < accepted@.len() ==> names_upload(#[trigger] accepted@[k]@, sizes@.len()))
            ==> r == Err::<AcceptedPlan, AnswerError>(AnswerError::UnknownFileId),
        accepted@.len() > 0 && (forall|k: int| 0 <= k < accepted@.len() ==> names_upload(#[trigger] accepted@[k]@, sizes@.len()))
            ==> (if accepted_size(sizes@, accepted@, sizes@.len()) > u64::MAX {
                r == Err::<AcceptedPlan, AnswerError>(AnswerError::TooLarge)
            } else {
                (r matches Ok(plan) && plan.total == accepted_size(sizes@, accepted@, sizes@.len())
                    && plan.indices@ == accepted_indices(accepted@, sizes@.len()))
            }),
{
    if accepted.len() == 0 {
        return Err(AnswerError::NothingAccepted);
    }
    let mut k: usize = 0;
    while k < accepted.len()
        invariant
            k <= accepted.len(),
            forall|j: int| 0 <= j < k ==> names_upload(#[trigger] accepted@[j]@, sizes@.len()),
        decreases accepted.len() - k,
    {
        let chars = chars_of(accepted[k].as_str());
        assert(chars@ == accepted@[k as int]@);
        match crate::text::parse_index_chars(chars.as_slice()) {
            Some(i) => {
                if i >= sizes.len() as u64 {
                    assert(crate::text::parse_index(chars@) == Some(i as nat));
                    assert(crate::text::parse_index(accepted@[k as int]@) == Some(i as nat));
                    assert(i as nat >= sizes@.len());
                    assert(!names_upload(accepted@[k as int]@, sizes@.len()));
                    return Err(AnswerError::UnknownFileId);
                }
            },
            None => {
                assert(sizes@.len() == sizes.len() as nat);
                assert(!names_upload(accepted@[k as int]@, sizes@.len()));
                return Err(AnswerError::UnknownFileId);
            },
        }
        k += 1;
    }
    let mut indices: Vec<usize> = Vec::new();
    let mut total: u64 = 0;
    let mut i: usize = 0;
    while i < sizes.len()
        invariant
            i <= sizes.len(),
            accepted@.len() > 0,
            forall|k: int| 0 <= k < accepted@.len() ==> names_upload(#[trigger] accepted@[k]@, sizes@.len()),
            total == accepted_size(sizes@, accepted@, i as nat),
            indices@ == accepted_indices(accepted@, i as nat),
        decreases sizes.len() - i,
    {
        if contains_index(accepted, i) {
            if sizes[i] > u64::MAX - total {
                proof {
                    lemma_accepted_size_grows(sizes@, accepted@, (i + 1) as nat, sizes@.len());
                }
                return Err(AnswerError::TooLarge);
            }
            total = total + sizes[i];
            indices.push(i);
        }
        i += 1;
    }
    Ok(AcceptedPlan { indices, total })
}

/// Sizes are never negative, so the accepted size only grows with `n`.
proof fn lemma_accepted_size_grows(sizes: Seq<u64>, accepted: Seq<String>, m: nat, n: nat)
    requires
        m <= n <= sizes.len(),
    ensures
        accepted_size(sizes, accepted, m) <= accepted_size(sizes, accepted, n),
    decreases n,
{
    if m < n {
        lemma_accepted_size_grows(sizes, accepted, m, (n - 1) as nat);
    }
}

/// Whether the answer holds the decimal index `i`.
fn contains_index(accepted: &Vec<String>, i: usize) -> (r: bool)
    ensures
        r == is_accepted(accepted@, i as nat),
{
    let digits = decimal_chars(i as u64);
    let name = string_of(digits.as_slice());
    let mut k: usize = 0;
    while k < accepted.len()
        invariant
            k <= accepted.len(),
            name@ == decimal(i as nat),
            forall|j: int| 0 <= j < k ==> accepted@[j]@ != decimal(i as nat),
        decreases accepted.len() - k,
    {
        if str_eq(accepted[k].as_str(), name.as_str()) {
            return true;
        }
        k += 1;
    }
    false
}

/// Why a send stops.
#[derive(Debug, PartialEq, Eq)]
pub enum SendError {
    /// There was nothing to offer.
    NothingToSend,
    /// The receiver did not answer the offer in time.
    NoResponse,
    Cancelled,
    /// A file's size differs from the size that was offered.
    Changed(String),
    /// The receiver took fewer items than were offered.
    PartlyAccepted { accepted: usize, offered: usize },
}

/// The message of each reason.
pub open spec fn send_error_text(e: SendError) -> Seq<char> {
    match e {
        SendError::NothingToSend => "Add something to send first"@,
        SendError::NoResponse => "The receiver did not respond"@,
        SendError::Cancelled => "Transfer cancelled"@,
        SendError::Changed(name) => name@ + " changed since it was added"@,
        SendError::PartlyAccepted { accepted, offered } => "Receiver accepted only "@ + decimal(accepted as nat)
            + " of "@ + decimal(offered as nat) + " items"@,
    }
}

impl SendError {
    /// The message shown for this reason.
    pub fn message(&self) -> (r: String)
        ensures
            r@ == send_error_text(*self),
    {
        match self {
            SendError::NothingToSend => "Add something to send first".to_owned(),
            SendError::NoResponse => "The receiver did not respond".to_owned(),
            SendError::Cancelled => "Transfer cancelled".to_owned(),
            SendError::Changed(name) => {
                let mut out = chars_of(name.as_str());
                crate::text::extend_chars(&mut out, chars_of(" changed since it was added").as_slice());
                string_of(out.as_slice())
            },
            SendError::PartlyAccepted { accepted, offered } => {
                let mut out = chars_of("Receiver accepted only ");
                crate::text::extend_chars(&mut out, decimal_chars(*accepted as u64).as_slice());
                crate::text::extend_chars(&mut out, chars_of(" of ").as_slice());
                crate::text::extend_chars(&mut out, decimal_chars(*offered as u64).as_slice());
                crate::text::extend_chars(&mut out, chars_of(" items").as_slice());
                string_of(out.as_slice())
            },
        }
    }
}

/// A send needs something to offer.
pub fn check_uploads(count: usize) -> (r: Result<(), SendError>)
    ensures
        r is Ok <==> count > 0,
        count == 0 ==> r == Err::<(), SendError>(SendError::NothingToSend),
{
    if count == 0 {
        Err(SendError::NothingToSend)
    } else {
        Ok(())
    }
}

/// Each upload starts only while the send is not cancelled.
pub fn before_upload(cancelled: bool) -> (r: Result<(), SendError>)
    ensures
        r is Ok <==> !cancelled,
        cancelled ==> r == Err::<(), SendError>(SendError::Cancelled),
{
    if cancelled {
        Err(SendError::Cancelled)
    } else {
        Ok(())
    }
}

/// A file is sent only while it still has the size that was offered.
pub fn file_unchanged(name: &str, actual: u64, offered: u64) -> (r: Result<(), SendError>)
    ensures
        r is Ok <==> actual == offered,
        r matches Err(SendError::Changed(n)) ==> n@ == name@,
        actual != offered ==> r matches Err(SendError::Changed(_)),
{
    if actual == offered {
        Ok(())
    } else {
        Err(SendError::Changed(name.to_owned()))
    }
}

/// Once every accepted item is sent, a partly accepted selection is a
/// failure, so items the receiver refused are not dropped silently.
pub fn all_accepted(accepted: usize, offered: usize) -> (r: Result<(), SendError>)
    ensures
        r is Ok <==> accepted == offered,
        accepted != offered ==> r == Err::<(), SendError>(SendError::PartlyAccepted { accepted, offered }),
{
    if accepted == offered {
        Ok(())
    } else {
        Err(SendError::PartlyAccepted { accepted, offered })
    }
}

/// The sizes of the uploads at the positions `idx`, added up.
pub open spec fn sizes_at(sizes: Seq<u64>, idx: Seq<usize>) -> int
    decreases idx.len(),
{
    if idx.len() == 0 {
        0
    } else {
        sizes_at(sizes, idx.drop_last()) + sizes[idx.last() as int]
    }
}

/// A plan's uploads are exactly those the receiver accepted, in offer order,
/// and its total is the sum of their sizes: an upload the receiver did not
/// accept adds nothing.
pub proof fn plan_counts_only_accepted_uploads(sizes: Seq<u64>, accepted: Seq<String>, n: nat)
    requires
        n <= sizes.len(),
        sizes.len() <= usize::MAX,
    ensures
        accepted_size(sizes, accepted, n) == sizes_at(sizes, accepted_indices(accepted, n)),
        forall|j: int| 0 <= j < accepted_indices(accepted, n).len() ==> {
            let i = #[trigger] accepted_indices(accepted, n)[j];
            i < n && is_accepted(accepted, i as nat)
        },
        forall|i: nat| i < n && is_accepted(accepted, i) ==> accepted_indices(accepted, n).contains(i as usize),
        forall|a: int, b: int| 0 <= a < b < accepted_indices(accepted, n).len() ==> #[trigger] accepted_indices(accepted, n)[a]
            < #[trigger] accepted_indices(accepted, n)[b],
    decreases n,
{
    if n > 0 {
        let m = (n - 1) as nat;
        plan_counts_only_accepted_uploads(sizes, accepted, m);
        let prev = accepted_indices(accepted, m);
        let cur = accepted_indices(accepted, n);
        if is_accepted(accepted, m) {
            assert(cur == prev.push(m as usize));
            assert(cur.drop_last() =~= prev);
            assert(cur.last() as int == m);
            assert forall|j: int| 0 <= j < cur.len() implies {
                let i = #[trigger] cur[j];
                i < n && is_accepted(accepted, i as nat)
            } by {
                if j < prev.len() {
                    assert(cur[j] == prev[j]);
                }
            }
            assert forall|a: int, b: int| 0 <= a < b < cur.len() implies #[trigger] cur[a] < #[trigger] cur[b] by {
                assert(cur[a] == prev[a]);
                if b < prev.len() {
                    assert(cur[b] == prev[b]);
                }
            }
            assert forall|i: nat| i < n && is_accepted(accepted, i) implies cur.contains(i as usize) by {
                if i < m {
                    let w = choose|w: int| 0 <= w < prev.len() && prev[w] == i as usize;
                    assert(cur[w] == i as usize);
                } else {
                    assert(cur[prev.len() as int] == i as usize);
                }
            }
        } else {
            assert(cur == prev);
        }
    }
}

} // verus!
