//! Rules for accepting incoming files: which names may be written beneath the
//! Downloads folder, how a clashing name is renamed, and how a stream of
//! chunks is held to the offered size and checksum.
use vstd::prelude::*;
use crate::system::{path_of, path_from};
use crate::text::{chars_of, string_of, slice_chars, extend_chars, decimal, decimal_chars, trim, trim_chars, split_on, split_chars, views, ascii_lowercase, to_ascii_lowercase, str_eq};

verus! {

/// Why an offered file name is refused.
#[derive(Clone, Copy, Debug, PartialEq, Eq, Structural)]
pub enum PathError {
    InvalidName,
    UnsafePath,
}

impl PathError {
    /// The message shown for this refusal.
    pub fn message(&self) -> (r: String)
        ensures
            r@ == match self {
                PathError::InvalidName => "Invalid file name"@,
                PathError::UnsafePath => "Unsafe relative file path"@,
            },
    {
        match self {
            PathError::InvalidName => String::from_str("Invalid file name"),
            PathError::UnsafePath => String::from_str("Unsafe relative file path"),
        }
    }
}

/// A name is well formed when it is not empty and holds no backslash, colon
/// or NUL character.
pub open spec fn well_formed_name(name: Seq<char>) -> bool {
    &&& name.len() > 0
    &&& !name.contains('\\')
    &&& !name.contains(':')
    &&& !name.contains('\0')
}

/// A path component that names something beneath its parent.
pub open spec fn safe_segment(part: Seq<char>) -> bool {
    part.len() > 0 && part != seq!['.'] && part != seq!['.', '.']
}

/// Every `/`-separated component is a safe segment; in particular the name
/// is relative and never climbs out of its folder.
pub open spec fn safe_segments(name: Seq<char>) -> bool {
    forall|k: int| 0 <= k < split_on(name, '/').len() ==> safe_segment(#[trigger] split_on(name, '/')[k])
}

pub open spec fn relative_path_ok(name: Seq<char>) -> bool {
    well_formed_name(name) && safe_segments(name)
}

/// The refusal for a name that is not a safe relative path.
pub open spec fn path_error_of(name: Seq<char>) -> PathError {
    if !well_formed_name(name) {
        PathError::InvalidName
    } else {
        PathError::UnsafePath
    }
}

/// Checks that `name` is a safe relative path for a received file: well
/// formed, and made of components that are neither empty, `.` nor `..`.
pub fn relative_path(name: &str) -> (r: Result<std::path::PathBuf, PathError>)
    ensures
        r is Ok <==> relative_path_ok(name@),
        r matches Ok(p) ==> p == path_of(name@),
        r matches Err(e) ==> e == path_error_of(name@),
{
    let chars = chars_of(name);
    if chars.len() == 0 {
        return Err(PathError::InvalidName);
    }
    let mut i: usize = 0;
    while i < chars.len()
        invariant
            i <= chars.len(),
            chars@ == name@,
            forall|j: int| 0 <= j < i ==> chars@[j] != '\\' && chars@[j] != ':' && chars@[j] != '\0',
        decreases chars.len() - i,
    {
        let c = chars[i];
        if c == '\\' || c == ':' || c == '\0' {
            assert(name@.contains(c));
            return Err(PathError::InvalidName);
        }
        i += 1;
    }
    assert(!name@.contains('\\') && !name@.contains(':') && !name@.contains('\0')) by {
        assert forall|j: int| 0 <= j < name@.len() implies name@[j] != '\\' && name@[j] != ':'
            && name@[j] != '\0' by {
            assert(chars@[j] == name@[j]);
        }
    }
    let parts = split_chars(chars.as_slice(), '/', 0);
    assert(chars@.subrange(0, chars@.len() as int) =~= name@);
    let mut k: usize = 0;
    while k < parts.len()
        invariant
            k <= parts.len(),
            views(parts@) == split_on(name@, '/'),
            well_formed_name(name@),
            forall|j: int| 0 <= j < k ==> safe_segment(#[trigger] split_on(name@, '/')[j]),
        decreases parts.len() - k,
    {
        let part = &parts[k];
        assert(part@ == split_on(name@, '/')[k as int]);
        if part.len() == 0 || (part.len() == 1 && part[0] == '.') || (part.len() == 2 && part[0]
            == '.' && part[1] == '.') {
            proof {
                if part@.len() == 1 {
                    assert(part@ =~= seq!['.']);
                }
                if part@.len() == 2 {
                    assert(part@ =~= seq!['.', '.']);
                }
            }
            return Err(PathError::UnsafePath);
        }
        proof {
            if part@ == seq!['.'] {
                assert(part@.len() == 1);
            }
            if part@ == seq!['.', '.'] {
                assert(part@.len() == 2);
            }
        }
        k += 1;
    }
    Ok(path_from(name))
}

/// The stem and extension of a file name as `Path::file_stem` and
/// `Path::extension` read them: split at the last `.`, unless that dot starts
/// the name.
pub open spec fn last_dot(name: Seq<char>) -> Option<int>
    decreases name.len(),
{
    if name.len() == 0 {
        None
    } else if name.last() == '.' {
        Some(name.len() - 1)
    } else {
        last_dot(name.drop_last())
    }
}

pub open spec fn stem_of(name: Seq<char>) -> Seq<char> {
    match last_dot(name) {
        Some(i) => if i > 0 { name.subrange(0, i) } else { name },
        None => name,
    }
}

pub open spec fn extension_of(name: Seq<char>) -> Option<Seq<char>> {
    match last_dot(name) {
        Some(i) => if i > 0 { Some(name.subrange(i + 1, name.len() as int)) } else { None },
        None => None,
    }
}

/// The name tried for the `index`-th attempt at publishing `name`: the name
/// itself first, then `stem (index).extension`.
pub open spec fn candidate(name: Seq<char>, index: u32) -> Seq<char> {
    if index == 0 {
        name
    } else {
        stem_of(name) + " ("@ + decimal(index as nat) + ")"@ + match extension_of(name) {
            Some(ext) => seq!['.'] + ext,
            None => Seq::empty(),
        }
    }
}

proof fn lemma_last_dot_bounds(name: Seq<char>)
    ensures
        last_dot(name) matches Some(i) ==> 0 <= i < name.len() && name[i] == '.',
        last_dot(name) is None ==> !name.contains('.'),
    decreases name.len(),
{
    if name.len() > 0 && name.last() != '.' {
        lemma_last_dot_bounds(name.drop_last());
        if last_dot(name) is None {
            assert forall|j: int| 0 <= j < name.len() implies name[j] != '.' by {
                if j < name.len() - 1 {
                    assert(name.drop_last()[j] == name[j]);
                }
            }
        }
    }
}

/// Position of the last `.` in `name`.
fn find_last_dot(name: &[char]) -> (r: Option<usize>)
    ensures
        r matches Some(i) ==> last_dot(name@) == Some(i as int),
        r is None ==> last_dot(name@) is None,
{
    let mut n = name.len();
    assert(name@.subrange(0, n as int) =~= name@);
    while n > 0
        invariant
            n <= name.len(),
            last_dot(name@) == last_dot(name@.subrange(0, n as int)),
        decreases n,
    {
        if name[n - 1] == '.' {
            return Some(n - 1);
        }
        assert(name@.subrange(0, n as int).drop_last() =~= name@.subrange(0, n - 1));
        n -= 1;
    }
    None
}

/// The `index`-th name to try when publishing a received file called `name`
/// (a final path component), so that an existing file is never replaced.
pub fn candidate_name(name: &str, index: u32) -> (r: String)
    ensures
        r@ == candidate(name@, index),
{
    if index == 0 {
        let r = String::from_str(name);
        return r;
    }
    let chars = chars_of(name);
    let dot = find_last_dot(chars.as_slice());
    proof {
        lemma_last_dot_bounds(name@);
    }
    let mut out: Vec<char> = Vec::new();
    let (stem_end, ext): (usize, Option<usize>) = match dot {
        Some(i) => if i > 0 {
            (i, Some(i))
        } else {
            (chars.len(), None)
        },
        None => (chars.len(), None),
    };
    let stem = slice_chars(chars.as_slice(), 0, stem_end);
    extend_chars(&mut out, stem.as_slice());
    let open = chars_of(" (");
    extend_chars(&mut out, open.as_slice());
    let digits = decimal_chars(index as u64);
    extend_chars(&mut out, digits.as_slice());
    let close = chars_of(")");
    extend_chars(&mut out, close.as_slice());
    match ext {
        Some(i) => {
            let tail = slice_chars(chars.as_slice(), i, chars.len());
            extend_chars(&mut out, tail.as_slice());
            assert(tail@ =~= seq!['.'] + name@.subrange(i + 1, name@.len() as int));
        },
        None => {},
    }
    assert(stem@ =~= stem_of(name@));
    assert(out@ =~= candidate(name@, index));
    string_of(out.as_slice())
}

/// Why a received stream is refused.
#[derive(Clone, Copy, Debug, PartialEq, Eq, Structural)]
pub enum ReceiveError {
    SizeOverflow,
    Overlong,
    Incomplete { received: u64, offered: u64 },
    ChecksumMismatch,
    Cancelled,
    Stalled,
}

/// The message of each refusal.
pub open spec fn receive_error_text(e: ReceiveError) -> Seq<char> {
    match e {
        ReceiveError::SizeOverflow => "File size overflow"@,
        ReceiveError::Overlong => "Received more data than offered"@,
        ReceiveError::Incomplete { received, offered } => "Incomplete file: received "@ + decimal(received as nat)
            + " of "@ + decimal(offered as nat) + " bytes"@,
        ReceiveError::ChecksumMismatch => "File checksum did not match"@,
        ReceiveError::Cancelled => "Transfer cancelled"@,
        ReceiveError::Stalled => "Sender stopped responding"@,
    }
}

impl ReceiveError {
    /// The message shown for this refusal.
    pub fn message(&self) -> (r: String)
        ensures
            r@ == receive_error_text(*self),
    {
        match self {
            ReceiveError::SizeOverflow => "File size overflow".to_owned(),
            ReceiveError::Overlong => "Received more data than offered".to_owned(),
            ReceiveError::Incomplete { received, offered } => {
                let mut out = chars_of("Incomplete file: received ");
                extend_chars(&mut out, decimal_chars(*received).as_slice());
                extend_chars(&mut out, chars_of(" of ").as_slice());
                extend_chars(&mut out, decimal_chars(*offered).as_slice());
                extend_chars(&mut out, chars_of(" bytes").as_slice());
                string_of(out.as_slice())
            },
            ReceiveError::ChecksumMismatch => "File checksum did not match".to_owned(),
            ReceiveError::Cancelled => "Transfer cancelled".to_owned(),
            ReceiveError::Stalled => "Sender stopped responding".to_owned(),
        }
    }
}

/// Counts a chunk of `chunk` bytes after `received` bytes of a file offered
/// with `offered` bytes: the new count, unless it no longer fits or exceeds
/// the offer.
pub fn count_chunk(received: u64, chunk: u64, offered: u64) -> (r: Result<u64, ReceiveError>)
    ensures
        received + chunk > u64::MAX ==> r == Err::<u64, ReceiveError>(ReceiveError::SizeOverflow),
        received + chunk <= u64::MAX && received + chunk > offered ==> r == Err::<u64, ReceiveError>(ReceiveError::Overlong),
        received + chunk <= offered ==> r == Ok::<u64, ReceiveError>((received + chunk) as u64),
{
    if chunk > u64::MAX - received {
        return Err(ReceiveError::SizeOverflow);
    }
    let size = received + chunk;
    if size > offered {
        return Err(ReceiveError::Overlong);
    }
    Ok(size)
}

/// Progress is reported every 100 ms, and always for the last byte.
pub fn should_report(since_last_nanos: u64, received: u64, offered: u64) -> (r: bool)
    ensures
        r == (since_last_nanos >= 100_000_000 || received == offered),
{
    since_last_nanos >= 100_000_000 || received == offered
}

/// The stream ended: it must have delivered exactly the offered size.
pub fn check_complete(received: u64, offered: u64) -> (r: Result<(), ReceiveError>)
    ensures
        r is Ok <==> received == offered,
        r matches Err(e) ==> e == (ReceiveError::Incomplete { received, offered }),
{
    if received == offered {
        Ok(())
    } else {
        Err(ReceiveError::Incomplete { received, offered })
    }
}

/// Hex digests compare without regard to ASCII case (`eq_ignore_ascii_case`).
pub fn checksum_matches(actual: &str, expected: &str) -> (r: bool)
    ensures
        r == (ascii_lowercase(actual@) == ascii_lowercase(expected@)),
{
    let a = to_ascii_lowercase(chars_of(actual).as_slice());
    let b = to_ascii_lowercase(chars_of(expected).as_slice());
    if a.len() != b.len() {
        assert(a@.len() != b@.len());
        return false;
    }
    let mut i: usize = 0;
    while i < a.len()
        invariant
            a.len() == b.len(),
            a@ == ascii_lowercase(actual@),
            b@ == ascii_lowercase(expected@),
            i <= a.len(),
            forall|j: int| 0 <= j < i ==> a@[j] == b@[j],
        decreases a.len() - i,
    {
        if a[i] != b[i] {
            assert(a@[i as int] != b@[i as int]);
            return false;
        }
        i += 1;
    }
    assert(a@ =~= b@);
    true
}

/// A dot added after `a`, followed only by characters that are not dots, is
/// the last dot.
proof fn lemma_last_dot_append(a: Seq<char>, b: Seq<char>)
    requires
        !b.contains('.'),
    ensures
        last_dot(a + b) == last_dot(a),
    decreases b.len(),
{
    if b.len() > 0 {
        assert((a + b).drop_last() =~= a + b.drop_last());
        assert((a + b).last() == b.last());
        assert(b.last() != '.') by {
            assert(b[b.len() - 1] == b.last());
        }
        assert(!b.drop_last().contains('.')) by {
            assert forall|j: int| 0 <= j < b.drop_last().len() implies b.drop_last()[j] != '.' by {
                assert(b.drop_last()[j] == b[j]);
            }
        }
        lemma_last_dot_append(a, b.drop_last());
    } else {
        assert(a + b =~= a);
    }
}

/// Nothing after the last dot is a dot.
proof fn lemma_after_last_dot(name: Seq<char>)
    ensures
        last_dot(name) matches Some(i) ==> !name.subrange(i + 1, name.len() as int).contains('.'),
    decreases name.len(),
{
    if name.len() > 0 && name.last() != '.' {
        lemma_after_last_dot(name.drop_last());
        lemma_last_dot_bounds(name.drop_last());
        match last_dot(name) {
            Some(i) => {
                let tail = name.subrange(i + 1, name.len() as int);
                let before = name.drop_last().subrange(i + 1, name.len() - 1);
                assert forall|j: int| 0 <= j < tail.len() implies tail[j] != '.' by {
                    if i + 1 + j < name.len() - 1 {
                        assert(before[j] == tail[j]);
                        assert(!before.contains('.'));
                    } else {
                        assert(tail[j] == name.last());
                    }
                }
            },
            None => {},
        }
    }
}

/// A decimal number is written without dots.
proof fn lemma_decimal_has_no_dot(n: nat)
    ensures
        !decimal(n).contains('.'),
    decreases n,
{
    if n >= 10 {
        lemma_decimal_has_no_dot(n / 10);
        let d = decimal(n / 10);
        let c = (('0' as u32) + (n % 10)) as char;
        assert forall|j: int| 0 <= j < d.push(c).len() implies d.push(c)[j] != '.' by {
            if j < d.len() {
                assert(d.push(c)[j] == d[j]);
            }
        }
    } else {
        assert(seq![(('0' as u32) + n) as char][0] != '.');
    }
}

/// Every renamed copy of a received file keeps its extension, and its stem
/// is the original stem followed by ` (index)`: `photo.png` becomes
/// `photo (1).png`, and a name without an extension gains none.
pub proof fn renamed_copies_keep_their_extension(name: Seq<char>, index: u32)
    requires
        index > 0,
    ensures
        extension_of(candidate(name, index)) == extension_of(name),
        stem_of(candidate(name, index)) == stem_of(name) + " ("@ + decimal(index as nat) + ")"@,
{
    reveal_strlit(" (");
    reveal_strlit(")");
    lemma_last_dot_bounds(name);
    lemma_after_last_dot(name);
    lemma_decimal_has_no_dot(index as nat);
    let mark = " ("@ + decimal(index as nat) + ")"@;
    assert(!mark.contains('.')) by {
        assert forall|j: int| 0 <= j < mark.len() implies mark[j] != '.' by {
            if j < 2 {
                assert(mark[j] == " ("@[j]);
            } else if j < 2 + decimal(index as nat).len() {
                assert(mark[j] == decimal(index as nat)[j - 2]);
            } else {
                assert(mark[j] == ")"@[j - 2 - decimal(index as nat).len()]);
            }
        }
    }
    let head = stem_of(name) + mark;
    let c = candidate(name, index);
    match extension_of(name) {
        Some(ext) => {
            let i = last_dot(name)->0;
            assert(ext =~= name.subrange(i + 1, name.len() as int));
            assert(c =~= head.push('.') + ext);
            lemma_last_dot_append(head.push('.'), ext);
            assert(last_dot(head.push('.')) == Some(head.len() as int));
            assert(head.len() > 0);
            assert(c.subrange(head.len() as int + 1, c.len() as int) =~= ext);
            assert(c.subrange(0, head.len() as int) =~= head);
        },
        None => {
            assert(stem_of(name) == name);
            assert(c =~= name + mark);
            lemma_last_dot_append(name, mark);
            match last_dot(name) {
                Some(i) => {
                    assert(i == 0);
                },
                None => {},
            }
        },
    }
}

} // verus!
