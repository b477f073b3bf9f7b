//! What a chosen file or folder becomes: the rules of walking a folder into
//! uploads. Reading the filesystem happens outside; each decision is here.
use vstd::prelude::*;
use crate::text::{chars_of, string_of, extend_chars};

verus! {

/// How deep folders may nest.
pub const MAX_DEPTH: usize = 128;

/// How many files one transfer may hold.
pub const MAX_FILES: usize = 10_000;

/// What a directory entry is, without following links.
#[derive(Clone, Copy, Debug, PartialEq, Eq, Structural)]
pub enum EntryKind {
    File,
    Directory,
    Symlink,
    Special,
}

/// Why a choice cannot be sent.
#[derive(Debug, PartialEq, Eq)]
pub enum FolderError {
    /// The chosen item itself is a symbolic link.
    LinkChosen,
    MissingName,
    NotUtf8,
    TooDeep,
    TooManyFiles,
    /// A link inside the folder, at the path shown.
    Symlink(String),
    /// A device, socket or pipe inside the folder, at the path shown.
    Special(String),
    Empty,
}

/// The message of each refusal.
pub open spec fn folder_error_text(e: FolderError) -> Seq<char> {
    match e {
        FolderError::LinkChosen => "Choose the original file instead of a symbolic link"@,
        FolderError::MissingName => "Missing file name"@,
        FolderError::NotUtf8 => "File name is not valid UTF-8"@,
        FolderError::TooDeep => "Folder nesting exceeds 128 levels"@,
        FolderError::TooManyFiles => "Select at most 10,000 files per transfer"@,
        FolderError::Symlink(p) => "Folder contains a symbolic link: "@ + p@,
        FolderError::Special(p) => "Folder contains a special file: "@ + p@,
        FolderError::Empty => "This folder contains no files; LocalSend cannot transfer empty folders"@,
    }
}

impl FolderError {
    /// The message shown for this refusal.
    pub fn message(&self) -> (r: String)
        ensures
            r@ == folder_error_text(*self),
    {
        match self {
            FolderError::LinkChosen => "Choose the original file instead of a symbolic link".to_owned(),
            FolderError::MissingName => "Missing file name".to_owned(),
            FolderError::NotUtf8 => "File name is not valid UTF-8".to_owned(),
            FolderError::TooDeep => "Folder nesting exceeds 128 levels".to_owned(),
            FolderError::TooManyFiles => "Select at most 10,000 files per transfer".to_owned(),
            FolderError::Symlink(p) => {
                let mut out = chars_of("Folder contains a symbolic link: ");
                extend_chars(&mut out, chars_of(p.as_str()).as_slice());
                string_of(out.as_slice())
            },
            FolderError::Special(p) => {
                let mut out = chars_of("Folder contains a special file: ");
                extend_chars(&mut out, chars_of(p.as_str()).as_slice());
                string_of(out.as_slice())
            },
            FolderError::Empty => "This folder contains no files; LocalSend cannot transfer empty folders".to_owned(),
        }
    }
}

/// What the chosen item is sent as.
#[derive(Clone, Copy, Debug, PartialEq, Eq, Structural)]
pub enum Choice {
    /// One file.
    File,
    /// Every file below the folder.
    Folder,
}

/// A chosen link is refused, so what is sent is always the original; a
/// folder is walked; anything else is sent as a file.
pub fn choice_for(kind: EntryKind) -> (r: Result<Choice, FolderError>)
    ensures
        r == (match kind {
            EntryKind::Symlink => Err(FolderError::LinkChosen),
            EntryKind::Directory => Ok(Choice::Folder),
            _ => Ok::<Choice, FolderError>(Choice::File),
        }),
{
    match kind {
        EntryKind::Symlink => Err(FolderError::LinkChosen),
        EntryKind::Directory => Ok(Choice::Folder),
        _ => Ok(Choice::File),
    }
}

/// A folder may be entered only above the nesting limit.
pub fn enter_folder(depth: usize) -> (r: Result<(), FolderError>)
    ensures
        r is Ok <==> depth < MAX_DEPTH,
        depth >= MAX_DEPTH ==> r == Err::<(), FolderError>(FolderError::TooDeep),
{
    if depth < MAX_DEPTH {
        Ok(())
    } else {
        Err(FolderError::TooDeep)
    }
}

/// What walking does with an entry.
#[derive(Clone, Copy, Debug, PartialEq, Eq, Structural)]
pub enum Visit {
    Descend,
    Add,
}

/// An entry met after `count` files were collected, shown as `shown`: the
/// file limit comes first; links and special files are refused; folders are
/// walked and files added.
pub open spec fn visit_verdict(count: usize, kind: EntryKind, shown: Seq<char>, r: Result<Visit, FolderError>) -> bool {
    if count >= MAX_FILES {
        r == Err::<Visit, FolderError>(FolderError::TooManyFiles)
    } else {
        match kind {
            EntryKind::Symlink => r matches Err(FolderError::Symlink(p)) && p@ == shown,
            EntryKind::Directory => r == Ok::<Visit, FolderError>(Visit::Descend),
            EntryKind::Special => r matches Err(FolderError::Special(p)) && p@ == shown,
            EntryKind::File => r == Ok::<Visit, FolderError>(Visit::Add),
        }
    }
}

/// Decides on an entry of a folder being walked.
pub fn visit(count: usize, kind: EntryKind, shown: &str) -> (r: Result<Visit, FolderError>)
    ensures
        visit_verdict(count, kind, shown@, r),
{
    if count >= MAX_FILES {
        return Err(FolderError::TooManyFiles);
    }
    match kind {
        EntryKind::Symlink => Err(FolderError::Symlink(shown.to_owned())),
        EntryKind::Directory => Ok(Visit::Descend),
        EntryKind::Special => Err(FolderError::Special(shown.to_owned())),
        EntryKind::File => Ok(Visit::Add),
    }
}

/// The path components joined with `/`, whatever the platform separator.
pub open spec fn slash_joined(parts: Seq<Seq<char>>) -> Seq<char> {
    crate::text::join(parts, seq!['/'])
}

/// The name a file below the chosen folder is offered under: its path
/// relative to the folder, components joined with `/`.
pub fn relative_name(parts: &Vec<String>) -> (r: String)
    ensures
        r@ == slash_joined(parts@.map_values(|p: String| p@)),
{
    let ghost all = parts@.map_values(|p: String| p@);
    let mut out: Vec<char> = Vec::new();
    let mut k: usize = 0;
    while k < parts.len()
        invariant
            all == parts@.map_values(|p: String| p@),
            k <= parts@.len(),
            out@ == slash_joined(all.subrange(0, k as int)),
        decreases parts@.len() - k,
    {
        let ghost before = out@;
        if k > 0 {
            out.push('/');
        }
        extend_chars(&mut out, chars_of(parts[k].as_str()).as_slice());
        proof {
            let next = all.subrange(0, k + 1);
            assert(next.drop_last() =~= all.subrange(0, k as int));
            assert(next.last() == parts@[k as int]@);
            if k == 0 {
                assert(next =~= seq![parts@[0]@]);
            }
        }
        k += 1;
    }
    assert(all.subrange(0, all.len() as int) =~= all);
    string_of(out.as_slice())
}

/// A folder that yields no file cannot be sent: the protocol has no empty
/// folders.
pub fn check_not_empty(files: usize) -> (r: Result<(), FolderError>)
    ensures
        r is Ok <==> files > 0,
        files == 0 ==> r == Err::<(), FolderError>(FolderError::Empty),
{
    if files == 0 {
        Err(FolderError::Empty)
    } else {
        Ok(())
    }
}

/// The bytes of `a` order at or before those of `b`, as file names sort.
pub open spec fn bytes_le(a: Seq<u8>, b: Seq<u8>) -> bool
    decreases a.len(),
{
    if a.len() == 0 {
        true
    } else if b.len() == 0 {
        false
    } else if a[0] != b[0] {
        a[0] < b[0]
    } else {
        bytes_le(a.drop_first(), b.drop_first())
    }
}

proof fn lemma_bytes_le_total(a: Seq<u8>, b: Seq<u8>)
    ensures
        bytes_le(a, b) || bytes_le(b, a),
    decreases a.len(),
{
    if a.len() > 0 && b.len() > 0 && a[0] == b[0] {
        lemma_bytes_le_total(a.drop_first(), b.drop_first());
    }
}

proof fn lemma_bytes_le_transitive(a: Seq<u8>, b: Seq<u8>, c: Seq<u8>)
    requires
        bytes_le(a, b),
        bytes_le(b, c),
    ensures
        bytes_le(a, c),
    decreases a.len(),
{
    if a.len() > 0 && b.len() > 0 && c.len() > 0 && a[0] == b[0] && b[0] == c[0] {
        lemma_bytes_le_transitive(a.drop_first(), b.drop_first(), c.drop_first());
    }
}

/// Compares two names byte by byte.
fn bytes_le_exec(a: &Vec<u8>, b: &Vec<u8>) -> (r: bool)
    ensures
        r == bytes_le(a@, b@),
{
    let mut i: usize = 0;
    assert(a@.subrange(0, a@.len() as int) =~= a@);
    assert(b@.subrange(0, b@.len() as int) =~= b@);
    loop
        invariant
            i <= a@.len(),
            i <= b@.len(),
            bytes_le(a@, b@) == bytes_le(a@.subrange(i as int, a@.len() as int), b@.subrange(i as int, b@.len() as int)),
        decreases a@.len() - i,
    {
        if i == a.len() {
            return true;
        }
        if i == b.len() {
            return false;
        }
        if a[i] != b[i] {
            return a[i] < b[i];
        }
        assert(a@.subrange(i as int, a@.len() as int).drop_first() =~= a@.subrange(i + 1, a@.len() as int));
        assert(b@.subrange(i as int, b@.len() as int).drop_first() =~= b@.subrange(i + 1, b@.len() as int));
        i += 1;
    }
}

/// The order a folder's entries are walked in: by name, byte by byte.
pub open spec fn walk_order(names: Seq<Vec<u8>>, order: Seq<usize>) -> bool {
    &&& order.len() == names.len()
    &&& order.to_multiset() == Seq::new(names.len(), |i: int| i as usize).to_multiset()
    &&& forall|a: int, b: int| 0 <= a < b < order.len() ==> bytes_le(names[#[trigger] order[a] as int]@, names[#[trigger] order[b] as int]@)
}

/// The positions of a folder's entries in walking order.
pub fn entry_order(names: &Vec<Vec<u8>>) -> (r: Vec<usize>)
    ensures
        walk_order(names@, r@),
{
    let mut out: Vec<usize> = Vec::new();
    let mut i: usize = 0;
    let ghost all = Seq::new(names@.len(), |i: int| i as usize);
    assert(out@ =~= all.subrange(0, 0));
    while i < names.len()
        invariant
            i <= names@.len(),
            all == Seq::new(names@.len(), |i: int| i as usize),
            out@.len() == i,
            forall|j: int| 0 <= j < out@.len() ==> #[trigger] out@[j] < i,
            out@.to_multiset() == all.subrange(0, i as int).to_multiset(),
            forall|a: int, b: int| 0 <= a < b < out@.len() ==> bytes_le(names@[#[trigger] out@[a] as int]@, names@[#[trigger] out@[b] as int]@),
        decreases names@.len() - i,
    {
        let mut k: usize = 0;
        loop
            invariant
                k <= out@.len(),
                i < names@.len(),
                forall|j: int| 0 <= j < out@.len() ==> #[trigger] out@[j] < i,
                forall|j: int| 0 <= j < k ==> bytes_le(names@[#[trigger] out@[j] as int]@, names@[i as int]@),
            ensures
                k <= out@.len(),
                forall|j: int| 0 <= j < k ==> bytes_le(names@[#[trigger] out@[j] as int]@, names@[i as int]@),
                k < out@.len() ==> !bytes_le(names@[out@[k as int] as int]@, names@[i as int]@),
            decreases out@.len() - k,
        {
            if k == out.len() {
                break;
            }
            if !bytes_le_exec(&names[out[k]], &names[i]) {
                break;
            }
            k += 1;
        }
        let ghost before = out@;
        proof {
            if k < before.len() {
                lemma_bytes_le_total(names@[before[k as int] as int]@, names@[i as int]@);
                assert forall|j: int| k <= j < before.len() implies bytes_le(names@[i as int]@, names@[#[trigger] before[j] as int]@) by {
                    if j > k {
                        lemma_bytes_le_transitive(names@[i as int]@, names@[before[k as int] as int]@, names@[before[j] as int]@);
                    }
                }
            }
        }
        out.insert(k, i);
        proof {
            let after = out@;
            assert(after == before.insert(k as int, i));
            assert forall|a: int, b: int| 0 <= a < b < after.len() implies bytes_le(names@[#[trigger] after[a] as int]@, names@[#[trigger] after[b] as int]@) by {
                if b < k {
                    assert(after[a] == before[a] && after[b] == before[b]);
                } else if b == k {
                    assert(after[a] == before[a]);
                } else if a == k {
                    assert(after[b] == before[b - 1]);
                } else if a < k {
                    assert(after[a] == before[a] && after[b] == before[b - 1]);
                    lemma_bytes_le_transitive(names@[before[a] as int]@, names@[i as int]@, names@[before[b - 1] as int]@);
                } else {
                    assert(after[a] == before[a - 1] && after[b] == before[b - 1]);
                }
            }
            assert forall|j: int| 0 <= j < after.len() implies #[trigger] after[j] < i + 1 by {
                if j < k {
                    assert(after[j] == before[j]);
                } else if j > k {
                    assert(after[j] == before[j - 1]);
                }
            }
            vstd::seq_lib::to_multiset_insert(before, k as int, i);
            assert(all.subrange(0, i + 1) =~= all.subrange(0, i as int).push(i));
            vstd::seq_lib::to_multiset_build(all.subrange(0, i as int), i);
        }
        i += 1;
    }
    assert(all.subrange(0, names@.len() as int) =~= all);
    out
}

} // verus!
