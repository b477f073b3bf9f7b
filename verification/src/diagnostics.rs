//! Bounded, session-only diagnostics for the in-app log viewer.
use vstd::prelude::*;
use crate::text::{chars_of, string_of, extend_chars, take_chars, trim_end, trim_end_chars, slice_chars};

verus! {

/// How many log entries a session keeps.
pub const MAX_ENTRIES: usize = 500;

/// How many characters of one entry are kept.
pub const MAX_ENTRY_CHARS: usize = 16_384;

/// The session's log entries, oldest first, never more than `MAX_ENTRIES`.
#[derive(Debug)]
pub struct LogBuffer {
    entries: Vec<String>,
}

/// The entries joined with newlines, as `[String]::join("\n")` writes them.
pub open spec fn joined(entries: Seq<Seq<char>>) -> Seq<char>
    decreases entries.len(),
{
    if entries.len() == 0 {
        Seq::empty()
    } else if entries.len() == 1 {
        entries[0]
    } else {
        joined(entries.drop_last()) + seq!['\n'] + entries.last()
    }
}

/// The entry a logged message becomes: trailing white space removed, and
/// cut to `MAX_ENTRY_CHARS` characters.
pub open spec fn entry_of(message: Seq<char>) -> Seq<char> {
    take_chars(trim_end(message), MAX_ENTRY_CHARS as nat)
}

/// The entries after one more message: the oldest entry makes room when the
/// buffer is full.
pub open spec fn appended(entries: Seq<Seq<char>>, message: Seq<char>) -> Seq<Seq<char>> {
    let kept = if entries.len() >= MAX_ENTRIES { entries.drop_first() } else { entries };
    kept.push(entry_of(message))
}

impl View for LogBuffer {
    type V = Seq<Seq<char>>;

    closed spec fn view(&self) -> Seq<Seq<char>> {
        self.entries@.map_values(|e: String| e@)
    }
}

impl LogBuffer {
    #[verifier::type_invariant]
    spec fn bounded(&self) -> bool {
        self.entries@.len() <= MAX_ENTRIES
    }

    /// An empty log.
    pub fn new() -> (r: LogBuffer)
        ensures
            r@ == Seq::<Seq<char>>::empty(),
    {
        let r = LogBuffer { entries: Vec::new() };
        assert(r@ =~= Seq::<Seq<char>>::empty());
        r
    }

    /// Logs one message.
    pub fn append(&mut self, message: &str)
        ensures
            final(self)@ == appended(old(self)@, message@),
            final(self)@.len() <= MAX_ENTRIES,
    {
        proof {
            use_type_invariant(&*self);
        }
        let chars = chars_of(message);
        let trimmed = trim_end_chars(chars.as_slice());
        let kept = if trimmed.len() <= MAX_ENTRY_CHARS {
            trimmed
        } else {
            slice_chars(trimmed.as_slice(), 0, MAX_ENTRY_CHARS)
        };
        let entry = string_of(kept.as_slice());
        let ghost before = self@;
        let mut entries: Vec<String> = Vec::new();
        std::mem::swap(&mut entries, &mut self.entries);
        assert(entries@.map_values(|e: String| e@) == before);
        if entries.len() >= MAX_ENTRIES {
            entries.remove(0);
        }
        entries.push(entry);
        assert(entries@.map_values(|e: String| e@) =~= appended(before, message@));
        self.entries = entries;
    }

    /// The whole log, one entry per line.
    pub fn snapshot(&self) -> (r: String)
        ensures
            r@ == joined(self@),
    {
        let mut out: Vec<char> = Vec::new();
        let mut i: usize = 0;
        let ghost all = self@;
        while i < self.entries.len()
            invariant
                all == self@,
                all == self.entries@.map_values(|e: String| e@),
                i <= self.entries@.len(),
                out@ == joined(all.subrange(0, i as int)),
            decreases self.entries@.len() - i,
        {
            assert(all.subrange(0, i + 1).drop_last() =~= all.subrange(0, i as int));
            if i > 0 {
                out.push('\n');
            }
            let entry = chars_of(self.entries[i].as_str());
            extend_chars(&mut out, entry.as_slice());
            proof {
                if i == 0 {
                    assert(all.subrange(0, 1) =~= seq![all[0]]);
                }
            }
            i += 1;
        }
        assert(all.subrange(0, self.entries@.len() as int) =~= all);
        string_of(out.as_slice())
    }

    /// Forgets every entry.
    pub fn clear(&mut self)
        ensures
            final(self)@ == Seq::<Seq<char>>::empty(),
    {
        self.entries = Vec::new();
        assert(self@ =~= Seq::<Seq<char>>::empty());
    }
}

} // verus!
