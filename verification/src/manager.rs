//! Deciding, on each pasteboard change, where to read from and whether the
//! result is a new history entry.

use vstd::prelude::*;
use crate::content::PasteboardContent;

verus! {

/// Whether a hash differs from the last hash seen: only such content is new.
pub open spec fn differs_from_last(last: Seq<char>, hash: Seq<char>) -> bool {
    hash != last
}

/// Remembers the hash of the last content seen, so that the same content is
/// not recorded twice in a row.
pub struct ClipboardManager {
    pub last_hash: String,
}

impl ClipboardManager {
    /// A manager that has seen nothing yet (its last hash is empty).
    pub fn new() -> (r: Self)
        ensures
            r.last_hash@ == Seq::<char>::empty(),
    {
        ClipboardManager { last_hash: String::new() }
    }

    /// Tells whether `new_hash` differs from the last hash seen, and remembers
    /// it as the last hash.
    pub fn check_last_hash(&mut self, new_hash: String) -> (changed: bool)
        ensures
            changed == differs_from_last(old(self).last_hash@, new_hash@),
            final(self).last_hash@ == new_hash@,
    {
        if new_hash == self.last_hash {
            false
        } else {
            self.last_hash = new_hash;
            true
        }
    }

    /// Hands back the content when its hash differs from the last one seen, and
    /// nothing otherwise; either way its hash becomes the last one seen.
    pub fn offer(&mut self, content: PasteboardContent) -> (r: Option<PasteboardContent>)
        ensures
            r == (if differs_from_last(old(self).last_hash@, content.hash@) {
                Some(content)
            } else {
                None
            }),
            final(self).last_hash@ == content.hash@,
    {
        let h = content.hash.clone();
        if self.check_last_hash(h) {
            Some(content)
        } else {
            None
        }
    }
}

/// Where the content of the pasteboard can be read from, in the order in which
/// the places are tried.
#[derive(Debug, Clone, Copy, PartialEq, Eq, Structural)]
pub enum ClipboardSource {
    Files,
    Image,
    Html,
    RichText,
    Text,
}

impl ClipboardSource {
    /// The position of a place in the order of reading.
    pub open spec fn rank(self) -> nat {
        match self {
            ClipboardSource::Files => 0,
            ClipboardSource::Image => 1,
            ClipboardSource::Html => 2,
            ClipboardSource::RichText => 3,
            ClipboardSource::Text => 4,
        }
    }

    /// The place tried after this one, if any.
    pub open spec fn following(self) -> Option<ClipboardSource> {
        match self {
            ClipboardSource::Files => Some(ClipboardSource::Image),
            ClipboardSource::Image => Some(ClipboardSource::Html),
            ClipboardSource::Html => Some(ClipboardSource::RichText),
            ClipboardSource::RichText => Some(ClipboardSource::Text),
            ClipboardSource::Text => None,
        }
    }

    /// The place that is read first.
    pub fn first() -> (s: Self)
        ensures
            s == ClipboardSource::Files,
    {
        ClipboardSource::Files
    }
}

/// After reading `current`: stop when something was found there, else go on
/// with the next place in the order, or stop after the last one.
pub fn next_read(current: ClipboardSource, found: bool) -> (r: Option<ClipboardSource>)
    ensures
        found ==> r is None,
        !found ==> r == current.following(),
{
    if found {
        None
    } else {
        match current {
            ClipboardSource::Files => Some(ClipboardSource::Image),
            ClipboardSource::Image => Some(ClipboardSource::Html),
            ClipboardSource::Html => Some(ClipboardSource::RichText),
            ClipboardSource::RichText => Some(ClipboardSource::Text),
            ClipboardSource::Text => None,
        }
    }
}

/// A file read counts as found only when it lists at least one file.
pub fn has_files(file_urls: &Vec<String>) -> (r: bool)
    ensures
        r == (file_urls@.len() > 0),
{
    file_urls.len() > 0
}

/// The hashes recorded when contents with the hashes `hs` are offered in turn to
/// a manager whose last hash is `last`: an offer is recorded when its hash
/// differs from the hash offered just before it.
pub open spec fn recorded_hashes(last: Seq<char>, hs: Seq<Seq<char>>) -> Seq<Seq<char>>
    decreases hs.len(),
{
    if hs.len() == 0 {
        seq![]
    } else {
        let before = if hs.len() == 1 {
            last
        } else {
            hs[hs.len() - 2]
        };
        let earlier = recorded_hashes(last, hs.drop_last());
        if differs_from_last(before, hs.last()) {
            earlier.push(hs.last())
        } else {
            earlier
        }
    }
}

proof fn recorded_hashes_end(last: Seq<char>, hs: Seq<Seq<char>>)
    requires
        hs.len() > 0,
    ensures
        recorded_hashes(last, hs).len() > 0 ==> recorded_hashes(last, hs).last() == hs.last(),
        recorded_hashes(last, hs).len() == 0 ==> hs.last() == last,
    decreases hs.len(),
{
    if hs.len() > 1 {
        recorded_hashes_end(last, hs.drop_last());
        assert(hs.drop_last().last() == hs[hs.len() - 2]);
    } else {
        assert(recorded_hashes(last, hs.drop_last()) == Seq::<Seq<char>>::empty());
    }
}

/// No history entry repeats the hash of the entry recorded just before it, and
/// the first one recorded differs from the hash the manager started with.
pub proof fn recorded_hashes_never_repeat(last: Seq<char>, hs: Seq<Seq<char>>)
    ensures
        recorded_hashes(last, hs).len() > 0 ==> recorded_hashes(last, hs)[0] != last,
        forall|i: int|
            0 <= i < recorded_hashes(last, hs).len() - 1 ==> #[trigger] recorded_hashes(last, hs)[i]
                != recorded_hashes(last, hs)[i + 1],
    decreases hs.len(),
{
    if hs.len() > 0 {
        let rest = hs.drop_last();
        recorded_hashes_never_repeat(last, rest);
        let earlier = recorded_hashes(last, rest);
        let before = if hs.len() == 1 {
            last
        } else {
            hs[hs.len() - 2]
        };
        if hs.len() > 1 {
            recorded_hashes_end(last, rest);
        }
        let rec = recorded_hashes(last, hs);
        assert forall|i: int| 0 <= i < rec.len() - 1 implies #[trigger] rec[i] != rec[i + 1] by {
            if i + 1 < earlier.len() {
                assert(rec[i] == earlier[i]);
                assert(rec[i + 1] == earlier[i + 1]);
            } else {
                assert(rec[i] == earlier.last());
            }
        }
    }
}

/// The places are read in the order files, image, HTML, rich text, plain text,
/// each one step after the one before, so that at most five reads are made.
pub proof fn reading_order(s: ClipboardSource)
    ensures
        ClipboardSource::Files.following() == Some(ClipboardSource::Image),
        ClipboardSource::Image.following() == Some(ClipboardSource::Html),
        ClipboardSource::Html.following() == Some(ClipboardSource::RichText),
        ClipboardSource::RichText.following() == Some(ClipboardSource::Text),
        ClipboardSource::Text.following() is None,
        s.rank() < 5,
        s.following() matches Some(t) ==> t.rank() == s.rank() + 1,
        s.following() is None <==> s == ClipboardSource::Text,
{
}

} // verus!
