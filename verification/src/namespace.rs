//! The entry filter: which entries of the source are converted, and the two
//! lists of indices that the enumeration leaves.

use vstd::prelude::*;
use vstd::string::*;
use vstd::utf8::encode_utf8;

verus! {

/// One entry of the source's index, as the enumeration sees it.
#[derive(Debug, PartialEq, Eq)]
pub struct IndexedEntry {
    pub index: u32,
    pub path: String,
    pub is_redirect: bool,
}

/// An `IndexedEntry` with its path as a sequence of characters.
pub struct IndexedEntryView {
    pub index: u32,
    pub path: Seq<char>,
    pub is_redirect: bool,
}

impl View for IndexedEntry {
    type V = IndexedEntryView;

    open spec fn view(&self) -> IndexedEntryView {
        IndexedEntryView { index: self.index, path: self.path@, is_redirect: self.is_redirect }
    }
}

impl DeepView for IndexedEntry {
    type V = IndexedEntryView;

    open spec fn deep_view(&self) -> IndexedEntryView {
        self@
    }
}

/// The byte names one of the namespaces of the old scheme that are
/// converted: `-`, `A`, `C`, `J` or `I`.
pub open spec fn is_legacy_namespace(byte: u8) -> bool {
    byte == 0x2d || byte == 0x41 || byte == 0x43 || byte == 0x4a || byte == 0x49
}

/// An entry at `path` is converted. In a source with the new namespace scheme
/// every entry is; in another one, an entry whose path starts with the byte
/// of a converted namespace.
pub open spec fn passes(path: Seq<char>, new_scheme: bool) -> bool {
    new_scheme || (encode_utf8(path).len() > 0 && is_legacy_namespace(encode_utf8(path)[0]))
}

/// The indices, in the order of `entries`, of those that are converted and
/// are redirects (`redirects` true) or hold content (`redirects` false).
pub open spec fn kept_indices(
    entries: Seq<IndexedEntryView>,
    new_scheme: bool,
    redirects: bool,
) -> Seq<u32>
    decreases entries.len(),
{
    if entries.len() == 0 {
        Seq::empty()
    } else {
        let before = kept_indices(entries.drop_last(), new_scheme, redirects);
        let entry = entries.last();
        if passes(entry.path, new_scheme) && entry.is_redirect == redirects {
            before.push(entry.index)
        } else {
            before
        }
    }
}

/// Tells whether the entry at `path` is converted.
pub fn passes_filter(path: &str, new_scheme: bool) -> (kept: bool)
    ensures
        kept == passes(path@, new_scheme),
{
    if new_scheme {
        return true;
    }
    let bytes = path.as_bytes();
    if bytes.len() == 0 {
        return false;
    }
    let first: u8 = bytes[0];
    first == 0x2d || first == 0x41 || first == 0x43 || first == 0x4a || first == 0x49
}

/// The indices of the entries to convert: those that hold content and those
/// that are redirects, each list in the order in which the entries were seen.
pub struct EntryIndices {
    content: Vec<u32>,
    redirects: Vec<u32>,
}

impl EntryIndices {
    /// The indices of the entries that hold content, in the order seen.
    pub closed spec fn content(&self) -> Seq<u32> {
        self.content@
    }

    /// The indices of the redirects, in the order seen.
    pub closed spec fn redirects(&self) -> Seq<u32> {
        self.redirects@
    }

    pub fn new() -> (indices: Self)
        ensures
            indices.content() == Seq::<u32>::empty(),
            indices.redirects() == Seq::<u32>::empty(),
    {
        Self { content: Vec::new(), redirects: Vec::new() }
    }

    /// Takes note of one more entry of the source. An entry that is not
    /// converted leaves no trace.
    pub fn record(&mut self, path: &str, index: u32, is_redirect: bool, new_scheme: bool)
        ensures
            final(self).content() == if passes(path@, new_scheme) && !is_redirect {
                old(self).content().push(index)
            } else {
                old(self).content()
            },
            final(self).redirects() == if passes(path@, new_scheme) && is_redirect {
                old(self).redirects().push(index)
            } else {
                old(self).redirects()
            },
    {
        if passes_filter(path, new_scheme) {
            if is_redirect {
                self.redirects.push(index);
            } else {
                self.content.push(index);
            }
        }
    }

    /// The two lists as they are fed to the conversion: the content indices
    /// from the last seen to the first, and the redirects in the order seen.
    pub fn into_feed_order(self) -> (lists: (Vec<u32>, Vec<u32>))
        ensures
            lists.0@ == self.content().reverse(),
            lists.1@ == self.redirects(),
    {
        let content = self.content;
        let total: usize = content.len();
        let mut reversed: Vec<u32> = Vec::new();
        let mut done: usize = 0;
        while done < total
            invariant
                total == content@.len(),
                done <= total,
                reversed@.len() == done,
                forall|k: int| 0 <= k < done ==> reversed@[k] == content@[total - 1 - k],
            decreases total - done,
        {
            reversed.push(content[total - 1 - done]);
            done += 1;
        }
        proof {
            assert(reversed@ =~= content@.reverse());
        }
        (reversed, self.redirects)
    }
}

/// Sorts the entries of a source into the two lists of indices.
pub fn partition_entries(entries: &Vec<IndexedEntry>, new_scheme: bool) -> (indices: EntryIndices)
    ensures
        indices.content() == kept_indices(entries.deep_view(), new_scheme, false),
        indices.redirects() == kept_indices(entries.deep_view(), new_scheme, true),
{
    let mut indices = EntryIndices::new();
    let total: usize = entries.len();
    let mut seen: usize = 0;
    while seen < total
        invariant
            total == entries@.len(),
            seen <= total,
            indices.content() == kept_indices(
                entries.deep_view().take(seen as int),
                new_scheme,
                false,
            ),
            indices.redirects() == kept_indices(
                entries.deep_view().take(seen as int),
                new_scheme,
                true,
            ),
        decreases total - seen,
    {
        let entry = &entries[seen];
        proof {
            let next = entries.deep_view().take(seen + 1);
            assert(next.drop_last() =~= entries.deep_view().take(seen as int));
            assert(next.last() == entry@);
        }
        indices.record(entry.path.as_str(), entry.index, entry.is_redirect, new_scheme);
        seen += 1;
    }
    proof {
        assert(entries.deep_view().take(total as int) =~= entries.deep_view());
    }
    indices
}

} // verus!
