//! The content router: how an item is classified, how its bytes are read, and
//! to which content store they go.

use vstd::prelude::*;
use vstd::string::*;
use vstd::utf8::{encode_utf8, is_ascii_chars, is_ascii_chars_encode_utf8};
use crate::text::{contains_bytes, contains_seq, occurs_at};

verus! {

/// Largest size, in bytes, of an item that is read into memory whole even
/// though its bytes can be reached in a file: 4 MiB.
pub const IN_MEMORY_LIMIT: u64 = 4 * 1024 * 1024;

/// Where an item's bytes lie in a file of their own right.
#[derive(Debug, PartialEq, Eq)]
pub struct DirectAccess {
    pub path: String,
    pub offset: u64,
}

/// What the router reads of a source item.
#[derive(Debug, PartialEq, Eq)]
pub struct SourceItem {
    pub mime: String,
    pub size: u64,
    pub direct_access: Option<DirectAccess>,
}

/// Whether a content store should try to compress what it is given.
#[derive(Clone, Copy, Debug, PartialEq, Eq, Structural)]
pub enum CompHint {
    Yes,
    No,
}

/// How an item's bytes are handed to a content store.
#[derive(Debug, PartialEq, Eq)]
pub enum ReaderPlan {
    /// The whole item is read into memory.
    InMemory,
    /// `len` bytes of the file at `path`, starting at `offset`.
    FileRange { path: String, offset: u64, len: u64 },
}

/// One of the two content stores.
#[derive(Clone, Copy, Debug, PartialEq, Eq, Structural)]
pub enum StoreChoice {
    Primary,
    Binary,
}

/// Everything the router decides about one item before its bytes are read.
#[derive(Debug, PartialEq, Eq)]
pub struct ContentPlan {
    pub is_binary: bool,
    pub comp_hint: CompHint,
    pub reader: ReaderPlan,
}

/// `word` stands in `text`: the bytes that encode `word` stand, one after
/// the other, among the bytes that encode `text`.
pub open spec fn mentions(text: Seq<char>, word: Seq<char>) -> bool {
    contains_seq(encode_utf8(text), encode_utf8(word))
}

/// The mime type names a text-like kind of content.
pub open spec fn is_text_like(mime: Seq<char>) -> bool {
    ||| mentions(mime, "text/"@)
    ||| mentions(mime, "javascript"@)
    ||| mentions(mime, "json"@)
    ||| mentions(mime, "image/svg"@)
    ||| mentions(mime, "xml"@)
}

/// An item is binary unless its mime type names a text-like kind.
pub open spec fn is_binary(mime: Seq<char>) -> bool {
    !is_text_like(mime)
}

/// The hint that goes with an item: one whose bytes lie in a file of their
/// own right is taken to be compressed already.
pub open spec fn comp_hint_for(direct_access: Option<DirectAccess>) -> CompHint {
    if direct_access is Some {
        CompHint::No
    } else {
        CompHint::Yes
    }
}

/// The reader for an item of `size` bytes.
pub open spec fn reader_for(size: u64, direct_access: Option<DirectAccess>) -> ReaderPlan {
    match direct_access {
        Some(access) if size > IN_MEMORY_LIMIT => ReaderPlan::FileRange {
            path: access.path,
            offset: access.offset,
            len: size,
        },
        _ => ReaderPlan::InMemory,
    }
}

/// The store for an item, given whether it is binary and whether a binary
/// store exists.
pub open spec fn store_for(is_binary: bool, has_binary_store: bool) -> StoreChoice {
    if is_binary && has_binary_store {
        StoreChoice::Binary
    } else {
        StoreChoice::Primary
    }
}

/// The plan for an item.
pub open spec fn plan_for(item: SourceItem) -> ContentPlan {
    ContentPlan {
        is_binary: is_binary(item.mime@),
        comp_hint: comp_hint_for(item.direct_access),
        reader: reader_for(item.size, item.direct_access),
    }
}

/// `word` stands in `text`, character by character.
pub open spec fn holds_word(text: Seq<char>, word: Seq<char>) -> bool {
    exists|at: int|
        0 <= at && at + word.len() <= text.len() && #[trigger] text.subrange(
            at,
            at + word.len(),
        ) == word
}

/// In text of ASCII characters, a word of ASCII characters is mentioned
/// exactly where it stands character by character.
pub proof fn lemma_mentions_in_ascii(text: Seq<char>, word: Seq<char>)
    requires
        is_ascii_chars(text),
        is_ascii_chars(word),
    ensures
        mentions(text, word) <==> holds_word(text, word),
{
    let text_bytes = encode_utf8(text);
    let word_bytes = encode_utf8(word);
    let n = word.len() as int;
    is_ascii_chars_encode_utf8(text);
    is_ascii_chars_encode_utf8(word);
    if holds_word(text, word) {
        let at = choose|at: int|
            0 <= at && at + word.len() <= text.len() && #[trigger] text.subrange(
                at,
                at + word.len(),
            ) == word;
        assert forall|j: int| 0 <= j < n implies text_bytes[at + j] == word_bytes[j] by {
            assert(text.subrange(at, at + n)[j] == text[at + j]);
            assert(text[at + j] as u8 == text_bytes[at + j]);
            assert(word[j] as u8 == word_bytes[j]);
        }
        assert(text_bytes.subrange(at, at + n) =~= word_bytes);
        assert(occurs_at(text_bytes, word_bytes, at));
    }
    if mentions(text, word) {
        let at = choose|at: int| occurs_at(text_bytes, word_bytes, at);
        assert forall|j: int| 0 <= j < n implies text[at + j] == word[j] by {
            assert(text_bytes.subrange(at, at + n)[j] == text_bytes[at + j]);
            assert(text[at + j] as u8 == text_bytes[at + j]);
            assert(word[j] as u8 == word_bytes[j]);
            assert('\0' <= text[at + j] <= '\u{7f}');
            assert('\0' <= word[j] <= '\u{7f}');
        }
        assert(text.subrange(at, at + n) =~= word);
    }
}

/// Without a binary store, content of every mime type goes to the primary
/// store.
pub proof fn lemma_unsplit_routes_to_primary(mime: Seq<char>)
    ensures
        store_for(is_binary(mime), false) == StoreChoice::Primary,
{
}

/// With a binary store, content goes to the primary store exactly where its
/// mime type names a text-like kind, and to the binary store otherwise.
pub proof fn lemma_split_routes_by_kind(mime: Seq<char>)
    ensures
        store_for(is_binary(mime), true) == StoreChoice::Primary <==> is_text_like(mime),
        store_for(is_binary(mime), true) == StoreChoice::Binary <==> !is_text_like(mime),
{
}

/// An item is read into memory exactly where its bytes cannot be reached in
/// a file or its size is at most the limit, whatever its mime type; the file
/// reader of any other item covers the item's bytes from its offset on, all
/// of them and no more.
pub proof fn lemma_reader_choice(size: u64, direct_access: Option<DirectAccess>)
    ensures
        reader_for(size, direct_access) is InMemory <==> direct_access is None || size
            <= IN_MEMORY_LIMIT,
        reader_for(size, None) is InMemory,
        direct_access matches Some(access) ==> (size > IN_MEMORY_LIMIT ==> reader_for(
            size,
            direct_access,
        ) == (ReaderPlan::FileRange { path: access.path, offset: access.offset, len: size })),
{
}

/// Classifies a mime type. The match is on the bytes of the string as they
/// are, with no change of case.
pub fn is_binary_mime(mime: &str) -> (binary: bool)
    ensures
        binary == is_binary(mime@),
{
    let bytes = mime.as_bytes();
    !(contains_bytes(bytes, "text/".as_bytes())
        || contains_bytes(bytes, "javascript".as_bytes())
        || contains_bytes(bytes, "json".as_bytes())
        || contains_bytes(bytes, "image/svg".as_bytes())
        || contains_bytes(bytes, "xml".as_bytes()))
}

/// Picks the hint for an item.
pub fn comp_hint(direct_access: &Option<DirectAccess>) -> (hint: CompHint)
    ensures
        hint == comp_hint_for(*direct_access),
{
    if direct_access.is_some() {
        CompHint::No
    } else {
        CompHint::Yes
    }
}

/// Picks the reader for an item of `size` bytes.
pub fn select_reader(size: u64, direct_access: Option<DirectAccess>) -> (plan: ReaderPlan)
    ensures
        plan == reader_for(size, direct_access),
        direct_access is None ==> plan is InMemory,
        size <= IN_MEMORY_LIMIT ==> plan is InMemory,
{
    match direct_access {
        Some(access) => {
            if size <= IN_MEMORY_LIMIT {
                ReaderPlan::InMemory
            } else {
                ReaderPlan::FileRange { path: access.path, offset: access.offset, len: size }
            }
        },
        None => ReaderPlan::InMemory,
    }
}

/// Plans the reading and storing of one item.
pub fn plan_content(item: SourceItem) -> (plan: ContentPlan)
    ensures
        plan == plan_for(item),
{
    let is_binary = is_binary_mime(item.mime.as_str());
    let comp_hint = comp_hint(&item.direct_access);
    let reader = select_reader(item.size, item.direct_access);
    ContentPlan { is_binary, comp_hint, reader }
}

/// The primary content store with, in split mode, a second store for binary
/// content.
pub struct ContentAdderSwitch<P, B> {
    content_pack: P,
    binary_content_pack: Option<B>,
}

impl<P, B> ContentAdderSwitch<P, B> {
    /// The primary store.
    pub closed spec fn primary(&self) -> P {
        self.content_pack
    }

    /// The binary store, if there is one.
    pub closed spec fn binary(&self) -> Option<B> {
        self.binary_content_pack
    }

    pub fn new(content_pack: P, binary_content_pack: Option<B>) -> (switch: Self)
        ensures
            switch.primary() == content_pack,
            switch.binary() == binary_content_pack,
    {
        Self { content_pack, binary_content_pack }
    }

    /// Whether the switch was made in split mode.
    pub fn is_split(&self) -> (split: bool)
        ensures
            split == self.binary() is Some,
    {
        self.binary_content_pack.is_some()
    }

    /// The store that content goes to.
    pub fn route(&self, is_binary: bool) -> (store: StoreChoice)
        ensures
            store == store_for(is_binary, self.binary() is Some),
    {
        if self.binary_content_pack.is_some() && is_binary {
            StoreChoice::Binary
        } else {
            StoreChoice::Primary
        }
    }

    /// The primary store, to add to.
    pub fn primary_mut(&mut self) -> (store: &mut P)
        ensures
            *store == old(self).primary(),
            final(self).primary() == *final(store),
            final(self).binary() == old(self).binary(),
    {
        &mut self.content_pack
    }

    /// The binary store, to add to, if there is one.
    pub fn binary_mut(&mut self) -> (store: Option<&mut B>)
        ensures
            store is Some <==> old(self).binary() is Some,
            store matches Some(inner) ==> old(self).binary() == Some(*inner),
            store matches Some(inner) ==> final(self).binary() == Some(*final(inner)),
            store is None ==> final(self).binary() is None,
            final(self).primary() == old(self).primary(),
    {
        match &mut self.binary_content_pack {
            Some(inner) => Some(inner),
            None => None,
        }
    }

    /// The primary store, and the binary store as the only element of a
    /// vector if there is one.
    pub fn into_inner(self) -> (stores: (P, Vec<B>))
        ensures
            stores.0 == self.primary(),
            stores.1@ == match self.binary() {
                Some(store) => seq![store],
                None => Seq::<B>::empty(),
            },
    {
        let mut extra: Vec<B> = Vec::new();
        match self.binary_content_pack {
            Some(store) => {
                extra.push(store);
            },
            None => {},
        }
        (self.content_pack, extra)
    }
}

} // verus!
