//! Entries of the target archive, and how one is made from a source entry.

use std::str::FromStr;
use vstd::prelude::*;
use vstd::string::*;

verus! {

/// Where a content store put an item's bytes.
#[derive(Clone, Copy, Debug, PartialEq, Eq, Structural)]
pub struct ContentAddress {
    pub pack_id: u16,
    pub content_id: u32,
}

/// What a source entry stands for, once its content, if it has any, is stored.
#[derive(Debug, PartialEq, Eq)]
pub enum ResolvedKind {
    /// The entry points to the entry at `target`.
    Redirect { target: String },
    /// The entry's bytes are at `address`; `mime` is the mime type as the
    /// source gives it.
    Content { mime: String, address: ContentAddress },
}

/// A source entry, once its content, if it has any, is stored.
#[derive(Debug, PartialEq, Eq)]
pub struct ResolvedEntry {
    pub path: String,
    pub kind: ResolvedKind,
}

/// What an entry of the target archive holds.
#[derive(Debug, PartialEq, Eq)]
pub enum ZimEntryKind {
    Redirect(String),
    Content(ContentAddress, String),
}

/// An entry of the target archive.
#[derive(Debug, PartialEq, Eq)]
pub struct ZimEntry {
    path: String,
    data: ZimEntryKind,
    is_main: bool,
}

/// A `ResolvedKind` with its strings as sequences of characters.
pub enum ResolvedKindView {
    Redirect { target: Seq<char> },
    Content { mime: Seq<char>, address: ContentAddress },
}

/// A `ResolvedEntry` with its strings as sequences of characters.
pub struct ResolvedEntryView {
    pub path: Seq<char>,
    pub kind: ResolvedKindView,
}

/// A `ZimEntryKind` with its strings as sequences of characters.
pub enum ZimEntryKindView {
    Redirect(Seq<char>),
    Content(ContentAddress, Seq<char>),
}

/// A `ZimEntry` with its strings as sequences of characters.
pub struct ZimEntryView {
    pub path: Seq<char>,
    pub kind: ZimEntryKindView,
    pub is_main: bool,
}

impl View for ResolvedKind {
    type V = ResolvedKindView;

    open spec fn view(&self) -> ResolvedKindView {
        match *self {
            ResolvedKind::Redirect { target } => ResolvedKindView::Redirect { target: target@ },
            ResolvedKind::Content { mime, address } => ResolvedKindView::Content {
                mime: mime@,
                address,
            },
        }
    }
}

impl View for ResolvedEntry {
    type V = ResolvedEntryView;

    open spec fn view(&self) -> ResolvedEntryView {
        ResolvedEntryView { path: self.path@, kind: self.kind@ }
    }
}

impl View for ZimEntryKind {
    type V = ZimEntryKindView;

    open spec fn view(&self) -> ZimEntryKindView {
        match *self {
            ZimEntryKind::Redirect(target) => ZimEntryKindView::Redirect(target@),
            ZimEntryKind::Content(address, mime) => ZimEntryKindView::Content(address, mime@),
        }
    }
}

impl View for ZimEntry {
    type V = ZimEntryView;

    closed spec fn view(&self) -> ZimEntryView {
        ZimEntryView { path: self.path@, kind: self.data@, is_main: self.is_main }
    }
}

impl DeepView for ZimEntry {
    type V = ZimEntryView;

    open spec fn deep_view(&self) -> ZimEntryView {
        self@
    }
}

/// The text of the media type that the parser of the crate `mime` makes of
/// `text`, or `None` where it refuses `text`.
pub uninterp spec fn parsed_mime(text: Seq<char>) -> Option<Seq<char>>;

/// The mime type of content whose own mime type cannot be read.
pub open spec fn octet_stream() -> Seq<char> {
    "application/octet-stream"@
}

/// The mime type that an entry gets, given what the parser made of the
/// source's mime type.
pub open spec fn mime_or_default(parsed: Option<Seq<char>>) -> Seq<char> {
    match parsed {
        Some(mime) => mime,
        None => octet_stream(),
    }
}

/// `path` without its first character where that is a slash, else `path`.
pub open spec fn strip_leading_slash(path: Seq<char>) -> Seq<char> {
    if path.len() > 0 && path[0] == '/' {
        path.subrange(1, path.len() as int)
    } else {
        path
    }
}

/// What a resolved source entry holds in the target archive.
pub open spec fn kind_for(kind: ResolvedKindView) -> ZimEntryKindView {
    match kind {
        ResolvedKindView::Redirect { target } => ZimEntryKindView::Redirect(target),
        ResolvedKindView::Content { mime, address } => ZimEntryKindView::Content(
            address,
            mime_or_default(parsed_mime(mime)),
        ),
    }
}

/// The entry of the target archive for a resolved source entry. The entry
/// whose path in the source is empty is the main entry.
pub open spec fn entry_for(entry: ResolvedEntryView) -> ZimEntryView {
    ZimEntryView {
        path: strip_leading_slash(entry.path),
        kind: kind_for(entry.kind),
        is_main: entry.path.len() == 0,
    }
}

/// The redirect that stands for the main entry where the source's entries
/// held none: it has the empty path and points to `main_path`.
pub open spec fn main_redirect(main_path: Seq<char>) -> ZimEntryView {
    ZimEntryView {
        path: Seq::<char>::empty(),
        kind: ZimEntryKindView::Redirect(main_path),
        is_main: true,
    }
}

/// Calls `Mime::from_str` of the crate `mime` on `text` and gives the text of
/// the media type that came out, as `Mime::as_ref` returns it. Believed, not
/// proved: the result is what the parser makes of `text`, which depends on
/// `text` alone.
#[verifier::external_body]
fn parse_mime(text: &str) -> (parsed: Option<String>)
    ensures
        parsed.deep_view() == parsed_mime(text@),
{
    match mime_guess::Mime::from_str(text) {
        Ok(mime) => Some(String::from(mime.as_ref())),
        Err(_) => None,
    }
}

/// The mime type of an entry, given what the parser made of the source's
/// mime type: the parsed type, or `application/octet-stream` where the
/// parser refused it.
pub fn mime_or_octet_stream(parsed: Option<String>) -> (mime: String)
    ensures
        mime@ == mime_or_default(parsed.deep_view()),
{
    match parsed {
        Some(mime) => mime,
        None => "application/octet-stream".to_owned(),
    }
}

/// The mime type of an entry whose source gives `text` as its mime type.
pub fn resolve_mime(text: &str) -> (mime: String)
    ensures
        mime@ == mime_or_default(parsed_mime(text@)),
{
    mime_or_octet_stream(parse_mime(text))
}

/// Takes one leading slash off a path.
pub fn archive_path(path: &str) -> (stripped: String)
    ensures
        stripped@ == strip_leading_slash(path@),
{
    let len: usize = path.unicode_len();
    if len > 0 && path.get_char(0) == '/' {
        path.substring_char(1, len).to_owned()
    } else {
        path.to_owned()
    }
}

impl ZimEntry {
    /// Makes the entry of the target archive for a resolved source entry.
    pub fn new(entry: ResolvedEntry) -> (made: Self)
        ensures
            made@ == entry_for(entry@),
    {
        let is_main = entry.path.as_str().is_empty();
        let path = archive_path(entry.path.as_str());
        match entry.kind {
            ResolvedKind::Redirect { target } => Self::new_redirect(path, target, is_main),
            ResolvedKind::Content { mime, address } => {
                let mime = resolve_mime(mime.as_str());
                Self { path, data: ZimEntryKind::Content(address, mime), is_main }
            },
        }
    }

    /// Makes a redirect entry.
    pub fn new_redirect(path: String, target: String, is_main: bool) -> (made: Self)
        ensures
            made@ == (ZimEntryView {
                path: path@,
                kind: ZimEntryKindView::Redirect(target@),
                is_main,
            }),
    {
        Self { path, data: ZimEntryKind::Redirect(target), is_main }
    }

    /// What the entry holds.
    pub fn kind(&self) -> (kind: &ZimEntryKind)
        ensures
            kind@ == self@.kind,
    {
        &self.data
    }

    /// The entry's path in the target archive.
    pub fn name(&self) -> (name: &str)
        ensures
            name@ == self@.path,
    {
        self.path.as_str()
    }

    /// Whether the entry is the main entry.
    pub fn is_main(&self) -> (is_main: bool)
        ensures
            is_main == self@.is_main,
    {
        self.is_main
    }
}

} // verus!
