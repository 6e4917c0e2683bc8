//! The conversion driver: it takes the resolved source entries one by one,
//! makes the entries of the target archive, and sees to it that one of them
//! is the main entry.

use vstd::prelude::*;
use vstd::string::*;
use crate::entry::{
    entry_for, main_redirect, ResolvedEntry, ResolvedEntryView, ZimEntry, ZimEntryKindView,
    ZimEntryView,
};
use crate::router::ContentAdderSwitch;

verus! {

/// Where a conversion stands.
#[derive(Clone, Copy, Debug, PartialEq, Eq, Structural)]
pub enum Phase {
    /// No entry was taken yet.
    Idle,
    /// Entries are being taken.
    Draining,
    /// Every entry was taken; the archive can be written.
    Finalizing,
    /// An error ended the conversion; no archive is written.
    Failed,
}

/// Why a conversion ended early.
#[derive(Clone, Copy, Debug, PartialEq, Eq, Structural)]
pub enum ConvertError {
    /// The source would not give an entry or an item.
    Source,
    /// A file behind an item could not be opened or read.
    Io,
    /// A content store or the entry store refused what it was given.
    Store,
    /// The stream of entries broke while work was left.
    Pipeline,
}

/// The extension of the file that holds the binary content, given the
/// extension of the target archive's file: `binary.` and that extension, or
/// `binary.waj` where the target's file has none.
pub open spec fn binary_extension_for(extension: Option<Seq<char>>) -> Seq<char> {
    match extension {
        Some(extension) => "binary."@ + extension,
        None => "binary.waj"@,
    }
}

/// Names the extension of the file that holds the binary content in split
/// mode; it takes the place of the extension of the target archive's file.
pub fn binary_pack_extension(extension: Option<&str>) -> (binary: String)
    ensures
        binary@ == binary_extension_for(
            match extension {
                Some(extension) => Some(extension@),
                None => None,
            },
        ),
{
    match extension {
        Some(extension) => String::from_str("binary.").concat(extension),
        None => String::from_str("binary.waj"),
    }
}

/// What the stream hands to the converter: a resolved entry, or the error
/// that kept the entry from being resolved or stored.
pub type Received = Result<ResolvedEntry, ConvertError>;

/// The entries of the target archive for the resolved entries of `stream`,
/// in order.
pub open spec fn converted(stream: Seq<ResolvedEntryView>) -> Seq<ZimEntryView> {
    stream.map_values(|entry: ResolvedEntryView| entry_for(entry))
}

/// One of `entries` is a main entry.
pub open spec fn has_main(entries: Seq<ZimEntryView>) -> bool {
    exists|i: int| 0 <= i < entries.len() && (#[trigger] entries[i]).is_main
}

/// The number of main entries among `entries`.
pub open spec fn main_count(entries: Seq<ZimEntryView>) -> nat
    decreases entries.len(),
{
    if entries.len() == 0 {
        0
    } else {
        main_count(entries.drop_last()) + if entries.last().is_main {
            1nat
        } else {
            0nat
        }
    }
}

/// Every entry that a completed conversion of `stream` submits, in order:
/// the converted entries and, where none of them is a main entry, the
/// redirect to `main_path` after them.
pub open spec fn output(stream: Seq<ResolvedEntryView>, main_path: Seq<char>) -> Seq<
    ZimEntryView,
> {
    if has_main(converted(stream)) {
        converted(stream)
    } else {
        converted(stream).push(main_redirect(main_path))
    }
}

/// The resolved entries of a stream that holds no error.
pub open spec fn resolved_views(stream: Seq<Received>) -> Seq<ResolvedEntryView> {
    stream.map_values(|received: Received| received->Ok_0@)
}

/// The first error in `stream` is at `at`.
pub open spec fn first_error(stream: Seq<Received>, at: int) -> bool {
    &&& 0 <= at < stream.len()
    &&& stream[at] is Err
    &&& forall|k: int| 0 <= k < at ==> stream[k] is Ok
}

/// At most one resolved entry of `stream` has the empty path.
pub open spec fn at_most_one_empty_path(stream: Seq<ResolvedEntryView>) -> bool {
    forall|i: int, j: int|
        0 <= i < j < stream.len() ==> !((#[trigger] stream[i]).path.len() == 0 && (
        #[trigger] stream[j]).path.len() == 0)
}

/// No main entry is counted exactly where there is none.
pub proof fn lemma_main_count_zero(entries: Seq<ZimEntryView>)
    ensures
        main_count(entries) == 0 <==> !has_main(entries),
    decreases entries.len(),
{
    if entries.len() > 0 {
        let before = entries.drop_last();
        lemma_main_count_zero(before);
        if has_main(entries) {
            let i = choose|i: int| 0 <= i < entries.len() && (#[trigger] entries[i]).is_main;
            if i < before.len() {
                assert(before[i].is_main);
            }
        }
        if has_main(before) {
            let i = choose|i: int| 0 <= i < before.len() && (#[trigger] before[i]).is_main;
            assert(entries[i].is_main);
        }
        if entries.last().is_main {
            assert(entries[entries.len() - 1].is_main);
        }
    }
}

/// Where no two entries are main entries, at most one is counted.
pub proof fn lemma_main_count_at_most_one(entries: Seq<ZimEntryView>)
    requires
        forall|i: int, j: int|
            0 <= i < j < entries.len() ==> !((#[trigger] entries[i]).is_main && (
            #[trigger] entries[j]).is_main),
    ensures
        main_count(entries) <= 1,
    decreases entries.len(),
{
    if entries.len() > 0 {
        let before = entries.drop_last();
        assert forall|i: int, j: int| 0 <= i < j < before.len() implies !((
        #[trigger] before[i]).is_main && (#[trigger] before[j]).is_main) by {
            assert(before[i] == entries[i] && before[j] == entries[j]);
        }
        lemma_main_count_at_most_one(before);
        if entries.last().is_main {
            lemma_main_count_zero(before);
            if has_main(before) {
                let i = choose|i: int| 0 <= i < before.len() && (#[trigger] before[i]).is_main;
                assert(entries[i].is_main && entries[entries.len() - 1].is_main);
            }
        }
    }
}

/// A completed conversion submits exactly one main entry, provided that at
/// most one entry of the stream has the empty path. Where the stream holds
/// no entry with the empty path, the main entry is the last one submitted:
/// the redirect from the empty path to the source's main item path.
pub proof fn lemma_exactly_one_main(stream: Seq<ResolvedEntryView>, main_path: Seq<char>)
    requires
        at_most_one_empty_path(stream),
    ensures
        main_count(output(stream, main_path)) == 1,
        !has_main(converted(stream)) ==> {
            &&& output(stream, main_path) == converted(stream).push(main_redirect(main_path))
            &&& output(stream, main_path).last().path.len() == 0
            &&& output(stream, main_path).last().kind == ZimEntryKindView::Redirect(main_path)
        },
        has_main(converted(stream)) <==> exists|i: int|
            0 <= i < stream.len() && (#[trigger] stream[i]).path.len() == 0,
{
    let made = converted(stream);
    assert forall|i: int, j: int| 0 <= i < j < made.len() implies !((
    #[trigger] made[i]).is_main && (#[trigger] made[j]).is_main) by {
        assert(made[i].is_main == (stream[i].path.len() == 0));
        assert(made[j].is_main == (stream[j].path.len() == 0));
    }
    lemma_main_count_at_most_one(made);
    lemma_main_count_zero(made);
    if has_main(made) {
        let i = choose|i: int| 0 <= i < made.len() && (#[trigger] made[i]).is_main;
        assert(stream[i].path.len() == 0);
    } else {
        let all = made.push(main_redirect(main_path));
        assert(all.drop_last() =~= made);
        assert(all.last() == main_redirect(main_path));
    }
    if exists|i: int| 0 <= i < stream.len() && (#[trigger] stream[i]).path.len() == 0 {
        let i = choose|i: int| 0 <= i < stream.len() && (#[trigger] stream[i]).path.len() == 0;
        assert(made[i].is_main);
    }
}

/// What a completed conversion leaves: the entries to submit and the content
/// stores to write.
pub struct Finished<P, B> {
    pub entries: Vec<ZimEntry>,
    pub content_pack: P,
    pub extra_packs: Vec<B>,
}

/// The state of one conversion.
pub struct Converter<P, B> {
    content_adder_switch: ContentAdderSwitch<P, B>,
    has_main_page: bool,
    processed: u64,
    phase: Phase,
}

impl<P, B> Converter<P, B> {
    /// The content stores.
    pub closed spec fn switch(&self) -> ContentAdderSwitch<P, B> {
        self.content_adder_switch
    }

    /// Whether a main entry was made.
    pub closed spec fn main_seen(&self) -> bool {
        self.has_main_page
    }

    /// The number of entries taken.
    pub closed spec fn taken(&self) -> nat {
        self.processed as nat
    }

    /// Where the conversion stands.
    pub closed spec fn state(&self) -> Phase {
        self.phase
    }

    /// Entries can still be taken.
    pub open spec fn is_active(&self) -> bool {
        self.state() is Idle || self.state() is Draining
    }

    /// Nothing was taken yet.
    pub open spec fn is_fresh(&self) -> bool {
        self.state() is Idle && self.taken() == 0 && !self.main_seen()
    }

    /// Starts a conversion into `content_pack` and, in split mode, into
    /// `binary_content_pack` for binary content.
    pub fn new(content_pack: P, binary_content_pack: Option<B>) -> (converter: Self)
        ensures
            converter.switch().primary() == content_pack,
            converter.switch().binary() == binary_content_pack,
            !converter.main_seen(),
            converter.taken() == 0,
            converter.state() is Idle,
    {
        Self {
            content_adder_switch: ContentAdderSwitch::new(content_pack, binary_content_pack),
            has_main_page: false,
            processed: 0,
            phase: Phase::Idle,
        }
    }

    /// Where the conversion stands.
    pub fn phase(&self) -> (phase: Phase)
        ensures
            phase == self.state(),
    {
        self.phase
    }

    /// Whether a main entry was made.
    pub fn has_main_page(&self) -> (seen: bool)
        ensures
            seen == self.main_seen(),
    {
        self.has_main_page
    }

    /// The number of entries taken.
    pub fn processed(&self) -> (count: u64)
        ensures
            count == self.taken(),
    {
        self.processed
    }

    /// The content stores, to add to.
    pub fn content_adder_switch(&mut self) -> (switch: &mut ContentAdderSwitch<P, B>)
        ensures
            *switch == old(self).switch(),
            final(self).switch() == *final(switch),
            final(self).main_seen() == old(self).main_seen(),
            final(self).taken() == old(self).taken(),
            final(self).state() == old(self).state(),
    {
        &mut self.content_adder_switch
    }

    /// Takes one resolved entry: counts it, makes the entry of the target
    /// archive, and remembers whether it is the main entry.
    pub fn handle(&mut self, entry: ResolvedEntry) -> (made: ZimEntry)
        requires
            old(self).is_active(),
            old(self).taken() < u64::MAX,
        ensures
            made@ == entry_for(entry@),
            final(self).state() is Draining,
            final(self).taken() == old(self).taken() + 1,
            final(self).main_seen() == (old(self).main_seen() || entry@.path.len() == 0),
            final(self).switch() == old(self).switch(),
    {
        self.processed = self.processed + 1;
        self.phase = Phase::Draining;
        let made = ZimEntry::new(entry);
        if made.is_main() {
            self.has_main_page = true;
        }
        made
    }

    /// Ends the conversion on an error. Nothing that was submitted is taken
    /// back, and nothing more is.
    pub fn fail(&mut self)
        ensures
            final(self).state() is Failed,
            final(self).taken() == old(self).taken(),
            final(self).main_seen() == old(self).main_seen(),
            final(self).switch() == old(self).switch(),
    {
        self.phase = Phase::Failed;
    }

    /// Notes that the stream of entries has ended, and tells whether the
    /// main entry is still to be made.
    pub fn close(&mut self) -> (needs_main: bool)
        requires
            old(self).is_active(),
        ensures
            needs_main == !old(self).main_seen(),
            final(self).state() is Finalizing,
            final(self).taken() == old(self).taken(),
            final(self).main_seen() == old(self).main_seen(),
            final(self).switch() == old(self).switch(),
    {
        self.phase = Phase::Finalizing;
        !self.has_main_page
    }

    /// Makes the main entry for a stream that held none: a redirect from the
    /// empty path to `main_path`, the path of the source's main item.
    pub fn synthesize_main(&mut self, main_path: String) -> (made: ZimEntry)
        requires
            old(self).state() is Finalizing,
            !old(self).main_seen(),
        ensures
            made@ == main_redirect(main_path@),
            final(self).main_seen(),
            final(self).state() is Finalizing,
            final(self).taken() == old(self).taken(),
            final(self).switch() == old(self).switch(),
    {
        self.has_main_page = true;
        ZimEntry::new_redirect(String::new(), main_path, true)
    }

    /// Converts a whole stream: takes what was received in order, ends at
    /// once on the first error, and otherwise closes the stream, makes the
    /// main entry where the stream held none, and gives up the content
    /// stores for writing.
    pub fn run(self, stream: Vec<Received>, main_path: String) -> (outcome: Result<
        Finished<P, B>,
        ConvertError,
    >)
        requires
            self.is_fresh(),
        ensures
            outcome is Ok <==> forall|k: int| 0 <= k < stream@.len() ==> stream@[k] is Ok,
            outcome matches Err(error) ==> exists|at: int|
                first_error(stream@, at) && stream@[at] == Err::<ResolvedEntry, ConvertError>(
                    error,
                ),
            outcome matches Ok(finished) ==> {
                &&& finished.entries.deep_view() == output(resolved_views(stream@), main_path@)
                &&& at_most_one_empty_path(resolved_views(stream@)) ==> main_count(
                    finished.entries.deep_view(),
                ) == 1
                &&& finished.content_pack == self.switch().primary()
                &&& finished.extra_packs@ == match self.switch().binary() {
                    Some(store) => seq![store],
                    None => Seq::<B>::empty(),
                }
            },
    {
        let ghost whole = stream@;
        proof {
            assert(stream.len() == whole.len());
        }
        let ghost stores = self.switch();
        let mut driver = self;
        let mut entries: Vec<ZimEntry> = Vec::new();
        for received in it: stream
            invariant
                it.seq() == whole,
                whole.len() <= usize::MAX,
                driver.is_active(),
                driver.taken() == it.index(),
                driver.switch() == stores,
                forall|k: int| 0 <= k < it.index() ==> whole[k] is Ok,
                entries.deep_view() == converted(resolved_views(whole.take(it.index() as int))),
                driver.main_seen() == has_main(entries.deep_view()),
        {
            match received {
                Err(error) => {
                    driver.fail();
                    assert(first_error(whole, it.index() as int));
                    return Err(error);
                },
                Ok(entry) => {
                    let ghost before = entries.deep_view();
                    let made = driver.handle(entry);
                    entries.push(made);
                    proof {
                        let next = whole.take(it.index() + 1);
                        assert(next.drop_last() =~= whole.take(it.index() as int));
                        assert(entries.deep_view() =~= before.push(made@));
                        assert(entries.deep_view() =~= converted(resolved_views(next)));
                        assert(has_main(entries.deep_view()) == (has_main(before) || made@.is_main)) by {
                            if has_main(before) {
                                let i = choose|i: int| 0 <= i < before.len() && (#[trigger] before[i]).is_main;
                                assert(entries.deep_view()[i].is_main);
                            }
                            if made@.is_main {
                                assert(entries.deep_view()[before.len() as int].is_main);
                            }
                        }
                    }
                },
            }
        }
        proof {
            assert(whole.take(whole.len() as int) =~= whole);
        }
        if driver.close() {
            let ghost before = entries.deep_view();
            let made = driver.synthesize_main(main_path);
            entries.push(made);
            proof {
                assert(entries.deep_view() =~= before.push(made@));
            }
        }
        proof {
            if at_most_one_empty_path(resolved_views(whole)) {
                lemma_exactly_one_main(resolved_views(whole), main_path@);
            }
        }
        let (content_pack, extra_packs) = driver.finalize();
        Ok(Finished { entries, content_pack, extra_packs })
    }

    /// Gives up the content stores for writing: the primary one, and the
    /// binary one as the only extra store if there is one.
    pub fn finalize(self) -> (stores: (P, Vec<B>))
        requires
            self.state() is Finalizing,
            self.main_seen(),
        ensures
            stores.0 == self.switch().primary(),
            stores.1@ == match self.switch().binary() {
                Some(store) => seq![store],
                None => Seq::<B>::empty(),
            },
    {
        self.content_adder_switch.into_inner()
    }
}

} // verus!
