//! From the listings of the directories to the input files of the batch:
//! the entries whose extension is the input extension, directory by
//! directory, in the order in which each listing gives them.
//!
//! The order within one directory is that of the listing, which a file
//! system is free to choose; nothing here sorts.

use vstd::prelude::*;
use vstd::string::*;
use crate::artifacts::{is_media_path, MediaFile};
use crate::diagnostic::Diagnostic;
use crate::views::views_of;

verus! {

/// One immediate entry of a directory.
#[derive(Debug, PartialEq, Eq)]
pub enum Entry {
    /// The entry could not be read.
    Unreadable,
    /// The path of the entry.
    Path(String),
}

/// An [`Entry`] as plain values.
pub enum EntryView {
    Unreadable,
    Path(Seq<char>),
}

impl View for Entry {
    type V = EntryView;

    open spec fn view(&self) -> EntryView {
        match self {
            Entry::Unreadable => EntryView::Unreadable,
            Entry::Path(path) => EntryView::Path(path@),
        }
    }
}

/// What listing one directory, without descending, came to.
#[derive(Debug, PartialEq, Eq)]
pub enum Listing {
    /// The directory could not be read.
    Unreadable,
    /// The immediate entries of the directory.
    Entries(Vec<Entry>),
}

/// A [`Listing`] as plain values.
pub enum ListingView {
    Unreadable,
    Entries(Seq<EntryView>),
}

impl View for Listing {
    type V = ListingView;

    open spec fn view(&self) -> ListingView {
        match self {
            Listing::Unreadable => ListingView::Unreadable,
            Listing::Entries(entries) => ListingView::Entries(views_of(entries@)),
        }
    }
}

/// Whether an entry is an input file.
pub open spec fn selected(entry: EntryView) -> bool {
    entry matches EntryView::Path(path) && is_media_path(path)
}

/// The input files among `entries`, in order.
pub open spec fn media_among(entries: Seq<EntryView>) -> Seq<Seq<char>>
    decreases entries.len(),
{
    if entries.len() == 0 {
        seq![]
    } else {
        let before = media_among(entries.drop_last());
        if selected(entries.last()) {
            before.push(entries.last()->Path_0)
        } else {
            before
        }
    }
}

/// The input files of one listing; none where the directory was unreadable.
pub open spec fn media_of(listing: ListingView) -> Seq<Seq<char>> {
    match listing {
        ListingView::Unreadable => seq![],
        ListingView::Entries(entries) => media_among(entries),
    }
}

/// The input files of the batch: those of each listing, listing after listing.
pub open spec fn discovered(listings: Seq<ListingView>) -> Seq<Seq<char>>
    decreases listings.len(),
{
    if listings.len() == 0 {
        seq![]
    } else {
        discovered(listings.drop_last()) + media_of(listings.last())
    }
}

/// The messages about the unreadable entries of the listing at position
/// `directory`, in order.
pub open spec fn entry_diagnostics(directory: usize, entries: Seq<EntryView>) -> Seq<Diagnostic>
    decreases entries.len(),
{
    if entries.len() == 0 {
        seq![]
    } else {
        let before = entry_diagnostics(directory, entries.drop_last());
        if entries.last() is Unreadable {
            before.push(
                Diagnostic::UnreadableEntry { directory, entry: (entries.len() - 1) as usize },
            )
        } else {
            before
        }
    }
}

/// The messages of discovery: one for each directory and one for each entry
/// that could not be read, in the order in which they were met.
pub open spec fn discovery_diagnostics(listings: Seq<ListingView>) -> Seq<Diagnostic>
    decreases listings.len(),
{
    if listings.len() == 0 {
        seq![]
    } else {
        let before = discovery_diagnostics(listings.drop_last());
        let directory = (listings.len() - 1) as usize;
        match listings.last() {
            ListingView::Unreadable => before.push(Diagnostic::UnreadableDirectory { directory }),
            ListingView::Entries(entries) => before + entry_diagnostics(directory, entries),
        }
    }
}

/// An entry is among the input files of a listing exactly when the listing
/// holds it as a readable entry with the input extension.
pub proof fn lemma_media_among_members(entries: Seq<EntryView>, path: Seq<char>)
    ensures
        media_among(entries).contains(path) <==> is_media_path(path) && entries.contains(
            EntryView::Path(path),
        ),
    decreases entries.len(),
{
    if entries.len() == 0 {
        assert(!media_among(entries).contains(path));
    } else {
        let head = entries.drop_last();
        let before = media_among(head);
        lemma_media_among_members(head, path);
        if media_among(entries).contains(path) {
            let k = choose|k: int| 0 <= k < media_among(entries).len() && media_among(entries)[k]
                == path;
            if selected(entries.last()) && k == before.len() {
                assert(entries[entries.len() - 1] == EntryView::Path(path));
            } else {
                assert(before[k] == path);
                assert(before.contains(path));
                let j = choose|j: int| 0 <= j < head.len() && head[j] == EntryView::Path(path);
                assert(entries[j] == EntryView::Path(path));
            }
        }
        if is_media_path(path) && entries.contains(EntryView::Path(path)) {
            let j = choose|j: int| 0 <= j < entries.len() && entries[j] == EntryView::Path(path);
            if j == entries.len() - 1 {
                assert(media_among(entries)[before.len() as int] == path);
            } else {
                assert(head[j] == EntryView::Path(path));
                assert(head.contains(EntryView::Path(path)));
                let k = choose|k: int| 0 <= k < before.len() && before[k] == path;
                assert(media_among(entries)[k] == path);
            }
        }
    }
}

/// Whether a listing holds `path` as a readable entry.
pub open spec fn lists(listing: ListingView, path: Seq<char>) -> bool {
    listing matches ListingView::Entries(entries) && entries.contains(EntryView::Path(path))
}

/// A path is discovered exactly when it has the input extension and one of
/// the listings holds it as a readable entry.
pub proof fn law_discovered_are_listed_media(listings: Seq<ListingView>, path: Seq<char>)
    ensures
        discovered(listings).contains(path) <==> is_media_path(path) && exists|d: int|
            0 <= d < listings.len() && lists(#[trigger] listings[d], path),
    decreases listings.len(),
{
    if listings.len() == 0 {
        assert(!discovered(listings).contains(path));
    } else {
        let head = listings.drop_last();
        let n = listings.len() - 1;
        let before = discovered(head);
        let last = media_of(listings.last());
        law_discovered_are_listed_media(head, path);
        if let ListingView::Entries(entries) = listings.last() {
            lemma_media_among_members(entries, path);
        }
        if discovered(listings).contains(path) {
            let k = choose|k: int| 0 <= k < discovered(listings).len() && discovered(listings)[k]
                == path;
            if k < before.len() {
                assert(before[k] == path);
                assert(before.contains(path));
                let d = choose|d: int| 0 <= d < head.len() && lists(#[trigger] head[d], path);
                assert(head[d] == listings[d]);
            } else {
                assert(last[k - before.len()] == path);
                assert(last.contains(path));
                assert(lists(listings[n], path));
            }
        }
        if is_media_path(path) && exists|d: int|
            0 <= d < listings.len() && lists(#[trigger] listings[d], path) {
            let d = choose|d: int| 0 <= d < listings.len() && lists(#[trigger] listings[d], path);
            if d == n {
                assert(last.contains(path));
                let k = choose|k: int| 0 <= k < last.len() && last[k] == path;
                assert(discovered(listings)[before.len() + k] == path);
            } else {
                assert(head[d] == listings[d]);
                assert(before.contains(path));
                let k = choose|k: int| 0 <= k < before.len() && before[k] == path;
                assert(discovered(listings)[k] == path);
            }
        }
    }
}

/// What discovery leaves: the input files of the batch and the messages
/// about what could not be read.
#[derive(Debug)]
pub struct Discovery {
    /// The input files, in processing order.
    pub files: Vec<MediaFile>,
    /// One message for each directory or entry that could not be read.
    pub diagnostics: Vec<Diagnostic>,
}

/// Selects the input files from the listings of the directories of the input
/// set, given in the order of the set.
pub fn discover(listings: &Vec<Listing>) -> (r: Discovery)
    ensures
        views_of(r.files@) == discovered(views_of(listings@)),
        r.diagnostics@ == discovery_diagnostics(views_of(listings@)),
{
    let ghost all = views_of(listings@);
    let mut files: Vec<MediaFile> = Vec::new();
    let mut diagnostics: Vec<Diagnostic> = Vec::new();
    let mut d: usize = 0;
    assert(all.take(0) =~= Seq::<ListingView>::empty());
    assert(views_of(files@) =~= discovered(all.take(0)));
    while d < listings.len()
        invariant
            d <= listings.len(),
            all == views_of(listings@),
            views_of(files@) == discovered(all.take(d as int)),
            diagnostics@ == discovery_diagnostics(all.take(d as int)),
        decreases listings.len() - d,
    {
        let ghost head = all.take(d as int);
        let ghost next = all.take(d + 1);
        proof {
            assert(next.drop_last() =~= head);
            assert(next.last() == all[d as int]);
            assert(all[d as int] == listings@[d as int]@);
        }
        match &listings[d] {
            Listing::Unreadable => {
                diagnostics.push(Diagnostic::UnreadableDirectory { directory: d });
                proof {
                    assert(discovered(next) =~= discovered(head));
                }
            },
            Listing::Entries(entries) => {
                let ghost these = views_of(entries@);
                let ghost files_before = views_of(files@);
                let ghost notes_before = diagnostics@;
                let mut e: usize = 0;
                assert(these.take(0) =~= Seq::<EntryView>::empty());
                assert(views_of(files@) =~= files_before + media_among(these.take(0)));
                assert(diagnostics@ =~= notes_before + entry_diagnostics(d, these.take(0)));
                while e < entries.len()
                    invariant
                        e <= entries.len(),
                        these == views_of(entries@),
                        views_of(files@) == files_before + media_among(these.take(e as int)),
                        diagnostics@ == notes_before + entry_diagnostics(d, these.take(e as int)),
                    decreases entries.len() - e,
                {
                    let ghost done = these.take(e as int);
                    let ghost more = these.take(e + 1);
                    let ghost files_now = views_of(files@);
                    proof {
                        assert(more.drop_last() =~= done);
                        assert(more.last() == these[e as int]);
                        assert(these[e as int] == entries@[e as int]@);
                    }
                    match &entries[e] {
                        Entry::Unreadable => {
                            diagnostics.push(
                                Diagnostic::UnreadableEntry { directory: d, entry: e },
                            );
                            proof {
                                assert(diagnostics@ =~= notes_before + entry_diagnostics(d, more));
                            }
                        },
                        Entry::Path(path) => {
                            match MediaFile::new(path.clone()) {
                                Some(file) => {
                                    files.push(file);
                                    proof {
                                        assert(views_of(files@) =~= files_now.push(path@));
                                        assert(views_of(files@) =~= files_before + media_among(
                                            more,
                                        ));
                                    }
                                },
                                None => {},
                            }
                        },
                    }
                    e += 1;
                }
                proof {
                    assert(these.take(e as int) =~= these);
                }
            },
        }
        d += 1;
    }
    proof {
        assert(all.take(d as int) =~= all);
    }
    Discovery { files, diagnostics }
}

} // verus!
