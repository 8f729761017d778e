//! What holds of a run as a whole.
//!
//! A run loads the collection, groups it for the index, makes a page of
//! each document's markup and assembles the feed. Listing the source
//! directory, producing the markup and writing the artifacts happen
//! outside; here a run is what the library makes of the files and the
//! markups it was handed.

use vstd::prelude::*;
use crate::feed::{entry_of, feed_of, Clock, FeedView, HeadView, Site};
use crate::grouping::{grouped, lemma_groups_hold_the_collection, GroupView};
use crate::loader::{
    lemma_collection_holds_the_documents, lemma_newer_documents_come_first, newest_first,
    post_of, posts_in, warnings_in, SourceFile, WarningView,
};
use crate::order::sort_by;
use crate::post::PostView;
use crate::render::{rendered_all, RenderedView};

verus! {

/// Everything a run produces.
pub struct RunView {
    pub posts: Seq<PostView>,
    pub warnings: Seq<WarningView>,
    pub groups: Seq<GroupView>,
    pub pages: Seq<RenderedView>,
    pub feed: FeedView,
}

/// Whether `run` is what the library makes of `files`, of the markup of
/// each loaded document, and of the site's data at the time `clock`.
pub open spec fn is_run_of(
    run: RunView,
    files: Seq<SourceFile>,
    markups: Seq<Result<Seq<char>, Seq<char>>>,
    site: Site,
    clock: Clock,
) -> bool {
    &&& run.posts == sort_by(posts_in(files), newest_first())
    &&& run.warnings == warnings_in(files)
    &&& run.groups == grouped(run.posts)
    &&& run.pages == rendered_all(run.posts, markups)
    &&& run.feed == feed_of(site, clock, run.posts)
}

/// Running twice on the same files, with the same markup for each
/// document, gives the same collection, warnings, groups and pages. The
/// two feeds have the same entries and the same self link; their heads
/// differ at most in what is taken from the clock: the year of the
/// copyright notice and the two dates.
pub proof fn lemma_runs_repeat(
    first: RunView,
    second: RunView,
    files: Seq<SourceFile>,
    markups: Seq<Result<Seq<char>, Seq<char>>>,
    site: Site,
    earlier: Clock,
    later: Clock,
)
    requires
        is_run_of(first, files, markups, site, earlier),
        is_run_of(second, files, markups, site, later),
    ensures
        first.posts == second.posts,
        first.warnings == second.warnings,
        first.groups == second.groups,
        first.pages == second.pages,
        first.feed.entries == second.feed.entries,
        first.feed.self_link == second.feed.self_link,
        first.feed.head == (HeadView {
            copyright: first.feed.head.copyright,
            pub_date: first.feed.head.pub_date,
            last_build_date: first.feed.head.last_build_date,
            ..second.feed.head
        }),
        earlier@ == later@ ==> first == second,
{
}

/// Newer documents come first everywhere: of two documents the one
/// published later stands ahead of the other in the collection, and so
/// does its entry in the feed.
pub proof fn lemma_newer_first_in_collection_and_feed(
    run: RunView,
    files: Seq<SourceFile>,
    markups: Seq<Result<Seq<char>, Seq<char>>>,
    site: Site,
    clock: Clock,
    i: int,
    j: int,
)
    requires
        is_run_of(run, files, markups, site, clock),
        0 <= i < run.posts.len(),
        0 <= j < run.posts.len(),
        run.posts[i].front.date.is_after(run.posts[j].front.date),
    ensures
        i < j,
        run.feed.entries.len() == run.posts.len(),
        run.feed.entries[i] == entry_of(site, run.posts[i]),
        run.feed.entries[j] == entry_of(site, run.posts[j]),
{
    lemma_newer_documents_come_first(files, i, j);
}

/// Whether the document stands in the collection or in a group of the
/// index.
pub open spec fn stands_in(run: RunView, p: PostView) -> bool {
    run.posts.contains(p) || exists|g: int|
        0 <= g < run.groups.len() && (#[trigger] run.groups[g]).posts.contains(p)
}

/// Only accepted documents appear: whatever stands in the collection or
/// in the index is the document of some file, and every entry of the
/// feed is the entry of a document of the collection. A file that holds
/// no document, for want of a header or of a required field, therefore
/// shows nowhere.
pub proof fn lemma_only_accepted_documents_appear(
    run: RunView,
    files: Seq<SourceFile>,
    markups: Seq<Result<Seq<char>, Seq<char>>>,
    site: Site,
    clock: Clock,
    p: PostView,
)
    requires
        is_run_of(run, files, markups, site, clock),
    ensures
        stands_in(run, p) <==> exists|k: int|
            0 <= k < files.len() && post_of(#[trigger] files[k]) == Some(p),
        run.feed.entries.len() == run.posts.len(),
        forall|i: int|
            0 <= i < run.posts.len() ==> #[trigger] run.feed.entries[i] == entry_of(
                site,
                run.posts[i],
            ),
{
    lemma_collection_holds_the_documents(files, p);
    lemma_groups_hold_the_collection(run.posts, p);
}

/// A page that fails costs nothing else. Two runs on the same files,
/// whatever markup each was given, have the same collection, the same
/// index groups and the same feed: a document without a page keeps its
/// place in all three. And each document that was given the same markup
/// in both runs has the same outcome in both.
pub proof fn lemma_render_failures_are_isolated(
    first: RunView,
    second: RunView,
    files: Seq<SourceFile>,
    one: Seq<Result<Seq<char>, Seq<char>>>,
    other: Seq<Result<Seq<char>, Seq<char>>>,
    site: Site,
    clock: Clock,
)
    requires
        is_run_of(first, files, one, site, clock),
        is_run_of(second, files, other, site, clock),
    ensures
        first.posts == second.posts,
        first.groups == second.groups,
        first.feed == second.feed,
        first.pages.len() == first.posts.len(),
        second.pages.len() == first.posts.len(),
        forall|i: int|
            0 <= i < first.posts.len() && one[i] == other[i] ==> #[trigger] first.pages[i]
                == second.pages[i],
{
}

} // verus!
