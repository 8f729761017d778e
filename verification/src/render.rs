//! Turning rendered markup into page artifacts.
//!
//! The markup of a document comes from outside, one document at a time,
//! as text or as the reason why there is none. What becomes of it depends
//! on that document alone: a failure is recorded against its source and
//! touches no other page.
//!
//! A page goes to the directory named by its document's slug. Slugs are
//! taken to be unique and are not compared: of two documents with one
//! slug both get the same place, and whoever writes the pages decides
//! what that means.

use vstd::prelude::*;
use vstd::string::*;
use crate::post::{post_views, Post, PostView};

verus! {

/// A page to be written below the output root.
#[derive(Debug, PartialEq, Eq)]
pub struct Page {
    /// The directory of the page, to be made if it is not there.
    pub dir: String,
    /// The file of the page, inside `dir`.
    pub file: String,
    /// What the file holds.
    pub html: Vec<u8>,
}

/// A page as texts and bytes.
pub struct PageView {
    pub dir: Seq<char>,
    pub file: Seq<char>,
    pub html: Seq<u8>,
}

impl View for Page {
    type V = PageView;

    open spec fn view(&self) -> PageView {
        PageView { dir: self.dir@, file: self.file@, html: self.html@ }
    }
}

/// A document whose page could not be made, and why.
#[derive(Debug, PartialEq, Eq)]
pub struct Failure {
    /// The file that the document was read from.
    pub source: String,
    /// What went wrong.
    pub detail: String,
}

/// A failure as a pair of texts: source, then detail.
pub type FailureView = (Seq<char>, Seq<char>);

impl View for Failure {
    type V = FailureView;

    open spec fn view(&self) -> FailureView {
        (self.source@, self.detail@)
    }
}

/// What rendering made of one document.
#[derive(Debug, PartialEq, Eq)]
pub enum Rendered {
    Page(Page),
    Failed(Failure),
}

/// An outcome by the view of what it holds.
pub enum RenderedView {
    Page(PageView),
    Failed(FailureView),
}

impl View for Rendered {
    type V = RenderedView;

    open spec fn view(&self) -> RenderedView {
        match self {
            Rendered::Page(page) => RenderedView::Page(page@),
            Rendered::Failed(failure) => RenderedView::Failed(failure@),
        }
    }
}

/// The outcomes of `outcomes`, each by its view.
pub open spec fn rendered_views(outcomes: Seq<Rendered>) -> Seq<RenderedView> {
    outcomes.map_values(|r: Rendered| r@)
}

/// Markup as it arrives: the text, or the reason why there is none.
pub open spec fn markup_view(markup: Result<String, String>) -> Result<Seq<char>, Seq<char>> {
    match markup {
        Ok(text) => Ok(text@),
        Err(detail) => Err(detail@),
    }
}

/// The markups of `markups`, each by its view.
pub open spec fn markup_views(markups: Seq<Result<String, String>>) -> Seq<
    Result<Seq<char>, Seq<char>>,
> {
    markups.map_values(|m: Result<String, String>| markup_view(m))
}

/// The directory of a document's page: one directory for each slug.
pub open spec fn page_dir_of(slug: Seq<char>) -> Seq<char> {
    "posts/"@ + slug
}

/// The file of a document's page.
pub open spec fn page_file_of(slug: Seq<char>) -> Seq<char> {
    page_dir_of(slug) + "/index.html"@
}

/// The detail recorded where markup cannot be minified.
pub open spec fn not_minified() -> Seq<char> {
    "the markup could not be minified"@
}

/// `html_minifier::HTMLMinifierError`, the reason the minifier gives for
/// stopping. It is carried through unopened.
#[verifier::external_type_specification]
#[verifier::external_body]
pub struct ExHTMLMinifierError(html_minifier::HTMLMinifierError);

/// The bytes that `html_minifier::HTMLMinifier` makes of `markup` under
/// the two settings, or `None` where it reports the markup as
/// incomplete.
pub uninterp spec fn minified(markup: Seq<char>, remove_comments: bool, minify_code: bool)
    -> Option<Seq<u8>>;

/// One run of `html_minifier::HTMLMinifier`: `new`, the two setters
/// `set_remove_comments` and `set_minify_code`, `digest` on the whole
/// markup, and `into_html`, which finishes the input and hands out the
/// bytes written. The minifier keeps no state between runs and reads
/// nothing but what it is given, so the outcome is a function of the
/// three arguments; the contract names that function and claims no more.
#[verifier::external_body]
fn run_minifier(markup: &str, remove_comments: bool, minify_code: bool) -> (out: Result<
    Vec<u8>,
    html_minifier::HTMLMinifierError,
>)
    ensures
        out is Ok <==> minified(markup@, remove_comments, minify_code) is Some,
        out matches Ok(bytes) ==> minified(markup@, remove_comments, minify_code) == Some(bytes@),
{
    let mut minifier = html_minifier::HTMLMinifier::new();
    minifier.set_remove_comments(remove_comments);
    minifier.set_minify_code(minify_code);
    minifier.digest(markup)?;
    minifier.into_html()
}

/// What a page holds for `markup`: the markup minified, comments
/// removed and the content of `code` elements left as it is.
pub open spec fn page_bytes(markup: Seq<char>) -> Option<Seq<u8>> {
    minified(markup, true, false)
}

/// Minifies markup for a page. `None` says that the markup is
/// incomplete.
pub fn minify(markup: &str) -> (bytes: Option<Vec<u8>>)
    ensures
        bytes is Some <==> page_bytes(markup@) is Some,
        bytes matches Some(b) ==> page_bytes(markup@) == Some(b@),
{
    match run_minifier(markup, true, false) {
        Ok(bytes) => Some(bytes),
        Err(_) => None,
    }
}

/// The outcome for a document whose markup was minified to `bytes`, or
/// could not be.
pub open spec fn settled(post: PostView, bytes: Option<Seq<u8>>) -> RenderedView {
    match bytes {
        Some(html) => RenderedView::Page(
            PageView {
                dir: page_dir_of(post.front.slug),
                file: page_file_of(post.front.slug),
                html,
            },
        ),
        None => RenderedView::Failed((post.source, not_minified())),
    }
}

/// The outcome for a document with the given markup.
pub open spec fn rendered_as(post: PostView, markup: Result<Seq<char>, Seq<char>>)
    -> RenderedView {
    match markup {
        Ok(text) => settled(post, page_bytes(text)),
        Err(detail) => RenderedView::Failed((post.source, detail)),
    }
}

/// The outcomes for a collection, document by document.
pub open spec fn rendered_all(posts: Seq<PostView>, markups: Seq<Result<Seq<char>, Seq<char>>>)
    -> Seq<RenderedView> {
    Seq::new(posts.len(), |i: int| rendered_as(posts[i], markups[i]))
}

/// Settles the page of `post` from its minified markup.
pub fn settle(post: &Post, bytes: Option<Vec<u8>>) -> (outcome: Rendered)
    ensures
        outcome@ == settled(
            post@,
            match bytes {
                Some(b) => Some(b@),
                None => None,
            },
        ),
{
    match bytes {
        Some(html) => {
            let mut dir = String::from_str("posts/");
            dir.append(post.front.slug.as_str());
            let mut file = dir.clone();
            file.append("/index.html");
            Rendered::Page(Page { dir, file, html })
        },
        None => Rendered::Failed(
            Failure {
                source: post.source.clone(),
                detail: String::from_str("the markup could not be minified"),
            },
        ),
    }
}

/// Makes the page of `post` from its markup, or records why there is
/// none.
pub fn finish_page(post: &Post, markup: Result<String, String>) -> (outcome: Rendered)
    ensures
        outcome@ == rendered_as(post@, markup_view(markup)),
{
    match markup {
        Ok(text) => settle(post, minify(text.as_str())),
        Err(detail) => Rendered::Failed(Failure { source: post.source.clone(), detail }),
    }
}

/// Makes the pages of a collection, given the markup of each document in
/// the order of the collection. `None` says that the markups are not as
/// many as the documents.
pub fn finish_pages(posts: &Vec<Post>, markups: Vec<Result<String, String>>) -> (outcomes: Option<
    Vec<Rendered>,
>)
    ensures
        outcomes is Some <==> markups.len() == posts.len(),
        outcomes matches Some(all) ==> rendered_views(all@) == rendered_all(
            post_views(posts@),
            markup_views(markups@),
        ),
{
    if markups.len() != posts.len() {
        return None;
    }
    let ghost given = markup_views(markups@);
    let ghost taken = markups@;
    let n = posts.len();
    let mut outcomes: Vec<Rendered> = Vec::new();
    let mut i: usize = 0;
    for markup in it: markups
        invariant
            n == posts.len(),
            it.seq() == taken,
            taken.len() == n,
            given == markup_views(taken),
            i == it.index(),
            outcomes.len() == i,
            forall|k: int|
                0 <= k < i ==> (#[trigger] outcomes@[k])@ == rendered_as(posts@[k]@, given[k]),
    {
        outcomes.push(finish_page(&posts[i], markup));
        i += 1;
    }
    proof {
        assert(rendered_views(outcomes@) =~= rendered_all(post_views(posts@), given));
    }
    Some(outcomes)
}

/// The line that reports a failure.
pub open spec fn failure_line(failure: FailureView) -> Seq<char> {
    "failed to render `"@ + failure.0 + "`: "@ + failure.1
}

impl Failure {
    /// The failure as one line for the operator.
    pub fn message(&self) -> (line: String)
        ensures
            line@ == failure_line(self@),
    {
        let mut line = String::from_str("failed to render `");
        line.append(self.source.as_str());
        line.append("`: ");
        line.append(self.detail.as_str());
        line
    }
}

/// The failure that an outcome records, if it is one.
pub open spec fn failure_of(outcome: RenderedView) -> Option<FailureView> {
    match outcome {
        RenderedView::Failed(failure) => Some(failure),
        RenderedView::Page(_) => None,
    }
}

/// Every failure among `outcomes`, in their order.
pub open spec fn failures_in(outcomes: Seq<RenderedView>) -> Seq<FailureView> {
    outcomes.filter_map(|r: RenderedView| failure_of(r))
}

/// The lines that close the rendering phase: one line when every page
/// was made, else a heading and one indented line for each failure.
pub open spec fn summary_of(failures: Seq<FailureView>) -> Seq<Seq<char>> {
    if failures.len() == 0 {
        seq!["Posts rendered!"@]
    } else {
        seq!["Failed to render some posts:"@] + failures.map_values(
            |f: FailureView| "  "@ + failure_line(f),
        )
    }
}

/// Reports the rendering phase: every document without a page is named.
pub fn summary(outcomes: &Vec<Rendered>) -> (lines: Vec<String>)
    ensures
        lines@.map_values(|l: String| l@) == summary_of(failures_in(rendered_views(outcomes@))),
{
    let ghost all = rendered_views(outcomes@);
    let ghost pick = |r: RenderedView| failure_of(r);
    let ghost indent = |f: FailureView| "  "@ + failure_line(f);
    let ghost text = |l: String| l@;
    let mut lines: Vec<String> = Vec::new();
    let mut i: usize = 0;
    proof {
        assert(all.take(0).filter_map(pick) =~= Seq::<FailureView>::empty());
        assert(lines@.map_values(text) =~= all.take(0).filter_map(pick).map_values(indent));
    }
    while i < outcomes.len()
        invariant
            i <= outcomes.len(),
            all == rendered_views(outcomes@),
            pick == |r: RenderedView| failure_of(r),
            indent == |f: FailureView| "  "@ + failure_line(f),
            text == |l: String| l@,
            lines@.map_values(text) == all.take(i as int).filter_map(pick).map_values(indent),
        decreases outcomes.len() - i,
    {
        proof {
            assert(all.take(i + 1).drop_last() =~= all.take(i as int));
            assert(all.take(i + 1).last() == all[i as int]);
        }
        match &outcomes[i] {
            Rendered::Failed(failure) => {
                let ghost listed = lines@.map_values(text);
                let mut line = String::from_str("  ");
                line.append(failure.message().as_str());
                lines.push(line);
                proof {
                    let found = all.take(i as int).filter_map(pick);
                    assert(lines@.map_values(text) =~= listed.push(indent(failure@)));
                    assert((found + seq![failure@]).map_values(indent) =~= found.map_values(
                        indent,
                    ).push(indent(failure@)));
                }
            },
            Rendered::Page(_) => {},
        }
        i += 1;
    }
    proof {
        assert(all.take(outcomes.len() as int) =~= all);
    }
    if lines.len() == 0 {
        lines.push(String::from_str("Posts rendered!"));
        proof {
            assert(lines@.map_values(text) =~= seq!["Posts rendered!"@]);
        }
    } else {
        let ghost listed = lines@.map_values(text);
        lines.insert(0, String::from_str("Failed to render some posts:"));
        proof {
            assert(lines@.map_values(text) =~= seq!["Failed to render some posts:"@] + listed);
        }
    }
    lines
}

/// A document's outcome depends on that document and its markup alone:
/// where two runs give a document the same markup, its outcome is the
/// same, whatever became of the other documents.
pub proof fn lemma_rendering_is_isolated(
    posts: Seq<PostView>,
    first: Seq<Result<Seq<char>, Seq<char>>>,
    second: Seq<Result<Seq<char>, Seq<char>>>,
    i: int,
)
    requires
        0 <= i < posts.len(),
        first[i] == second[i],
    ensures
        rendered_all(posts, first)[i] == rendered_all(posts, second)[i],
        rendered_all(posts, first).len() == posts.len(),
{
}

} // verus!
