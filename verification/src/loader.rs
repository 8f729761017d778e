//! Loading the collection: every document file becomes a document, a
//! warning, or nothing, and the documents are put newest first.

use vstd::prelude::*;
use vstd::string::*;
use crate::frontmatter::{date_of, first_missing, given, header_of, parsed, RequiredField};
use crate::order::{
    insert_by, insertion_point, keeps_ties_of, lemma_insertion_point_step,
    lemma_insertion_point_stop, lemma_sort_by_contains, lemma_sort_by_is_the_stable_order,
    lemma_sort_by_ordered, lemma_sort_by_push, ordered_by, sort_by, strict_weak_order,
};
use crate::post::{post_views, read_as, Post, PostView};
use crate::text::chars_of;
use crate::timestamp::lemma_is_after_orders;

verus! {

/// What was found at a path of the source directory.
#[derive(Debug, PartialEq, Eq)]
pub enum Content {
    /// The entry is a directory.
    Directory,
    /// The file could not be read; the text says why.
    Unreadable(String),
    /// The text of the file.
    Text(String),
}

/// One entry of the source directory.
#[derive(Debug, PartialEq, Eq)]
pub struct SourceFile {
    pub path: String,
    pub content: Content,
}

/// A document file that was left out, and why.
#[derive(Debug, PartialEq, Eq)]
pub struct Warning {
    /// The path of the file.
    pub source: String,
    /// What was wrong with it.
    pub detail: String,
}

/// A warning as a pair of texts: source, then detail.
pub type WarningView = (Seq<char>, Seq<char>);

impl View for Warning {
    type V = WarningView;

    open spec fn view(&self) -> WarningView {
        (self.source@, self.detail@)
    }
}

/// The warnings of `warnings`, each by its view.
pub open spec fn warning_views(warnings: Seq<Warning>) -> Seq<WarningView> {
    warnings.map_values(|w: Warning| w@)
}

/// The line that reports a warning.
pub open spec fn warning_line(warning: WarningView) -> Seq<char> {
    "skipping `"@ + warning.0 + "` as it failed to parse: "@ + warning.1
}

impl Warning {
    /// The warning as one line for the operator.
    pub fn message(&self) -> (line: String)
        ensures
            line@ == warning_line(self@),
    {
        let mut line = String::from_str("skipping `");
        line.append(self.source.as_str());
        line.append("` as it failed to parse: ");
        line.append(self.detail.as_str());
        line
    }
}

/// The documents that loaded, newest first, and the warnings for the
/// files that did not.
#[derive(Debug, PartialEq, Eq)]
pub struct LoadReport {
    pub posts: Vec<Post>,
    pub warnings: Vec<Warning>,
}

/// The ending of a document file's name.
pub open spec fn document_suffix() -> Seq<char> {
    seq!['.', 'm', 'd']
}

/// Whether `path` names a document file: its last component ends in
/// `.md` and has something before that.
pub open spec fn has_document_name(path: Seq<char>) -> bool {
    &&& path.len() > 3
    &&& path.skip(path.len() - 3) == document_suffix()
    &&& path[path.len() - 4] != '/'
}

/// The document that `file` holds, if it is a document file whose text
/// has an accepted header.
pub open spec fn post_of(file: SourceFile) -> Option<PostView> {
    if has_document_name(file.path@) {
        match file.content {
            Content::Text(text) => match read_as(file.path@, text@) {
                Ok(Some(post)) => Some(post),
                _ => None,
            },
            _ => None,
        }
    } else {
        None
    }
}

/// The warning that `file` earns: one if it is a document file that
/// could not be read or whose header is not accepted, none if its text
/// has no header, if it is a directory, or if it is no document file.
pub open spec fn warning_of(file: SourceFile) -> Option<WarningView> {
    if has_document_name(file.path@) {
        match file.content {
            Content::Directory => None,
            Content::Unreadable(detail) => Some((file.path@, detail@)),
            Content::Text(text) => match parsed(text@) {
                Err(fault) => Some((file.path@, fault.description())),
                Ok(_) => None,
            },
        }
    } else {
        None
    }
}

/// The documents among `files`, in the order of the files.
pub open spec fn posts_in(files: Seq<SourceFile>) -> Seq<PostView> {
    files.filter_map(|f: SourceFile| post_of(f))
}

/// The warnings that `files` earn, in the order of the files.
pub open spec fn warnings_in(files: Seq<SourceFile>) -> Seq<WarningView> {
    files.filter_map(|f: SourceFile| warning_of(f))
}

/// In the collection a document comes before another when it was
/// published later.
pub open spec fn newest_first() -> spec_fn(PostView, PostView) -> bool {
    |a: PostView, b: PostView| a.front.date.is_after(b.front.date)
}

/// Publication dates order documents strictly and weakly: two documents
/// tie exactly when they were published at one instant.
pub proof fn lemma_newest_first_orders()
    ensures
        strict_weak_order(newest_first()),
{
    lemma_is_after_orders();
    let before = newest_first();
    assert forall|x: PostView, y: PostView| #![trigger before(x, y)] before(x, y) implies !before(
        y,
        x,
    ) by {
        assert(x.front.date.is_after(y.front.date));
    }
    assert forall|x: PostView, y: PostView, z: PostView|
        #![trigger before(x, y), before(y, z)]
        !before(x, y) && !before(y, z) implies !before(x, z) by {
        assert(!x.front.date.is_after(y.front.date));
        assert(!y.front.date.is_after(z.front.date));
    }
}

/// Whether `path` names a document file.
pub fn is_document_path(path: &str) -> (yes: bool)
    ensures
        yes == has_document_name(path@),
{
    let chars = chars_of(path);
    let n = chars.len();
    if n <= 3 {
        return false;
    }
    let yes = chars[n - 3] == '.' && chars[n - 2] == 'm' && chars[n - 1] == 'd' && chars[n - 4]
        != '/';
    proof {
        let tail = path@.skip(n - 3);
        if chars[n - 3] == '.' && chars[n - 2] == 'm' && chars[n - 1] == 'd' {
            assert(tail =~= document_suffix());
        } else if tail == document_suffix() {
            assert(tail[0] == '.' && tail[1] == 'm' && tail[2] == 'd');
        }
    }
    yes
}

/// Puts `post` among `posts` behind the last document that was not
/// published earlier than it.
fn insert_by_date(posts: &mut Vec<Post>, post: Post)
    ensures
        post_views(final(posts)@) == insert_by(post_views(old(posts)@), post@, newest_first()),
{
    let ghost all = post_views(posts@);
    let mut at: usize = posts.len();
    proof {
        assert(all.take(at as int) =~= all);
    }
    while at > 0 && post.front.date.later_than(&posts[at - 1].front.date)
        invariant
            at <= posts.len(),
            all == post_views(posts@),
            insertion_point(all, post@, newest_first()) == insertion_point(
                all.take(at as int),
                post@,
                newest_first(),
            ),
        decreases at,
    {
        proof {
            lemma_insertion_point_step(all, post@, newest_first(), at as int);
        }
        at -= 1;
    }
    proof {
        lemma_insertion_point_stop(all, post@, newest_first(), at as int);
        assert(post_views(posts@.insert(at as int, post)) =~= all.insert(at as int, post@));
    }
    posts.insert(at, post);
}

/// Loads the collection from the entries of the source directory.
///
/// Entries that are no document files, directories, and texts without a
/// header are passed over in silence. A document file that could not be
/// read, or whose header is not accepted, earns one warning and is left
/// out. The documents that remain are put newest first; documents of one
/// instant stay in the order of their files.
pub fn load_posts(files: &Vec<SourceFile>) -> (report: LoadReport)
    ensures
        post_views(report.posts@) == sort_by(posts_in(files@), newest_first()),
        warning_views(report.warnings@) == warnings_in(files@),
        ordered_by(post_views(report.posts@), newest_first()),
        keeps_ties_of(post_views(report.posts@), posts_in(files@), newest_first()),
{
    let mut posts: Vec<Post> = Vec::new();
    let mut warnings: Vec<Warning> = Vec::new();
    let mut i: usize = 0;
    proof {
        assert(post_views(posts@) =~= sort_by(posts_in(files@.take(0)), newest_first()));
        assert(warning_views(warnings@) =~= warnings_in(files@.take(0)));
    }
    while i < files.len()
        invariant
            i <= files.len(),
            post_views(posts@) == sort_by(posts_in(files@.take(i as int)), newest_first()),
            warning_views(warnings@) == warnings_in(files@.take(i as int)),
        decreases files.len() - i,
    {
        let file = &files[i];
        let ghost seen = files@.take(i as int);
        let ghost loaded = posts_in(seen);
        let ghost warned = warning_views(warnings@);
        proof {
            assert(files@.take(i + 1).drop_last() =~= seen);
            assert(files@.take(i + 1).last() == files@[i as int]);
        }
        if is_document_path(file.path.as_str()) {
            match &file.content {
                Content::Directory => {},
                Content::Unreadable(detail) => {
                    warnings.push(Warning { source: file.path.clone(), detail: detail.clone() });
                    proof {
                        assert(warning_views(warnings@) =~= warned + seq![
                            (file.path@, detail@),
                        ]);
                    }
                },
                Content::Text(text) => {
                    match Post::from_text(file.path.as_str(), text.as_str()) {
                        Ok(Some(post)) => {
                            proof {
                                assert(loaded + seq![post@] =~= loaded.push(post@));
                                lemma_sort_by_push(loaded, post@, newest_first());
                            }
                            insert_by_date(&mut posts, post);
                        },
                        Ok(None) => {},
                        Err(fault) => {
                            warnings.push(
                                Warning { source: file.path.clone(), detail: fault.describe() },
                            );
                            proof {
                                assert(warning_views(warnings@) =~= warned + seq![
                                    (file.path@, fault.description()),
                                ]);
                            }
                        },
                    }
                },
            }
        }
        i += 1;
    }
    proof {
        assert(files@.take(files.len() as int) =~= files@);
        lemma_newest_first_orders();
        lemma_sort_by_is_the_stable_order(posts_in(files@), posts_in(files@), newest_first());
    }
    LoadReport { posts, warnings }
}

/// In the loaded collection a document stands ahead of every document
/// that was published earlier.
pub proof fn lemma_newer_documents_come_first(files: Seq<SourceFile>, i: int, j: int)
    requires
        0 <= i < sort_by(posts_in(files), newest_first()).len(),
        0 <= j < sort_by(posts_in(files), newest_first()).len(),
        sort_by(posts_in(files), newest_first())[i].front.date.is_after(
            sort_by(posts_in(files), newest_first())[j].front.date,
        ),
    ensures
        i < j,
{
    let loaded = sort_by(posts_in(files), newest_first());
    lemma_newest_first_orders();
    lemma_sort_by_ordered(posts_in(files), newest_first());
    if j < i {
        assert(!newest_first()(loaded[i], loaded[j]));
    }
}

/// A file adds what it holds behind what the files before it gave: at
/// most one document and at most one warning.
pub proof fn lemma_one_file_more(files: Seq<SourceFile>, file: SourceFile)
    ensures
        posts_in(files.push(file)) == match post_of(file) {
            Some(post) => posts_in(files).push(post),
            None => posts_in(files),
        },
        warnings_in(files.push(file)) == match warning_of(file) {
            Some(warning) => warnings_in(files).push(warning),
            None => warnings_in(files),
        },
{
    assert(files.push(file).drop_last() =~= files);
    match post_of(file) {
        Some(post) => {
            assert(posts_in(files) + seq![post] =~= posts_in(files).push(post));
        },
        None => {},
    }
    match warning_of(file) {
        Some(warning) => {
            assert(warnings_in(files) + seq![warning] =~= warnings_in(files).push(warning));
        },
        None => {},
    }
}

/// The loaded collection holds exactly the documents of the files: a
/// document stands in it if and only if some file holds it.
pub proof fn lemma_collection_holds_the_documents(files: Seq<SourceFile>, p: PostView)
    ensures
        sort_by(posts_in(files), newest_first()).contains(p) <==> exists|k: int|
            0 <= k < files.len() && post_of(#[trigger] files[k]) == Some(p),
    decreases files.len(),
{
    lemma_sort_by_contains(posts_in(files), newest_first(), p);
    if files.len() > 0 {
        let head = files.drop_last();
        lemma_collection_holds_the_documents(head, p);
        lemma_sort_by_contains(posts_in(head), newest_first(), p);
        lemma_one_file_more(head, files.last());
        assert(files =~= head.push(files.last()));
        if posts_in(files).contains(p) {
            if posts_in(head).contains(p) {
                let k = choose|k: int| 0 <= k < head.len() && post_of(#[trigger] head[k]) == Some(p);
                assert(files[k] == head[k]);
            } else {
                let at = posts_in(files).index_of(p);
                if at < posts_in(head).len() {
                    assert(posts_in(head)[at] == p);
                }
                assert(post_of(files[files.len() - 1]) == Some(p));
            }
        }
        if exists|k: int| 0 <= k < files.len() && post_of(#[trigger] files[k]) == Some(p) {
            let k = choose|k: int| 0 <= k < files.len() && post_of(#[trigger] files[k]) == Some(p);
            if k < head.len() {
                assert(head[k] == files[k]);
                let at = posts_in(head).index_of(p);
                assert(posts_in(files)[at] == p);
            } else {
                assert(posts_in(files)[posts_in(head).len() as int] == p);
            }
        }
    }
}

/// A file whose header does not give a required field holds no
/// document, so that none can reach the collection; if it is a document
/// file, it earns a warning that names it.
pub proof fn lemma_incomplete_header_gives_no_document(file: SourceFile, field: RequiredField)
    requires
        file.content matches Content::Text(text) && header_of(text@) matches Ok(Some(header))
            && given(header.0, field) is None,
    ensures
        post_of(file) is None,
        has_document_name(file.path@) ==> (warning_of(file) matches Some(warning) && warning.0
            == file.path@),
{
    if let Content::Text(text) = file.content {
        if let Ok(Some(header)) = header_of(text@) {
            assert(first_missing(header.0) is Some);
            assert(parsed(text@) is Err);
        }
    }
}

/// A text without a header earns no warning and gives no document; a
/// header that is not accepted earns its document file exactly the
/// warning that names the file and describes the fault.
pub proof fn lemma_warning_of_a_file(file: SourceFile)
    ensures
        match file.content {
            Content::Text(text) => match parsed(text@) {
                Ok(None) => warning_of(file) is None && post_of(file) is None,
                Ok(Some(_)) => warning_of(file) is None,
                Err(fault) => post_of(file) is None && (has_document_name(file.path@)
                    ==> warning_of(file) == Some((file.path@, fault.description()))),
            },
            _ => post_of(file) is None,
        },
        !(warning_of(file) is Some && post_of(file) is Some),
{
}

/// A document that a file holds has a complete header: the file is a
/// document file, every required field is given, the date was read, and
/// the document carries what the header gives.
pub proof fn lemma_documents_are_complete(file: SourceFile, p: PostView)
    requires
        post_of(file) == Some(p),
    ensures
        has_document_name(file.path@),
        p.source == file.path@,
        file.content matches Content::Text(text) && header_of(text@) matches Ok(Some(header)) && {
            &&& first_missing(header.0) is None
            &&& given(header.0, RequiredField::Title) == Some(p.front.title)
            &&& date_of(header.0) == Some(p.front.date)
            &&& given(header.0, RequiredField::Slug) == Some(p.front.slug)
            &&& given(header.0, RequiredField::Section) == Some(p.front.section)
            &&& given(header.0, RequiredField::Summary) == Some(p.front.summary)
            &&& p.body == header.1
        },
{
}

} // verus!
