//! A document: where it came from, its header and its body.

use vstd::prelude::*;
use vstd::string::*;
use crate::frontmatter::{parse, parsed, FrontMatter, FrontMatterView, MetadataError};

verus! {

/// One document of the collection. Nothing in it changes once it is
/// loaded.
#[derive(Debug, PartialEq, Eq)]
pub struct Post {
    /// The file that the document was read from; used in diagnostics.
    pub source: String,
    /// The validated header.
    pub front: FrontMatter,
    /// The text behind the header, as written.
    pub body: String,
}

/// A document as texts.
pub struct PostView {
    pub source: Seq<char>,
    pub front: FrontMatterView,
    pub body: Seq<char>,
}

impl View for Post {
    type V = PostView;

    open spec fn view(&self) -> PostView {
        PostView { source: self.source@, front: self.front@, body: self.body@ }
    }
}

impl Clone for Post {
    fn clone(&self) -> (copy: Self)
        ensures
            copy@ == self@,
    {
        Post { source: self.source.clone(), front: self.front.clone(), body: self.body.clone() }
    }
}

/// The documents of `posts`, each by its view.
pub open spec fn post_views(posts: Seq<Post>) -> Seq<PostView> {
    posts.map_values(|p: Post| p@)
}

/// The path of a document's page below the site's root: `/posts/`, the
/// slug, and a closing slash.
pub open spec fn url_of(slug: Seq<char>) -> Seq<char> {
    "/posts/"@ + slug + "/"@
}

/// What reading the text of the file `source` gives: `Ok(None)` where
/// the text has no header, the fault where its header is not accepted,
/// else the document.
pub open spec fn read_as(source: Seq<char>, text: Seq<char>) -> Result<
    Option<PostView>,
    MetadataError,
> {
    match parsed(text) {
        Err(fault) => Err(fault),
        Ok(None) => Ok(None),
        Ok(Some((front, body))) => Ok(Some(PostView { source, front, body })),
    }
}

impl Post {
    /// Reads a document from the text of the file `source`.
    pub fn from_text(source: &str, text: &str) -> (outcome: Result<Option<Post>, MetadataError>)
        ensures
            match outcome {
                Ok(Some(post)) => read_as(source@, text@) matches Ok(Some(p)) && p == post@,
                Ok(None) => read_as(source@, text@) matches Ok(None),
                Err(fault) => read_as(source@, text@) matches Err(f) && f == fault,
            },
    {
        match parse(text) {
            Err(fault) => Err(fault),
            Ok(None) => Ok(None),
            Ok(Some((front, body))) => Ok(
                Some(Post { source: String::from_str(source), front, body }),
            ),
        }
    }

    /// The path under which the document's page is linked.
    pub fn url(&self) -> (url: String)
        ensures
            url@ == url_of(self.front.slug@),
    {
        let mut url = String::from_str("/posts/");
        url.append(self.front.slug.as_str());
        url.append("/");
        url
    }
}

} // verus!
