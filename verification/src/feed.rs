//! The syndication feed: fixed channel data, and one entry for each
//! document, in the order of the collection.
//!
//! The feed is assembled as plain data. Writing it out as RSS is left to
//! the `rss` crate; the link by which the feed names itself is patched
//! into the text that `rss` wrote.

use vstd::prelude::*;
use vstd::string::*;
use crate::order::ordered_by;
use crate::loader::newest_first;
use crate::post::{post_views, url_of, Post, PostView};
use crate::text::{replace_all, replace_every};

verus! {

/// The picture that readers show beside the feed.
#[derive(Debug, PartialEq, Eq)]
pub struct Image {
    pub url: String,
    pub title: String,
    pub link: String,
    pub width: String,
    pub height: String,
    pub description: String,
}

/// An image as texts.
pub struct ImageView {
    pub url: Seq<char>,
    pub title: Seq<char>,
    pub link: Seq<char>,
    pub width: Seq<char>,
    pub height: Seq<char>,
    pub description: Seq<char>,
}

impl View for Image {
    type V = ImageView;

    open spec fn view(&self) -> ImageView {
        ImageView {
            url: self.url@,
            title: self.title@,
            link: self.link@,
            width: self.width@,
            height: self.height@,
            description: self.description@,
        }
    }
}

impl Clone for Image {
    fn clone(&self) -> (copy: Self)
        ensures
            copy@ == self@,
    {
        Image {
            url: self.url.clone(),
            title: self.title.clone(),
            link: self.link.clone(),
            width: self.width.clone(),
            height: self.height.clone(),
            description: self.description.clone(),
        }
    }
}

/// What is fixed for the whole site, whatever the documents are.
#[derive(Debug, PartialEq, Eq)]
pub struct Site {
    pub title: String,
    /// The address of the site, without a closing slash.
    pub link: String,
    pub description: String,
    pub language: String,
    /// Who holds the copyright.
    pub owner: String,
    /// The editorial contact; also given as the author of every entry.
    pub editor: String,
    pub generator: String,
    /// For how many minutes a reader may keep the feed before asking
    /// again.
    pub ttl: String,
    pub image: Image,
    /// The path of the feed below `link`.
    pub feed_path: String,
}

/// What is taken from the clock at the start of a run.
#[derive(Debug, PartialEq, Eq)]
pub struct Clock {
    /// The current year.
    pub year: String,
    /// The current time as RFC 2822 writes it.
    pub now: String,
}

/// A clock reading as texts.
pub struct ClockView {
    pub year: Seq<char>,
    pub now: Seq<char>,
}

impl View for Clock {
    type V = ClockView;

    open spec fn view(&self) -> ClockView {
        ClockView { year: self.year@, now: self.now@ }
    }
}

/// A namespace that the feed declares on its root element.
#[derive(Debug, PartialEq, Eq)]
pub struct Namespace {
    pub prefix: String,
    pub uri: String,
}

/// The head of the feed.
#[derive(Debug, PartialEq, Eq)]
pub struct Head {
    pub title: String,
    pub link: String,
    pub description: String,
    pub language: String,
    pub copyright: String,
    pub managing_editor: String,
    pub webmaster: String,
    pub pub_date: String,
    pub last_build_date: String,
    pub generator: String,
    pub ttl: String,
    pub namespace: Namespace,
    pub image: Image,
}

/// The head of a feed as texts. A head that is still being put
/// together may lack its image.
pub struct HeadView {
    pub title: Seq<char>,
    pub link: Seq<char>,
    pub description: Seq<char>,
    pub language: Seq<char>,
    pub copyright: Seq<char>,
    pub managing_editor: Seq<char>,
    pub webmaster: Seq<char>,
    pub pub_date: Seq<char>,
    pub last_build_date: Seq<char>,
    pub generator: Seq<char>,
    pub ttl: Seq<char>,
    pub namespace: (Seq<char>, Seq<char>),
    pub image: Option<ImageView>,
}

impl View for Head {
    type V = HeadView;

    open spec fn view(&self) -> HeadView {
        HeadView {
            title: self.title@,
            link: self.link@,
            description: self.description@,
            language: self.language@,
            copyright: self.copyright@,
            managing_editor: self.managing_editor@,
            webmaster: self.webmaster@,
            pub_date: self.pub_date@,
            last_build_date: self.last_build_date@,
            generator: self.generator@,
            ttl: self.ttl@,
            namespace: (self.namespace.prefix@, self.namespace.uri@),
            image: Some(self.image@),
        }
    }
}

/// One entry of the feed.
#[derive(Debug, PartialEq, Eq)]
pub struct Entry {
    pub title: String,
    pub link: String,
    pub description: String,
    pub author: String,
    /// The identifier of the entry.
    pub guid: String,
    /// Whether the identifier is an address at which the entry is found.
    pub permalink: bool,
    /// When the document was published, as RFC 2822 writes it; none
    /// where RFC 2822 cannot write it.
    pub pub_date: Option<String>,
}

/// An entry as texts.
pub struct EntryView {
    pub title: Seq<char>,
    pub link: Seq<char>,
    pub description: Seq<char>,
    pub author: Seq<char>,
    pub guid: Seq<char>,
    pub permalink: bool,
    pub pub_date: Option<Seq<char>>,
}

/// An optional text by its view.
pub open spec fn text_of(text: Option<String>) -> Option<Seq<char>> {
    match text {
        Some(t) => Some(t@),
        None => None,
    }
}

impl View for Entry {
    type V = EntryView;

    open spec fn view(&self) -> EntryView {
        EntryView {
            title: self.title@,
            link: self.link@,
            description: self.description@,
            author: self.author@,
            guid: self.guid@,
            permalink: self.permalink,
            pub_date: text_of(self.pub_date),
        }
    }
}

/// The entries of `entries`, each by its view.
pub open spec fn entry_views(entries: Seq<Entry>) -> Seq<EntryView> {
    entries.map_values(|e: Entry| e@)
}

/// The feed as data.
#[derive(Debug, PartialEq, Eq)]
pub struct Feed {
    pub head: Head,
    pub entries: Vec<Entry>,
    /// The address at which the feed itself is found.
    pub self_link: String,
}

/// A feed as texts.
pub struct FeedView {
    pub head: HeadView,
    pub entries: Seq<EntryView>,
    pub self_link: Seq<char>,
}

impl View for Feed {
    type V = FeedView;

    open spec fn view(&self) -> FeedView {
        FeedView {
            head: self.head@,
            entries: entry_views(self.entries@),
            self_link: self.self_link@,
        }
    }
}

/// The copyright notice of the channel.
pub open spec fn copyright_of(year: Seq<char>, owner: Seq<char>) -> Seq<char> {
    "Copyright "@ + year + ", "@ + owner
}

/// The namespace of the element by which the feed names itself.
pub open spec fn atom_namespace() -> (Seq<char>, Seq<char>) {
    ("atom"@, "http://www.w3.org/2005/Atom"@)
}

/// The head of the feed: the site's data, the copyright notice with the
/// current year, and the current time as the time of publication and of
/// the last build.
pub open spec fn head_of(site: Site, clock: Clock) -> HeadView {
    HeadView {
        title: site.title@,
        link: site.link@,
        description: site.description@,
        language: site.language@,
        copyright: copyright_of(clock.year@, site.owner@),
        managing_editor: site.editor@,
        webmaster: site.editor@,
        pub_date: clock.now@,
        last_build_date: clock.now@,
        generator: site.generator@,
        ttl: site.ttl@,
        namespace: atom_namespace(),
        image: Some(site.image@),
    }
}

/// The entry for a document whose date is written as `pub_date`. Its
/// link is the site's address followed by the path of the page, and the
/// link is also its identifier.
pub open spec fn entry_with(site: Site, post: PostView, pub_date: Option<Seq<char>>) -> EntryView {
    EntryView {
        title: post.front.title,
        link: site.link@ + url_of(post.front.slug),
        description: post.front.summary,
        author: site.editor@,
        guid: site.link@ + url_of(post.front.slug),
        permalink: true,
        pub_date,
    }
}

/// The entry for a document.
pub open spec fn entry_of(site: Site, post: PostView) -> EntryView {
    entry_with(site, post, post.front.date.rfc2822())
}

/// The feed for a collection: one entry for each document, in the order
/// of the collection.
pub open spec fn feed_of(site: Site, clock: Clock, posts: Seq<PostView>) -> FeedView {
    FeedView {
        head: head_of(site, clock),
        entries: posts.map_values(|p: PostView| entry_of(site, p)),
        self_link: site.link@ + site.feed_path@,
    }
}

/// Makes the head of the feed.
pub fn make_head(site: &Site, clock: &Clock) -> (head: Head)
    ensures
        head@ == head_of(*site, *clock),
{
    let mut copyright = String::from_str("Copyright ");
    copyright.append(clock.year.as_str());
    copyright.append(", ");
    copyright.append(site.owner.as_str());
    Head {
        title: site.title.clone(),
        link: site.link.clone(),
        description: site.description.clone(),
        language: site.language.clone(),
        copyright,
        managing_editor: site.editor.clone(),
        webmaster: site.editor.clone(),
        pub_date: clock.now.clone(),
        last_build_date: clock.now.clone(),
        generator: site.generator.clone(),
        ttl: site.ttl.clone(),
        namespace: Namespace {
            prefix: String::from_str("atom"),
            uri: String::from_str("http://www.w3.org/2005/Atom"),
        },
        image: site.image.clone(),
    }
}

/// Makes the entry for a document whose date is written as `pub_date`.
pub fn make_entry(site: &Site, post: &Post, pub_date: Option<String>) -> (entry: Entry)
    ensures
        entry@ == entry_with(*site, post@, text_of(pub_date)),
{
    let mut link = site.link.clone();
    link.append(post.url().as_str());
    Entry {
        title: post.front.title.clone(),
        guid: link.clone(),
        link,
        description: post.front.summary.clone(),
        author: site.editor.clone(),
        permalink: true,
        pub_date,
    }
}

/// Assembles the feed for a collection. The entries stand in the order
/// of the collection; nothing is sorted here.
pub fn assemble_feed(site: &Site, clock: &Clock, posts: &Vec<Post>) -> (feed: Feed)
    ensures
        feed@ == feed_of(*site, *clock, post_views(posts@)),
{
    let mut entries: Vec<Entry> = Vec::new();
    let mut i: usize = 0;
    while i < posts.len()
        invariant
            i <= posts.len(),
            entries.len() == i,
            forall|k: int| 0 <= k < i ==> (#[trigger] entries@[k])@ == entry_of(*site, posts@[k]@),
        decreases posts.len() - i,
    {
        let pub_date = posts[i].front.date.to_rfc2822();
        entries.push(make_entry(site, &posts[i], pub_date));
        i += 1;
    }
    let mut self_link = site.link.clone();
    self_link.append(site.feed_path.as_str());
    let feed = Feed { head: make_head(site, clock), entries, self_link };
    proof {
        assert(feed@.entries =~= feed_of(*site, *clock, post_views(posts@)).entries);
    }
    feed
}

/// The feed follows the collection: entry `i` is the entry of document
/// `i`. So where the collection stands newest first, an entry for a
/// later document stands ahead of every entry for an earlier one.
pub proof fn lemma_feed_follows_collection(
    site: Site,
    clock: Clock,
    posts: Seq<PostView>,
    i: int,
    j: int,
)
    requires
        ordered_by(posts, newest_first()),
        0 <= i < posts.len(),
        0 <= j < posts.len(),
        posts[i].front.date.is_after(posts[j].front.date),
    ensures
        feed_of(site, clock, posts).entries.len() == posts.len(),
        feed_of(site, clock, posts).entries[i] == entry_of(site, posts[i]),
        feed_of(site, clock, posts).entries[j] == entry_of(site, posts[j]),
        i < j,
{
    if j < i {
        assert(!newest_first()(posts[i], posts[j]));
    }
}

/// `rss::Channel`, the channel as the `rss` crate holds it. It is filled
/// and written out through the functions below and never looked into.
#[verifier::external_type_specification]
#[verifier::external_body]
pub struct ExRssChannel(rss::Channel);

/// What an `rss::Channel` was made with: its own fields, apart from its
/// items.
pub uninterp spec fn channel_head(channel: rss::Channel) -> HeadView;

/// The items that an `rss::Channel` holds, in order.
pub uninterp spec fn channel_items(channel: rss::Channel) -> Seq<EntryView>;

/// The text that `rss` writes for a channel with the given head and
/// items.
pub uninterp spec fn rss_text(head: HeadView, items: Seq<EntryView>) -> Seq<char>;

/// `rss::Channel::default`, with the text fields of `head` stored in the
/// fields of the same names and its namespace put into `namespaces`.
/// The channel made has no image and no items.
#[verifier::external_body]
fn rss_channel(head: &Head) -> (made: rss::Channel)
    ensures
        channel_head(made) == (HeadView { image: None, ..head@ }),
        channel_items(made) == Seq::<EntryView>::empty(),
{
    let mut made = rss::Channel::default();
    made.title = head.title.clone();
    made.link = head.link.clone();
    made.description = head.description.clone();
    made.language = Some(head.language.clone());
    made.copyright = Some(head.copyright.clone());
    made.managing_editor = Some(head.managing_editor.clone());
    made.webmaster = Some(head.webmaster.clone());
    made.pub_date = Some(head.pub_date.clone());
    made.last_build_date = Some(head.last_build_date.clone());
    made.generator = Some(head.generator.clone());
    made.ttl = Some(head.ttl.clone());
    made.namespaces.insert(head.namespace.prefix.clone(), head.namespace.uri.clone());
    made
}

/// `rss::Channel::set_image` with an `rss::Image` that holds the fields
/// of `image`. Nothing else of the channel changes.
#[verifier::external_body]
fn rss_set_image(channel: &mut rss::Channel, image: &Image)
    ensures
        channel_head(*final(channel)) == (HeadView {
            image: Some(image@),
            ..channel_head(*old(channel))
        }),
        channel_items(*final(channel)) == channel_items(*old(channel)),
{
    let mut made = rss::Image::default();
    made.set_url(image.url.clone());
    made.set_title(image.title.clone());
    made.set_link(image.link.clone());
    made.set_width(image.width.clone());
    made.set_height(image.height.clone());
    made.set_description(image.description.clone());
    channel.set_image(made);
}

/// Appends to the channel's items an `rss::Item` that holds the fields
/// of `entry`, its identifier as an `rss::Guid`. The items before it and
/// the head of the channel stay as they are.
#[verifier::external_body]
fn rss_push_item(channel: &mut rss::Channel, entry: &Entry)
    ensures
        channel_items(*final(channel)) == channel_items(*old(channel)).push(entry@),
        channel_head(*final(channel)) == channel_head(*old(channel)),
{
    let mut item = rss::Item::default();
    item.set_title(entry.title.clone());
    item.set_link(entry.link.clone());
    item.set_description(entry.description.clone());
    item.set_author(entry.author.clone());
    item.set_guid(rss::Guid { value: entry.guid.clone(), permalink: entry.permalink });
    item.set_pub_date(entry.pub_date.clone());
    channel.items.push(item);
}

/// `to_string` of an `rss::Channel`, which writes the channel as RSS
/// 2.0 without indentation. What is written depends on the channel's
/// fields and items alone.
#[verifier::external_body]
fn rss_to_string(channel: &rss::Channel) -> (xml: String)
    ensures
        xml@ == rss_text(channel_head(*channel), channel_items(*channel)),
{
    channel.to_string()
}

/// The tag that opens the channel in what `rss` writes.
pub open spec fn channel_tag() -> Seq<char> {
    "<channel>"@
}

/// The element by which a feed names its own address.
pub open spec fn self_link_element(href: Seq<char>) -> Seq<char> {
    "<atom:link href=\""@ + href + "\" rel=\"self\" type=\"application/rss+xml\" />"@
}

/// `xml` with the self link put in behind every tag that opens a
/// channel.
pub open spec fn with_self_link(xml: Seq<char>, href: Seq<char>) -> Seq<char> {
    replace_all(xml, channel_tag(), channel_tag() + self_link_element(href))
}

/// Patches the self link into a feed that has been written out.
pub fn insert_self_link(xml: &str, href: &str) -> (patched: String)
    ensures
        patched@ == with_self_link(xml@, href@),
{
    let mut with = String::from_str("<channel>");
    with.append("<atom:link href=\"");
    with.append(href);
    with.append("\" rel=\"self\" type=\"application/rss+xml\" />");
    proof {
        assert(with@ =~= channel_tag() + self_link_element(href@));
    }
    replace_every(xml, "<channel>", with.as_str())
}

/// The feed as `rss` writes it, before the self link is put in.
pub fn write_rss(feed: &Feed) -> (xml: String)
    ensures
        xml@ == rss_text(feed@.head, feed@.entries),
{
    let mut channel = rss_channel(&feed.head);
    rss_set_image(&mut channel, &feed.head.image);
    let mut i: usize = 0;
    while i < feed.entries.len()
        invariant
            i <= feed.entries.len(),
            channel_head(channel) == feed@.head,
            channel_items(channel) == feed@.entries.take(i as int),
        decreases feed.entries.len() - i,
    {
        rss_push_item(&mut channel, &feed.entries[i]);
        proof {
            assert(feed@.entries.take(i as int).push(feed.entries@[i as int]@)
                =~= feed@.entries.take(i + 1));
        }
        i += 1;
    }
    proof {
        assert(feed@.entries.take(feed.entries.len() as int) =~= feed@.entries);
    }
    rss_to_string(&channel)
}

/// The feed document: the feed written as RSS, with the link by which
/// it names itself.
pub fn feed_document(feed: &Feed) -> (xml: String)
    ensures
        xml@ == with_self_link(rss_text(feed@.head, feed@.entries), feed@.self_link),
{
    let written = write_rss(feed);
    insert_self_link(written.as_str(), feed.self_link.as_str())
}

} // verus!
