//! The blog's RSS feed: one item for each listed post.

use crate::post::{PostMetadata, visible, visible_posts};
use crate::time::{in_rfc2822_years, rfc2822_text};
use vstd::prelude::*;

verus! {

/// The channel of an RSS feed.
#[derive(Debug)]
pub struct FeedChannel {
    pub title: String,
    pub link: String,
    pub description: String,
    pub language: String,
    pub copyright: String,
    pub managing_editor: String,
    pub webmaster: String,
}

/// A `FeedChannel` with its strings as sequences of characters.
pub struct FeedChannelView {
    pub title: Seq<char>,
    pub link: Seq<char>,
    pub description: Seq<char>,
    pub language: Seq<char>,
    pub copyright: Seq<char>,
    pub managing_editor: Seq<char>,
    pub webmaster: Seq<char>,
}

impl View for FeedChannel {
    type V = FeedChannelView;

    open spec fn view(&self) -> FeedChannelView {
        FeedChannelView {
            title: self.title@,
            link: self.link@,
            description: self.description@,
            language: self.language@,
            copyright: self.copyright@,
            managing_editor: self.managing_editor@,
            webmaster: self.webmaster@,
        }
    }
}

/// One item of an RSS feed.
#[derive(Debug)]
pub struct FeedItem {
    pub title: String,
    pub link: String,
    pub description: String,
    pub author: String,
    pub guid: String,
    pub permalink: bool,
    pub pub_date: String,
}

/// A `FeedItem` with its strings as sequences of characters.
pub struct FeedItemView {
    pub title: Seq<char>,
    pub link: Seq<char>,
    pub description: Seq<char>,
    pub author: Seq<char>,
    pub guid: Seq<char>,
    pub permalink: bool,
    pub pub_date: Seq<char>,
}

impl View for FeedItem {
    type V = FeedItemView;

    open spec fn view(&self) -> FeedItemView {
        FeedItemView {
            title: self.title@,
            link: self.link@,
            description: self.description@,
            author: self.author@,
            guid: self.guid@,
            permalink: self.permalink,
            pub_date: self.pub_date@,
        }
    }
}

/// The views of a list of items.
pub open spec fn items_view(items: Seq<FeedItem>) -> Seq<FeedItemView> {
    items.map_values(|i: FeedItem| i@)
}

/// The XML that the `rss` crate writes for a channel with the given items.
pub uninterp spec fn rss_document(channel: FeedChannelView, items: Seq<FeedItemView>) -> Seq<char>;

/// Builds an `rss::Channel` from `channel` and `items` (every optional text
/// set, each item with a `Guid` of its `guid` and `permalink`) and writes it
/// with its `Display`, which is `rss`'s XML writer.
#[verifier::external_body]
fn render_rss(channel: FeedChannel, items: Vec<FeedItem>) -> (xml: String)
    ensures
        xml@ == rss_document(channel@, items_view(items@)),
{
    let items = items.into_iter().map(|i| rss::Item {
        title: Some(i.title), link: Some(i.link), description: Some(i.description),
        author: Some(i.author), pub_date: Some(i.pub_date),
        guid: Some(rss::Guid { value: i.guid, permalink: i.permalink }), ..Default::default()
    }).collect();
    let c = channel;
    rss::Channel { title: c.title, link: c.link, description: c.description,
        language: Some(c.language), copyright: Some(c.copyright),
        managing_editor: Some(c.managing_editor), webmaster: Some(c.webmaster), items,
        ..Default::default() }.to_string()
}

/// Where the blog lives.
pub open spec fn blog_link() -> Seq<char> {
    "https://fyssion.zone/blog/"@
}

/// The blog's author, as RSS names people.
pub open spec fn blog_author() -> Seq<char> {
    "fyssioncodes@gmail.com (Fyssion)"@
}

/// The blog's channel.
pub open spec fn blog_channel_view() -> FeedChannelView {
    FeedChannelView {
        title: "Fyssion's blog"@,
        link: blog_link(),
        description: "Thoughts and reflections without thinking or reflecting"@,
        language: "en-us"@,
        copyright: "Copyright 2023-present Fyssion"@,
        managing_editor: blog_author(),
        webmaster: blog_author(),
    }
}

/// The blog's channel.
pub fn blog_channel() -> (c: FeedChannel)
    ensures
        c@ == blog_channel_view(),
{
    FeedChannel {
        title: String::from_str("Fyssion's blog"),
        link: String::from_str("https://fyssion.zone/blog/"),
        description: String::from_str("Thoughts and reflections without thinking or reflecting"),
        language: String::from_str("en-us"),
        copyright: String::from_str("Copyright 2023-present Fyssion"),
        managing_editor: String::from_str("fyssioncodes@gmail.com (Fyssion)"),
        webmaster: String::from_str("fyssioncodes@gmail.com (Fyssion)"),
    }
}

/// The address of a post in the feed.
pub open spec fn feed_link(id: Seq<char>) -> Seq<char> {
    "https://fyssion.zone/blog/post/"@ + id + "/"@
}

/// The feed's item for a post.
pub open spec fn item_of(p: PostMetadata) -> FeedItemView {
    FeedItemView {
        title: p.title@,
        link: feed_link(p.id@),
        description: p.description@,
        author: blog_author(),
        guid: feed_link(p.id@),
        permalink: true,
        pub_date: rfc2822_text(p.created_at@),
    }
}

/// The feed's items for the listed posts `s`.
pub open spec fn items_of(s: Seq<PostMetadata>) -> Seq<FeedItemView> {
    s.map_values(|p: PostMetadata| item_of(p))
}

/// The feed has one item for each listed post, in order, and each item
/// carries its post: the post's title and description, the post's address
/// under `https://fyssion.zone/blog/post/` as link and permanent guid, the
/// blog's author, and the post's date in RFC 2822.
pub proof fn lemma_items_carry_their_posts(posts: Seq<PostMetadata>)
    ensures
        items_of(visible(posts)).len() == visible(posts).len(),
        forall|i: int| 0 <= i < visible(posts).len() ==> {
            let p = #[trigger] visible(posts)[i];
            let item = items_of(visible(posts))[i];
            &&& item.title == p.title@
            &&& item.description == p.description@
            &&& item.link == "https://fyssion.zone/blog/post/"@ + p.id@ + "/"@
            &&& item.guid == item.link
            &&& item.permalink
            &&& item.author == "fyssioncodes@gmail.com (Fyssion)"@
            &&& item.pub_date == rfc2822_text(p.created_at@)
        },
{
}

/// Whether the date of every listed post can be written in RFC 2822.
pub open spec fn dates_fit_feed(posts: Seq<PostMetadata>) -> bool {
    forall|i: int| 0 <= i < visible(posts).len() ==> in_rfc2822_years(
        #[trigger] visible(posts)[i].created_at@,
    )
}

fn feed_link_string(id: &String) -> (s: String)
    ensures
        s@ == feed_link(id@),
{
    String::from_str("https://fyssion.zone/blog/post/").concat(id.as_str()).concat("/")
}

/// The feed's item for a post whose date RFC 2822 can write.
pub fn feed_item(post: &PostMetadata) -> (item: FeedItem)
    requires
        in_rfc2822_years(post.created_at@),
    ensures
        item@ == item_of(*post),
{
    FeedItem {
        title: post.title.clone(),
        link: feed_link_string(&post.id),
        description: post.description.clone(),
        author: String::from_str("fyssioncodes@gmail.com (Fyssion)"),
        guid: feed_link_string(&post.id),
        permalink: true,
        pub_date: post.created_at.rfc2822(),
    }
}

/// The feed's items: one for each listed post, in order.
pub fn feed_items(posts: &Vec<PostMetadata>) -> (items: Vec<FeedItem>)
    requires
        dates_fit_feed(posts@),
    ensures
        items_view(items@) == items_of(visible(posts@)),
{
    let listed = visible_posts(posts);
    let mut items: Vec<FeedItem> = Vec::new();
    let mut i: usize = 0;
    while i < listed.len()
        invariant
            listed@ == visible(posts@),
            dates_fit_feed(posts@),
            i <= listed@.len(),
            items_view(items@) == items_of(listed@.take(i as int)),
        decreases listed@.len() - i,
    {
        let item = feed_item(&listed[i]);
        let ghost before = items@;
        items.push(item);
        proof {
            assert(items@ =~= before.push(item));
            let next = listed@.take(i + 1);
            assert(items_view(before).len() == i);
            assert(items_view(items@).len() == i + 1);
            assert(items_of(next).len() == i + 1);
            assert forall|k: int| 0 <= k < i + 1 implies #[trigger] items_view(items@)[k] == items_of(next)[k] by {
                if k < i {
                    assert(items_view(before)[k] == items_of(listed@.take(i as int))[k]);
                    assert(listed@.take(i as int)[k] == next[k]);
                } else {
                    assert(next[k] == listed@[i as int]);
                    assert(items@[k] == item);
                }
            }
            assert(items_view(items@) =~= items_of(next));
        }
        i = i + 1;
    }
    assert(listed@.take(i as int) =~= listed@);
    items
}

/// The feed's XML for the given posts.
pub fn feed_xml(posts: &Vec<PostMetadata>) -> (xml: String)
    requires
        dates_fit_feed(posts@),
    ensures
        xml@ == rss_document(
            blog_channel_view(),
            items_of(visible(posts@)),
        ),
{
    render_rss(blog_channel(), feed_items(posts))
}

} // verus!
