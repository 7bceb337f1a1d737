use calebhamilton_org::feed::{blog_channel, feed_item, feed_items, feed_xml};
use calebhamilton_org::post::PostMetadata;
use calebhamilton_org::time::Timestamp;

fn metadata(id: &str, created_at: i64, hidden: bool) -> PostMetadata {
    PostMetadata {
        id: id.to_string(),
        title: format!("Title {}", id),
        description: format!("About {}", id),
        created_at: Timestamp::from_seconds(created_at).unwrap(),
        hidden,
        length: 1,
        word_count: 1,
    }
}

#[test]
fn channel_of_the_blog() {
    let c = blog_channel();
    assert_eq!(c.title, "Fyssion's blog");
    assert_eq!(c.link, "https://fyssion.zone/blog/");
    assert_eq!(c.language, "en-us");
    assert_eq!(c.managing_editor, "fyssioncodes@gmail.com (Fyssion)");
}

#[test]
fn item_of_a_post() {
    let item = feed_item(&metadata("making-a-blog", 1679084830, false));
    assert_eq!(item.title, "Title making-a-blog");
    assert_eq!(item.link, "https://fyssion.zone/blog/post/making-a-blog/");
    assert_eq!(item.guid, item.link);
    assert!(item.permalink);
    assert_eq!(item.pub_date, "Fri, 17 Mar 2023 20:27:10 +0000");
    assert_eq!(item.author, "fyssioncodes@gmail.com (Fyssion)");
}

#[test]
fn items_skip_hidden_posts() {
    let posts = vec![metadata("a", 0, false), metadata("b", 0, true), metadata("c", 0, false)];
    let items = feed_items(&posts);
    let links: Vec<&str> = items.iter().map(|i| i.link.as_str()).collect();
    assert_eq!(links, vec!["https://fyssion.zone/blog/post/a/", "https://fyssion.zone/blog/post/c/"]);
}

#[test]
fn feed_document() {
    let posts = vec![metadata("shown", 1679084830, false), metadata("secret", 0, true)];
    let xml = feed_xml(&posts);
    assert!(xml.contains("<rss"), "{}", xml);
    assert!(xml.contains("<title>Fyssion&apos;s blog</title>"), "{}", xml);
    assert!(xml.contains("<link>https://fyssion.zone/blog/post/shown/</link>"));
    assert!(xml.contains("<pubDate>Fri, 17 Mar 2023 20:27:10 +0000</pubDate>"));
    assert!(!xml.contains("secret"));
    assert_eq!(xml.matches("<item>").count(), 1);
}
