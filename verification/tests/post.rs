use calebhamilton_org::counter::{tally, PostCounter};
use calebhamilton_org::errors::LoadingError;
use calebhamilton_org::front_matter::{default_hidden, front_matter_toml, ParsedPostMetadata};
use calebhamilton_org::markdown::MdNode;
use calebhamilton_org::post::{post_id, sort_newest_first, visible_posts, Post, PostMetadata};
use calebhamilton_org::time::Timestamp;
use calebhamilton_org::markdown::{blog_theme, Highlighter};
use syntect::highlighting::ThemeSet;

fn source(front_matter: &str, body: &str) -> String {
    format!("---\n{}---\n\n{}", front_matter, body)
}

const VALID: &str = "title = \"Making a blog\"\ndescription = \"Blogging is hard.\"\ncreated_at = 1679084830\n";

fn parsed(hidden: bool) -> Result<ParsedPostMetadata, toml::de::Error> {
    Ok(ParsedPostMetadata {
        title: "Making a blog".to_string(),
        description: "Blogging is hard.".to_string(),
        created_at: Timestamp::from_seconds(1679084830).unwrap(),
        hidden,
    })
}

fn highlighter() -> Highlighter {
    Highlighter::new(ThemeSet::load_defaults(), "InspiredGitHub").unwrap()
}

fn toml_failure() -> toml::de::Error {
    toml::from_str::<toml::Table>("title = ").unwrap_err()
}

fn metadata(id: &str, created_at: i64, hidden: bool) -> PostMetadata {
    PostMetadata {
        id: id.to_string(),
        title: format!("title {}", id),
        description: format!("about {}", id),
        created_at: Timestamp::from_seconds(created_at).unwrap(),
        hidden,
        length: 10,
        word_count: 2,
    }
}

#[test]
fn front_matter_text_of_a_source() {
    let content = source(VALID, "Hello world.\n");
    assert_eq!(PostMetadata::front_matter(&content), format!("\n{}", VALID));
    assert_eq!(PostMetadata::front_matter(&"No front matter.\n".to_string()), "");
    let table: toml::Table = toml::from_str(&PostMetadata::front_matter(&content)).unwrap();
    assert_eq!(table["title"].as_str(), Some("Making a blog"));
    assert_eq!(table["created_at"].as_integer(), Some(1679084830));
}

#[test]
fn build_reads_front_matter_and_counts() {
    let content = source(VALID, "Hello world.\n");
    let m = PostMetadata::build(&"making-a-blog".to_string(), &content, parsed(false)).unwrap();
    assert_eq!(m.id, "making-a-blog");
    assert_eq!(m.title, "Making a blog");
    assert_eq!(m.description, "Blogging is hard.");
    assert_eq!(m.created_at.seconds(), 1679084830);
    assert!(!m.hidden);
    assert_eq!(m.length, 12);
    assert_eq!(m.word_count, 2);
}

#[test]
fn build_counts_code_too() {
    let content = source(VALID, "Some `inline code` here.\n\n```\nlet x = 1;\n```\n");
    let m = PostMetadata::build(&"code".to_string(), &content, parsed(false)).unwrap();
    let text = "Some ".len() + "inline code".len() + " here.".len() + "let x = 1;\n".len();
    assert_eq!(m.length, text);
    assert_eq!(m.word_count, 1 + 2 + 1 + 4);
}

#[test]
fn build_counts_characters_not_bytes() {
    let content = source(VALID, "héllo wörld\n");
    let m = PostMetadata::build(&"u".to_string(), &content, parsed(false)).unwrap();
    assert_eq!(m.length, 11);
    assert_eq!(m.word_count, 2);
}

#[test]
fn build_keeps_hidden_flag() {
    let content = source(VALID, "x\n");
    assert!(PostMetadata::build(&"h".to_string(), &content, parsed(true)).unwrap().hidden);
    assert!(!PostMetadata::build(&"s".to_string(), &content, parsed(false)).unwrap().hidden);
    assert!(!default_hidden());
}

#[test]
fn build_passes_toml_errors_through() {
    let expected = toml_failure().to_string();
    let r = PostMetadata::build(&"bad".to_string(), &"text\n".to_string(), Err(toml_failure()));
    match r {
        Err(LoadingError::Invalid(e)) => assert_eq!(e.to_string(), expected),
        other => panic!("unexpected {:?}", other),
    }
    let e = PostMetadata::build(&"bad".to_string(), &"text\n".to_string(), Err(toml_failure())).unwrap_err();
    assert_eq!(e.message(), format!("TOML error: {}", expected));
}

#[test]
fn try_build_agrees_with_build() {
    let content = source(VALID, "Hello world.\n");
    let id = "p".to_string();
    let a = PostMetadata::try_build(&id, &content, parsed(false)).unwrap().unwrap();
    let b = PostMetadata::build(&id, &content, parsed(false)).unwrap();
    assert_eq!(a.title, b.title);
    assert_eq!(a.length, b.length);
    assert_eq!(a.word_count, b.word_count);
}

#[test]
fn render_post_with_highlighting() {
    let content = source(VALID, "Hello *world*.\n\n```rust\nlet x = 1;\n```\n\n~~gone~~\n");
    let post = Post::render("p".to_string(), &content, parsed(false), highlighter()).unwrap().unwrap();
    assert_eq!(post.id, "p");
    assert!(post.content.contains("<p>Hello <em>world</em>.</p>"));
    assert!(post.content.contains("<del>gone</del>"));
    assert!(post.content.contains("<pre"));
    assert!(!post.content.contains("created_at"));
    assert_eq!(post.metadata.id, "p");
    assert_eq!(post.metadata.title, "Making a blog");
    let listed = PostMetadata::build(&"p".to_string(), &content, parsed(false)).unwrap();
    assert_eq!(post.metadata.length, listed.length);
    assert_eq!(post.metadata.word_count, listed.word_count);
    let bad = Post::render("q".to_string(), &"text".to_string(), Err(toml_failure()), highlighter()).unwrap();
    assert!(matches!(bad, Err(LoadingError::Invalid(_))));
}

#[test]
fn front_matter_text_is_cut_out() {
    assert_eq!(front_matter_toml(Some("---\na = 1\n---\n".to_string())), "\na = 1\n");
    assert_eq!(front_matter_toml(None), "");
    assert_eq!(front_matter_toml(Some("  \n---x---  ".to_string())), "x");
}

#[test]
fn counters_add() {
    let a = PostCounter::from_string("one two".to_string());
    assert_eq!(a, PostCounter { length: 7, word_count: 2 });
    let b = PostCounter::from_string("три".to_string());
    assert_eq!(b, PostCounter { length: 3, word_count: 1 });
    assert_eq!(a.add(b), PostCounter { length: 10, word_count: 3 });
    assert_eq!(a.add(PostCounter::empty()), a);
    assert_eq!(PostCounter::from_string("Rust是由 Mozilla".to_string()).word_count, 4);
}

#[test]
fn tally_of_nodes() {
    let nodes = vec![
        MdNode::Other,
        MdNode::FrontMatter("---\nx\n---\n".to_string()),
        MdNode::Text("a b".to_string()),
        MdNode::Code("c".to_string()),
        MdNode::CodeBlock("d e f\n".to_string()),
    ];
    assert_eq!(tally(&nodes), Some(PostCounter { length: 3 + 1 + 6, word_count: 2 + 1 + 3 }));
    assert_eq!(tally(&vec![MdNode::Other]), Some(PostCounter::empty()));
}

#[test]
fn listed_posts_exclude_hidden() {
    let posts = vec![metadata("a", 1, false), metadata("b", 2, true), metadata("c", 3, false)];
    let listed = visible_posts(&posts);
    let ids: Vec<&str> = listed.iter().map(|p| p.id.as_str()).collect();
    assert_eq!(ids, vec!["a", "c"]);
    assert_eq!(visible_posts(&listed).len(), listed.len());
}

#[test]
fn sorting_newest_first_is_stable() {
    let mut posts = vec![
        metadata("old", 10, false),
        metadata("new", 30, false),
        metadata("mid1", 20, false),
        metadata("mid2", 20, true),
        metadata("mid3", 20, false),
    ];
    sort_newest_first(&mut posts);
    let ids: Vec<&str> = posts.iter().map(|p| p.id.as_str()).collect();
    assert_eq!(ids, vec!["new", "mid1", "mid2", "mid3", "old"]);
    let mut empty: Vec<PostMetadata> = Vec::new();
    sort_newest_first(&mut empty);
    assert!(empty.is_empty());
}

#[test]
fn sorting_agrees_with_std_stable_sort() {
    let dates = [5i64, 3, 5, 9, 1, 3, 9, 0];
    let mut posts: Vec<PostMetadata> =
        dates.iter().enumerate().map(|(i, d)| metadata(&i.to_string(), *d, false)).collect();
    let mut expected: Vec<String> = {
        let mut v: Vec<(i64, String)> = dates.iter().enumerate().map(|(i, d)| (*d, i.to_string())).collect();
        v.sort_by(|a, b| b.0.cmp(&a.0));
        v.into_iter().map(|(_, id)| id).collect()
    };
    sort_newest_first(&mut posts);
    let ids: Vec<String> = posts.iter().map(|p| p.id.clone()).collect();
    assert_eq!(ids, expected.drain(..).collect::<Vec<_>>());
}

#[test]
fn post_ids_from_file_stems() {
    assert_eq!(post_id(Some("making-a-blog".to_string())), "making-a-blog");
    assert_eq!(post_id(Some("notes.md".to_string())), "notes");
    assert_eq!(post_id(Some(".md".to_string())), "");
    assert_eq!(post_id(Some("md".to_string())), "md");
    assert_eq!(post_id(None), "");
}

#[test]
fn metadata_clone_is_equal() {
    let m = metadata("x", 42, true);
    let c = m.clone();
    assert_eq!(c.id, m.id);
    assert_eq!(c.created_at, m.created_at);
    assert_eq!(c.hidden, m.hidden);
}

#[test]
fn tally_of_concatenation_adds_up() {
    let first = vec![MdNode::Other, MdNode::Text("alpha beta".to_string())];
    let second = vec![MdNode::Code("x".to_string()), MdNode::CodeBlock("fn f() {}\n".to_string())];
    let a = tally(&first).unwrap();
    let b = tally(&second).unwrap();
    let mut both = first;
    both.extend(second);
    assert_eq!(tally(&both).unwrap(), a.add(b));
}

#[test]
fn sorting_ignores_input_order() {
    let dates = [40i64, 10, 30, 20];
    let forward: Vec<PostMetadata> =
        dates.iter().map(|d| metadata(&d.to_string(), *d, false)).collect();
    let mut backward: Vec<PostMetadata> = forward.iter().rev().cloned().collect();
    let mut forward = forward;
    sort_newest_first(&mut forward);
    sort_newest_first(&mut backward);
    let a: Vec<&str> = forward.iter().map(|p| p.id.as_str()).collect();
    let b: Vec<&str> = backward.iter().map(|p| p.id.as_str()).collect();
    assert_eq!(a, b);
    assert_eq!(a, vec!["40", "30", "20", "10"]);
}

#[test]
fn served_metadata_is_listed_metadata() {
    let content = source(VALID, "Hello world, and `more`.\n");
    let listed = PostMetadata::build(&"p".to_string(), &content, parsed(false)).unwrap();
    let served = Post::render("p".to_string(), &content, parsed(false), highlighter()).unwrap().unwrap().metadata;
    assert_eq!(served.id, listed.id);
    assert_eq!(served.title, listed.title);
    assert_eq!(served.created_at, listed.created_at);
    assert_eq!(served.length, listed.length);
    assert_eq!(served.word_count, listed.word_count);
}

#[test]
fn highlighter_needs_its_theme() {
    assert!(Highlighter::new(ThemeSet::load_defaults(), "InspiredGitHub").is_some());
    assert!(Highlighter::new(ThemeSet::load_defaults(), &blog_theme()).is_none());
    assert!(Highlighter::new(ThemeSet::new(), "InspiredGitHub").is_none());
    assert_eq!(blog_theme(), "Enki-Tokyo-Night");
}
