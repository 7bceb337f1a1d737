use calebhamilton_org::errors::{LoadingError, PostError};
use calebhamilton_org::pages::{github_link, post_id_param, post_lookup, post_path, shows_cover};
use calebhamilton_org::post::{Post, PostMetadata};
use calebhamilton_org::time::Timestamp;

fn metadata(id: &str, hidden: bool) -> PostMetadata {
    PostMetadata {
        id: id.to_string(),
        title: format!("Title {}", id),
        description: format!("About {}", id),
        created_at: Timestamp::from_seconds(1679084830).unwrap(),
        hidden,
        length: 1000,
        word_count: 1234,
    }
}

#[test]
fn paths_and_links() {
    assert_eq!(post_path("making-a-blog"), "/blog/making-a-blog");
    assert_eq!(github_link("Fyssion/zupplin"), Some("https://github.com/Fyssion/zupplin".to_string()));
    assert_eq!(github_link(""), None);
    assert!(shows_cover("/blog.webp"));
    assert!(!shows_cover(""));
}

#[test]
fn post_page_outcomes() {
    assert_eq!(post_id_param(Some("x".to_string())), Ok("x".to_string()));
    assert_eq!(post_id_param(None), Err(PostError::InvalidTitle));
    let post = Post { id: "x".to_string(), content: String::new(), metadata: metadata("x", false) };
    assert_eq!(post_lookup(Ok(Some(post))).map(|p| p.id), Ok("x".to_string()));
    assert_eq!(post_lookup(Ok(None)).map(|p| p.id), Err(PostError::PostNotFound));
    assert_eq!(post_lookup(Err("boom".to_string())).map(|p| p.id), Err(PostError::ServerError));
}

#[test]
fn post_error_messages() {
    assert_eq!(PostError::InvalidTitle.message(), "Invalid post title");
    assert_eq!(PostError::PostNotFound.message(), "Post not found");
    assert_eq!(PostError::ServerError.message(), "Internal server error");
}

#[test]
fn loading_error_messages() {
    let io = LoadingError::from(std::io::Error::new(std::io::ErrorKind::NotFound, "no posts"));
    assert!(matches!(io, LoadingError::Io(_)));
    assert_eq!(io.message(), "IO error: no posts");
    assert_eq!(io.message_with("boom"), "IO error: boom");
    let utf8 = LoadingError::from(String::from_utf8(vec![0xff]).unwrap_err());
    assert_eq!(utf8.message(), "UTF-8 conversion error: invalid utf-8 sequence of 1 bytes from index 0");
    let toml_err = toml::from_str::<toml::Table>("= 1").unwrap_err();
    let invalid = LoadingError::from(toml_err);
    assert!(invalid.message().starts_with("TOML error: "));
}
