use calebhamilton_org::post::{Post, PostMetadata};
use calebhamilton_org::post_meta::{
    div_ceil, post_header_line, post_meta_line, post_page_title, reading_minutes, reading_time,
    READING_SPEED_CPM, READING_SPEED_VARIANCE,
};
use calebhamilton_org::time::Timestamp;

fn metadata(length: usize, word_count: usize) -> PostMetadata {
    PostMetadata {
        id: "making-a-blog".to_string(),
        title: "Making a blog".to_string(),
        description: "Blogging is hard.".to_string(),
        created_at: Timestamp::from_seconds(1679084830).unwrap(),
        hidden: false,
        length,
        word_count,
    }
}

#[test]
fn reading_speeds() {
    assert_eq!(READING_SPEED_CPM - READING_SPEED_VARIANCE, 869);
    assert_eq!(READING_SPEED_CPM + READING_SPEED_VARIANCE, 1105);
}

#[test]
fn ceiling_division() {
    assert_eq!(div_ceil(0, 869), 0);
    assert_eq!(div_ceil(1, 869), 1);
    assert_eq!(div_ceil(869, 869), 1);
    assert_eq!(div_ceil(870, 869), 2);
    assert_eq!(div_ceil(usize::MAX, 2), usize::MAX / 2 + 1);
    for n in [0usize, 1, 868, 869, 870, 5000, 123456] {
        assert_eq!(div_ceil(n, 869), n.div_ceil(869));
        assert_eq!(div_ceil(n, 1105), n.div_ceil(1105));
    }
}

#[test]
fn reading_minutes_fast_and_slow() {
    assert_eq!(reading_minutes(0), (0, 0));
    assert_eq!(reading_minutes(500), (1, 1));
    assert_eq!(reading_minutes(1000), (1, 2));
    assert_eq!(reading_minutes(10000), (10, 12));
    for n in [0usize, 1, 999, 1105, 1106, 7000, 100000] {
        let (fast, slow) = reading_minutes(n);
        assert!(fast <= slow);
        let (fast2, slow2) = reading_minutes(n + 1);
        assert!(fast <= fast2 && slow <= slow2);
    }
}

#[test]
fn reading_time_labels() {
    assert_eq!(reading_time(0), "0 minutes");
    assert_eq!(reading_time(500), "1 minute");
    assert_eq!(reading_time(869), "1 minute");
    assert_eq!(reading_time(1000), "1-2 minutes");
    assert_eq!(reading_time(2000), "2-3 minutes");
    assert_eq!(reading_time(2210), "2-3 minutes");
    assert_eq!(reading_time(1738), "2 minutes");
}

#[test]
fn details_line_of_a_post() {
    assert_eq!(post_meta_line(&metadata(1000, 1234)), "Mar 17, 2023 \u{2022} 1,234 words \u{2022} 1-2 minutes");
    assert_eq!(post_meta_line(&metadata(500, 90)), "Mar 17, 2023 \u{2022} 90 words \u{2022} 1 minute");
}

#[test]
fn header_line_counts_rendered_words() {
    let post = Post {
        id: "making-a-blog".to_string(),
        content: "<p>one two three</p>".to_string(),
        metadata: metadata(10, 3),
    };
    assert_eq!(post_header_line(&post), "Mar 17, 2023 \u{2022} 3 words");
}

#[test]
fn page_title_of_a_post() {
    assert_eq!(post_page_title("Making a blog"), "Making a blog - fyssion's blog");
}
