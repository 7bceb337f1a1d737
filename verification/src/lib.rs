//! The logic of a personal website with a markdown blog: reading post
//! sources, their front matter and word counts, the header line shown above
//! a post, the order and visibility of posts, and the RSS feed.

pub mod text;
pub mod time;
pub mod markdown;
pub mod counter;
pub mod errors;
pub mod front_matter;
pub mod post;
pub mod post_meta;
pub mod feed;
pub mod pages;
