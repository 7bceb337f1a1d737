//! A post's front matter: finding it among the nodes, cutting the TOML text
//! out of its delimiters, and what serde reads from that text.

use crate::markdown::{MdNode, MdNodeView, nodes_view};
use crate::text::{Strip, stripped, strip};
use crate::time::Timestamp;
use vstd::prelude::*;

verus! {

/// The text of the first front matter node, if there is one.
pub open spec fn first_front_matter(nodes: Seq<MdNodeView>) -> Option<Seq<char>>
    decreases nodes.len(),
{
    if nodes.len() == 0 {
        None
    } else {
        match nodes[0] {
            MdNodeView::FrontMatter(s) => Some(s),
            _ => first_front_matter(nodes.drop_first()),
        }
    }
}

/// The text of the first front matter node, if there is one.
pub fn find_front_matter(nodes: &Vec<MdNode>) -> (r: Option<String>)
    ensures
        match r {
            Some(s) => first_front_matter(nodes_view(nodes@)) == Some(s@),
            None => first_front_matter(nodes_view(nodes@)) is None,
        },
{
    let ghost all = nodes_view(nodes@);
    let mut i: usize = 0;
    assert(all.skip(0) =~= all);
    while i < nodes.len()
        invariant
            all == nodes_view(nodes@),
            i <= nodes@.len(),
            first_front_matter(all) == first_front_matter(all.skip(i as int)),
        decreases nodes@.len() - i,
    {
        proof {
            let rest = all.skip(i as int);
            assert(rest[0] == nodes@[i as int]@);
            assert(rest.drop_first() =~= all.skip(i + 1));
        }
        match &nodes[i] {
            MdNode::FrontMatter(s) => {
                return Some(s.clone());
            },
            _ => {},
        }
        i = i + 1;
    }
    assert(all.skip(i as int).len() == 0);
    None
}

/// The TOML text of a front matter block: the block (empty where there is
/// none) without surrounding white space, then without the dashes of its
/// delimiters at either end.
pub open spec fn front_matter_toml_spec(front_matter: Option<Seq<char>>) -> Seq<char> {
    let block = match front_matter {
        Some(s) => s,
        None => Seq::empty(),
    };
    stripped(stripped(block, Strip::WhiteSpace), Strip::Char('-'))
}

/// The TOML text of a front matter block.
pub fn front_matter_toml(front_matter: Option<String>) -> (r: String)
    ensures
        r@ == front_matter_toml_spec(
            match front_matter {
                Some(s) => Some(s@),
                None => None,
            },
        ),
{
    let block = match front_matter {
        Some(s) => s,
        None => String::new(),
    };
    let trimmed = strip(block.as_str(), Strip::WhiteSpace);
    strip(trimmed.as_str(), Strip::Char('-'))
}

/// The value `hidden` takes where front matter leaves it out.
pub fn default_hidden() -> (b: bool)
    ensures
        !b,
{
    false
}

/// The front matter of a post, as serde reads it from the TOML text: a
/// `title` and a `description` string, `created_at` in seconds since the
/// Unix epoch, and `hidden`, which `default_hidden` gives where the text
/// leaves it out.
#[derive(Debug)]
pub struct ParsedPostMetadata {
    pub title: String,
    pub description: String,
    pub created_at: Timestamp,
    pub hidden: bool,
}

} // verus!
