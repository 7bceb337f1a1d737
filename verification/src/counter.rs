//! How long a post is: the characters and the words of its text, inline
//! code and code blocks.

use crate::markdown::{MdNode, MdNodeView, nodes_view};
use vstd::prelude::*;

verus! {

/// The number of words that `words_count::count` finds in `text`.
pub uninterp spec fn words_in(text: Seq<char>) -> usize;

/// Calls `words_count::count` on `text` and returns its `words` field.
#[verifier::external_body]
pub(crate) fn count_words(text: &str) -> (n: usize)
    ensures
        n == words_in(text@),
{
    words_count::count(text).words
}

/// A count of characters and words.
#[derive(Clone, Copy, Debug, PartialEq, Eq, Structural)]
pub struct PostCounter {
    pub length: usize,
    pub word_count: usize,
}

impl PostCounter {
    /// The characters and the words of `string`.
    pub fn from_string(string: String) -> (c: PostCounter)
        ensures
            c.length == string@.len(),
            c.word_count == words_in(string@),
    {
        PostCounter { length: string.as_str().unicode_len(), word_count: count_words(string.as_str()) }
    }

    /// Nothing counted.
    pub fn empty() -> (c: PostCounter)
        ensures
            c.length == 0,
            c.word_count == 0,
    {
        PostCounter { length: 0, word_count: 0 }
    }

    /// Both counts added up.
    pub fn add(self, other: PostCounter) -> (c: PostCounter)
        requires
            self.length + other.length <= usize::MAX,
            self.word_count + other.word_count <= usize::MAX,
        ensures
            c.length == self.length + other.length,
            c.word_count == self.word_count + other.word_count,
    {
        PostCounter {
            length: self.length + other.length,
            word_count: self.word_count + other.word_count,
        }
    }
}

/// The text of a node that is counted: text, inline code and code blocks.
pub open spec fn counted_text(node: MdNodeView) -> Option<Seq<char>> {
    match node {
        MdNodeView::Text(s) => Some(s),
        MdNodeView::Code(s) => Some(s),
        MdNodeView::CodeBlock(s) => Some(s),
        _ => None,
    }
}

/// The characters that count toward a post's length in one node.
pub open spec fn node_length(node: MdNodeView) -> nat {
    match counted_text(node) {
        Some(s) => s.len(),
        None => 0,
    }
}

/// The words that count toward a post's word count in one node.
pub open spec fn node_words(node: MdNodeView) -> nat {
    match counted_text(node) {
        Some(s) => words_in(s) as nat,
        None => 0,
    }
}

/// The characters of all nodes.
pub open spec fn total_length(nodes: Seq<MdNodeView>) -> nat
    decreases nodes.len(),
{
    if nodes.len() == 0 {
        0
    } else {
        total_length(nodes.drop_last()) + node_length(nodes.last())
    }
}

/// The words of all nodes.
pub open spec fn total_words(nodes: Seq<MdNodeView>) -> nat
    decreases nodes.len(),
{
    if nodes.len() == 0 {
        0
    } else {
        total_words(nodes.drop_last()) + node_words(nodes.last())
    }
}

/// Whether both totals of `nodes` fit in a `usize`.
pub open spec fn totals_fit(nodes: Seq<MdNodeView>) -> bool {
    total_length(nodes) <= usize::MAX && total_words(nodes) <= usize::MAX
}

/// What one node adds to the counts.
pub fn node_counter(node: &MdNode) -> (c: PostCounter)
    ensures
        c.length == node_length(node@),
        c.word_count == node_words(node@),
{
    match node {
        MdNode::Text(s) => PostCounter::from_string(s.clone()),
        MdNode::Code(s) => PostCounter::from_string(s.clone()),
        MdNode::CodeBlock(s) => PostCounter::from_string(s.clone()),
        _ => PostCounter::empty(),
    }
}

/// Counting two lists of nodes one after the other counts each list once:
/// the totals of a concatenation are the sums of the totals.
pub proof fn lemma_totals_add(a: Seq<MdNodeView>, b: Seq<MdNodeView>)
    ensures
        total_length(a + b) == total_length(a) + total_length(b),
        total_words(a + b) == total_words(a) + total_words(b),
    decreases b.len(),
{
    if b.len() == 0 {
        assert(a + b =~= a);
    } else {
        assert((a + b).drop_last() =~= a + b.drop_last());
        assert((a + b).last() == b.last());
        lemma_totals_add(a, b.drop_last());
    }
}

/// Totals only grow as nodes are added.
pub proof fn lemma_totals_grow(nodes: Seq<MdNodeView>, i: int)
    requires
        0 <= i <= nodes.len(),
    ensures
        total_length(nodes.take(i)) <= total_length(nodes),
        total_words(nodes.take(i)) <= total_words(nodes),
    decreases nodes.len(),
{
    if i < nodes.len() {
        assert(nodes.drop_last().take(i) =~= nodes.take(i));
        lemma_totals_grow(nodes.drop_last(), i);
    } else {
        assert(nodes.take(i) =~= nodes);
    }
}

/// The counts of all nodes added up, or `None` where a total does not fit
/// in a `usize`. The list must not be empty.
pub fn tally(nodes: &Vec<MdNode>) -> (r: Option<PostCounter>)
    requires
        nodes@.len() > 0,
    ensures
        r is Some <==> totals_fit(nodes_view(nodes@)),
        r matches Some(c) ==> c.length == total_length(nodes_view(nodes@)) && c.word_count
            == total_words(nodes_view(nodes@)),
{
    let ghost all = nodes_view(nodes@);
    let mut acc = node_counter(&nodes[0]);
    proof {
        assert(all.take(1).drop_last() =~= Seq::<MdNodeView>::empty());
        assert(all.take(1).last() == all[0]);
        assert(all[0] == nodes@[0]@);
        assert(total_length(Seq::<MdNodeView>::empty()) == 0);
        assert(total_words(Seq::<MdNodeView>::empty()) == 0);
    }
    let mut i: usize = 1;
    while i < nodes.len()
        invariant
            all == nodes_view(nodes@),
            1 <= i <= nodes@.len(),
            acc.length == total_length(all.take(i as int)),
            acc.word_count == total_words(all.take(i as int)),
        decreases nodes@.len() - i,
    {
        let e = node_counter(&nodes[i]);
        proof {
            assert(all.take(i + 1).drop_last() =~= all.take(i as int));
            assert(all.take(i + 1).last() == all[i as int]);
            assert(all[i as int] == nodes@[i as int]@);
        }
        if acc.length > usize::MAX - e.length || acc.word_count > usize::MAX - e.word_count {
            proof {
                lemma_totals_grow(all, i + 1);
            }
            return None;
        }
        acc = acc.add(e);
        i = i + 1;
    }
    assert(all.take(i as int) =~= all);
    Some(acc)
}

} // verus!
