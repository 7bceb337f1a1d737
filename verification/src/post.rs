//! Posts and their metadata: building the metadata from a post's source,
//! which posts are listed, in which order, and under which id.

use crate::counter::{PostCounter, tally, total_length, total_words, totals_fit};
use crate::errors::LoadingError;
use crate::front_matter::{
    ParsedPostMetadata, find_front_matter, first_front_matter, front_matter_toml,
    front_matter_toml_spec,
};
use crate::markdown::{
    MarkdownExtensions, MdNodeView, blog_extensions, blog_extensions_spec, front_matter_delimiter,
    front_matter_delimiter_spec, markdown_nodes, parse_markdown, Highlighter,
};
use crate::time::Timestamp;
use vstd::prelude::*;

verus! {

/// What the site knows of a post without its content.
#[derive(Debug)]
pub struct PostMetadata {
    pub id: String,
    pub title: String,
    pub description: String,
    pub created_at: Timestamp,
    pub hidden: bool,
    /// The characters of the post's text and code.
    pub length: usize,
    /// The words of the post's text and code.
    pub word_count: usize,
}

impl Clone for PostMetadata {
    fn clone(&self) -> (m: Self)
        ensures
            m == *self,
    {
        PostMetadata {
            id: self.id.clone(),
            title: self.title.clone(),
            description: self.description.clone(),
            created_at: self.created_at,
            hidden: self.hidden,
            length: self.length,
            word_count: self.word_count,
        }
    }
}

/// A post: its id, its content rendered to HTML, and its metadata.
#[derive(Debug)]
pub struct Post {
    pub id: String,
    pub content: String,
    pub metadata: PostMetadata,
}

impl Clone for Post {
    fn clone(&self) -> (p: Self)
        ensures
            p == *self,
    {
        Post { id: self.id.clone(), content: self.content.clone(), metadata: self.metadata.clone() }
    }
}

/// The nodes of a post's source as the blog parses it.
pub open spec fn blog_nodes(source: Seq<char>) -> Seq<MdNodeView> {
    markdown_nodes(source, blog_extensions_spec(), front_matter_delimiter_spec())
}

/// The TOML text of a post's front matter.
pub open spec fn front_matter_of(source: Seq<char>) -> Seq<char> {
    front_matter_toml_spec(first_front_matter(blog_nodes(source)))
}

/// Whether the counts of a post's source fit in a `usize`.
pub open spec fn source_counts_fit(source: Seq<char>) -> bool {
    totals_fit(blog_nodes(source))
}

/// `m` is the metadata of the post `id` whose front matter reads as `f` and
/// whose source parses to `nodes`.
pub open spec fn describes(m: PostMetadata, id: Seq<char>, f: ParsedPostMetadata, nodes: Seq<MdNodeView>) -> bool {
    &&& m.id@ == id
    &&& m.title@ == f.title@
    &&& m.description@ == f.description@
    &&& m.created_at == f.created_at
    &&& m.hidden == f.hidden
    &&& m.length == total_length(nodes)
    &&& m.word_count == total_words(nodes)
}

/// `r` is what building the metadata of post `id` from `source` gives when
/// serde read its front matter as `front_matter`: toml's error, unchanged,
/// where reading failed, else the metadata.
pub open spec fn built_from(
    r: Result<PostMetadata, LoadingError>,
    id: Seq<char>,
    source: Seq<char>,
    front_matter: Result<ParsedPostMetadata, toml::de::Error>,
) -> bool {
    match front_matter {
        Err(e) => r == Err::<PostMetadata, LoadingError>(LoadingError::Invalid(e)),
        Ok(f) => r matches Ok(m) && describes(m, id, f, blog_nodes(source)),
    }
}

impl PostMetadata {
    /// The TOML text of the front matter of the post source `content`: the
    /// first front matter block, without surrounding white space and the
    /// dashes of its delimiters; empty where there is none. Serde reads the
    /// `front_matter` that `build` takes from this text.
    pub fn front_matter(content: &String) -> (toml: String)
        ensures
            toml@ == front_matter_of(content@),
    {
        let nodes = parse_markdown(content.as_str(), blog_extensions(), front_matter_delimiter().as_str());
        front_matter_toml(find_front_matter(&nodes))
    }

    /// The metadata of the post `id` whose markdown source is `content`:
    /// `front_matter`, what serde read from `PostMetadata::front_matter`,
    /// gives the title, description, date and visibility, or toml's error;
    /// the text, inline code and code blocks give its length and word count.
    pub fn build(
        id: &String,
        content: &String,
        front_matter: Result<ParsedPostMetadata, toml::de::Error>,
    ) -> (r: Result<Self, LoadingError>)
        requires
            source_counts_fit(content@),
        ensures
            built_from(r, id@, content@, front_matter),
    {
        let nodes = parse_markdown(content.as_str(), blog_extensions(), front_matter_delimiter().as_str());
        let counter = match tally(&nodes) {
            Some(c) => c,
            None => {
                proof {
                    assert(false);
                }
                PostCounter::empty()
            },
        };
        match front_matter {
            Err(e) => Err(LoadingError::Invalid(e)),
            Ok(parsed) => Ok(
                PostMetadata {
                    id: id.clone(),
                    title: parsed.title,
                    description: parsed.description,
                    created_at: parsed.created_at,
                    hidden: parsed.hidden,
                    length: counter.length,
                    word_count: counter.word_count,
                },
            ),
        }
    }

    /// `build`, where the counts of `content` fit in a `usize`; `None` where
    /// they do not (there counting overflows).
    pub fn try_build(
        id: &String,
        content: &String,
        front_matter: Result<ParsedPostMetadata, toml::de::Error>,
    ) -> (r: Option<Result<Self, LoadingError>>)
        ensures
            r is None <==> !source_counts_fit(content@),
            r matches Some(b) ==> built_from(b, id@, content@, front_matter),
    {
        let nodes = parse_markdown(content.as_str(), blog_extensions(), front_matter_delimiter().as_str());
        if tally(&nodes).is_none() {
            None
        } else {
            Some(Self::build(id, content, front_matter))
        }
    }
}

impl Post {
    /// The post `id` from its markdown `source`: the content is `source`
    /// rendered to HTML with the blog's extensions and `highlighter` for
    /// fenced code, the metadata is built from `source` and `front_matter`
    /// (what serde read from `PostMetadata::front_matter(source)`); `None`
    /// where the counts of `source` overflow.
    pub fn render(
        id: String,
        source: &String,
        front_matter: Result<ParsedPostMetadata, toml::de::Error>,
        highlighter: Highlighter,
    ) -> (r: Option<Result<Post, LoadingError>>)
        ensures
            r is None <==> !source_counts_fit(source@),
            r matches Some(Err(e)) ==> built_from(Err(e), id@, source@, front_matter),
            r matches Some(Ok(p)) ==> p.id == id && built_from(Ok(p.metadata), id@, source@, front_matter),
    {
        let content = highlighter.render(source.as_str(), blog_extensions(), front_matter_delimiter().as_str());
        match PostMetadata::try_build(&id, source, front_matter) {
            None => None,
            Some(Err(e)) => Some(Err(e)),
            Some(Ok(metadata)) => Some(Ok(Post { id, content, metadata })),
        }
    }
}

/// A post's length and word count are those of the text, inline code and
/// code blocks of comrak's parse of its source with every extension on
/// (tables among them, so table cells are text) and `---` front matter.
pub proof fn lemma_counts_use_blog_parse(
    m: PostMetadata,
    id: Seq<char>,
    source: Seq<char>,
    front_matter: Result<ParsedPostMetadata, toml::de::Error>,
)
    requires
        built_from(Ok(m), id, source, front_matter),
    ensures
        ({
            let all_on = MarkdownExtensions {
                strikethrough: true,
                table: true,
                autolink: true,
                tasklist: true,
                superscript: true,
                footnotes: true,
                description_lists: true,
            };
            let nodes = markdown_nodes(source, all_on, seq!['-', '-', '-']);
            m.length == total_length(nodes) && m.word_count == total_words(nodes)
        }),
{
    assert(front_matter_delimiter_spec() =~= seq!['-', '-', '-']);
}

/// The metadata a post is served with is the metadata it is listed with:
/// built from the same id, source and front matter, the two agree.
pub proof fn lemma_served_is_listed(
    listed: PostMetadata,
    served: PostMetadata,
    id: Seq<char>,
    source: Seq<char>,
    front_matter: Result<ParsedPostMetadata, toml::de::Error>,
)
    requires
        built_from(Ok(listed), id, source, front_matter),
        built_from(Ok(served), id, source, front_matter),
    ensures
        listed.id@ == served.id@,
        listed.title@ == served.title@,
        listed.description@ == served.description@,
        listed.created_at == served.created_at,
        listed.hidden == served.hidden,
        listed.length == served.length,
        listed.word_count == served.word_count,
{
}

/// The posts that are listed: those that are not hidden, in their order.
pub open spec fn visible(posts: Seq<PostMetadata>) -> Seq<PostMetadata> {
    posts.filter(|p: PostMetadata| !p.hidden)
}

/// The listed posts are exactly the posts that are not hidden, each as
/// often as it occurs, in their order; listing twice lists no fewer.
pub proof fn lemma_visible(posts: Seq<PostMetadata>)
    ensures
        forall|i: int| 0 <= i < visible(posts).len() ==> !(#[trigger] visible(posts)[i]).hidden,
        forall|i: int| 0 <= i < posts.len() && !posts[i].hidden ==> visible(posts).contains(
            #[trigger] posts[i],
        ),
        visible(posts).len() <= posts.len(),
        visible(visible(posts)) == visible(posts),
    decreases posts.len(),
{
    reveal_with_fuel(Seq::<_>::filter, 1);
    if posts.len() > 0 {
        let init = posts.drop_last();
        lemma_visible(init);
        let v = visible(posts);
        assert forall|i: int| 0 <= i < posts.len() && !posts[i].hidden implies v.contains(#[trigger] posts[i]) by {
            if i < posts.len() - 1 {
                assert(init[i] == posts[i]);
                let k = choose|k: int| 0 <= k < visible(init).len() && visible(init)[k] == init[i];
                assert(v[k] == visible(init)[k]);
            } else {
                assert(v[v.len() - 1] == posts[i]);
            }
        }
        if !posts.last().hidden {
            assert(v.drop_last() =~= visible(init));
            assert(visible(v) =~= visible(v.drop_last()).push(v.last()));
        }
    }
}

/// The posts that are listed on the blog and in the feed.
pub fn visible_posts(posts: &Vec<PostMetadata>) -> (r: Vec<PostMetadata>)
    ensures
        r@ == visible(posts@),
{
    let mut r: Vec<PostMetadata> = Vec::new();
    let mut i: usize = 0;
    while i < posts.len()
        invariant
            i <= posts@.len(),
            r@ == visible(posts@.take(i as int)),
        decreases posts@.len() - i,
    {
        proof {
            reveal_with_fuel(Seq::<_>::filter, 1);
            assert(posts@.take(i + 1).drop_last() =~= posts@.take(i as int));
            assert(posts@.take(i + 1).last() == posts@[i as int]);
        }
        if !posts[i].hidden {
            r.push(posts[i].clone());
        }
        i = i + 1;
    }
    assert(posts@.take(i as int) =~= posts@);
    r
}

/// `s` with `p` placed after every leading post that is as new as `p` or
/// newer.
pub open spec fn insert_newest_first(s: Seq<PostMetadata>, p: PostMetadata) -> Seq<PostMetadata>
    decreases s.len(),
{
    if s.len() == 0 {
        seq![p]
    } else if s[0].created_at@ >= p.created_at@ {
        seq![s[0]] + insert_newest_first(s.drop_first(), p)
    } else {
        seq![p] + s
    }
}

/// The stable sort of `s` by date, newest first: posts of the same date
/// keep their order.
pub open spec fn newest_first(s: Seq<PostMetadata>) -> Seq<PostMetadata>
    decreases s.len(),
{
    if s.len() == 0 {
        s
    } else {
        insert_newest_first(newest_first(s.drop_last()), s.last())
    }
}

/// Placing `p` at the first post older than it is `insert_newest_first`.
proof fn lemma_insert_at(s: Seq<PostMetadata>, p: PostMetadata, j: int)
    requires
        0 <= j <= s.len(),
        forall|k: int| 0 <= k < j ==> #[trigger] s[k].created_at@ >= p.created_at@,
        j == s.len() || s[j].created_at@ < p.created_at@,
    ensures
        insert_newest_first(s, p) == s.insert(j, p),
    decreases s.len(),
{
    if s.len() == 0 {
        assert(s.insert(j, p) =~= seq![p]);
    } else if j == 0 {
        assert(s.insert(0, p) =~= seq![p] + s);
    } else {
        let t = s.drop_first();
        assert forall|k: int| 0 <= k < j - 1 implies #[trigger] t[k].created_at@ >= p.created_at@ by {
            assert(t[k] == s[k + 1]);
        }
        if j < s.len() {
            assert(t[j - 1] == s[j]);
        }
        lemma_insert_at(t, p, j - 1);
        assert(seq![s[0]] + t.insert(j - 1, p) =~= s.insert(j, p));
    }
}

/// Posts are newest first: no post is older than one after it.
pub open spec fn is_newest_first(s: Seq<PostMetadata>) -> bool {
    forall|i: int, j: int| 0 <= i < j < s.len() ==> #[trigger] s[i].created_at@ >= #[trigger] s[j].created_at@
}

proof fn lemma_insert_sorted(s: Seq<PostMetadata>, p: PostMetadata)
    requires
        is_newest_first(s),
    ensures
        is_newest_first(insert_newest_first(s, p)),
        insert_newest_first(s, p).len() == s.len() + 1,
        forall|k: int| 0 <= k < insert_newest_first(s, p).len() ==> (#[trigger] insert_newest_first(s, p)[k] == p || s.contains(insert_newest_first(s, p)[k])),
    decreases s.len(),
{
    let r = insert_newest_first(s, p);
    if s.len() == 0 {
    } else if s[0].created_at@ >= p.created_at@ {
        let t = s.drop_first();
        assert forall|i: int, j: int| 0 <= i < j < t.len() implies #[trigger] t[i].created_at@ >= #[trigger] t[j].created_at@ by {
            assert(t[i] == s[i + 1] && t[j] == s[j + 1]);
        }
        lemma_insert_sorted(t, p);
        let tr = insert_newest_first(t, p);
        assert forall|k: int| 0 <= k < tr.len() implies #[trigger] tr[k].created_at@ <= s[0].created_at@ by {
            if tr[k] != p {
                let m = choose|m: int| 0 <= m < t.len() && t[m] == tr[k];
                assert(t[m] == s[m + 1]);
            }
        }
        assert forall|i: int, j: int| 0 <= i < j < r.len() implies #[trigger] r[i].created_at@ >= #[trigger] r[j].created_at@ by {
            if i == 0 {
                assert(r[j] == tr[j - 1]);
            } else {
                assert(r[i] == tr[i - 1] && r[j] == tr[j - 1]);
            }
        }
        assert forall|k: int| 0 <= k < r.len() implies (#[trigger] r[k] == p || s.contains(r[k])) by {
            if k == 0 {
                assert(s[0] == r[0]);
            } else {
                assert(r[k] == tr[k - 1]);
                if tr[k - 1] != p {
                    let m = choose|m: int| 0 <= m < t.len() && t[m] == tr[k - 1];
                    assert(s[m + 1] == r[k]);
                }
            }
        }
    } else {
        assert forall|i: int, j: int| 0 <= i < j < r.len() implies #[trigger] r[i].created_at@ >= #[trigger] r[j].created_at@ by {
            if i == 0 {
                assert(r[j] == s[j - 1]);
                assert(s[0].created_at@ >= s[j - 1].created_at@ || j - 1 == 0);
            } else {
                assert(r[i] == s[i - 1] && r[j] == s[j - 1]);
            }
        }
        assert forall|k: int| 0 <= k < r.len() implies (#[trigger] r[k] == p || s.contains(r[k])) by {
            if k > 0 {
                assert(r[k] == s[k - 1]);
            }
        }
    }
}

/// Sorting puts posts newest first.
pub proof fn lemma_newest_first_sorted(s: Seq<PostMetadata>)
    ensures
        is_newest_first(newest_first(s)),
        newest_first(s).len() == s.len(),
    decreases s.len(),
{
    if s.len() > 0 {
        lemma_newest_first_sorted(s.drop_last());
        lemma_insert_sorted(newest_first(s.drop_last()), s.last());
    }
}

proof fn lemma_insert_multiset(s: Seq<PostMetadata>, p: PostMetadata)
    ensures
        insert_newest_first(s, p).to_multiset() == s.to_multiset().insert(p),
    decreases s.len(),
{
    broadcast use vstd::seq_lib::group_to_multiset_ensures;
    broadcast use vstd::multiset::group_multiset_axioms;
    if s.len() == 0 {
        assert(seq![p] =~= Seq::<PostMetadata>::empty().push(p));
    } else if s[0].created_at@ >= p.created_at@ {
        let t = s.drop_first();
        lemma_insert_multiset(t, p);
        vstd::seq_lib::lemma_multiset_commutative(seq![s[0]], insert_newest_first(t, p));
        vstd::seq_lib::lemma_multiset_commutative(seq![s[0]], t);
        assert(seq![s[0]] + t =~= s);
        assert(s.to_multiset() =~= seq![s[0]].to_multiset().add(t.to_multiset()));
        assert(insert_newest_first(s, p).to_multiset() =~= s.to_multiset().insert(p));
    } else {
        vstd::seq_lib::lemma_multiset_commutative(seq![p], s);
        assert(seq![p] =~= Seq::<PostMetadata>::empty().push(p));
        assert(insert_newest_first(s, p).to_multiset() =~= s.to_multiset().insert(p));
    }
}

/// Sorting keeps every post, as often as it occurs.
pub proof fn lemma_newest_first_permutes(s: Seq<PostMetadata>)
    ensures
        newest_first(s).to_multiset() == s.to_multiset(),
    decreases s.len(),
{
    broadcast use vstd::seq_lib::group_to_multiset_ensures;
    if s.len() > 0 {
        lemma_newest_first_permutes(s.drop_last());
        lemma_insert_multiset(newest_first(s.drop_last()), s.last());
        assert(s.drop_last().push(s.last()) =~= s);
    }
}

/// Posts of `s` that share a date are the same post.
pub open spec fn dates_identify(s: Seq<PostMetadata>) -> bool {
    forall|i: int, j: int|
        0 <= i < s.len() && 0 <= j < s.len() && #[trigger] s[i].created_at@ == #[trigger] s[j].created_at@
            ==> s[i] == s[j]
}

/// Two lists sorted newest first that hold the same posts, where posts of
/// the same date are the same post, are the same list.
proof fn lemma_sorted_unique(a: Seq<PostMetadata>, b: Seq<PostMetadata>)
    requires
        is_newest_first(a),
        is_newest_first(b),
        a.to_multiset() == b.to_multiset(),
        forall|p: PostMetadata, q: PostMetadata|
            #![trigger a.to_multiset().count(p), a.to_multiset().count(q)]
            a.to_multiset().count(p) > 0 && a.to_multiset().count(q) > 0 && p.created_at@ == q.created_at@
                ==> p == q,
    ensures
        a == b,
    decreases a.len(),
{
    broadcast use vstd::seq_lib::group_to_multiset_ensures;
    broadcast use vstd::multiset::group_multiset_axioms;
    assert(a.to_multiset().len() == a.len());
    assert(b.to_multiset().len() == b.len());
    if a.len() == 0 {
        assert(a =~= b);
    } else {
        assert(a.contains(a[0]));
        assert(a.to_multiset().count(a[0]) > 0);
        assert(b.to_multiset().count(a[0]) > 0);
        assert(b.contains(a[0]));
        let k = choose|k: int| 0 <= k < b.len() && b[k] == a[0];
        assert(b.contains(b[0]));
        assert(b.to_multiset().count(b[0]) > 0);
        assert(a.to_multiset().count(b[0]) > 0);
        assert(a.contains(b[0]));
        let m = choose|m: int| 0 <= m < a.len() && a[m] == b[0];
        if m > 0 {
            assert(a[0].created_at@ >= a[m].created_at@);
        }
        if k > 0 {
            assert(b[0].created_at@ >= b[k].created_at@);
        }
        assert(a.to_multiset().count(a[0]) > 0);
        assert(a.to_multiset().count(b[0]) > 0);
        assert(a[0] == b[0]);
        let a1 = a.drop_first();
        let b1 = b.drop_first();
        assert(a.remove(0) =~= a1);
        assert(b.remove(0) =~= b1);
        assert(a1.to_multiset() == a.to_multiset().remove(a[0]));
        assert(b1.to_multiset() == b.to_multiset().remove(b[0]));
        assert forall|i: int, j: int| 0 <= i < j < a1.len() implies #[trigger] a1[i].created_at@ >= #[trigger] a1[j].created_at@ by {
            assert(a1[i] == a[i + 1] && a1[j] == a[j + 1]);
        }
        assert forall|i: int, j: int| 0 <= i < j < b1.len() implies #[trigger] b1[i].created_at@ >= #[trigger] b1[j].created_at@ by {
            assert(b1[i] == b[i + 1] && b1[j] == b[j + 1]);
        }
        assert forall|p: PostMetadata, q: PostMetadata|
            a1.to_multiset().count(p) > 0 && a1.to_multiset().count(q) > 0 && p.created_at@ == q.created_at@
            implies p == q by {
            assert(a.to_multiset().count(p) >= a1.to_multiset().count(p));
            assert(a.to_multiset().count(q) >= a1.to_multiset().count(q));
        }
        lemma_sorted_unique(a1, b1);
        assert(a =~= seq![a[0]] + a1);
        assert(b =~= seq![b[0]] + b1);
    }
}

/// Sorting does not depend on the order posts come in: lists that hold the
/// same posts, where posts of the same date are the same post (such as
/// posts with distinct dates), sort to the same list.
pub proof fn lemma_newest_first_ignores_order(s1: Seq<PostMetadata>, s2: Seq<PostMetadata>)
    requires
        s1.to_multiset() == s2.to_multiset(),
        dates_identify(s1),
    ensures
        newest_first(s1) == newest_first(s2),
{
    broadcast use vstd::seq_lib::group_to_multiset_ensures;
    lemma_newest_first_sorted(s1);
    lemma_newest_first_sorted(s2);
    lemma_newest_first_permutes(s1);
    lemma_newest_first_permutes(s2);
    let a = newest_first(s1);
    assert forall|p: PostMetadata, q: PostMetadata|
        #![trigger a.to_multiset().count(p), a.to_multiset().count(q)]
        a.to_multiset().count(p) > 0 && a.to_multiset().count(q) > 0 && p.created_at@ == q.created_at@
        implies p == q by {
        assert(s1.contains(p));
        assert(s1.contains(q));
        let i = choose|i: int| 0 <= i < s1.len() && s1[i] == p;
        let j = choose|j: int| 0 <= j < s1.len() && s1[j] == q;
        assert(s1[i].created_at@ == s1[j].created_at@);
    }
    lemma_sorted_unique(a, newest_first(s2));
}

/// The posts of `s` dated `t`, in their order.
pub open spec fn dated(s: Seq<PostMetadata>, t: i64) -> Seq<PostMetadata>
    decreases s.len(),
{
    if s.len() == 0 {
        s
    } else if s[0].created_at@ == t {
        seq![s[0]] + dated(s.drop_first(), t)
    } else {
        dated(s.drop_first(), t)
    }
}

proof fn lemma_dated_add(a: Seq<PostMetadata>, b: Seq<PostMetadata>, t: i64)
    ensures
        dated(a + b, t) == dated(a, t) + dated(b, t),
    decreases a.len(),
{
    if a.len() == 0 {
        assert(a + b =~= b);
        assert(dated(a, t) + dated(b, t) =~= dated(b, t));
    } else {
        assert((a + b).drop_first() =~= a.drop_first() + b);
        assert((a + b)[0] == a[0]);
        lemma_dated_add(a.drop_first(), b, t);
        if a[0].created_at@ == t {
            assert(seq![a[0]] + (dated(a.drop_first(), t) + dated(b, t)) =~= (seq![a[0]] + dated(a.drop_first(), t)) + dated(b, t));
        }
    }
}

proof fn lemma_dated_none(s: Seq<PostMetadata>, t: i64)
    requires
        forall|k: int| 0 <= k < s.len() ==> (#[trigger] s[k]).created_at@ < t,
    ensures
        dated(s, t) == Seq::<PostMetadata>::empty(),
    decreases s.len(),
{
    if s.len() > 0 {
        assert forall|k: int| 0 <= k < s.drop_first().len() implies (#[trigger] s.drop_first()[k]).created_at@ < t by {
            assert(s.drop_first()[k] == s[k + 1]);
        }
        lemma_dated_none(s.drop_first(), t);
    }
}

proof fn lemma_insert_dated(s: Seq<PostMetadata>, p: PostMetadata, t: i64)
    requires
        is_newest_first(s),
    ensures
        dated(insert_newest_first(s, p), t) == if p.created_at@ == t {
            dated(s, t).push(p)
        } else {
            dated(s, t)
        },
    decreases s.len(),
{
    let r = insert_newest_first(s, p);
    if s.len() == 0 {
        assert(r.drop_first() =~= Seq::<PostMetadata>::empty());
        assert(dated(r.drop_first(), t) =~= Seq::<PostMetadata>::empty());
        assert(r[0] == p);
        if p.created_at@ == t {
            assert(seq![p] + Seq::<PostMetadata>::empty() =~= Seq::<PostMetadata>::empty().push(p));
        }
    } else if s[0].created_at@ >= p.created_at@ {
        let u = s.drop_first();
        assert forall|i: int, j: int| 0 <= i < j < u.len() implies #[trigger] u[i].created_at@ >= #[trigger] u[j].created_at@ by {
            assert(u[i] == s[i + 1] && u[j] == s[j + 1]);
        }
        lemma_insert_dated(u, p, t);
        assert(r[0] == s[0]);
        assert(r.drop_first() =~= insert_newest_first(u, p));
        let du = dated(u, t);
        let dr = dated(insert_newest_first(u, p), t);
        if s[0].created_at@ == t {
            assert(dated(r, t) == seq![s[0]] + dr);
            assert(dated(s, t) == seq![s[0]] + du);
            if p.created_at@ == t {
                assert(seq![s[0]] + du.push(p) =~= (seq![s[0]] + du).push(p));
            }
        } else {
            assert(dated(r, t) == dr);
            assert(dated(s, t) == du);
        }
    } else {
        assert(r[0] == p);
        assert(r.drop_first() =~= s);
        if p.created_at@ == t {
            assert(dated(r, t) == seq![p] + dated(s, t));
            assert forall|k: int| 0 <= k < s.len() implies (#[trigger] s[k]).created_at@ < t by {
                if k > 0 {
                    assert(s[0].created_at@ >= s[k].created_at@);
                }
            }
            lemma_dated_none(s, t);
            assert(seq![p] + Seq::<PostMetadata>::empty() =~= Seq::<PostMetadata>::empty().push(p));
        }
    }
}

/// Sorting is stable: the posts of any one date keep their order.
pub proof fn lemma_newest_first_stable(s: Seq<PostMetadata>, t: i64)
    ensures
        dated(newest_first(s), t) == dated(s, t),
    decreases s.len(),
{
    if s.len() > 0 {
        let init = s.drop_last();
        lemma_newest_first_stable(init, t);
        lemma_newest_first_sorted(init);
        lemma_insert_dated(newest_first(init), s.last(), t);
        lemma_dated_add(init, seq![s.last()], t);
        assert(init + seq![s.last()] =~= s);
        let one = seq![s.last()];
        assert(one.drop_first() =~= Seq::<PostMetadata>::empty());
        assert(one[0] == s.last());
        assert(dated(one.drop_first(), t) =~= Seq::<PostMetadata>::empty());
        if s.last().created_at@ == t {
            assert(dated(one, t) =~= seq![s.last()]);
            assert(dated(init, t) + seq![s.last()] =~= dated(init, t).push(s.last()));
        } else {
            assert(dated(one, t) =~= Seq::<PostMetadata>::empty());
            assert(dated(init, t) + Seq::<PostMetadata>::empty() =~= dated(init, t));
        }
    }
}

/// Sorts posts by date, newest first; posts of the same date keep their
/// order.
pub fn sort_newest_first(posts: &mut Vec<PostMetadata>)
    ensures
        final(posts)@ == newest_first(old(posts)@),
{
    let ghost input = posts@;
    let mut out: Vec<PostMetadata> = Vec::new();
    let mut i: usize = 0;
    assert(input.take(0) =~= Seq::<PostMetadata>::empty());
    while i < posts.len()
        invariant
            posts@ == input,
            i <= input.len(),
            out@ == newest_first(input.take(i as int)),
        decreases input.len() - i,
    {
        let p = posts[i].clone();
        let mut j: usize = 0;
        while j < out.len() && out[j].created_at.seconds() >= p.created_at.seconds()
            invariant
                j <= out@.len(),
                forall|k: int| 0 <= k < j ==> #[trigger] out@[k].created_at@ >= p.created_at@,
            decreases out@.len() - j,
        {
            j = j + 1;
        }
        proof {
            lemma_insert_at(out@, p, j as int);
            assert(input.take(i + 1).drop_last() =~= input.take(i as int));
            assert(input.take(i + 1).last() == p);
        }
        out.insert(j, p);
        i = i + 1;
    }
    assert(input.take(i as int) =~= input);
    *posts = out;
}

/// `s` ends with `.md`.
pub open spec fn has_md_extension(s: Seq<char>) -> bool {
    s.len() >= 3 && s.skip(s.len() - 3) == seq!['.', 'm', 'd']
}

/// The id of a post whose file has the stem `stem`: the stem, without a
/// further `.md` where it has one, and empty where there is no stem.
pub open spec fn post_id_spec(stem: Option<Seq<char>>) -> Seq<char> {
    match stem {
        None => Seq::empty(),
        Some(s) => if has_md_extension(s) {
            s.take(s.len() - 3)
        } else {
            s
        },
    }
}

/// A stem that is an id followed by `.md` gives back the id.
pub proof fn lemma_post_id_strips_extension(id: Seq<char>)
    ensures
        post_id_spec(Some(id + seq!['.', 'm', 'd'])) == id,
{
    let s = id + seq!['.', 'm', 'd'];
    assert(s.skip(s.len() - 3) =~= seq!['.', 'm', 'd']);
    assert(s.take(s.len() - 3) =~= id);
}

/// The id of a post whose file has the stem `stem`.
pub fn post_id(stem: Option<String>) -> (id: String)
    ensures
        id@ == post_id_spec(
            match stem {
                Some(s) => Some(s@),
                None => None,
            },
        ),
{
    match stem {
        None => String::new(),
        Some(s) => {
            let n = s.as_str().unicode_len();
            if n >= 3 && s.as_str().get_char(n - 3) == '.' && s.as_str().get_char(n - 2) == 'm'
                && s.as_str().get_char(n - 1) == 'd' {
                assert(s@.skip(n - 3) =~= seq!['.', 'm', 'd']);
                String::from_str(s.as_str().substring_char(0, n - 3))
            } else {
                proof {
                    if n >= 3 {
                        let t = s@.skip(n - 3);
                        if t == seq!['.', 'm', 'd'] {
                            assert(t[0] == s@[n - 3]);
                            assert(t[1] == s@[n - 2]);
                            assert(t[2] == s@[n - 1]);
                        }
                    }
                }
                s
            }
        },
    }
}

} // verus!
