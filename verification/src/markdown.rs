//! A post's markdown source as the flat list of nodes that the rest of the
//! library reads: comrak parses, and each node of its tree, in document
//! order, becomes an `MdNode`.

use comrak::nodes::NodeValue as V;
use comrak::options::Extension;
use comrak::options::Plugins;
use comrak::plugins::syntect::SyntectAdapterBuilder;
use comrak::{Arena, Options, markdown_to_html_with_plugins, parse_document};
use syntect::highlighting::ThemeSet;
use vstd::prelude::*;

verus! {

/// The CommonMark extensions that the parser turns on.
#[derive(Clone, Copy, Debug, PartialEq, Eq, Structural)]
pub struct MarkdownExtensions {
    pub strikethrough: bool,
    pub table: bool,
    pub autolink: bool,
    pub tasklist: bool,
    pub superscript: bool,
    pub footnotes: bool,
    pub description_lists: bool,
}

/// The extensions the blog's posts are written with: all seven of them.
pub open spec fn blog_extensions_spec() -> MarkdownExtensions {
    MarkdownExtensions {
        strikethrough: true,
        table: true,
        autolink: true,
        tasklist: true,
        superscript: true,
        footnotes: true,
        description_lists: true,
    }
}

/// The extensions the blog's posts are written with.
pub fn blog_extensions() -> (e: MarkdownExtensions)
    ensures
        e == blog_extensions_spec(),
{
    MarkdownExtensions {
        strikethrough: true,
        table: true,
        autolink: true,
        tasklist: true,
        superscript: true,
        footnotes: true,
        description_lists: true,
    }
}

/// The blog parses and renders posts with every one of the seven
/// extensions on (GitHub-flavoured tables, task lists, strikethrough and
/// autolinks, and superscript, footnotes and description lists), and with
/// front matter between lines of three dashes.
pub proof fn lemma_blog_options()
    ensures
        blog_extensions_spec().strikethrough,
        blog_extensions_spec().table,
        blog_extensions_spec().autolink,
        blog_extensions_spec().tasklist,
        blog_extensions_spec().superscript,
        blog_extensions_spec().footnotes,
        blog_extensions_spec().description_lists,
        front_matter_delimiter_spec().len() == 3,
        forall|i: int| 0 <= i < 3 ==> front_matter_delimiter_spec()[i] == '-',
{
}

/// The line that opens and closes a post's front matter.
pub open spec fn front_matter_delimiter_spec() -> Seq<char> {
    seq!['-', '-', '-']
}

/// The line that opens and closes a post's front matter: `---`.
pub fn front_matter_delimiter() -> (d: String)
    ensures
        d@ == front_matter_delimiter_spec(),
{
    let mut d = String::new();
    crate::text::push_char(&mut d, '-');
    crate::text::push_char(&mut d, '-');
    crate::text::push_char(&mut d, '-');
    d
}

/// One node of a parsed markdown document, with the text that the library
/// reads from it.
#[derive(Debug)]
pub enum MdNode {
    /// The front matter block, delimiters included.
    FrontMatter(String),
    /// Plain text.
    Text(String),
    /// Inline code; its literal.
    Code(String),
    /// A code block; its literal.
    CodeBlock(String),
    /// Any other node (the document itself, paragraphs, links, ...).
    Other,
}

/// An `MdNode` with its text as a sequence of characters.
pub enum MdNodeView {
    FrontMatter(Seq<char>),
    Text(Seq<char>),
    Code(Seq<char>),
    CodeBlock(Seq<char>),
    Other,
}

impl View for MdNode {
    type V = MdNodeView;

    open spec fn view(&self) -> MdNodeView {
        match self {
            MdNode::FrontMatter(s) => MdNodeView::FrontMatter(s@),
            MdNode::Text(s) => MdNodeView::Text(s@),
            MdNode::Code(s) => MdNodeView::Code(s@),
            MdNode::CodeBlock(s) => MdNodeView::CodeBlock(s@),
            MdNode::Other => MdNodeView::Other,
        }
    }
}

/// The views of a list of nodes.
pub open spec fn nodes_view(nodes: Seq<MdNode>) -> Seq<MdNodeView> {
    nodes.map_values(|n: MdNode| n@)
}

/// The nodes, in document order, of comrak's parse of `source` with the
/// given extensions and front matter delimiter.
pub uninterp spec fn markdown_nodes(
    source: Seq<char>,
    extensions: MarkdownExtensions,
    delimiter: Seq<char>,
) -> Seq<MdNodeView>;

/// Calls comrak's `parse_document` on `source` with the given extensions
/// and front matter delimiter and lists the nodes of the tree in the order
/// `traverse` starts them. The tree's root is the document node, so the list
/// is never empty and starts with a node the library does not read.
#[verifier::external_body]
pub(crate) fn parse_markdown(source: &str, ext: MarkdownExtensions, delimiter: &str) -> (nodes:
    Vec<MdNode>)
    ensures
        nodes_view(nodes@) == markdown_nodes(source@, ext, delimiter@),
        nodes@.len() > 0,
        nodes@[0] is Other,
{
    let MarkdownExtensions { strikethrough, table, autolink, tasklist, superscript, footnotes, description_lists } = ext;
    let extension = Extension { strikethrough, table, autolink, tasklist, superscript, footnotes,
        description_lists, front_matter_delimiter: Some(delimiter.to_owned()), ..Default::default() };
    let arena = Arena::new();
    parse_document(&arena, source, &Options { extension, ..Default::default() }).descendants().map(|n| match &n.data.borrow().value {
        V::FrontMatter(s) => MdNode::FrontMatter(s.clone()),
        V::Text(s) => MdNode::Text(s.to_string()),
        V::Code(c) => MdNode::Code(c.literal.clone()),
        V::CodeBlock(c) => MdNode::CodeBlock(c.literal.clone()),
        _ => MdNode::Other,
    }).collect()
}


/// syntect's set of highlighting themes, carried through unchanged.
#[verifier::external_type_specification]
#[verifier::external_body]
pub struct ExThemeSet(ThemeSet);

/// The names of the themes in a theme set: the keys of its `themes` map.
pub uninterp spec fn theme_names(themes: ThemeSet) -> Set<Seq<char>>;

/// Calls `BTreeMap::contains_key` on the `themes` map of `themes`: whether
/// one of its themes is named `name`.
#[verifier::external_body]
fn has_theme(themes: &ThemeSet, name: &str) -> (b: bool)
    ensures
        b == theme_names(*themes).contains(name@),
{
    themes.themes.contains_key(name)
}

/// The theme the blog highlights fenced code with.
pub open spec fn blog_theme_spec() -> Seq<char> {
    "Enki-Tokyo-Night"@
}

/// The theme the blog highlights fenced code with.
pub fn blog_theme() -> (t: String)
    ensures
        t@ == blog_theme_spec(),
{
    String::from_str("Enki-Tokyo-Night")
}

/// A set of highlighting themes and the name of the one that fenced code is
/// highlighted with, which is in the set.
pub struct Highlighter {
    themes: ThemeSet,
    theme: String,
}

impl Highlighter {
    #[verifier::type_invariant]
    spec fn has_its_theme(self) -> bool {
        theme_names(self.themes).contains(self.theme@)
    }

    /// The name of the theme fenced code is highlighted with.
    pub closed spec fn theme_spec(self) -> Seq<char> {
        self.theme@
    }

    /// A highlighter with the themes `themes` and the theme named `theme`,
    /// where `themes` has a theme of that name; `None` where it has not.
    pub fn new(themes: ThemeSet, theme: &str) -> (h: Option<Highlighter>)
        ensures
            h is Some <==> theme_names(themes).contains(theme@),
            h matches Some(h) ==> h.theme_spec() == theme@,
    {
        if has_theme(&themes, theme) {
            Some(Highlighter { themes, theme: String::from_str(theme) })
        } else {
            None
        }
    }

    /// `source` rendered to HTML with the blog's extensions and front matter
    /// delimiter, fenced code highlighted with this highlighter's theme.
    pub(crate) fn render(self, source: &str, ext: MarkdownExtensions, delimiter: &str) -> String
        requires
            ext == blog_extensions_spec(),
            delimiter@ == front_matter_delimiter_spec(),
    {
        proof {
            use_type_invariant(&self);
        }
        let Highlighter { themes, theme } = self;
        render_html(source, ext, delimiter, themes, theme.as_str())
    }
}

/// Calls comrak's `markdown_to_html_with_plugins` on `source` with the given
/// extensions and front matter delimiter, which are the blog's (the library
/// renders posts with no other options), and for fenced code a syntect
/// adapter built from `themes` with the theme `theme`. The adapter looks its
/// theme up in its set for each fenced block, which panics where the theme
/// is missing; `requires` leaves that out. The HTML depends on the themes'
/// and syntaxes' contents, which are not named, so nothing is stated of it.
#[verifier::external_body]
fn render_html(source: &str, ext: MarkdownExtensions, delimiter: &str, themes: ThemeSet, theme:
    &str) -> String
    requires
        ext == blog_extensions_spec(),
        delimiter@ == front_matter_delimiter_spec(),
        theme_names(themes).contains(theme@),
{
    let MarkdownExtensions { strikethrough, table, autolink, tasklist, superscript, footnotes, description_lists } = ext;
    let extension = Extension { strikethrough, table, autolink, tasklist, superscript, footnotes,
        description_lists, front_matter_delimiter: Some(delimiter.to_owned()), ..Default::default() };
    let adapter = SyntectAdapterBuilder::new().theme_set(themes).theme(theme).build();
    let mut plugins = Plugins::default();
    plugins.render.codefence_syntax_highlighter = Some(&adapter);
    markdown_to_html_with_plugins(source, &Options { extension, ..Default::default() }, &plugins)
}

} // verus!
