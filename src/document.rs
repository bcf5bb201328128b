use vstd::prelude::*;
use crate::events::HeadingLevel;
use crate::highlight::{block_rules, line_from, line_text, ColoredSpan};

verus! {

/// A fenced or indented code block as it stands in the document tree.
pub struct CodeBlockNode {
    /// The info string of the fence, or `text` when there is none.
    pub language: String,
    /// The code, as the block's text events spell it.
    pub code: String,
    /// Whether the block is too wide or too long to show without scrolling.
    pub needs_scroll: bool,
    /// How many digits the line-number gutter needs.
    pub gutter_width: usize,
    /// The classified spans of each line.
    pub lines: Vec<Vec<ColoredSpan>>,
}

/// What a node of the document tree is.
pub enum Role {
    Paragraph,
    Heading(HeadingLevel),
    BlockQuote,
    /// A list, ordered when it has a first number; `task` when its first item is a task item.
    List { start: Option<u64>, task: bool },
    ListItem,
    TaskItem,
    Checkbox(bool),
    Table,
    TableHead,
    TableRow,
    HeaderCell,
    DataCell,
    Emphasis,
    Strong,
    Strikethrough,
    /// A link; `external` when the url is an absolute http or https one.
    Link { url: String, title: String, external: bool },
    /// An image; its alt text is also its caption.
    Image { src: String, alt: String, title: String },
    CodeBlock(CodeBlockNode),
    Text(String),
    InlineCode(String),
    FootnoteRef(String),
    LineBreak,
    Rule,
}

/// One node of the document tree: its role and its children in order.
pub struct DocNode {
    pub role: Role,
    pub children: Vec<DocNode>,
}

/// The model of a code block node: the text of each highlighted line, and whether
/// every line is plain text or the classification of highlighted pieces that make it
/// up, under the rules the block's language selects.
pub struct CodeBlockV {
    pub language: Seq<char>,
    pub code: Seq<char>,
    pub needs_scroll: bool,
    pub gutter_width: nat,
    pub line_texts: Seq<Seq<char>>,
    pub lines_classified: bool,
}

/// The model of a node's role.
pub enum RoleV {
    Paragraph,
    Heading(HeadingLevel),
    BlockQuote,
    List { start: Option<u64>, task: bool },
    ListItem,
    TaskItem,
    Checkbox(bool),
    Table,
    TableHead,
    TableRow,
    HeaderCell,
    DataCell,
    Emphasis,
    Strong,
    Strikethrough,
    Link { url: Seq<char>, title: Seq<char>, external: bool },
    Image { src: Seq<char>, alt: Seq<char>, title: Seq<char> },
    CodeBlock(CodeBlockV),
    Text(Seq<char>),
    InlineCode(Seq<char>),
    FootnoteRef(Seq<char>),
    LineBreak,
    Rule,
}

/// The model of a node: its role and the models of its children.
pub struct NodeV {
    pub role: RoleV,
    pub children: Seq<NodeV>,
}

impl View for Role {
    type V = RoleV;

    open spec fn view(&self) -> RoleV {
        match *self {
            Role::Paragraph => RoleV::Paragraph,
            Role::Heading(l) => RoleV::Heading(l),
            Role::BlockQuote => RoleV::BlockQuote,
            Role::List { start, task } => RoleV::List { start, task },
            Role::ListItem => RoleV::ListItem,
            Role::TaskItem => RoleV::TaskItem,
            Role::Checkbox(c) => RoleV::Checkbox(c),
            Role::Table => RoleV::Table,
            Role::TableHead => RoleV::TableHead,
            Role::TableRow => RoleV::TableRow,
            Role::HeaderCell => RoleV::HeaderCell,
            Role::DataCell => RoleV::DataCell,
            Role::Emphasis => RoleV::Emphasis,
            Role::Strong => RoleV::Strong,
            Role::Strikethrough => RoleV::Strikethrough,
            Role::Link { url, title, external } => RoleV::Link {
                url: url@,
                title: title@,
                external,
            },
            Role::Image { src, alt, title } => RoleV::Image { src: src@, alt: alt@, title: title@ },
            Role::CodeBlock(b) => RoleV::CodeBlock(
                CodeBlockV {
                    language: b.language@,
                    code: b.code@,
                    needs_scroll: b.needs_scroll,
                    gutter_width: b.gutter_width as nat,
                    line_texts: b.lines@.map_values(|l: Vec<ColoredSpan>| line_text(l@)),
                    lines_classified: forall|k: int|
                        0 <= k < b.lines@.len() ==> line_from(
                            #[trigger] b.lines@[k]@,
                            line_text(b.lines@[k]@),
                            block_rules(b.language@),
                        ),
                },
            ),
            Role::Text(s) => RoleV::Text(s@),
            Role::InlineCode(s) => RoleV::InlineCode(s@),
            Role::FootnoteRef(s) => RoleV::FootnoteRef(s@),
            Role::LineBreak => RoleV::LineBreak,
            Role::Rule => RoleV::Rule,
        }
    }
}

/// The model of a node.
pub open spec fn node_view(n: DocNode) -> NodeV
    decreases n,
{
    NodeV { role: n.role@, children: nodes_view(n.children@) }
}

/// The models of a sequence of nodes.
pub open spec fn nodes_view(s: Seq<DocNode>) -> Seq<NodeV>
    decreases s,
{
    if s.len() == 0 {
        seq![]
    } else {
        nodes_view(s.drop_last()) + seq![node_view(s.last())]
    }
}

/// A leaf node.
pub fn leaf(role: Role) -> (r: DocNode)
    ensures
        node_view(r) == (NodeV { role: role@, children: seq![] }),
{
    let r = DocNode { role, children: Vec::new() };
    assert(nodes_view(r.children@) =~= seq![]);
    r
}

} // verus!
