use vstd::prelude::*;

verus! {

/// The level of a heading, one to six.
#[derive(Clone, Copy, Debug, PartialEq, Eq, Structural)]
pub enum HeadingLevel {
    H1,
    H2,
    H3,
    H4,
    H5,
    H6,
}

/// How a link or an image was written in the source.
#[derive(Clone, Copy, Debug, PartialEq, Eq, Structural)]
pub enum LinkType {
    Inline,
    Reference,
    ReferenceUnknown,
    Collapsed,
    CollapsedUnknown,
    Shortcut,
    ShortcutUnknown,
    Autolink,
    Email,
}

/// The alignment of one table column.
#[derive(Clone, Copy, Debug, PartialEq, Eq, Structural)]
pub enum Alignment {
    Unaligned,
    Left,
    Center,
    Right,
}

/// A fenced code block carries its info string; an indented one carries nothing.
#[derive(Debug)]
pub enum CodeBlockKind {
    Indented,
    Fenced(String),
}

/// The block and inline constructs that open and close around other events.
#[derive(Debug)]
pub enum Tag {
    Paragraph,
    Heading(HeadingLevel, Option<String>, Vec<String>),
    BlockQuote,
    CodeBlock(CodeBlockKind),
    List(Option<u64>),
    Item,
    FootnoteDefinition(String),
    Table(Vec<Alignment>),
    TableHead,
    TableRow,
    TableCell,
    Emphasis,
    Strong,
    Strikethrough,
    Link(LinkType, String, String),
    Image(LinkType, String, String),
}

/// One unit of the flat stream a markdown tokenizer produces.
#[derive(Debug)]
pub enum Event {
    Start(Tag),
    End(Tag),
    Text(String),
    Code(String),
    Html(String),
    FootnoteReference(String),
    SoftBreak,
    HardBreak,
    Rule,
    TaskListMarker(bool),
}

pub open spec fn opt_str_view(o: Option<String>) -> Option<Seq<char>> {
    match o {
        Some(s) => Some(s@),
        None => None,
    }
}

pub open spec fn strs_view(v: Vec<String>) -> Seq<Seq<char>> {
    v@.map_values(|s: String| s@)
}

pub open spec fn kind_view(k: CodeBlockKind) -> Option<Seq<char>> {
    match k {
        CodeBlockKind::Indented => None,
        CodeBlockKind::Fenced(l) => Some(l@),
    }
}

/// Two tags open and close the same construct: same kind and same carried data,
/// except that table column alignments are not compared.
pub open spec fn same_tag(a: Tag, b: Tag) -> bool {
    match a {
        Tag::Paragraph => b is Paragraph,
        Tag::Heading(l, id, cls) => b matches Tag::Heading(l2, id2, cls2) && l == l2
            && opt_str_view(id) == opt_str_view(id2) && strs_view(cls) == strs_view(cls2),
        Tag::BlockQuote => b is BlockQuote,
        Tag::CodeBlock(k) => b matches Tag::CodeBlock(k2) && kind_view(k) == kind_view(k2),
        Tag::List(n) => b matches Tag::List(n2) && n == n2,
        Tag::Item => b is Item,
        Tag::FootnoteDefinition(id) => b matches Tag::FootnoteDefinition(id2) && id@ == id2@,
        Tag::Table(_) => b is Table,
        Tag::TableHead => b is TableHead,
        Tag::TableRow => b is TableRow,
        Tag::TableCell => b is TableCell,
        Tag::Emphasis => b is Emphasis,
        Tag::Strong => b is Strong,
        Tag::Strikethrough => b is Strikethrough,
        Tag::Link(t, u, ti) => b matches Tag::Link(t2, u2, ti2) && t == t2 && u@ == u2@ && ti@
            == ti2@,
        Tag::Image(t, u, ti) => b matches Tag::Image(t2, u2, ti2) && t == t2 && u@ == u2@ && ti@
            == ti2@,
    }
}

/// Two tags are equal in every carried value, table alignments included.
pub open spec fn tag_eq(a: Tag, b: Tag) -> bool {
    &&& same_tag(a, b)
    &&& (a matches Tag::Table(al) ==> b matches Tag::Table(al2) && al@ == al2@)
}

/// Two events are equal in every carried value.
pub open spec fn event_eq(a: Event, b: Event) -> bool {
    match a {
        Event::Start(t) => b matches Event::Start(t2) && tag_eq(t, t2),
        Event::End(t) => b matches Event::End(t2) && tag_eq(t, t2),
        Event::Text(s) => b matches Event::Text(s2) && s@ == s2@,
        Event::Code(s) => b matches Event::Code(s2) && s@ == s2@,
        Event::Html(s) => b matches Event::Html(s2) && s@ == s2@,
        Event::FootnoteReference(s) => b matches Event::FootnoteReference(s2) && s@ == s2@,
        Event::SoftBreak => b is SoftBreak,
        Event::HardBreak => b is HardBreak,
        Event::Rule => b is Rule,
        Event::TaskListMarker(c) => b matches Event::TaskListMarker(c2) && c == c2,
    }
}

fn opt_str_eq(a: &Option<String>, b: &Option<String>) -> (r: bool)
    ensures
        r == (opt_str_view(*a) == opt_str_view(*b)),
{
    match (a, b) {
        (Some(x), Some(y)) => *x == *y,
        (None, None) => true,
        _ => false,
    }
}

fn strs_eq(a: &Vec<String>, b: &Vec<String>) -> (r: bool)
    ensures
        r == (strs_view(*a) == strs_view(*b)),
{
    if a.len() != b.len() {
        assert(strs_view(*a).len() != strs_view(*b).len());
        return false;
    }
    let mut i: usize = 0;
    while i < a.len()
        invariant
            a.len() == b.len(),
            i <= a.len(),
            forall|j: int| 0 <= j < i ==> a@[j]@ == b@[j]@,
        decreases a.len() - i,
    {
        if a[i] != b[i] {
            assert(strs_view(*a)[i as int] != strs_view(*b)[i as int]);
            return false;
        }
        i += 1;
    }
    assert(strs_view(*a) =~= strs_view(*b));
    true
}

fn opt_u64_eq(a: Option<u64>, b: Option<u64>) -> (r: bool)
    ensures
        r == (a == b),
{
    match (a, b) {
        (Some(x), Some(y)) => x == y,
        (None, None) => true,
        _ => false,
    }
}

/// Whether two tags open and close the same construct (alignments of tables ignored).
pub fn tag_matches(a: &Tag, b: &Tag) -> (r: bool)
    ensures
        r == same_tag(*a, *b),
{
    match (a, b) {
        (Tag::Paragraph, Tag::Paragraph) => true,
        (Tag::Heading(l, id, cls), Tag::Heading(l2, id2, cls2)) => *l == *l2 && opt_str_eq(id, id2)
            && strs_eq(cls, cls2),
        (Tag::BlockQuote, Tag::BlockQuote) => true,
        (Tag::CodeBlock(k), Tag::CodeBlock(k2)) => match (k, k2) {
            (CodeBlockKind::Indented, CodeBlockKind::Indented) => true,
            (CodeBlockKind::Fenced(x), CodeBlockKind::Fenced(y)) => *x == *y,
            _ => false,
        },
        (Tag::List(n), Tag::List(n2)) => opt_u64_eq(*n, *n2),
        (Tag::Item, Tag::Item) => true,
        (Tag::FootnoteDefinition(x), Tag::FootnoteDefinition(y)) => *x == *y,
        (Tag::Table(_), Tag::Table(_)) => true,
        (Tag::TableHead, Tag::TableHead) => true,
        (Tag::TableRow, Tag::TableRow) => true,
        (Tag::TableCell, Tag::TableCell) => true,
        (Tag::Emphasis, Tag::Emphasis) => true,
        (Tag::Strong, Tag::Strong) => true,
        (Tag::Strikethrough, Tag::Strikethrough) => true,
        (Tag::Link(t, u, ti), Tag::Link(t2, u2, ti2)) => *t == *t2 && *u == *u2 && *ti == *ti2,
        (Tag::Image(t, u, ti), Tag::Image(t2, u2, ti2)) => *t == *t2 && *u == *u2 && *ti == *ti2,
        _ => false,
    }
}

fn copy_strs(v: &Vec<String>) -> (r: Vec<String>)
    ensures
        strs_view(r) == strs_view(*v),
{
    let mut out: Vec<String> = Vec::new();
    let mut i: usize = 0;
    while i < v.len()
        invariant
            i <= v.len(),
            out@.len() == i,
            forall|j: int| 0 <= j < i ==> out@[j]@ == v@[j]@,
        decreases v.len() - i,
    {
        out.push(v[i].clone());
        i += 1;
    }
    assert(strs_view(out) =~= strs_view(*v));
    out
}

fn copy_alignments(v: &Vec<Alignment>) -> (r: Vec<Alignment>)
    ensures
        r@ == v@,
{
    let mut out: Vec<Alignment> = Vec::new();
    let mut i: usize = 0;
    while i < v.len()
        invariant
            i <= v.len(),
            out@ == v@.subrange(0, i as int),
        decreases v.len() - i,
    {
        out.push(v[i]);
        i += 1;
        assert(out@ =~= v@.subrange(0, i as int));
    }
    assert(v@.subrange(0, v.len() as int) =~= v@);
    out
}

impl Tag {
    /// A copy of the tag, equal in every carried value.
    pub fn duplicate(&self) -> (r: Tag)
        ensures
            tag_eq(r, *self),
    {
        match self {
            Tag::Paragraph => Tag::Paragraph,
            Tag::Heading(l, id, cls) => Tag::Heading(*l, id.clone(), copy_strs(cls)),
            Tag::BlockQuote => Tag::BlockQuote,
            Tag::CodeBlock(k) => Tag::CodeBlock(
                match k {
                    CodeBlockKind::Indented => CodeBlockKind::Indented,
                    CodeBlockKind::Fenced(l) => CodeBlockKind::Fenced(l.clone()),
                },
            ),
            Tag::List(n) => Tag::List(*n),
            Tag::Item => Tag::Item,
            Tag::FootnoteDefinition(id) => Tag::FootnoteDefinition(id.clone()),
            Tag::Table(al) => Tag::Table(copy_alignments(al)),
            Tag::TableHead => Tag::TableHead,
            Tag::TableRow => Tag::TableRow,
            Tag::TableCell => Tag::TableCell,
            Tag::Emphasis => Tag::Emphasis,
            Tag::Strong => Tag::Strong,
            Tag::Strikethrough => Tag::Strikethrough,
            Tag::Link(t, u, ti) => Tag::Link(*t, u.clone(), ti.clone()),
            Tag::Image(t, u, ti) => Tag::Image(*t, u.clone(), ti.clone()),
        }
    }
}

impl Event {
    /// A copy of the event, equal in every carried value.
    pub fn duplicate(&self) -> (r: Event)
        ensures
            event_eq(r, *self),
    {
        match self {
            Event::Start(t) => Event::Start(t.duplicate()),
            Event::End(t) => Event::End(t.duplicate()),
            Event::Text(s) => Event::Text(s.clone()),
            Event::Code(s) => Event::Code(s.clone()),
            Event::Html(s) => Event::Html(s.clone()),
            Event::FootnoteReference(s) => Event::FootnoteReference(s.clone()),
            Event::SoftBreak => Event::SoftBreak,
            Event::HardBreak => Event::HardBreak,
            Event::Rule => Event::Rule,
            Event::TaskListMarker(c) => Event::TaskListMarker(*c),
        }
    }
}

} // verus!
