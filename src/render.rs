use vstd::prelude::*;
use vstd::string::*;
use crate::document::{leaf, node_view, nodes_view, CodeBlockNode, CodeBlockV, DocNode, NodeV, Role, RoleV};
use crate::events::{opt_str_view, CodeBlockKind, Event, Tag};
use crate::highlight::{
    code_layout, digits, highlight_code, line_text, scroll_needed, ColoredSpan, SyntaxCatalog,
};
use crate::matcher::{end_of_span, flat_text, flatten_text, span_end};
use crate::text::{blank, expand_tabs, is_blank, lines_of, starts_with};

verus! {

/// A leaf of the model tree.
pub open spec fn leaf_v(role: RoleV) -> NodeV {
    NodeV { role, children: seq![] }
}

/// Pending text becomes one text node, unless it is empty.
pub open spec fn flush(p: Seq<char>) -> Seq<NodeV> {
    if p.len() == 0 {
        seq![]
    } else {
        seq![leaf_v(RoleV::Text(p))]
    }
}

pub open spec fn unchecked_marker() -> Seq<char> {
    seq!['[', ' ', ']', ' ']
}

pub open spec fn checked_marker() -> Seq<char> {
    seq!['[', 'x', ']', ' ']
}

pub open spec fn checked_marker_upper() -> Seq<char> {
    seq!['[', 'X', ']', ' ']
}

/// The text opens with a task marker: `[ ] `, `[x] ` or `[X] `.
pub open spec fn task_prefix(t: Seq<char>) -> bool {
    unchecked_marker().is_prefix_of(t) || checked_marker().is_prefix_of(t)
        || checked_marker_upper().is_prefix_of(t)
}

/// The text opens with a checked task marker: `[x] ` or `[X] `.
pub open spec fn task_checked(t: Seq<char>) -> bool {
    checked_marker().is_prefix_of(t) || checked_marker_upper().is_prefix_of(t)
}

/// The url is an absolute `http://` or `https://` one.
pub open spec fn http_url(u: Seq<char>) -> bool {
    seq!['h', 't', 't', 'p', ':', '/', '/'].is_prefix_of(u) || seq![
        'h',
        't',
        't',
        'p',
        's',
        ':',
        '/',
        '/',
    ].is_prefix_of(u)
}

/// Where an image is loaded from: absolute urls and urls without a base path as they
/// are; a url that starts with `/` appended to the base path; any other joined to it
/// with one `/`.
pub open spec fn resolve_image(url: Seq<char>, base: Option<Seq<char>>) -> Seq<char> {
    match base {
        None => url,
        Some(b) => if http_url(url) {
            url
        } else if url.len() > 0 && url[0] == '/' {
            b + url
        } else {
            b + seq!['/'] + url
        },
    }
}

pub open spec fn plain_language() -> Seq<char> {
    seq!['t', 'e', 'x', 't']
}

/// The language of a code block: the fence's info string, or `text`.
pub open spec fn language_of(k: CodeBlockKind) -> Seq<char> {
    match k {
        CodeBlockKind::Fenced(l) => if l@.len() > 0 {
            l@
        } else {
            plain_language()
        },
        CodeBlockKind::Indented => plain_language(),
    }
}

/// The model of a code block node holding `code`.
pub open spec fn code_block_role(k: CodeBlockKind, code: Seq<char>) -> RoleV {
    RoleV::CodeBlock(
        CodeBlockV {
            language: language_of(k),
            code,
            needs_scroll: scroll_needed(code),
            gutter_width: digits(lines_of(code).len()),
            line_texts: lines_of(code).map_values(|l: Seq<char>| expand_tabs(l)),
            lines_classified: true,
        },
    )
}

/// The role of the node that a tag opens, for the tags that simply wrap their content.
pub open spec fn wrapping_role(tag: Tag, in_head: bool, task_list: bool) -> RoleV {
    match tag {
        Tag::Paragraph => RoleV::Paragraph,
        Tag::Heading(l, _, _) => RoleV::Heading(l),
        Tag::BlockQuote => RoleV::BlockQuote,
        Tag::List(n) => RoleV::List { start: n, task: task_list },
        Tag::Item => RoleV::ListItem,
        Tag::Table(_) => RoleV::Table,
        Tag::TableHead => RoleV::TableHead,
        Tag::TableRow => RoleV::TableRow,
        Tag::TableCell => if in_head {
            RoleV::HeaderCell
        } else {
            RoleV::DataCell
        },
        Tag::Emphasis => RoleV::Emphasis,
        Tag::Strong => RoleV::Strong,
        Tag::Strikethrough => RoleV::Strikethrough,
        Tag::Link(_, u, t) => RoleV::Link { url: u@, title: t@, external: http_url(u@) },
        _ => RoleV::Paragraph,
    }
}

/// The text of a text event, empty for any other event.
pub open spec fn text_of(e: Event) -> Seq<char> {
    match e {
        Event::Text(t) => t@,
        _ => seq![],
    }
}

/// The event is a text event that opens with a task marker.
pub open spec fn is_task_text(e: Event) -> bool {
    e is Text && task_prefix(text_of(e))
}

/// The list spanning `ev[i..=e]` is a task list: its first item opens with a task marker.
pub open spec fn list_is_task(ev: Seq<Event>, i: int, e: int) -> bool {
    &&& i + 2 < e
    &&& ev[i + 1] matches Event::Start(Tag::Item)
    &&& is_task_text(ev[i + 2])
}

/// The item spanning `ev[i..=e]` is a task item: its content opens with a task marker.
pub open spec fn item_is_task(ev: Seq<Event>, i: int, e: int) -> bool {
    i + 1 < e && is_task_text(ev[i + 1])
}

/// Wraps rendered content in one node, keeping failure.
pub open spec fn wrap(role: RoleV, children: Option<Seq<NodeV>>) -> Option<Seq<NodeV>> {
    match children {
        Some(c) => Some(seq![NodeV { role, children: c }]),
        None => None,
    }
}

/// `pre`, then `mid`, then `rest`, when neither failed.
pub open spec fn then_rest(pre: Seq<NodeV>, mid: Option<Seq<NodeV>>, rest: Option<Seq<NodeV>>) -> Option<
    Seq<NodeV>,
> {
    match mid {
        Some(m) => match rest {
            Some(r) => Some(pre + m + r),
            None => None,
        },
        None => None,
    }
}

/// `pre` before a rendering, keeping failure.
pub open spec fn prepend(pre: Seq<NodeV>, r: Option<Seq<NodeV>>) -> Option<Seq<NodeV>> {
    match r {
        Some(s) => Some(pre + s),
        None => None,
    }
}

/// The nodes that the span `ev[i..=e]`, opened by a start event at `i` and closed at
/// `e`, renders to: none for a footnote definition, one for any other tag.
pub open spec fn span_nodes(
    ev: Seq<Event>,
    i: int,
    e: int,
    base: Option<Seq<char>>,
    in_head: bool,
) -> Option<Seq<NodeV>>
    decreases e - i,
{
    if !(0 <= i < e < ev.len()) {
        None
    } else {
        match ev[i] {
            Event::Start(tag) => match tag {
                Tag::FootnoteDefinition(_) => Some(seq![]),
                Tag::CodeBlock(k) => Some(seq![leaf_v(code_block_role(k, flat_text(ev, i + 1, e)))]),
                Tag::Image(_, u, t) => Some(
                    seq![
                        leaf_v(
                            RoleV::Image {
                                src: resolve_image(u@, base),
                                alt: flat_text(ev, i + 1, e),
                                title: t@,
                            },
                        ),
                    ],
                ),
                Tag::Item => if item_is_task(ev, i, e) {
                    let t = text_of(ev[i + 1]);
                    let rest = t.subrange(4, t.len() as int);
                    let init = if is_blank(rest) {
                        seq![]
                    } else {
                        rest
                    };
                    match render_from(ev, i + 2, e, init, base, in_head) {
                        Some(c) => Some(
                            seq![
                                NodeV {
                                    role: RoleV::TaskItem,
                                    children: seq![leaf_v(RoleV::Checkbox(task_checked(t)))] + c,
                                },
                            ],
                        ),
                        None => None,
                    }
                } else {
                    wrap(RoleV::ListItem, render_from(ev, i + 1, e, seq![], base, in_head))
                },
                Tag::TableHead => wrap(
                    RoleV::TableHead,
                    render_from(ev, i + 1, e, seq![], base, true),
                ),
                _ => wrap(
                    wrapping_role(tag, in_head, list_is_task(ev, i, e)),
                    render_from(ev, i + 1, e, seq![], base, in_head),
                ),
            },
            _ => None,
        }
    }
}

/// The rendering of `ev[i..hi)` with `pending` text not yet emitted, or `None` when
/// the events are malformed: a span that is not closed, or a stray end event.
pub open spec fn render_from(
    ev: Seq<Event>,
    i: int,
    hi: int,
    pending: Seq<char>,
    base: Option<Seq<char>>,
    in_head: bool,
) -> Option<Seq<NodeV>>
    decreases hi - i,
{
    if !(0 <= i < hi <= ev.len()) {
        Some(flush(pending))
    } else {
        match ev[i] {
            Event::Start(tag) => match span_end(ev, i, hi, tag) {
                Some(e) => if i < e < hi {
                    then_rest(
                        flush(pending),
                        span_nodes(ev, i, e, base, in_head),
                        render_from(ev, e + 1, hi, seq![], base, in_head),
                    )
                } else {
                    None
                },
                None => None,
            },
            Event::End(_) => None,
            Event::Text(t) => render_from(
                ev,
                i + 1,
                hi,
                if is_blank(t@) {
                    pending
                } else {
                    pending + t@
                },
                base,
                in_head,
            ),
            Event::Html(h) => render_from(ev, i + 1, hi, pending + h@, base, in_head),
            Event::SoftBreak => render_from(ev, i + 1, hi, pending + seq![' '], base, in_head),
            Event::Code(c) => then_rest(
                flush(pending),
                Some(seq![leaf_v(RoleV::InlineCode(c@))]),
                render_from(ev, i + 1, hi, seq![], base, in_head),
            ),
            Event::FootnoteReference(r) => then_rest(
                flush(pending),
                Some(seq![leaf_v(RoleV::FootnoteRef(r@))]),
                render_from(ev, i + 1, hi, seq![], base, in_head),
            ),
            Event::HardBreak => then_rest(
                flush(pending),
                Some(seq![leaf_v(RoleV::LineBreak)]),
                render_from(ev, i + 1, hi, seq![], base, in_head),
            ),
            Event::Rule => then_rest(
                flush(pending),
                Some(seq![leaf_v(RoleV::Rule)]),
                render_from(ev, i + 1, hi, seq![], base, in_head),
            ),
            Event::TaskListMarker(c) => then_rest(
                flush(pending),
                Some(seq![leaf_v(RoleV::Checkbox(c))]),
                render_from(ev, i + 1, hi, seq![], base, in_head),
            ),
        }
    }
}

/// The document tree of a whole event stream, or `None` when it is malformed.
pub open spec fn render_spec(ev: Seq<Event>, base: Option<Seq<char>>) -> Option<Seq<NodeV>> {
    render_from(ev, 0, ev.len() as int, seq![], base, false)
}

pub open spec fn opt_nodes_view(r: Option<Vec<DocNode>>) -> Option<Seq<NodeV>> {
    match r {
        Some(v) => Some(nodes_view(v@)),
        None => None,
    }
}

proof fn lemma_nodes_view_concat(a: Seq<DocNode>, b: Seq<DocNode>)
    ensures
        nodes_view(a + b) == nodes_view(a) + nodes_view(b),
    decreases b.len(),
{
    if b.len() == 0 {
        assert(a + b =~= a);
        assert(nodes_view(a) + nodes_view(b) =~= nodes_view(a));
    } else {
        assert((a + b).drop_last() =~= a + b.drop_last());
        lemma_nodes_view_concat(a, b.drop_last());
        assert(nodes_view(a + b) =~= nodes_view(a) + nodes_view(b));
    }
}

proof fn lemma_nodes_view_push(a: Seq<DocNode>, n: DocNode)
    ensures
        nodes_view(a.push(n)) == nodes_view(a) + seq![node_view(n)],
{
    assert(a.push(n).drop_last() =~= a);
}

/// Whether a task marker opens `text`, and if so whether it is a checked one.
pub fn task_marker(text: &str) -> (r: Option<bool>)
    ensures
        r is Some <==> task_prefix(text@),
        r matches Some(c) ==> c == task_checked(text@),
{
    let open = "[ ] ";
    let lower = "[x] ";
    let upper = "[X] ";
    proof {
        reveal_strlit("[ ] ");
        reveal_strlit("[x] ");
        reveal_strlit("[X] ");
        assert(open@ =~= unchecked_marker());
        assert(lower@ =~= checked_marker());
        assert(upper@ =~= checked_marker_upper());
    }
    if starts_with(text, lower) || starts_with(text, upper) {
        Some(true)
    } else if starts_with(text, open) {
        Some(false)
    } else {
        None
    }
}

/// Whether the url is an absolute `http://` or `https://` one.
pub fn is_http_url(url: &str) -> (r: bool)
    ensures
        r == http_url(url@),
{
    let http = "http://";
    let https = "https://";
    proof {
        reveal_strlit("http://");
        reveal_strlit("https://");
        assert(http@ =~= seq!['h', 't', 't', 'p', ':', '/', '/']);
        assert(https@ =~= seq!['h', 't', 't', 'p', 's', ':', '/', '/']);
    }
    starts_with(url, http) || starts_with(url, https)
}

/// Where an image with this url is loaded from, given the configured base path.
pub fn resolve_image_url(url: &str, base: &Option<String>) -> (r: String)
    ensures
        r@ == resolve_image(url@, opt_str_view(*base)),
{
    match base {
        None => String::from_str(url),
        Some(b) => {
            if is_http_url(url) {
                String::from_str(url)
            } else if url.unicode_len() > 0 && url.get_char(0) == '/' {
                b.clone().concat(url)
            } else {
                let slash = "/";
                proof {
                    reveal_strlit("/");
                }
                assert(slash@ =~= seq!['/']);
                b.clone().concat(slash).concat(url)
            }
        },
    }
}

fn language_name(k: &CodeBlockKind) -> (r: String)
    ensures
        r@ == language_of(*k),
{
    let plain = "text";
    proof {
        reveal_strlit("text");
    }
    assert(plain@ =~= plain_language());
    match k {
        CodeBlockKind::Fenced(l) => {
            if l.as_str().unicode_len() > 0 {
                l.clone()
            } else {
                String::from_str(plain)
            }
        },
        CodeBlockKind::Indented => String::from_str(plain),
    }
}

fn task_text_at(events: &Vec<Event>, k: usize) -> (r: Option<bool>)
    requires
        k < events@.len(),
    ensures
        r is Some <==> is_task_text(events@[k as int]),
        r matches Some(c) ==> c == task_checked(text_of(events@[k as int])),
{
    match &events[k] {
        Event::Text(t) => task_marker(t.as_str()),
        _ => None,
    }
}

fn list_is_task_at(events: &Vec<Event>, i: usize, e: usize) -> (r: bool)
    requires
        i < e < events@.len(),
    ensures
        r == list_is_task(events@, i as int, e as int),
{
    if e - i > 2 {
        match &events[i + 1] {
            Event::Start(Tag::Item) => task_text_at(events, i + 2).is_some(),
            _ => false,
        }
    } else {
        false
    }
}

fn wrapping_role_of(tag: &Tag, in_head: bool, task_list: bool) -> (r: Role)
    ensures
        r@ == wrapping_role(*tag, in_head, task_list),
{
    match tag {
        Tag::Paragraph => Role::Paragraph,
        Tag::Heading(l, _, _) => Role::Heading(*l),
        Tag::BlockQuote => Role::BlockQuote,
        Tag::List(n) => Role::List { start: *n, task: task_list },
        Tag::Item => Role::ListItem,
        Tag::Table(_) => Role::Table,
        Tag::TableHead => Role::TableHead,
        Tag::TableRow => Role::TableRow,
        Tag::TableCell => if in_head {
            Role::HeaderCell
        } else {
            Role::DataCell
        },
        Tag::Emphasis => Role::Emphasis,
        Tag::Strong => Role::Strong,
        Tag::Strikethrough => Role::Strikethrough,
        Tag::Link(_, u, t) => Role::Link { url: u.clone(), title: t.clone(), external: is_http_url(u.as_str()) },
        _ => Role::Paragraph,
    }
}

fn wrap_node(role: Role, children: Option<Vec<DocNode>>) -> (r: Option<Vec<DocNode>>)
    ensures
        opt_nodes_view(r) == wrap(role@, opt_nodes_view(children)),
{
    match children {
        None => None,
        Some(c) => {
            let node = DocNode { role, children: c };
            let mut out: Vec<DocNode> = Vec::new();
            out.push(node);
            proof {
                lemma_nodes_view_push(seq![], node);
                assert(seq![node] =~= Seq::<DocNode>::empty().push(node));
                assert(nodes_view(Seq::<DocNode>::empty()) =~= seq![]);
            }
            Some(out)
        },
    }
}

fn single(n: DocNode) -> (r: Vec<DocNode>)
    ensures
        nodes_view(r@) == seq![node_view(n)],
{
    let mut out: Vec<DocNode> = Vec::new();
    out.push(n);
    proof {
        lemma_nodes_view_push(seq![], n);
        assert(out@ =~= Seq::<DocNode>::empty().push(n));
        assert(nodes_view(Seq::<DocNode>::empty()) =~= seq![]);
    }
    out
}

fn flush_into(out: &mut Vec<DocNode>, pending: &mut String)
    ensures
        nodes_view(final(out)@) == nodes_view(old(out)@) + flush(old(pending)@),
        final(pending)@ == Seq::<char>::empty(),
{
    if pending.as_str().unicode_len() > 0 {
        let text = pending.clone();
        let n = leaf(Role::Text(text));
        proof {
            lemma_nodes_view_push(out@, n);
        }
        out.push(n);
    } else {
        assert(nodes_view(out@) + flush(pending@) =~= nodes_view(out@));
    }
    *pending = String::new();
}

fn append_nodes(out: &mut Vec<DocNode>, more: Vec<DocNode>)
    ensures
        nodes_view(final(out)@) == nodes_view(old(out)@) + nodes_view(more@),
{
    let mut more = more;
    proof {
        lemma_nodes_view_concat(out@, more@);
    }
    out.append(&mut more);
}

/// Renders the span `events[i..=e]`, opened at `i` and closed at `e`.
fn render_span(
    events: &Vec<Event>,
    i: usize,
    e: usize,
    base: &Option<String>,
    in_head: bool,
    catalog: &SyntaxCatalog,
) -> (r: Option<Vec<DocNode>>)
    requires
        i < e < events@.len(),
    ensures
        opt_nodes_view(r) == span_nodes(events@, i as int, e as int, opt_str_view(*base), in_head),
    decreases e - i, 0nat,
{
    match &events[i] {
        Event::Start(tag) => match tag {
            Tag::FootnoteDefinition(_) => {
                let out: Vec<DocNode> = Vec::new();
                assert(nodes_view(out@) =~= seq![]);
                Some(out)
            },
            Tag::CodeBlock(k) => {
                let language = language_name(k);
                let code = flatten_text(events, i + 1, e);
                let layout = code_layout(code.as_str());
                let lines = highlight_code(code.as_str(), language.as_str(), catalog);
                assert(lines@.map_values(|l: Vec<ColoredSpan>| line_text(l@)) =~= lines_of(
                    code@,
                ).map_values(|l: Seq<char>| expand_tabs(l)));
                let block = CodeBlockNode {
                    language,
                    code,
                    needs_scroll: layout.needs_scroll,
                    gutter_width: layout.gutter_width,
                    lines,
                };
                Some(single(leaf(Role::CodeBlock(block))))
            },
            Tag::Image(_, u, t) => {
                let src = resolve_image_url(u.as_str(), base);
                let alt = flatten_text(events, i + 1, e);
                Some(single(leaf(Role::Image { src, alt, title: t.clone() })))
            },
            Tag::Item => {
                if e - i > 1 {
                    if let Some(checked) = task_text_at(events, i + 1) {
                        let t = match &events[i + 1] {
                            Event::Text(t) => t.as_str(),
                            _ => "",
                        };
                        let rest = t.substring_char(4, t.unicode_len());
                        let init = if blank(rest) {
                            String::new()
                        } else {
                            String::from_str(rest)
                        };
                        match render_range(events, i + 2, e, init, base, in_head, catalog) {
                            None => {
                                return None;
                            },
                            Some(c) => {
                                let mut children = single(leaf(Role::Checkbox(checked)));
                                append_nodes(&mut children, c);
                                return Some(single(DocNode { role: Role::TaskItem, children }));
                            },
                        }
                    }
                }
                wrap_node(Role::ListItem, render_range(events, i + 1, e, String::new(), base, in_head, catalog))
            },
            Tag::TableHead => wrap_node(
                Role::TableHead,
                render_range(events, i + 1, e, String::new(), base, true, catalog),
            ),
            _ => {
                let task_list = list_is_task_at(events, i, e);
                let role = wrapping_role_of(tag, in_head, task_list);
                wrap_node(role, render_range(events, i + 1, e, String::new(), base, in_head, catalog))
            },
        },
        _ => None,
    }
}

/// The rendering of `ev[i..hi)` after the nodes `done`, with `pending` text not yet emitted.
pub open spec fn resume(
    done: Seq<DocNode>,
    ev: Seq<Event>,
    i: int,
    hi: int,
    pending: Seq<char>,
    base: Option<Seq<char>>,
    in_head: bool,
) -> Option<Seq<NodeV>> {
    prepend(nodes_view(done), render_from(ev, i, hi, pending, base, in_head))
}

/// Renders the span that a start event at `i` opens and moves past it.
fn start_step(
    events: &Vec<Event>,
    i: usize,
    hi: usize,
    out: &mut Vec<DocNode>,
    pending: &mut String,
    base: &Option<String>,
    in_head: bool,
    catalog: &SyntaxCatalog,
) -> (r: Option<usize>)
    requires
        i < hi <= events@.len(),
        events@[i as int] is Start,
    ensures
        match r {
            Some(j) => i < j <= hi && resume(
                old(out)@,
                events@,
                i as int,
                hi as int,
                old(pending)@,
                opt_str_view(*base),
                in_head,
            ) == resume(
                final(out)@,
                events@,
                j as int,
                hi as int,
                final(pending)@,
                opt_str_view(*base),
                in_head,
            ),
            None => render_from(
                events@,
                i as int,
                hi as int,
                old(pending)@,
                opt_str_view(*base),
                in_head,
            ) is None,
        },
    decreases hi - i, 0nat,
{
    let ghost b = opt_str_view(*base);
    let ghost ov = nodes_view(out@);
    let ghost p = pending@;
    match &events[i] {
        Event::Start(tag) => {
            match end_of_span(events, i, hi, tag) {
                None => None,
                Some(e) => {
                    match render_span(events, i, e, base, in_head, catalog) {
                        None => None,
                        Some(ns) => {
                            let ghost nv = nodes_view(ns@);
                            flush_into(out, pending);
                            append_nodes(out, ns);
                            proof {
                                match render_from(events@, e + 1, hi as int, seq![], b, in_head) {
                                    Some(rs) => {
                                        assert(ov + (flush(p) + nv + rs) =~= ov + flush(p) + nv + rs);
                                    },
                                    None => {},
                                }
                            }
                            Some(e + 1)
                        },
                    }
                },
            }
        },
        _ => None,
    }
}

/// Handles one event other than a start event.
fn leaf_step(
    events: &Vec<Event>,
    i: usize,
    hi: usize,
    out: &mut Vec<DocNode>,
    pending: &mut String,
    base: &Option<String>,
    in_head: bool,
) -> (r: bool)
    requires
        i < hi <= events@.len(),
        !(events@[i as int] is Start),
    ensures
        r ==> resume(
            old(out)@,
            events@,
            i as int,
            hi as int,
            old(pending)@,
            opt_str_view(*base),
            in_head,
        ) == resume(
            final(out)@,
            events@,
            i + 1,
            hi as int,
            final(pending)@,
            opt_str_view(*base),
            in_head,
        ),
        !r ==> render_from(
            events@,
            i as int,
            hi as int,
            old(pending)@,
            opt_str_view(*base),
            in_head,
        ) is None,
{
    let ghost b = opt_str_view(*base);
    let ghost ov = nodes_view(out@);
    let ghost p = pending@;
    match &events[i] {
        Event::End(_) => false,
        Event::Text(t) => {
            if !blank(t.as_str()) {
                pending.append(t.as_str());
            }
            true
        },
        Event::Html(h) => {
            pending.append(h.as_str());
            true
        },
        Event::SoftBreak => {
            let space = " ";
            proof {
                reveal_strlit(" ");
            }
            assert(space@ =~= seq![' ']);
            pending.append(space);
            true
        },
        _ => {
            let node = match &events[i] {
                Event::Code(c) => leaf(Role::InlineCode(c.clone())),
                Event::FootnoteReference(f) => leaf(Role::FootnoteRef(f.clone())),
                Event::HardBreak => leaf(Role::LineBreak),
                Event::Rule => leaf(Role::Rule),
                Event::TaskListMarker(c) => leaf(Role::Checkbox(*c)),
                _ => leaf(Role::Rule),
            };
            flush_into(out, pending);
            proof {
                lemma_nodes_view_push(out@, node);
                match render_from(events@, i + 1, hi as int, seq![], b, in_head) {
                    Some(rs) => {
                        assert(ov + (flush(p) + seq![node_view(node)] + rs) =~= ov + flush(p)
                            + seq![node_view(node)] + rs);
                    },
                    None => {},
                }
            }
            out.push(node);
            true
        },
    }
}

/// Renders `events[lo..hi)`, starting with `pending0` as text not yet emitted.
fn render_range(
    events: &Vec<Event>,
    lo: usize,
    hi: usize,
    pending0: String,
    base: &Option<String>,
    in_head: bool,
    catalog: &SyntaxCatalog,
) -> (r: Option<Vec<DocNode>>)
    requires
        lo <= hi <= events@.len(),
    ensures
        opt_nodes_view(r) == render_from(
            events@,
            lo as int,
            hi as int,
            pending0@,
            opt_str_view(*base),
            in_head,
        ),
    decreases hi - lo, 1nat,
{
    let ghost b = opt_str_view(*base);
    let ghost p00 = pending0@;
    let ghost whole = render_from(events@, lo as int, hi as int, pending0@, b, in_head);
    let mut out: Vec<DocNode> = Vec::new();
    let mut pending = pending0;
    let mut i: usize = lo;
    assert(nodes_view(out@) =~= seq![]);
    assert(whole == resume(out@, events@, lo as int, hi as int, pending@, b, in_head)) by {
        match whole {
            Some(s) => assert(seq![] + s =~= s),
            None => {},
        }
    }
    while i < hi
        invariant
            lo <= i <= hi <= events@.len(),
            b == opt_str_view(*base),
            p00 == pending0@,
            whole == render_from(events@, lo as int, hi as int, p00, b, in_head),
            whole == resume(out@, events@, i as int, hi as int, pending@, b, in_head),
        decreases hi - i,
    {
        let ghost out0 = out@;
        let ghost p0 = pending@;
        let is_start = match &events[i] {
            Event::Start(_) => true,
            _ => false,
        };
        if is_start {
            match start_step(events, i, hi, &mut out, &mut pending, base, in_head, catalog) {
                None => {
                    assert(whole == resume(out0, events@, i as int, hi as int, p0, b, in_head));
                    return None;
                },
                Some(j) => {
                    i = j;
                },
            }
        } else {
            if !leaf_step(events, i, hi, &mut out, &mut pending, base, in_head) {
                assert(whole == resume(out0, events@, i as int, hi as int, p0, b, in_head));
                return None;
            }
            i += 1;
        }
    }
    let ghost ov = nodes_view(out@);
    let ghost p = pending@;
    flush_into(&mut out, &mut pending);
    assert(ov + flush(p) =~= nodes_view(out@));
    Some(out)
}

/// Why an event stream could not be rendered.
#[derive(Clone, Copy, Debug, PartialEq, Eq, Structural)]
pub enum RenderError {
    /// A start event is never closed, or an end event closes nothing.
    Malformed,
}

/// Renders a whole event stream into its document tree; relative image urls are
/// resolved against `image_base_path` when one is given, and code blocks are
/// highlighted with the grammars and themes of `catalog`.
pub fn render_markdown_events(
    events: &Vec<Event>,
    image_base_path: &Option<String>,
    catalog: &SyntaxCatalog,
) -> (r: Result<Vec<DocNode>, RenderError>)
    ensures
        r is Ok <==> render_spec(events@, opt_str_view(*image_base_path)) is Some,
        r matches Ok(nodes) ==> render_spec(events@, opt_str_view(*image_base_path)) == Some(
            nodes_view(nodes@),
        ),
{
    match render_range(events, 0, events.len(), String::new(), image_base_path, false, catalog) {
        Some(nodes) => Ok(nodes),
        None => Err(RenderError::Malformed),
    }
}

/// A list item renders as a task item exactly when its first event is text whose first
/// four characters are `[ ] `, `[x] ` or `[X] `; its checkbox, the task item's first
/// child, is checked exactly when the marker's second character is `x` or `X`.
pub proof fn lemma_task_item_detection(
    ev: Seq<Event>,
    i: int,
    e: int,
    base: Option<Seq<char>>,
    in_head: bool,
)
    requires
        0 <= i < e < ev.len(),
        ev[i] matches Event::Start(Tag::Item),
        span_nodes(ev, i, e, base, in_head) is Some,
    ensures
        ({
            let ns = span_nodes(ev, i, e, base, in_head)->0;
            let t = text_of(ev[i + 1]);
            &&& ns.len() == 1
            &&& (ns[0].role == RoleV::TaskItem) <==> (i + 1 < e && ev[i + 1] is Text && t.len() >= 4
                && (t.subrange(0, 4) == seq!['[', ' ', ']', ' '] || t.subrange(0, 4) == seq![
                '[',
                'x',
                ']',
                ' ',
            ] || t.subrange(0, 4) == seq!['[', 'X', ']', ' ']))
            &&& ns[0].role == RoleV::TaskItem ==> ns[0].children.len() >= 1 && ns[0].children[0]
                == leaf_v(RoleV::Checkbox(t[1] == 'x' || t[1] == 'X'))
        }),
{
    let t = text_of(ev[i + 1]);
    if item_is_task(ev, i, e) {
        assert(t.len() >= 4);
        assert(t.subrange(0, 4)[1] == t[1]);
        assert(task_checked(t) == (t[1] == 'x' || t[1] == 'X'));
    }
}

/// Every image that opens in `ev[lo..hi)` has an absolute `http://` or `https://` url.
pub open spec fn images_absolute(ev: Seq<Event>, lo: int, hi: int) -> bool {
    forall|k: int|
        lo <= k < hi && 0 <= k < ev.len() ==> (#[trigger] ev[k] matches Event::Start(
            Tag::Image(_, u, _),
        ) ==> http_url(u@))
}

proof fn lemma_span_base_free(
    ev: Seq<Event>,
    i: int,
    e: int,
    b1: Option<Seq<char>>,
    b2: Option<Seq<char>>,
    in_head: bool,
)
    requires
        images_absolute(ev, i, e + 1),
    ensures
        span_nodes(ev, i, e, b1, in_head) == span_nodes(ev, i, e, b2, in_head),
    decreases e - i, 0nat,
{
    if 0 <= i < e < ev.len() {
        match ev[i] {
            Event::Start(tag) => match tag {
                Tag::FootnoteDefinition(_) => {},
                Tag::CodeBlock(_) => {},
                Tag::Image(_, u, _) => {
                    assert(http_url(u@));
                },
                Tag::Item => {
                    if item_is_task(ev, i, e) {
                        let t = text_of(ev[i + 1]);
                        let rest = t.subrange(4, t.len() as int);
                        let init = if is_blank(rest) {
                            seq![]
                        } else {
                            rest
                        };
                        lemma_render_base_free(ev, i + 2, e, init, b1, b2, in_head);
                    } else {
                        lemma_render_base_free(ev, i + 1, e, seq![], b1, b2, in_head);
                    }
                },
                Tag::TableHead => {
                    lemma_render_base_free(ev, i + 1, e, seq![], b1, b2, true);
                },
                _ => {
                    lemma_render_base_free(ev, i + 1, e, seq![], b1, b2, in_head);
                },
            },
            _ => {},
        }
    }
}

/// A stream whose images all have absolute urls renders to the same tree whatever the
/// image base path: absolute urls pass through unchanged.
pub proof fn lemma_render_base_free(
    ev: Seq<Event>,
    i: int,
    hi: int,
    pending: Seq<char>,
    b1: Option<Seq<char>>,
    b2: Option<Seq<char>>,
    in_head: bool,
)
    requires
        images_absolute(ev, i, hi),
    ensures
        render_from(ev, i, hi, pending, b1, in_head) == render_from(ev, i, hi, pending, b2, in_head),
    decreases hi - i, 1nat,
{
    if 0 <= i < hi <= ev.len() {
        match ev[i] {
            Event::Start(tag) => {
                if let Some(e) = span_end(ev, i, hi, tag) {
                    if i < e < hi {
                        lemma_span_base_free(ev, i, e, b1, b2, in_head);
                        lemma_render_base_free(ev, e + 1, hi, seq![], b1, b2, in_head);
                    }
                }
            },
            Event::End(_) => {},
            Event::Text(t) => {
                let p2 = if is_blank(t@) {
                    pending
                } else {
                    pending + t@
                };
                lemma_render_base_free(ev, i + 1, hi, p2, b1, b2, in_head);
            },
            Event::Html(h) => {
                lemma_render_base_free(ev, i + 1, hi, pending + h@, b1, b2, in_head);
            },
            Event::SoftBreak => {
                lemma_render_base_free(ev, i + 1, hi, pending + seq![' '], b1, b2, in_head);
            },
            _ => {
                lemma_render_base_free(ev, i + 1, hi, seq![], b1, b2, in_head);
            },
        }
    }
}

/// A whole stream whose images all have absolute urls renders the same with or
/// without an image base path.
pub proof fn lemma_absolute_images_ignore_base(ev: Seq<Event>, base: Option<Seq<char>>)
    requires
        images_absolute(ev, 0, ev.len() as int),
    ensures
        render_spec(ev, base) == render_spec(ev, None),
{
    lemma_render_base_free(ev, 0, ev.len() as int, seq![], base, None, false);
}

/// The node is no task item, checkbox or task list, and neither is any node below it.
pub open spec fn task_free_node(n: NodeV) -> bool
    decreases n,
{
    &&& !(n.role is TaskItem)
    &&& !(n.role is Checkbox)
    &&& !(n.role matches RoleV::List { task: true, .. })
    &&& task_free(n.children)
}

/// No node of the trees is a task item, checkbox or task list.
pub open spec fn task_free(s: Seq<NodeV>) -> bool
    decreases s,
{
    s.len() == 0 || (task_free(s.drop_last()) && task_free_node(s.last()))
}

/// No event of `ev[lo..hi)` is a task list marker or a text that opens with a task
/// marker.
pub open spec fn no_task_markers(ev: Seq<Event>, lo: int, hi: int) -> bool {
    forall|k: int|
        lo <= k < hi && 0 <= k < ev.len() ==> !(#[trigger] ev[k] is TaskListMarker)
            && !is_task_text(ev[k])
}

proof fn lemma_task_free_concat(a: Seq<NodeV>, b: Seq<NodeV>)
    requires
        task_free(a),
        task_free(b),
    ensures
        task_free(a + b),
    decreases b.len(),
{
    if b.len() == 0 {
        assert(a + b =~= a);
    } else {
        assert((a + b).drop_last() =~= a + b.drop_last());
        lemma_task_free_concat(a, b.drop_last());
    }
}

proof fn lemma_task_free_one(n: NodeV)
    requires
        task_free_node(n),
    ensures
        task_free(seq![n]),
{
    assert(seq![n].drop_last() =~= Seq::<NodeV>::empty());
    assert(task_free(Seq::<NodeV>::empty()));
    assert(seq![n].last() == n);
}

proof fn lemma_task_free_then(pre: Seq<NodeV>, mid: Option<Seq<NodeV>>, rest: Option<Seq<NodeV>>)
    requires
        task_free(pre),
        mid matches Some(m) ==> task_free(m),
        rest matches Some(r) ==> task_free(r),
    ensures
        then_rest(pre, mid, rest) matches Some(ns) ==> task_free(ns),
{
    if let Some(m) = mid {
        if let Some(r) = rest {
            lemma_task_free_concat(pre, m);
            lemma_task_free_concat(pre + m, r);
        }
    }
}

proof fn lemma_flush_task_free(p: Seq<char>)
    ensures
        task_free(flush(p)),
{
    if p.len() > 0 {
        assert(task_free_node(leaf_v(RoleV::Text(p))));
        lemma_task_free_one(leaf_v(RoleV::Text(p)));
    }
}

proof fn lemma_span_task_free(ev: Seq<Event>, i: int, e: int, base: Option<Seq<char>>, in_head: bool)
    requires
        no_task_markers(ev, i, e + 1),
    ensures
        span_nodes(ev, i, e, base, in_head) matches Some(ns) ==> task_free(ns),
    decreases e - i, 0nat,
{
    if 0 <= i < e < ev.len() {
        match ev[i] {
            Event::Start(tag) => match tag {
                Tag::FootnoteDefinition(_) => {},
                Tag::CodeBlock(k) => {
                    lemma_task_free_one(leaf_v(code_block_role(k, flat_text(ev, i + 1, e))));
                },
                Tag::Image(_, u, t) => {
                    let n = leaf_v(
                        RoleV::Image { src: resolve_image(u@, base), alt: flat_text(ev, i + 1, e), title: t@ },
                    );
                    lemma_task_free_one(n);
                },
                Tag::Item => {
                    assert(!item_is_task(ev, i, e)) by {
                        if i + 1 < e {
                            assert(!is_task_text(ev[i + 1]));
                        }
                    }
                    lemma_render_task_free(ev, i + 1, e, seq![], base, in_head);
                    if let Some(c) = render_from(ev, i + 1, e, seq![], base, in_head) {
                        lemma_task_free_one(NodeV { role: RoleV::ListItem, children: c });
                    }
                },
                Tag::TableHead => {
                    lemma_render_task_free(ev, i + 1, e, seq![], base, true);
                    if let Some(c) = render_from(ev, i + 1, e, seq![], base, true) {
                        lemma_task_free_one(NodeV { role: RoleV::TableHead, children: c });
                    }
                },
                _ => {
                    assert(!list_is_task(ev, i, e)) by {
                        if i + 2 < e {
                            assert(!is_task_text(ev[i + 2]));
                        }
                    }
                    lemma_render_task_free(ev, i + 1, e, seq![], base, in_head);
                    if let Some(c) = render_from(ev, i + 1, e, seq![], base, in_head) {
                        lemma_task_free_one(
                            NodeV { role: wrapping_role(tag, in_head, false), children: c },
                        );
                    }
                },
            },
            _ => {},
        }
    }
}

/// A stream with no task list marker and no text opening with `[ ] `, `[x] ` or
/// `[X] ` renders without any task item, checkbox or task list: task detection does
/// not fire on ordinary text.
pub proof fn lemma_render_task_free(
    ev: Seq<Event>,
    i: int,
    hi: int,
    pending: Seq<char>,
    base: Option<Seq<char>>,
    in_head: bool,
)
    requires
        no_task_markers(ev, i, hi),
    ensures
        render_from(ev, i, hi, pending, base, in_head) matches Some(ns) ==> task_free(ns),
    decreases hi - i, 1nat,
{
    lemma_flush_task_free(pending);
    if 0 <= i < hi <= ev.len() {
        match ev[i] {
            Event::Start(tag) => {
                if let Some(e) = span_end(ev, i, hi, tag) {
                    if i < e < hi {
                        lemma_span_task_free(ev, i, e, base, in_head);
                        lemma_render_task_free(ev, e + 1, hi, seq![], base, in_head);
                        lemma_task_free_then(
                            flush(pending),
                            span_nodes(ev, i, e, base, in_head),
                            render_from(ev, e + 1, hi, seq![], base, in_head),
                        );
                    }
                }
            },
            Event::End(_) => {},
            Event::Text(t) => {
                let p2 = if is_blank(t@) {
                    pending
                } else {
                    pending + t@
                };
                lemma_render_task_free(ev, i + 1, hi, p2, base, in_head);
            },
            Event::Html(h) => {
                lemma_render_task_free(ev, i + 1, hi, pending + h@, base, in_head);
            },
            Event::SoftBreak => {
                lemma_render_task_free(ev, i + 1, hi, pending + seq![' '], base, in_head);
            },
            Event::TaskListMarker(_) => {},
            _ => {
                lemma_render_task_free(ev, i + 1, hi, seq![], base, in_head);
                let leafnode = match ev[i] {
                    Event::Code(c) => leaf_v(RoleV::InlineCode(c@)),
                    Event::FootnoteReference(r) => leaf_v(RoleV::FootnoteRef(r@)),
                    Event::HardBreak => leaf_v(RoleV::LineBreak),
                    _ => leaf_v(RoleV::Rule),
                };
                lemma_task_free_one(leafnode);
                lemma_task_free_then(
                    flush(pending),
                    Some(seq![leafnode]),
                    render_from(ev, i + 1, hi, seq![], base, in_head),
                );
            },
        }
    }
}

/// A whole stream with no task marker renders without task items, checkboxes or task
/// lists.
pub proof fn lemma_no_markers_no_tasks(ev: Seq<Event>, base: Option<Seq<char>>)
    requires
        no_task_markers(ev, 0, ev.len() as int),
    ensures
        render_spec(ev, base) matches Some(ns) ==> task_free(ns),
{
    lemma_render_task_free(ev, 0, ev.len() as int, seq![], base, false);
}

} // verus!
