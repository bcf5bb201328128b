use vstd::prelude::*;
use crate::events::{event_eq, same_tag, tag_matches, Event, Tag};

verus! {

/// The event opens a span of the probe's kind.
pub open spec fn opens(e: Event, probe: Tag) -> bool {
    match e {
        Event::Start(t) => same_tag(t, probe),
        _ => false,
    }
}

/// The event closes a span of the probe's kind.
pub open spec fn closes(e: Event, probe: Tag) -> bool {
    match e {
        Event::End(t) => same_tag(t, probe),
        _ => false,
    }
}

/// Scanning `ev[i..hi)` at nesting depth `depth`, the position of the end event that
/// brings the depth back to zero, if there is one.
pub open spec fn scan_end(ev: Seq<Event>, probe: Tag, i: int, hi: int, depth: nat) -> Option<int>
    decreases hi - i,
{
    if i < 0 || i >= hi || i >= ev.len() {
        None
    } else if opens(ev[i], probe) {
        scan_end(ev, probe, i + 1, hi, depth + 1)
    } else if closes(ev[i], probe) {
        if depth <= 1 {
            Some(i)
        } else {
            scan_end(ev, probe, i + 1, hi, (depth - 1) as nat)
        }
    } else {
        scan_end(ev, probe, i + 1, hi, depth)
    }
}

/// The position, below `hi`, of the end event that matches the start event at `start`.
pub open spec fn span_end(ev: Seq<Event>, start: int, hi: int, probe: Tag) -> Option<int> {
    scan_end(ev, probe, start + 1, hi, 1)
}

/// What one event adds to the nesting depth of the probe's kind.
pub open spec fn depth_step(e: Event, probe: Tag) -> int {
    if opens(e, probe) {
        1
    } else if closes(e, probe) {
        -1
    } else {
        0
    }
}

/// Opened minus closed spans of the probe's kind in `ev[lo..hi)`.
pub open spec fn balance(ev: Seq<Event>, lo: int, hi: int, probe: Tag) -> int
    decreases hi - lo,
{
    if hi <= lo {
        0
    } else {
        balance(ev, lo, hi - 1, probe) + depth_step(ev[hi - 1], probe)
    }
}

/// `ev[lo..hi)` closes no span of the probe's kind that it did not open, and closes
/// every one it opens.
pub open spec fn properly_nested(ev: Seq<Event>, lo: int, hi: int, probe: Tag) -> bool {
    &&& forall|k: int| lo <= k <= hi ==> #[trigger] balance(ev, lo, k, probe) >= 0
    &&& balance(ev, lo, hi, probe) == 0
}

proof fn lemma_scan_reaches(ev: Seq<Event>, probe: Tag, start: int, e: int, i: int)
    requires
        0 <= start < i <= e < ev.len(),
        closes(ev[e], probe),
        properly_nested(ev, start + 1, e, probe),
    ensures
        scan_end(ev, probe, i, ev.len() as int, (1 + balance(ev, start + 1, i, probe)) as nat)
            == Some(e),
    decreases e - i,
{
    let b = balance(ev, start + 1, i, probe);
    assert(b >= 0);
    if i < e {
        let b2 = balance(ev, start + 1, i + 1, probe);
        assert(b2 >= 0);
        assert(b2 == b + depth_step(ev[i], probe));
        lemma_scan_reaches(ev, probe, start, e, i + 1);
    }
}

/// A start event whose span up to a matching end event is properly nested is closed
/// by exactly that end event, whatever follows it: `match_span` then returns the
/// position just past it. The scan's depth never drops below one before that end.
pub proof fn lemma_span_end_is_matching_end(ev: Seq<Event>, start: int, e: int, probe: Tag)
    requires
        0 <= start < e < ev.len(),
        opens(ev[start], probe),
        closes(ev[e], probe),
        properly_nested(ev, start + 1, e, probe),
    ensures
        span_end(ev, start, ev.len() as int, probe) == Some(e),
{
    lemma_scan_reaches(ev, probe, start, e, start + 1);
}

/// The position of the end event matching the start event at `start`, looking no
/// further than `hi`; `None` when the span is not terminated there.
pub fn end_of_span(events: &Vec<Event>, start: usize, hi: usize, probe: &Tag) -> (r: Option<usize>)
    requires
        start < hi <= events@.len(),
    ensures
        r is None <==> span_end(events@, start as int, hi as int, *probe) is None,
        r matches Some(e) ==> span_end(events@, start as int, hi as int, *probe) == Some(e as int)
            && start < e < hi,
{
    let mut i: usize = start + 1;
    let mut depth: usize = 1;
    while i < hi
        invariant
            start < i <= hi,
            hi <= events@.len(),
            1 <= depth <= i - start,
            span_end(events@, start as int, hi as int, *probe) == scan_end(
                events@,
                *probe,
                i as int,
                hi as int,
                depth as nat,
            ),
        decreases hi - i,
    {
        match &events[i] {
            Event::Start(t) => {
                if tag_matches(t, probe) {
                    depth += 1;
                }
            },
            Event::End(t) => {
                if tag_matches(t, probe) {
                    if depth <= 1 {
                        return Some(i);
                    }
                    depth -= 1;
                }
            },
            _ => {},
        }
        i += 1;
    }
    None
}

/// The events inside the span that opens at `start`, and the position just past its
/// matching end event; `None` when the span is never closed.
pub fn match_span(events: &Vec<Event>, start: usize, probe: &Tag) -> (r: Option<(Vec<Event>, usize)>)
    requires
        start < events@.len(),
        opens(events@[start as int], *probe),
    ensures
        r is None <==> span_end(events@, start as int, events@.len() as int, *probe) is None,
        r matches Some((inner, end)) ==> {
            &&& span_end(events@, start as int, events@.len() as int, *probe) == Some(end - 1)
            &&& start + 2 <= end <= events@.len()
            &&& inner@.len() == end - start - 2
            &&& forall|k: int|
                0 <= k < inner@.len() ==> event_eq(#[trigger] inner@[k], events@[start + 1 + k])
        },
{
    match end_of_span(events, start, events.len(), probe) {
        None => None,
        Some(e) => {
            let mut inner: Vec<Event> = Vec::new();
            let mut i: usize = start + 1;
            while i < e
                invariant
                    start < i <= e < events@.len(),
                    inner@.len() == i - start - 1,
                    forall|k: int|
                        0 <= k < inner@.len() ==> event_eq(
                            #[trigger] inner@[k],
                            events@[start + 1 + k],
                        ),
                decreases e - i,
            {
                inner.push(events[i].duplicate());
                i += 1;
            }
            Some((inner, e + 1))
        },
    }
}

/// The text an event contributes when a span is read as plain text.
pub open spec fn event_text(e: Event) -> Seq<char> {
    match e {
        Event::Text(t) => t@,
        Event::Code(t) => t@,
        Event::SoftBreak => seq!['\n'],
        Event::HardBreak => seq!['\n', '\n'],
        _ => seq![],
    }
}

/// The plain text of `ev[lo..hi)`: text and inline code as written, a soft break as one
/// line feed, a hard break as two, and nothing for any other event.
pub open spec fn flat_text(ev: Seq<Event>, lo: int, hi: int) -> Seq<char>
    decreases hi - lo,
{
    if hi <= lo {
        seq![]
    } else {
        flat_text(ev, lo, hi - 1) + event_text(ev[hi - 1])
    }
}

/// The plain text of the events in `lo..hi`.
pub fn flatten_text(events: &Vec<Event>, lo: usize, hi: usize) -> (r: String)
    requires
        lo <= hi <= events@.len(),
    ensures
        r@ == flat_text(events@, lo as int, hi as int),
{
    let mut out = String::new();
    let mut i: usize = lo;
    while i < hi
        invariant
            lo <= i <= hi <= events@.len(),
            out@ == flat_text(events@, lo as int, i as int),
        decreases hi - i,
    {
        match &events[i] {
            Event::Text(t) => out.append(t.as_str()),
            Event::Code(t) => out.append(t.as_str()),
            Event::SoftBreak => {
                let nl = "\n";
                proof {
                    reveal_strlit("\n");
                }
                assert(nl@ =~= seq!['\n']);
                out.append(nl);
            },
            Event::HardBreak => {
                let nl2 = "\n\n";
                proof {
                    reveal_strlit("\n\n");
                }
                assert(nl2@ =~= seq!['\n', '\n']);
                out.append(nl2);
            },
            _ => {
                assert(out@ =~= out@ + event_text(events@[i as int]));
            },
        }
        i += 1;
    }
    out
}

} // verus!
