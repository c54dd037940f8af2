//! Building an element tree from the events of a document.

use crate::event::{start_event, EventView};
use crate::reading::{parse, parse_at, parse_children_at};
use crate::tree::{views_of, ElemContent, Element, ElementView, Name};
use vstd::prelude::*;

verus! {

/// One event of a document: the start of an element of some name, a text, or
/// the end of the element that is open.
pub enum Event {
    Start(Name),
    Text(String),
    End,
}

impl View for Event {
    type V = EventView;

    open spec fn view(&self) -> EventView {
        match self {
            Event::Start(name) => start_event(name@),
            Event::Text(text) => EventView::Text { text: text@ },
            Event::End => EventView::End,
        }
    }
}

/// The models of a run of events, index by index.
pub open spec fn event_views(events: Seq<Event>) -> Seq<EventView> {
    Seq::new(events.len(), |i: int| events[i]@)
}

/// The model of an optional string slice.
pub open spec fn scope_view(scope: Option<&str>) -> Option<Seq<char>> {
    match scope {
        Some(uri) => Some(uri@),
        None => None,
    }
}

/// What `parse_at` reads ends after where it started, and within the stream;
/// the element that it reads is well formed.
pub proof fn lemma_parse_at_bounds(events: Seq<EventView>, pos: int, scope: Option<Seq<char>>)
    ensures
        parse_at(events, pos, scope) matches Some((_, next)) ==> pos < next <= events.len(),
        parse_at(events, pos, scope) matches Some((element, _)) ==> element.wf(),
    decreases events.len() - pos, 0int,
{
    if 0 <= pos < events.len() {
        match events[pos] {
            EventView::Start { local_name, binding } => {
                if !(pos + 1 < events.len() && events[pos + 1] is Text) {
                    lemma_parse_children_at_bounds(
                        events,
                        pos + 1,
                        crate::reading::read_scope(binding, scope),
                        Seq::empty(),
                    );
                }
            },
            _ => {},
        }
    }
}

/// What `parse_children_at` reads ends at an end event of the stream, not
/// before where it started; the elements that it adds are well formed.
pub proof fn lemma_parse_children_at_bounds(
    events: Seq<EventView>,
    pos: int,
    scope: Option<Seq<char>>,
    read: Seq<ElementView>,
)
    ensures
        parse_children_at(events, pos, scope, read) matches Some((_, end)) ==> pos <= end
            < events.len() && events[end] is End,
        (forall|i: int| 0 <= i < read.len() ==> (#[trigger] read[i]).wf()) ==> (parse_children_at(
            events,
            pos,
            scope,
            read,
        ) matches Some((all, _)) ==> forall|i: int| 0 <= i < all.len() ==> (#[trigger] all[i]).wf()),
    decreases events.len() - pos, 1int,
{
    if 0 <= pos < events.len() {
        match events[pos] {
            EventView::Start { .. } => {
                lemma_parse_at_bounds(events, pos, scope);
                match parse_at(events, pos, scope) {
                    Some((child, next)) => {
                        if pos < next <= events.len() {
                            lemma_parse_children_at_bounds(events, next, scope, read.push(child));
                            if forall|i: int| 0 <= i < read.len() ==> (#[trigger] read[i]).wf() {
                                let more = read.push(child);
                                assert forall|i: int| 0 <= i < more.len() implies (
                                #[trigger] more[i]).wf() by {
                                    if i < read.len() {
                                        assert(more[i] == read[i]);
                                    }
                                }
                            }
                        }
                    },
                    None => {},
                }
            },
            _ => {},
        }
    }
}

/// Whether the event is a text.
fn is_text(event: &Event) -> (b: bool)
    ensures
        b == (event@ is Text),
{
    match event {
        Event::Text(_) => true,
        _ => false,
    }
}

/// Whether the event is the start of an element.
fn is_start(event: &Event) -> (b: bool)
    ensures
        b == (event@ is Start),
{
    match event {
        Event::Start(_) => true,
        _ => false,
    }
}

/// An owned copy of an optional string slice.
fn owned_scope(scope: Option<&str>) -> (out: Option<String>)
    ensures
        crate::tree::opt_view(out) == scope_view(scope),
{
    match scope {
        Some(uri) => Some(uri.to_owned()),
        None => None,
    }
}

/// Reads one element that starts at `pos`.
fn read_at<'a>(events: &'a Vec<Event>, pos: usize, scope: Option<&'a str>) -> (r: Option<
    (Element, usize),
>)
    ensures
        match parse_at(event_views(events@), pos as int, scope_view(scope)) {
            Some((element, next)) => r matches Some((e, n)) && e@ == element && n == next,
            None => r is None,
        },
    decreases events.len() - pos,
{
    let ghost views = event_views(events@);
    if pos >= events.len() {
        return None;
    }
    proof {
        lemma_parse_at_bounds(views, pos as int, scope_view(scope));
        assert(views[pos as int] == events@[pos as int]@);
    }
    let name = match &events[pos] {
        Event::Start(name) => name,
        _ => {
            return None;
        },
    };
    let read_namespace: Option<String>;
    let read_prefix: Option<String>;
    let inner: Option<&str>;
    match &name.namespace {
        Some(uri) => match &name.prefix {
            Some(prefix) => {
                read_namespace = Some(uri.clone());
                read_prefix = Some(prefix.clone());
                inner = scope;
            },
            None => {
                read_prefix = None;
                if uri.as_str().is_empty() {
                    read_namespace = None;
                    inner = None;
                } else {
                    read_namespace = Some(uri.clone());
                    inner = Some(uri.as_str());
                }
            },
        },
        None => {
            read_namespace = owned_scope(scope);
            read_prefix = None;
            inner = scope;
        },
    }
    let read_name = Name {
        local_name: name.local_name.clone(),
        namespace: read_namespace,
        prefix: read_prefix,
    };
    if pos + 1 < events.len() && is_text(&events[pos + 1]) {
        proof {
            assert(views[pos + 1] == events@[pos + 1]@);
        }
        if pos + 2 < events.len() {
            proof {
                assert(views[pos + 2] == events@[pos + 2]@);
            }
            match (&events[pos + 1], &events[pos + 2]) {
                (Event::Text(text), Event::End) => {
                    let element = Element {
                        name: read_name,
                        content: ElemContent::Text(text.clone()),
                    };
                    proof {
                        element.lemma_view_children();
                    }
                    return Some((element, pos + 3));
                },
                _ => {
                    return None;
                },
            }
        }
        return None;
    }
    proof {
        if pos + 1 < events.len() {
            assert(views[pos + 1] == events@[pos + 1]@);
        }
    }
    let mut children: Vec<Element> = Vec::new();
    let mut cur: usize = pos + 1;
    assert(views_of(children@) =~= Seq::<ElementView>::empty());
    while cur < events.len() && is_start(&events[cur])
        invariant
            pos < cur <= events.len(),
            views == event_views(events@),
            parse_children_at(views, pos + 1, scope_view(inner), Seq::empty()) is None
                ==> parse_at(views, pos as int, scope_view(scope)) is None,
            parse_children_at(views, pos + 1, scope_view(inner), Seq::empty())
                == parse_children_at(views, cur as int, scope_view(inner), views_of(children@)),
        decreases events.len() - cur,
    {
        proof {
            assert(views[cur as int] == events@[cur as int]@);
            lemma_parse_at_bounds(views, cur as int, scope_view(inner));
        }
        match read_at(events, cur, inner) {
            None => {
                return None;
            },
            Some((child, next)) => {
                proof {
                    assert(views_of(children@.push(child)) =~= views_of(children@).push(child@));
                }
                children.push(child);
                cur = next;
            },
        }
    }
    if cur >= events.len() {
        return None;
    }
    proof {
        assert(views[cur as int] == events@[cur as int]@);
    }
    match &events[cur] {
        Event::End => {
            let element = Element { name: read_name, content: ElemContent::Children(children) };
            proof {
                element.lemma_view_children();
            }
            Some((element, cur + 1))
        },
        _ => None,
    }
}

impl Element {
    /// Builds the tree of a document from its events: the stream must hold
    /// one element, balanced, with text or elements inside each element and
    /// nothing after the last end event. An element without namespace of its
    /// own takes the default namespace that is in scope.
    pub fn from_events(events: &Vec<Event>) -> (r: Option<Element>)
        ensures
            match parse(event_views(events@)) {
                Some(element) => r matches Some(e) && e@ == element,
                None => r is None,
            },
            r matches Some(e) ==> e@.wf(),
    {
        proof {
            lemma_parse_at_bounds(event_views(events@), 0, None);
        }
        match read_at(events, 0, None) {
            Some((element, next)) => {
                if next == events.len() {
                    Some(element)
                } else {
                    None
                }
            },
            None => None,
        }
    }
}

} // verus!
