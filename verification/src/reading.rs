//! Reading an event stream back into an element tree.
//!
//! The reader follows the structure of the stream and the scoping of default
//! namespaces. It does not look into names or texts.

use crate::event::{children_events, element_events, start_event, binding_of, Binding, EventView};
use crate::tree::{ContentView, ElementView, NameView};
use vstd::prelude::*;

verus! {

/// The default namespace that a declaration of `uri` puts in scope: none for
/// the empty URI, which undeclares it.
pub open spec fn declared(uri: Seq<char>) -> Option<Seq<char>> {
    if uri.len() == 0 {
        None
    } else {
        Some(uri)
    }
}

/// The namespace of an element that starts with `binding` where `scope` is
/// the default namespace around it.
pub open spec fn read_namespace(binding: Binding, scope: Option<Seq<char>>) -> Option<Seq<char>> {
    match binding {
        Binding::Prefixed { prefix, uri } => Some(uri),
        Binding::Default { uri } => declared(uri),
        Binding::Inherited => scope,
    }
}

/// The prefix of an element that starts with `binding`.
pub open spec fn read_prefix(binding: Binding) -> Option<Seq<char>> {
    match binding {
        Binding::Prefixed { prefix, uri } => Some(prefix),
        _ => None,
    }
}

/// The default namespace inside an element that starts with `binding`.
pub open spec fn read_scope(binding: Binding, scope: Option<Seq<char>>) -> Option<Seq<char>> {
    match binding {
        Binding::Default { uri } => declared(uri),
        _ => scope,
    }
}

/// The name that is read from a start event.
pub open spec fn read_name(local_name: Seq<char>, binding: Binding, scope: Option<Seq<char>>) -> NameView {
    NameView {
        local_name,
        namespace: read_namespace(binding, scope),
        prefix: read_prefix(binding),
    }
}

/// Reads one element that starts at `pos`: the element, and the position
/// after its end event. `scope` is the default namespace around it.
pub open spec fn parse_at(events: Seq<EventView>, pos: int, scope: Option<Seq<char>>) -> Option<
    (ElementView, int),
>
    decreases events.len() - pos, 0int,
{
    if pos < 0 || pos >= events.len() {
        None
    } else {
        match events[pos] {
            EventView::Start { local_name, binding } => {
                let name = read_name(local_name, binding, scope);
                if pos + 1 < events.len() && events[pos + 1] is Text {
                    if pos + 2 < events.len() && events[pos + 2] is End {
                        Some(
                            (
                                ElementView {
                                    name,
                                    content: ContentView::Text(events[pos + 1]->text),
                                },
                                pos + 3,
                            ),
                        )
                    } else {
                        None
                    }
                } else {
                    match parse_children_at(
                        events,
                        pos + 1,
                        read_scope(binding, scope),
                        Seq::empty(),
                    ) {
                        Some((children, end)) => Some(
                            (ElementView { name, content: ContentView::Children(children) }, end + 1),
                        ),
                        None => None,
                    }
                }
            },
            _ => None,
        }
    }
}

/// Reads sibling elements from `pos` up to the end event that closes their
/// parent: `read` followed by the siblings, and the position of that end
/// event.
pub open spec fn parse_children_at(
    events: Seq<EventView>,
    pos: int,
    scope: Option<Seq<char>>,
    read: Seq<ElementView>,
) -> Option<(Seq<ElementView>, int)>
    decreases events.len() - pos, 1int,
{
    if pos < 0 || pos >= events.len() {
        None
    } else {
        match events[pos] {
            EventView::End => Some((read, pos)),
            EventView::Start { .. } => match parse_at(events, pos, scope) {
                Some((child, next)) => if pos < next <= events.len() {
                    parse_children_at(events, next, scope, read.push(child))
                } else {
                    None
                },
                None => None,
            },
            EventView::Text { .. } => None,
        }
    }
}

/// Reads a whole stream: one element, and nothing after it.
pub open spec fn parse(events: Seq<EventView>) -> Option<ElementView> {
    match parse_at(events, 0, None) {
        Some((element, next)) => if next == events.len() {
            Some(element)
        } else {
            None
        },
        None => None,
    }
}

/// The name that comes back for `name` after writing and reading, where
/// `scope` is the default namespace around the element.
pub open spec fn resolved_name(name: NameView, scope: Option<Seq<char>>) -> NameView {
    read_name(name.local_name, binding_of(name), scope)
}

/// The tree that comes back for `e` after writing and reading.
pub open spec fn resolved(e: ElementView, scope: Option<Seq<char>>) -> ElementView
    decreases e, 1int,
{
    ElementView {
        name: resolved_name(e.name, scope),
        content: match e.content {
            ContentView::Text(text) => ContentView::Text(text),
            ContentView::Children(children) => ContentView::Children(
                resolved_all(children, read_scope(binding_of(e.name), scope)),
            ),
        },
    }
}

/// The trees that come back for a run of siblings.
pub open spec fn resolved_all(children: Seq<ElementView>, scope: Option<Seq<char>>) -> Seq<ElementView>
    decreases children, 0int,
{
    if children.len() == 0 {
        Seq::empty()
    } else {
        seq![resolved(children.first(), scope)] + resolved_all(children.drop_first(), scope)
    }
}

/// Whether a tree says of every element what namespace it is in: no element
/// without namespace stands inside a default namespace, and no namespace is
/// the empty URI.
pub open spec fn explicit(e: ElementView, scope: Option<Seq<char>>) -> bool
    decreases e,
{
    &&& match e.name.namespace {
        Some(uri) => uri.len() > 0,
        None => scope is None,
    }
    &&& match e.content {
        ContentView::Text(_) => true,
        ContentView::Children(children) => forall|i: int|
            0 <= i < children.len() ==> explicit(
                #[trigger] children[i],
                read_scope(binding_of(e.name), scope),
            ),
    }
}

/// Two trees are the same but for prefixes: the names agree in local name and
/// namespace, and the contents agree, text with text and child with child.
pub open spec fn same_tree(a: ElementView, b: ElementView) -> bool
    decreases a,
{
    &&& a.name.same_identity(b.name)
    &&& match (a.content, b.content) {
        (ContentView::Text(s), ContentView::Text(t)) => s == t,
        (ContentView::Children(c), ContentView::Children(d)) => {
            &&& c.len() == d.len()
            &&& forall|i: int| 0 <= i < c.len() ==> same_tree(#[trigger] c[i], d[i])
        },
        _ => false,
    }
}

/// The events of a run of siblings are those of the first, followed by those
/// of the others.
pub proof fn lemma_children_events_front(children: Seq<ElementView>)
    requires
        children.len() > 0,
    ensures
        children_events(children) == element_events(children.first()) + children_events(
            children.drop_first(),
        ),
    decreases children.len(),
{
    let front = children.drop_last();
    let back = children.drop_first();
    if children.len() == 1 {
        assert(children_events(front) =~= Seq::<EventView>::empty());
        assert(children_events(back) =~= Seq::<EventView>::empty());
        assert(children.first() == children.last());
        assert(children_events(children) =~= element_events(children.first()) + children_events(
            back,
        ));
    } else {
        lemma_children_events_front(front);
        assert(front.first() == children.first());
        assert(front.drop_first() =~= back.drop_last());
        assert(back.last() == children.last());
        assert(children_events(children) =~= element_events(children.first()) + children_events(
            back,
        ));
    }
}

/// `resolved_all` resolves each sibling in place.
pub proof fn lemma_resolved_all_index(children: Seq<ElementView>, scope: Option<Seq<char>>)
    ensures
        resolved_all(children, scope).len() == children.len(),
        forall|i: int|
            0 <= i < children.len() ==> #[trigger] resolved_all(children, scope)[i] == resolved(
                children[i],
                scope,
            ),
    decreases children.len(),
{
    if children.len() > 0 {
        let rest = children.drop_first();
        lemma_resolved_all_index(rest, scope);
        assert forall|i: int| 0 <= i < children.len() implies #[trigger] resolved_all(
            children,
            scope,
        )[i] == resolved(children[i], scope) by {
            if i > 0 {
                assert(resolved_all(children, scope)[i] == resolved_all(rest, scope)[i - 1]);
                assert(rest[i - 1] == children[i]);
            }
        }
    }
}

/// Reading the events of an element, wherever they stand in a stream, gives
/// the resolved element and the position after them.
pub proof fn lemma_parse_element(
    events: Seq<EventView>,
    pos: int,
    scope: Option<Seq<char>>,
    e: ElementView,
)
    requires
        0 <= pos,
        pos + element_events(e).len() <= events.len(),
        events.subrange(pos, pos + element_events(e).len()) == element_events(e),
    ensures
        parse_at(events, pos, scope) == Some((resolved(e, scope), pos + element_events(e).len())),
    decreases e, 1int,
{
    let own = element_events(e);
    let len = own.len() as int;
    let part = events.subrange(pos, pos + len);
    assert(events[pos] == part[0]);
    assert(own[0] == start_event(e.name));
    match e.content {
        ContentView::Text(text) => {
            assert(len == 3);
            assert(events[pos + 1] == part[1]);
            assert(events[pos + 2] == part[2]);
            assert(own[1] == EventView::Text { text });
            assert(own[2] == EventView::End);
        },
        ContentView::Children(children) => {
            let inner = children_events(children);
            let scope_in = read_scope(binding_of(e.name), scope);
            assert(len == inner.len() + 2);
            assert(events.subrange(pos + 1, pos + 1 + inner.len()) =~= inner) by {
                assert forall|j: int| 0 <= j < inner.len() implies events[pos + 1 + j]
                    == inner[j] by {
                    assert(events[pos + 1 + j] == part[j + 1]);
                    assert(own[j + 1] == inner[j]);
                }
            }
            assert(events[pos + 1 + inner.len()] == EventView::End) by {
                assert(events[pos + 1 + inner.len()] == part[inner.len() as int + 1]);
            }
            lemma_parse_children(events, pos + 1, scope_in, children, Seq::empty());
            assert(Seq::<ElementView>::empty() + resolved_all(children, scope_in) =~= resolved_all(
                children,
                scope_in,
            ));
            if children.len() > 0 {
                lemma_children_events_front(children);
                assert(inner[0] == element_events(children.first())[0]);
                assert(events[pos + 1] == part[1]);
                assert(own[1] == inner[0]);
                assert(events[pos + 1] is Start);
            } else {
                assert(events[pos + 1] is End);
            }
        },
    }
}

/// Reading the events of a run of siblings, followed by an end event, gives
/// the resolved siblings and the position of that end event.
pub proof fn lemma_parse_children(
    events: Seq<EventView>,
    pos: int,
    scope: Option<Seq<char>>,
    children: Seq<ElementView>,
    read: Seq<ElementView>,
)
    requires
        0 <= pos,
        pos + children_events(children).len() < events.len(),
        events.subrange(pos, pos + children_events(children).len()) == children_events(children),
        events[pos + children_events(children).len()] == EventView::End,
    ensures
        parse_children_at(events, pos, scope, read) == Some(
            (read + resolved_all(children, scope), pos + children_events(children).len()),
        ),
    decreases children, 0int,
{
    let all = children_events(children);
    if children.len() == 0 {
        assert(read + resolved_all(children, scope) =~= read);
    } else {
        let first = children.first();
        let rest = children.drop_first();
        let own = element_events(first);
        let later = children_events(rest);
        lemma_children_events_front(children);
        assert(all == own + later);
        let part = events.subrange(pos, pos + all.len());
        assert(events.subrange(pos, pos + own.len()) =~= own) by {
            assert forall|j: int| 0 <= j < own.len() implies events[pos + j] == own[j] by {
                assert(events[pos + j] == part[j]);
                assert(all[j] == own[j]);
            }
        }
        lemma_parse_element(events, pos, scope, first);
        let next = pos + own.len();
        assert(events.subrange(next, next + later.len()) =~= later) by {
            assert forall|j: int| 0 <= j < later.len() implies events[next + j] == later[j] by {
                assert(events[next + j] == part[own.len() as int + j]);
                assert(all[own.len() as int + j] == later[j]);
            }
        }
        lemma_parse_children(events, next, scope, rest, read.push(resolved(first, scope)));
        assert(events[pos] == part[0]);
        assert(all[0] == own[0]);
        assert(own[0] == start_event(first.name));
        assert(read.push(resolved(first, scope)) + resolved_all(rest, scope) =~= read
            + resolved_all(children, scope));
    }
}

/// What is read back is well formed: a prefix is read only together with
/// the namespace it is bound to.
pub proof fn lemma_resolved_wf(e: ElementView, scope: Option<Seq<char>>)
    ensures
        resolved(e, scope).wf(),
    decreases e,
{
    match e.content {
        ContentView::Text(_) => {},
        ContentView::Children(children) => {
            let scope_in = read_scope(binding_of(e.name), scope);
            let back = resolved_all(children, scope_in);
            lemma_resolved_all_index(children, scope_in);
            assert forall|i: int| 0 <= i < back.len() implies (#[trigger] back[i]).wf() by {
                lemma_resolved_wf(children[i], scope_in);
            }
        },
    }
}

/// Writing a tree and reading the events back gives the resolved tree: each
/// name with the namespace that its declaration or its scope gives it, the
/// texts and the order of children unchanged.
pub proof fn lemma_read_what_was_written(e: ElementView)
    ensures
        parse(element_events(e)) == Some(resolved(e, None)),
{
    let events = element_events(e);
    assert(events.subrange(0, events.len() as int) =~= events);
    lemma_parse_element(events, 0, None, e);
}

/// A tree that is explicit about its namespaces is resolved to the same tree,
/// but for prefixes.
pub proof fn lemma_resolved_explicit(e: ElementView, scope: Option<Seq<char>>)
    requires
        explicit(e, scope),
    ensures
        same_tree(resolved(e, scope), e),
    decreases e,
{
    match e.content {
        ContentView::Text(_) => {},
        ContentView::Children(children) => {
            let scope_in = read_scope(binding_of(e.name), scope);
            lemma_resolved_all_index(children, scope_in);
            assert forall|i: int| 0 <= i < children.len() implies same_tree(
                #[trigger] resolved_all(children, scope_in)[i],
                children[i],
            ) by {
                lemma_resolved_explicit(children[i], scope_in);
            }
        },
    }
}

/// Round trip: a tree that is explicit about its namespaces, written as
/// events and read back, is the same tree but for prefixes.
pub proof fn lemma_round_trip(e: ElementView)
    requires
        explicit(e, None),
    ensures
        parse(element_events(e)) matches Some(back) && same_tree(back, e),
{
    lemma_read_what_was_written(e);
    lemma_resolved_explicit(e, None);
}

} // verus!
