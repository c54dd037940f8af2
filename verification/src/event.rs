//! The event stream that an element tree is written as.

use crate::tree::{ContentView, ElementView, NameView};
use vstd::prelude::*;

verus! {

/// How a start event declares the namespace of its element.
pub enum Binding {
    /// No declaration: the element lives in the scope of its parent.
    Inherited,
    /// The namespace is declared as the default namespace, without prefix.
    Default { uri: Seq<char> },
    /// The namespace is bound to a prefix, and the element's name carries
    /// that prefix.
    Prefixed { prefix: Seq<char>, uri: Seq<char> },
}

/// One event of the stream.
pub enum EventView {
    Start { local_name: Seq<char>, binding: Binding },
    Text { text: Seq<char> },
    End,
}

/// The namespace declaration that an element of this name opens with.
pub open spec fn binding_of(name: NameView) -> Binding {
    match (name.namespace, name.prefix) {
        (Some(uri), Some(prefix)) => Binding::Prefixed { prefix, uri },
        (Some(uri), None) => Binding::Default { uri },
        (None, _) => Binding::Inherited,
    }
}

/// The start event of an element of this name.
pub open spec fn start_event(name: NameView) -> EventView {
    EventView::Start { local_name: name.local_name, binding: binding_of(name) }
}

/// The events of one element and its subtree: its start event, its content,
/// its end event.
pub open spec fn element_events(e: ElementView) -> Seq<EventView>
    decreases e, 1int,
{
    seq![start_event(e.name)] + content_events(e.content) + seq![EventView::End]
}

/// The events of an element's content: one text event, or the events of each
/// child in document order.
pub open spec fn content_events(content: ContentView) -> Seq<EventView>
    decreases content, 2int,
{
    match content {
        ContentView::Text(text) => seq![EventView::Text { text }],
        ContentView::Children(children) => children_events(children),
    }
}

/// The events of a run of sibling elements, in document order.
pub open spec fn children_events(children: Seq<ElementView>) -> Seq<EventView>
    decreases children, 0int,
{
    if children.len() == 0 {
        Seq::empty()
    } else {
        children_events(children.drop_last()) + element_events(children.last())
    }
}

/// The events of the first `n + 1` siblings are those of the first `n`,
/// followed by those of sibling `n`.
pub proof fn lemma_children_events_step(children: Seq<ElementView>, n: int)
    requires
        0 <= n < children.len(),
    ensures
        children_events(children.take(n + 1)) == children_events(children.take(n))
            + element_events(children[n]),
{
    let front = children.take(n + 1);
    assert(front.drop_last() =~= children.take(n));
    assert(front.last() == children[n]);
}

/// The events of the first `n` siblings open the events of all of them.
pub proof fn lemma_children_events_prefix(children: Seq<ElementView>, n: int)
    requires
        0 <= n <= children.len(),
    ensures
        children_events(children.take(n)).len() <= children_events(children).len(),
        children_events(children).take(children_events(children.take(n)).len() as int)
            == children_events(children.take(n)),
    decreases children.len() - n,
{
    if n == children.len() {
        assert(children.take(n) =~= children);
        assert(children_events(children).take(children_events(children).len() as int)
            =~= children_events(children));
    } else {
        lemma_children_events_step(children, n);
        lemma_children_events_prefix(children, n + 1);
        let shorter = children_events(children.take(n));
        let longer = children_events(children.take(n + 1));
        let all = children_events(children);
        assert(all.take(shorter.len() as int) =~= all.take(longer.len() as int).take(
            shorter.len() as int,
        ));
        assert(longer.take(shorter.len() as int) =~= shorter);
    }
}

} // verus!
