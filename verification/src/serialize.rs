//! Writing an element tree to an event sink.

use crate::event::{
    children_events, content_events, element_events, lemma_children_events_prefix,
    lemma_children_events_step, start_event, EventView,
};
use crate::sink::{hand_on, start_of, EventSink, SinkError};
use crate::tree::{views_of, ContentView, ElemContent, Element, ElementView};
use vstd::prelude::*;

verus! {

/// The sink took the first `n` of `events` after what it held `before`, for
/// some `n` short of all of them.
pub open spec fn stopped_within(
    before: Seq<EventView>,
    after: Seq<EventView>,
    events: Seq<EventView>,
) -> bool {
    exists|n: int| 0 <= n < events.len() && after == before + #[trigger] events.take(n)
}

/// The sink was offered the first `n + 1` of `events` after what it had been
/// offered `before`, for some `n` short of all of them, and was offered
/// nothing after that: the writing ended with the event that was refused.
pub open spec fn stopped_after(
    before: Seq<EventView>,
    after: Seq<EventView>,
    accepted_before: Seq<EventView>,
    accepted_after: Seq<EventView>,
    events: Seq<EventView>,
) -> bool {
    exists|n: int|
        {
            &&& 0 <= n < events.len()
            &&& accepted_after == accepted_before + #[trigger] events.take(n)
            &&& after == before + events.take(n + 1)
        }
}

/// The events of `e` up to event `n` of child `i` are the start event, the
/// events of the children before `i`, and the first `n` events of child `i`.
proof fn lemma_events_up_to_child(e: ElementView, i: int, n: int)
    requires
        e.content is Children,
        0 <= i < e.children().len(),
        0 <= n <= element_events(e.children()[i]).len(),
    ensures
        1 + children_events(e.children().take(i)).len() + n < element_events(e).len(),
        element_events(e).take(1 + children_events(e.children().take(i)).len() + n) == seq![
            start_event(e.name),
        ] + children_events(e.children().take(i)) + element_events(e.children()[i]).take(n),
{
    let c = e.children();
    let inner = children_events(c);
    let earlier = children_events(c.take(i));
    let through = children_events(c.take(i + 1));
    let child = element_events(c[i]);
    lemma_children_events_step(c, i);
    lemma_children_events_prefix(c, i + 1);
    assert(through == earlier + child);
    assert(inner.take(through.len() as int) == through);
    assert(content_events(e.content) == inner);
    let all = element_events(e);
    let k = 1 + earlier.len() + n;
    assert(all.take(k) =~= seq![start_event(e.name)] + earlier + child.take(n)) by {
        assert forall|j: int| 0 <= j < k implies all.take(k)[j] == (seq![start_event(e.name)]
            + earlier + child.take(n))[j] by {
            if j >= 1 {
                assert(all[j] == inner[j - 1]);
                assert(inner[j - 1] == inner.take(through.len() as int)[j - 1]);
                assert(through[j - 1] == (earlier + child)[j - 1]);
            }
        }
    }
}

impl<W: std::io::Write> EventSink<W> {
    /// Offers the start event of an element to the writer: with the
    /// namespace bound to the prefix where there are both, declared as
    /// default where there is no prefix, and without declaration where there
    /// is no namespace.
    pub fn start(
        &mut self,
        local_name: &str,
        namespace: Option<&str>,
        prefix: Option<&str>,
    ) -> (r: Result<(), SinkError>)
        ensures
            final(self).offered() == old(self).offered().push(
                start_of(local_name, namespace, prefix),
            ),
            r is Ok ==> final(self).accepted() == old(self).accepted().push(
                start_of(local_name, namespace, prefix),
            ),
            r is Err ==> final(self).accepted() == old(self).accepted(),
            r is Ok ==> final(self).refusal() == old(self).refusal(),
            r matches Err(failure) ==> final(self).refusal() == Some(failure.cause),
    {
        let outcome = match namespace {
            Some(uri) => match prefix {
                Some(p) => self.write_start_prefixed(local_name, p, uri),
                None => self.write_start_default(local_name, uri),
            },
            None => self.write_start_plain(local_name),
        };
        hand_on(outcome)
    }

    /// Offers a text event to the writer.
    pub fn text(&mut self, text: &str) -> (r: Result<(), SinkError>)
        ensures
            final(self).offered() == old(self).offered().push(EventView::Text { text: text@ }),
            r is Ok ==> final(self).accepted() == old(self).accepted().push(
                EventView::Text { text: text@ },
            ),
            r is Err ==> final(self).accepted() == old(self).accepted(),
            r is Ok ==> final(self).refusal() == old(self).refusal(),
            r matches Err(failure) ==> final(self).refusal() == Some(failure.cause),
    {
        let outcome = self.write_text(text);
        hand_on(outcome)
    }

    /// Offers an end event to the writer.
    pub fn end(&mut self) -> (r: Result<(), SinkError>)
        ensures
            final(self).offered() == old(self).offered().push(EventView::End),
            r is Ok ==> final(self).accepted() == old(self).accepted().push(EventView::End),
            r is Err ==> final(self).accepted() == old(self).accepted(),
            r is Ok ==> final(self).refusal() == old(self).refusal(),
            r matches Err(failure) ==> final(self).refusal() == Some(failure.cause),
    {
        let outcome = self.write_end();
        hand_on(outcome)
    }
}

impl Element {
    /// Writes the element and its subtree to `sink`: the start event with the
    /// namespace declaration that the name calls for, the content, the end
    /// event. The first event that the sink refuses ends the writing, and its
    /// failure is returned as it came.
    pub fn serialize<W: std::io::Write>(&self, sink: &mut EventSink<W>) -> (r: Result<
        (),
        SinkError,
    >)
        ensures
            r is Ok ==> final(sink).accepted() == old(sink).accepted() + element_events(self@),
            r is Err ==> stopped_within(
                old(sink).accepted(),
                final(sink).accepted(),
                element_events(self@),
            ),
            r is Ok ==> final(sink).offered() == old(sink).offered() + element_events(self@),
            r is Ok ==> final(sink).refusal() == old(sink).refusal(),
            r matches Err(failure) ==> final(sink).refusal() == Some(failure.cause),
            r is Err ==> stopped_after(
                old(sink).offered(),
                final(sink).offered(),
                old(sink).accepted(),
                final(sink).accepted(),
                element_events(self@),
            ),
        decreases self,
    {
        let ghost before = sink.accepted();
        let ghost given = sink.offered();
        let ghost all = element_events(self@);
        let ghost start = start_event(self@.name);
        proof {
            self.lemma_view_children();
        }
        let namespace = match &self.name.namespace {
            Some(uri) => Some(uri.as_str()),
            None => None,
        };
        let prefix = match &self.name.prefix {
            Some(p) => Some(p.as_str()),
            None => None,
        };
        match sink.start(self.name.local_name.as_str(), namespace, prefix) {
            Ok(()) => {},
            Err(failure) => {
                proof {
                    assert(sink.accepted() =~= before + all.take(0));
                    assert(sink.offered() =~= given + all.take(1));
                }
                return Err(failure);
            },
        }
        assert(sink.accepted() == before.push(start));
        assert(sink.offered() == given.push(start));
        match &self.content {
            ElemContent::Text(text) => {
                match sink.text(text.as_str()) {
                    Ok(()) => {},
                    Err(failure) => {
                        proof {
                            assert(sink.accepted() =~= before + all.take(1));
                            assert(sink.offered() =~= given + all.take(2));
                        }
                        return Err(failure);
                    },
                }
                assert(sink.accepted() =~= before + seq![start] + content_events(self@.content));
                assert(sink.offered() =~= given + seq![start] + content_events(self@.content));
            },
            ElemContent::Children(children) => {
                let ghost views = self@.children();
                let mut i: usize = 0;
                assert(children_events(views.take(0)) =~= Seq::<EventView>::empty());
                assert(sink.accepted() =~= before + seq![start] + children_events(views.take(0)));
                assert(sink.offered() =~= given + seq![start] + children_events(views.take(0)));
                while i < children.len()
                    invariant
                        i <= children.len(),
                        children@ == self.child_elements(),
                        self@.content is Children,
                        views == self@.children(),
                        views == views_of(children@),
                        all == element_events(self@),
                        before == old(sink).accepted(),
                        given == old(sink).offered(),
                        sink.refusal() == old(sink).refusal(),
                        sink.offered() == given + seq![start] + children_events(
                            views.take(i as int),
                        ),
                        start == start_event(self@.name),
                        sink.accepted() == before + seq![start] + children_events(
                            views.take(i as int),
                        ),
                    decreases children.len() - i,
                {
                    let ghost held = sink.accepted();
                    let ghost handed = sink.offered();
                    match children[i].serialize(sink) {
                        Ok(()) => {
                            proof {
                                lemma_children_events_step(views, i as int);
                                assert(sink.accepted() =~= before + seq![start] + children_events(
                                    views.take(i + 1),
                                ));
                                assert(sink.offered() =~= given + seq![start] + children_events(
                                    views.take(i + 1),
                                ));
                            }
                        },
                        Err(failure) => {
                            proof {
                                let child = element_events(views[i as int]);
                                let n = choose|n: int|
                                    0 <= n < child.len() && sink.accepted() == held
                                        + #[trigger] child.take(n) && sink.offered() == handed
                                        + child.take(n + 1);
                                lemma_events_up_to_child(self@, i as int, n);
                                lemma_events_up_to_child(self@, i as int, n + 1);
                                let k = 1 + children_events(views.take(i as int)).len() + n;
                                assert(sink.accepted() =~= before + all.take(k));
                                assert(sink.offered() =~= given + all.take(k + 1));
                                assert(0 <= k < all.len());
                            }
                            return Err(failure);
                        },
                    }
                    i = i + 1;
                }
                proof {
                    assert(views.take(i as int) =~= views);
                }
            },
        }
        assert(sink.accepted() == before + seq![start] + content_events(self@.content));
        assert(sink.offered() == given + seq![start] + content_events(self@.content));
        match sink.end() {
            Ok(()) => {
                proof {
                    assert(sink.accepted() =~= before + all);
                    assert(sink.offered() =~= given + all);
                }
                Ok(())
            },
            Err(failure) => {
                proof {
                    assert(sink.accepted() =~= before + all.take(all.len() - 1));
                    assert(sink.offered() =~= given + all.take(all.len() as int));
                }
                Err(failure)
            },
        }
    }
}

} // verus!
