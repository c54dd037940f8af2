//! The event sink: an XML event writer, together with a record of what it
//! was given and how it answered.
//!
//! The record is kept here and nowhere else. Outside this module it can be
//! read, and it grows only by handing an event to the writer.

use crate::event::{Binding, EventView};
use vstd::prelude::*;
use xml::writer::EventWriter;

verus! {

#[verifier::external_type_specification]
#[verifier::external_body]
#[verifier::reject_recursive_types(W)]
pub struct ExEventWriter<W>(EventWriter<W>);

#[verifier::external_type_specification]
#[verifier::external_body]
pub struct ExWriterError(xml::writer::Error);

/// A failure that the writer reported, as it reported it.
#[derive(Debug)]
pub struct SinkError {
    pub cause: xml::writer::Error,
}

/// An event writer that keeps count of what it was given and what it took.
///
/// `offered()` is the sequence of events that were handed to the writer,
/// oldest first, whatever the writer answered. `accepted()` is the sequence
/// of those for which the writer reported success. `refusal()` is the failure
/// that the writer reported last, if it ever reported one.
#[verifier::reject_recursive_types(W)]
pub struct EventSink<W> {
    writer: EventWriter<W>,
    offered: Ghost<Seq<EventView>>,
    accepted: Ghost<Seq<EventView>>,
    refusal: Ghost<Option<xml::writer::Error>>,
}

/// The start event that is offered for an element of this local name,
/// namespace and prefix: the namespace is bound to the prefix where there are
/// both, declared as default where there is no prefix, and not declared
/// where there is no namespace.
pub open spec fn start_of(
    local_name: &str,
    namespace: Option<&str>,
    prefix: Option<&str>,
) -> EventView {
    EventView::Start {
        local_name: local_name@,
        binding: match (namespace, prefix) {
            (Some(uri), Some(p)) => Binding::Prefixed { prefix: p@, uri: uri@ },
            (Some(uri), None) => Binding::Default { uri: uri@ },
            (None, _) => Binding::Inherited,
        },
    }
}

/// Hands the writer's answer on: success as success, a failure inside a
/// `SinkError` that holds it unchanged.
pub fn hand_on(outcome: Result<(), xml::writer::Error>) -> (r: Result<(), SinkError>)
    ensures
        match outcome {
            Ok(()) => r is Ok,
            Err(cause) => r matches Err(failure) && failure.cause == cause,
        },
{
    match outcome {
        Ok(()) => Ok(()),
        Err(cause) => Err(SinkError { cause }),
    }
}

impl<W: std::io::Write> EventSink<W> {
    /// The writer that the sink holds.
    pub closed spec fn writer(&self) -> EventWriter<W> {
        self.writer
    }

    /// The events handed to the writer so far.
    pub closed spec fn offered(&self) -> Seq<EventView> {
        self.offered@
    }

    /// The events accepted so far.
    pub closed spec fn accepted(&self) -> Seq<EventView> {
        self.accepted@
    }

    /// The failure that the writer reported last, if any.
    pub closed spec fn refusal(&self) -> Option<xml::writer::Error> {
        self.refusal@
    }

    /// A sink over `writer` that has been given nothing yet.
    pub fn new(writer: EventWriter<W>) -> (sink: Self)
        ensures
            sink.writer() == writer,
            sink.offered() == Seq::<EventView>::empty(),
            sink.accepted() == Seq::<EventView>::empty(),
            sink.refusal() is None,
    {
        EventSink {
            writer,
            offered: Ghost(Seq::empty()),
            accepted: Ghost(Seq::empty()),
            refusal: Ghost(None),
        }
    }

    /// Gives back the writer that the sink holds, as the events left it.
    pub fn into_writer(self) -> (writer: EventWriter<W>)
        ensures
            writer == self.writer(),
    {
        self.writer
    }

    /// Calls `EventWriter::write` with the event that
    /// `XmlEvent::start_element` builds for the unprefixed name
    /// `Name::local(local_name)`, without namespace declaration.
    ///
    /// The contract claims that the record counts this event as offered, as
    /// accepted exactly where the writer answered with success, and that a
    /// failure is noted as the writer gave it. Whether the writer succeeds is
    /// the writer's and its stream's: nothing is claimed of that.
    #[verifier::external_body]
    pub(crate) fn write_start_plain(&mut self, local_name: &str) -> (r: Result<
        (),
        xml::writer::Error,
    >)
        ensures
            final(self).offered() == old(self).offered().push(
                EventView::Start { local_name: local_name@, binding: Binding::Inherited },
            ),
            r is Ok ==> final(self).accepted() == old(self).accepted().push(
                EventView::Start { local_name: local_name@, binding: Binding::Inherited },
            ),
            r is Err ==> final(self).accepted() == old(self).accepted(),
            r is Ok ==> final(self).refusal() == old(self).refusal(),
            r matches Err(cause) ==> final(self).refusal() == Some(cause),
    {
        self.writer.write(xml::writer::XmlEvent::start_element(xml::name::Name::local(local_name)))
    }

    /// Calls `EventWriter::write` with the event that
    /// `XmlEvent::start_element` builds for the unprefixed name
    /// `Name::local(local_name)`, with `uri` set as the default namespace by
    /// `StartElementBuilder::default_ns`.
    ///
    /// The contract claims that the record counts this event as offered, as
    /// accepted exactly where the writer answered with success, and that a
    /// failure is noted as the writer gave it; nothing of whether the writer
    /// succeeds.
    #[verifier::external_body]
    pub(crate) fn write_start_default(&mut self, local_name: &str, uri: &str) -> (r: Result<
        (),
        xml::writer::Error,
    >)
        ensures
            final(self).offered() == old(self).offered().push(
                EventView::Start { local_name: local_name@, binding: Binding::Default { uri: uri@ } },
            ),
            r is Ok ==> final(self).accepted() == old(self).accepted().push(
                EventView::Start { local_name: local_name@, binding: Binding::Default { uri: uri@ } },
            ),
            r is Err ==> final(self).accepted() == old(self).accepted(),
            r is Ok ==> final(self).refusal() == old(self).refusal(),
            r matches Err(cause) ==> final(self).refusal() == Some(cause),
    {
        self.writer.write(
            xml::writer::XmlEvent::start_element(xml::name::Name::local(local_name)).default_ns(
                uri,
            ),
        )
    }

    /// Calls `EventWriter::write` with the event that
    /// `XmlEvent::start_element` builds for the prefixed name
    /// `Name::prefixed(local_name, prefix)`, with `prefix` bound to `uri` by
    /// `StartElementBuilder::ns`.
    ///
    /// The contract claims that the record counts this event as offered, as
    /// accepted exactly where the writer answered with success, and that a
    /// failure is noted as the writer gave it; nothing of whether the writer
    /// succeeds.
    #[verifier::external_body]
    pub(crate) fn write_start_prefixed(&mut self, local_name: &str, prefix: &str, uri: &str) -> (r:
        Result<(), xml::writer::Error>)
        ensures
            final(self).offered() == old(self).offered().push(
                EventView::Start { local_name: local_name@, binding: Binding::Prefixed { prefix: prefix@, uri: uri@ } },
            ),
            r is Ok ==> final(self).accepted() == old(self).accepted().push(
                EventView::Start { local_name: local_name@, binding: Binding::Prefixed { prefix: prefix@, uri: uri@ } },
            ),
            r is Err ==> final(self).accepted() == old(self).accepted(),
            r is Ok ==> final(self).refusal() == old(self).refusal(),
            r matches Err(cause) ==> final(self).refusal() == Some(cause),
    {
        self.writer.write(
            xml::writer::XmlEvent::start_element(
                xml::name::Name::prefixed(local_name, prefix),
            ).ns(prefix, uri),
        )
    }

    /// Calls `EventWriter::write` with the characters event that
    /// `XmlEvent::characters` builds for `text`.
    ///
    /// The contract claims that the record counts this event as offered, as
    /// accepted exactly where the writer answered with success, and that a
    /// failure is noted as the writer gave it; nothing of whether the writer
    /// succeeds.
    #[verifier::external_body]
    pub(crate) fn write_text(&mut self, text: &str) -> (r: Result<(), xml::writer::Error>)
        ensures
            final(self).offered() == old(self).offered().push(
                EventView::Text { text: text@ },
            ),
            r is Ok ==> final(self).accepted() == old(self).accepted().push(
                EventView::Text { text: text@ },
            ),
            r is Err ==> final(self).accepted() == old(self).accepted(),
            r is Ok ==> final(self).refusal() == old(self).refusal(),
            r matches Err(cause) ==> final(self).refusal() == Some(cause),
    {
        self.writer.write(xml::writer::XmlEvent::characters(text))
    }

    /// Calls `EventWriter::write` with the end event that
    /// `XmlEvent::end_element` builds, which names no element.
    ///
    /// The contract claims that the record counts this event as offered, as
    /// accepted exactly where the writer answered with success, and that a
    /// failure is noted as the writer gave it; nothing of whether the writer
    /// succeeds.
    #[verifier::external_body]
    pub(crate) fn write_end(&mut self) -> (r: Result<(), xml::writer::Error>)
        ensures
            final(self).offered() == old(self).offered().push(
                EventView::End,
            ),
            r is Ok ==> final(self).accepted() == old(self).accepted().push(
                EventView::End,
            ),
            r is Err ==> final(self).accepted() == old(self).accepted(),
            r is Ok ==> final(self).refusal() == old(self).refusal(),
            r matches Err(cause) ==> final(self).refusal() == Some(cause),
    {
        self.writer.write(xml::writer::XmlEvent::end_element())
    }
}

} // verus!
