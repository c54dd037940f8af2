//! The SOAP envelope: the two fixed wrapper elements around one payload.

use crate::convert::{Describe, FromXml, ToXml};
use crate::tree::{first_named, ContentView, Element, ElementView, NameView};
use vstd::prelude::*;

verus! {

/// The namespace of the SOAP envelope elements.
pub const SOAP_NS: &'static str = "http://schemas.xmlsoap.org/soap/envelope/";

/// The prefix that the envelope elements are written with.
pub const SOAP_PREFIX: &'static str = "s";

/// A payload inside a SOAP envelope.
pub struct Envelope<T>(pub T);

/// Why a tree is not an envelope around a payload.
#[derive(Debug)]
pub enum SoapError<E> {
    /// The root is not a SOAP `Envelope`, or it has no SOAP `Body`.
    NotSoapEnvelope,
    /// The `Body` holds no element.
    EmptyBody,
    /// The payload did not accept what the `Body` holds.
    Other(E),
}

/// The name `local_name` in the SOAP namespace, with the SOAP prefix.
pub open spec fn soap_name(local_name: Seq<char>) -> NameView {
    NameView { local_name, namespace: Some(SOAP_NS@), prefix: Some(SOAP_PREFIX@) }
}

/// The envelope around `payload`: an `Envelope` element that holds one
/// `Body` element that holds the payload.
pub open spec fn envelope_of(payload: ElementView) -> ElementView {
    ElementView {
        name: soap_name("Envelope"@),
        content: ContentView::Children(
            seq![
                ElementView {
                    name: soap_name("Body"@),
                    content: ContentView::Children(seq![payload]),
                },
            ],
        ),
    }
}

/// The payload element of an envelope, or what is wrong with the envelope.
///
/// The root must be `Envelope` in the SOAP namespace. Its first child named
/// `Body` in the SOAP namespace must exist, and the first child of that one
/// is the payload. Prefixes play no part.
pub open spec fn payload_of(src: ElementView) -> Result<ElementView, SoapError<()>> {
    if !src.name.is("Envelope"@, SOAP_NS@) {
        Err(SoapError::NotSoapEnvelope)
    } else {
        match first_named(src.children(), "Body"@, SOAP_NS@) {
            None => Err(SoapError::NotSoapEnvelope),
            Some(body) => if body.children().len() == 0 {
                Err(SoapError::EmptyBody)
            } else {
                Ok(body.children()[0])
            },
        }
    }
}

/// Finds the payload element of an envelope.
pub fn locate_payload<E>(src: &Element) -> (found: Result<&Element, SoapError<E>>)
    ensures
        match payload_of(src@) {
            Ok(payload) => found matches Ok(element) && element@ == payload,
            Err(SoapError::NotSoapEnvelope) => found matches Err(SoapError::NotSoapEnvelope),
            Err(SoapError::EmptyBody) => found matches Err(SoapError::EmptyBody),
            Err(SoapError::Other(_)) => false,
        },
{
    if !src.name.is("Envelope", SOAP_NS) {
        return Err(SoapError::NotSoapEnvelope);
    }
    match src.first_child_named("Body", SOAP_NS) {
        None => Err(SoapError::NotSoapEnvelope),
        Some(body) => match body.first_child() {
            None => Err(SoapError::EmptyBody),
            Some(payload) => Ok(payload),
        },
    }
}

/// Wraps the outcome of a payload conversion: a value goes into an envelope,
/// an error into `Other`.
pub fn wrap_outcome<T, E>(inner: Result<T, E>) -> (out: Result<Envelope<T>, SoapError<E>>)
    ensures
        match inner {
            Ok(value) => out matches Ok(envelope) && envelope.0 == value,
            Err(error) => out matches Err(SoapError::Other(e)) && e == error,
        },
{
    match inner {
        Ok(value) => Ok(Envelope(value)),
        Err(error) => Err(SoapError::Other(error)),
    }
}

impl<T: ToXml> ToXml for Envelope<T> {
    open spec fn xml(&self) -> ElementView {
        envelope_of(self.0.xml())
    }

    fn to_xml(&self) -> (e: Element) {
        let mut envelope = Element::new_ns_prefix("Envelope", SOAP_NS, SOAP_PREFIX);
        let mut body = Element::new_ns_prefix("Body", SOAP_NS, SOAP_PREFIX);
        body.push_child(self.0.to_xml());
        envelope.push_child(body);
        proof {
            assert(envelope@.content->Children_0 =~= envelope_of(self.0.xml()).content->Children_0);
            assert(envelope@.content->Children_0[0].content->Children_0 =~= seq![self.0.xml()]);
        }
        envelope
    }
}

impl<T: FromXml> FromXml for Envelope<T> {
    type Error = SoapError<T::Error>;

    /// The envelope must have the shape that `payload_of` asks for; the
    /// payload then decides.
    open spec fn parses(src: ElementView, out: Result<Self, SoapError<T::Error>>) -> bool {
        match payload_of(src) {
            Err(SoapError::NotSoapEnvelope) => out matches Err(SoapError::NotSoapEnvelope),
            Err(SoapError::EmptyBody) => out matches Err(SoapError::EmptyBody),
            Err(SoapError::Other(_)) => false,
            Ok(payload) => match out {
                Ok(envelope) => T::parses(payload, Ok(envelope.0)),
                Err(SoapError::Other(error)) => T::parses(payload, Err(error)),
                Err(_) => false,
            },
        }
    }

    fn from_xml(src: &Element) -> (out: Result<Self, SoapError<T::Error>>) {
        match locate_payload::<T::Error>(src) {
            Err(shape) => Err(shape),
            Ok(payload) => wrap_outcome(T::from_xml(payload)),
        }
    }
}

impl<E> SoapError<E> {
    /// A fixed sentence for each kind of error.
    pub open spec fn description_text(&self) -> Seq<char> {
        match self {
            SoapError::NotSoapEnvelope => "Invalid XML parsed as SOAP envelope"@,
            SoapError::EmptyBody => "SOAP envelope parsed with empty body"@,
            SoapError::Other(_) => "Error occured while parsing contents of SOAP envelope"@,
        }
    }

    /// A fixed sentence for each kind of error.
    pub fn description(&self) -> (s: &'static str)
        ensures
            s@ == self.description_text(),
    {
        match self {
            SoapError::NotSoapEnvelope => "Invalid XML parsed as SOAP envelope",
            SoapError::EmptyBody => "SOAP envelope parsed with empty body",
            SoapError::Other(_) => "Error occured while parsing contents of SOAP envelope",
        }
    }
}

impl<E: Describe> Describe for SoapError<E> {
    /// For a payload error, a heading followed by the payload's own words;
    /// for the others, their fixed sentence.
    open spec fn text(&self) -> Seq<char> {
        match self {
            SoapError::Other(inner) => "Error while parsing contents of SOAP envelope: "@
                + inner.text(),
            _ => self.description_text(),
        }
    }

    fn describe(&self) -> (s: String) {
        match self {
            SoapError::Other(inner) => {
                let mut out = "Error while parsing contents of SOAP envelope: ".to_owned();
                let words = inner.describe();
                out.append(words.as_str());
                out
            },
            _ => self.description().to_owned(),
        }
    }
}

impl<E> From<E> for SoapError<E> {
    fn from(src: E) -> (out: SoapError<E>) {
        SoapError::Other(src)
    }
}

impl<E> vstd::std_specs::convert::FromSpecImpl<E> for SoapError<E> {
    open spec fn obeys_from_spec() -> bool {
        true
    }

    open spec fn from_spec(src: E) -> SoapError<E> {
        SoapError::Other(src)
    }
}

/// An envelope built around a payload is one whose payload element is found
/// again: wrapping and locating are inverse to each other.
pub proof fn lemma_payload_of_envelope(payload: ElementView)
    ensures
        payload_of(envelope_of(payload)) == Ok::<ElementView, SoapError<()>>(payload),
{
    let envelope = envelope_of(payload);
    let body = envelope.children()[0];
    assert(envelope.children().first() == body);
    assert(first_named(envelope.children(), "Body"@, SOAP_NS@) == Some(body));
    assert(body.children()[0] == payload);
}

/// What unwraps an envelope built around a value's tree is exactly what the
/// payload type makes of that tree.
pub proof fn lemma_unwrap_of_wrap<T: FromXml>(
    payload: ElementView,
    out: Result<Envelope<T>, SoapError<T::Error>>,
)
    ensures
        <Envelope<T> as FromXml>::parses(envelope_of(payload), out) <==> match out {
            Ok(envelope) => T::parses(payload, Ok(envelope.0)),
            Err(SoapError::Other(error)) => T::parses(payload, Err(error)),
            Err(_) => false,
        },
{
    lemma_payload_of_envelope(payload);
}

/// A root that is not named `Envelope` is answered with `NotSoapEnvelope`,
/// whatever its namespace and whatever it holds.
pub proof fn lemma_wrong_root<T: FromXml>(
    src: ElementView,
    out: Result<Envelope<T>, SoapError<T::Error>>,
)
    requires
        src.name.local_name != "Envelope"@,
        <Envelope<T> as FromXml>::parses(src, out),
    ensures
        out matches Err(SoapError::NotSoapEnvelope),
{
}

/// An envelope without a `Body` child in the SOAP namespace is answered with
/// `NotSoapEnvelope`.
pub proof fn lemma_missing_body<T: FromXml>(
    src: ElementView,
    out: Result<Envelope<T>, SoapError<T::Error>>,
)
    requires
        first_named(src.children(), "Body"@, SOAP_NS@) is None,
        <Envelope<T> as FromXml>::parses(src, out),
    ensures
        out matches Err(SoapError::NotSoapEnvelope),
{
}

/// An envelope whose first `Body` holds no element is answered with
/// `EmptyBody`.
pub proof fn lemma_empty_body<T: FromXml>(
    src: ElementView,
    out: Result<Envelope<T>, SoapError<T::Error>>,
)
    requires
        src.name.is("Envelope"@, SOAP_NS@),
        first_named(src.children(), "Body"@, SOAP_NS@) matches Some(body) && body.children().len()
            == 0,
        <Envelope<T> as FromXml>::parses(src, out),
    ensures
        out matches Err(SoapError::EmptyBody),
{
}

/// An error of the envelope's shape is never mistaken for one of the payload,
/// nor the other way round: `Other` comes back only where a payload element
/// was found and the payload type refused it.
pub proof fn lemma_error_layers<T: FromXml>(
    src: ElementView,
    out: Result<Envelope<T>, SoapError<T::Error>>,
)
    requires
        <Envelope<T> as FromXml>::parses(src, out),
    ensures
        out matches Err(SoapError::Other(error)) ==> (payload_of(src) matches Ok(payload)
            && T::parses(payload, Err(error))),
        out matches Ok(envelope) ==> (payload_of(src) matches Ok(payload) && T::parses(
            payload,
            Ok(envelope.0),
        )),
        payload_of(src) is Err ==> !(out matches Err(SoapError::Other(_))) && out is Err,
{
}

} // verus!
