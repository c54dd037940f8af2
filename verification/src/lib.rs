//! Typed XML element trees, their event-stream serialization, and the SOAP
//! envelope conversion layer built on top of them.

pub mod builder;
pub mod convert;
pub mod decimal;
pub mod envelope;
pub mod event;
pub mod identity;
pub mod reading;
pub mod serialize;
pub mod service;
pub mod sink;
pub mod tree;

pub use crate::builder::Event;
pub use crate::convert::{Describe, FromXml, ToXml};
pub use crate::envelope::{Envelope, SoapError};
pub use crate::sink::{EventSink, SinkError};
pub use crate::tree::{ElemContent, Element, Name};
