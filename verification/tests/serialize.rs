use std::io::Write;

use sulfate_xml::service::GetDataRequest;
use sulfate_xml::sink::hand_on;
use sulfate_xml::{Element, Envelope, EventSink, ToXml};
use xml::writer::{EmitterConfig, EventWriter};

fn written(e: &Element) -> String {
    let config = EmitterConfig::new().write_document_declaration(false);
    let mut sink = EventSink::new(EventWriter::new_with_config(Vec::new(), config));
    e.serialize(&mut sink).unwrap();
    String::from_utf8(sink.into_writer().into_inner()).unwrap()
}

struct Budget {
    left: usize,
    taken: Vec<u8>,
}

impl Write for Budget {
    fn write(&mut self, buf: &[u8]) -> std::io::Result<usize> {
        if buf.len() > self.left {
            self.left = 0;
            return Err(std::io::Error::new(std::io::ErrorKind::Other, "full"));
        }
        self.left -= buf.len();
        self.taken.extend_from_slice(buf);
        Ok(buf.len())
    }

    fn flush(&mut self) -> std::io::Result<()> {
        Ok(())
    }
}

fn written_within(e: &Element, budget: usize) -> (bool, String) {
    let config = EmitterConfig::new().write_document_declaration(false);
    let writer = EventWriter::new_with_config(Budget { left: budget, taken: Vec::new() }, config);
    let mut sink = EventSink::new(writer);
    let ok = e.serialize(&mut sink).is_ok();
    (ok, String::from_utf8(sink.into_writer().into_inner().taken).unwrap())
}

#[test]
fn default_namespace_is_declared_without_prefix() {
    let mut e = Element::new_default_ns("X", "urn:a");
    e.push_text("t");
    assert_eq!(written(&e), "<X xmlns=\"urn:a\">t</X>");
}

#[test]
fn prefixed_namespace_is_declared_with_prefix() {
    let mut e = Element::new_ns_prefix("X", "urn:a", "p");
    e.push_text("t");
    assert_eq!(written(&e), "<p:X xmlns:p=\"urn:a\">t</p:X>");
}

#[test]
fn no_namespace_declares_nothing() {
    let mut e = Element::new("X");
    e.push_text("t");
    assert_eq!(written(&e), "<X>t</X>");
}

#[test]
fn empty_element_is_written_balanced() {
    assert_eq!(written(&Element::new("X")), "<X />");
    assert_eq!(written(&Element::new_default_ns("X", "urn:a")), "<X xmlns=\"urn:a\" />");
    assert_eq!(written(&Element::new_ns_prefix("X", "urn:a", "p")), "<p:X xmlns:p=\"urn:a\" />");
}

#[test]
fn children_are_written_in_order() {
    let mut e = Element::new("list");
    let mut a = Element::new("a");
    a.push_text("1");
    let mut b = Element::new("b");
    b.push_text("2");
    e.push_child(a);
    e.push_child(Element::new("mid"));
    e.push_child(b);
    assert_eq!(written(&e), "<list><a>1</a><mid /><b>2</b></list>");
}

#[test]
fn text_is_escaped_by_the_writer() {
    let mut e = Element::new("t");
    e.push_text("a<b&c");
    assert_eq!(written(&e), "<t>a&lt;b&amp;c</t>");
}

#[test]
fn envelope_has_the_wire_shape() {
    let msg = Envelope(GetDataRequest { value: 33 }).to_xml();
    assert_eq!(
        written(&msg),
        "<s:Envelope xmlns:s=\"http://schemas.xmlsoap.org/soap/envelope/\"><s:Body><GetData xmlns=\"http://tempuri.org/\"><value>33</value></GetData></s:Body></s:Envelope>"
    );
}

#[test]
fn document_declaration_comes_first_by_default() {
    let mut e = Element::new("X");
    e.push_text("t");
    let mut sink = EventSink::new(EventWriter::new(Vec::new()));
    e.serialize(&mut sink).unwrap();
    let text = String::from_utf8(sink.into_writer().into_inner()).unwrap();
    assert_eq!(text, "<?xml version=\"1.0\" encoding=\"UTF-8\"?><X>t</X>");
}

#[test]
fn two_trees_are_written_one_after_the_other() {
    let config = EmitterConfig::new().write_document_declaration(false);
    let mut sink = EventSink::new(EventWriter::new_with_config(Vec::new(), config));
    let mut a = Element::new("a");
    a.push_text("1");
    let mut b = Element::new("b");
    b.push_text("2");
    a.serialize(&mut sink).unwrap();
    b.serialize(&mut sink).unwrap();
    let text = String::from_utf8(sink.into_writer().into_inner()).unwrap();
    assert_eq!(text, "<a>1</a><b>2</b>");
}

#[test]
fn write_failure_stops_the_writing() {
    let mut e = Element::new("list");
    let mut a = Element::new("a");
    a.push_text("1");
    let mut b = Element::new("b");
    b.push_text("2");
    e.push_child(a);
    e.push_child(b);
    let full = "<list><a>1</a><b>2</b></list>";
    let (ok, text) = written_within(&e, 1000);
    assert!(ok);
    assert_eq!(text, full);
    let (ok, text) = written_within(&e, 0);
    assert!(!ok);
    assert_eq!(text, "");
    let (ok, text) = written_within(&e, 14);
    assert!(!ok);
    assert!(full.starts_with(&text));
    assert!(text.len() <= 14);
    assert!(!text.contains("</list>"));
}

#[test]
fn write_failure_is_handed_on_as_it_came() {
    let mut e = Element::new("X");
    e.push_text("t");
    let config = EmitterConfig::new().write_document_declaration(false);
    let writer = EventWriter::new_with_config(Budget { left: 0, taken: Vec::new() }, config);
    let mut sink = EventSink::new(writer);
    let failure = e.serialize(&mut sink).unwrap_err();
    assert!(matches!(failure.cause, xml::writer::Error::Io(_)));
}

#[test]
fn sink_hands_each_event_to_the_writer() {
    let config = EmitterConfig::new().write_document_declaration(false);
    let mut sink = EventSink::new(EventWriter::new_with_config(Vec::new(), config));
    assert!(sink.start("a", Some("urn:a"), Some("p")).is_ok());
    assert!(sink.start("b", Some("urn:b"), None).is_ok());
    assert!(sink.text("t").is_ok());
    assert!(sink.end().is_ok());
    assert!(sink.start("c", None, None).is_ok());
    assert!(sink.end().is_ok());
    assert!(sink.end().is_ok());
    let text = String::from_utf8(sink.into_writer().into_inner()).unwrap();
    assert_eq!(text, "<p:a xmlns:p=\"urn:a\"><b xmlns=\"urn:b\">t</b><c /></p:a>");
}

#[test]
fn sink_hands_on_what_the_writer_refuses() {
    let config = EmitterConfig::new().write_document_declaration(false);
    let mut sink = EventSink::new(EventWriter::new_with_config(Vec::new(), config));
    let failure = sink.end().unwrap_err();
    assert!(matches!(failure.cause, xml::writer::Error::LastElementNameNotAvailable));
    assert!(sink.start("a", None, None).is_ok());
    assert!(sink.end().is_ok());
    let text = String::from_utf8(sink.into_writer().into_inner()).unwrap();
    assert_eq!(text, "<a />");
}

#[test]
fn into_writer_gives_back_the_writer_it_was_made_with() {
    let config = EmitterConfig::new().write_document_declaration(false);
    let mut writer = EventWriter::new_with_config(Vec::new(), config);
    writer.write(xml::writer::XmlEvent::start_element("before")).unwrap();
    let mut sink = EventSink::new(writer);
    assert!(sink.text("t").is_ok());
    let mut writer = sink.into_writer();
    writer.write(xml::writer::XmlEvent::end_element()).unwrap();
    assert_eq!(String::from_utf8(writer.into_inner()).unwrap(), "<before>t</before>");
}

#[test]
fn hand_on_keeps_the_writer_answer() {
    assert!(hand_on(Ok(())).is_ok());
    let refused = hand_on(Err(xml::writer::Error::EndElementNameIsNotSpecified)).unwrap_err();
    assert!(matches!(refused.cause, xml::writer::Error::EndElementNameIsNotSpecified));
    let io = std::io::Error::new(std::io::ErrorKind::BrokenPipe, "gone");
    match hand_on(Err(xml::writer::Error::Io(io))).unwrap_err().cause {
        xml::writer::Error::Io(inner) => {
            assert_eq!(inner.kind(), std::io::ErrorKind::BrokenPipe);
            assert_eq!(inner.to_string(), "gone");
        }
        _ => panic!("another failure came back"),
    }
}

#[test]
fn failure_deep_in_the_tree_comes_back_as_the_writer_gave_it() {
    struct Refusing {
        left: usize,
    }
    impl Write for Refusing {
        fn write(&mut self, buf: &[u8]) -> std::io::Result<usize> {
            if buf.len() > self.left {
                self.left = 0;
                return Err(std::io::Error::new(std::io::ErrorKind::WriteZero, "no room"));
            }
            self.left -= buf.len();
            Ok(buf.len())
        }
        fn flush(&mut self) -> std::io::Result<()> {
            Ok(())
        }
    }
    let mut leaf = Element::new("leaf");
    leaf.push_text("a long text that does not fit");
    let mut mid = Element::new("mid");
    mid.push_child(leaf);
    let mut root = Element::new("root");
    root.push_child(Element::new("first"));
    root.push_child(mid);
    let config = EmitterConfig::new().write_document_declaration(false);
    let mut sink = EventSink::new(EventWriter::new_with_config(Refusing { left: 30 }, config));
    match root.serialize(&mut sink).unwrap_err().cause {
        xml::writer::Error::Io(inner) => {
            assert_eq!(inner.kind(), std::io::ErrorKind::WriteZero);
            assert_eq!(inner.to_string(), "no room");
        }
        _ => panic!("another failure came back"),
    }
}
