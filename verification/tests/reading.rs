use sulfate_xml::service::{GetDataRequest, GetDataResponse};
use sulfate_xml::{ElemContent, Element, Envelope, Event, EventSink, FromXml, Name, ToXml};
use xml::reader::{EventReader, XmlEvent};
use xml::writer::{EmitterConfig, EventWriter};

fn start(local: &str, ns: Option<&str>, prefix: Option<&str>) -> Event {
    Event::Start(Name {
        local_name: local.to_string(),
        namespace: ns.map(|s| s.to_string()),
        prefix: prefix.map(|s| s.to_string()),
    })
}

fn text(t: &str) -> Event {
    Event::Text(t.to_string())
}

fn written(e: &Element) -> Vec<u8> {
    let config = EmitterConfig::new().write_document_declaration(false);
    let mut sink = EventSink::new(EventWriter::new_with_config(Vec::new(), config));
    e.serialize(&mut sink).unwrap();
    sink.into_writer().into_inner()
}

fn events_of(bytes: &[u8]) -> Vec<Event> {
    let mut out = Vec::new();
    for event in EventReader::new(bytes) {
        match event.unwrap() {
            XmlEvent::StartElement { name, .. } => out.push(Event::Start(Name {
                local_name: name.local_name,
                namespace: name.namespace,
                prefix: name.prefix,
            })),
            XmlEvent::Characters(t) => out.push(Event::Text(t)),
            XmlEvent::EndElement { .. } => out.push(Event::End),
            _ => {}
        }
    }
    out
}

fn same_tree(a: &Element, b: &Element) -> bool {
    if a.name != b.name {
        return false;
    }
    match (&a.content, &b.content) {
        (ElemContent::Text(s), ElemContent::Text(t)) => s == t,
        (ElemContent::Children(c), ElemContent::Children(d)) => {
            c.len() == d.len() && c.iter().zip(d.iter()).all(|(x, y)| same_tree(x, y))
        }
        _ => false,
    }
}

#[test]
fn text_leaf_is_built() {
    let events = vec![start("a", None, None), text("hello"), Event::End];
    let e = Element::from_events(&events).unwrap();
    assert_eq!(e.name.local_name, "a");
    assert!(e.name.namespace.is_none());
    assert_eq!(e.text(), Some("hello"));
}

#[test]
fn empty_element_is_built_with_no_children() {
    let events = vec![start("a", None, None), Event::End];
    let e = Element::from_events(&events).unwrap();
    assert!(e.text().is_none());
    assert!(e.first_child().is_none());
    assert!(e.accepts_child());
}

#[test]
fn children_are_built_in_order() {
    let events = vec![
        start("list", None, None),
        start("a", None, None),
        text("1"),
        Event::End,
        start("b", None, None),
        Event::End,
        start("c", None, None),
        start("d", None, None),
        text("4"),
        Event::End,
        Event::End,
        Event::End,
    ];
    let e = Element::from_events(&events).unwrap();
    let children = match &e.content {
        ElemContent::Children(v) => v,
        ElemContent::Text(_) => panic!("text"),
    };
    assert_eq!(children.len(), 3);
    assert_eq!(children[0].name.local_name, "a");
    assert_eq!(children[0].text(), Some("1"));
    assert_eq!(children[1].name.local_name, "b");
    assert!(children[1].first_child().is_none());
    assert_eq!(children[2].name.local_name, "c");
    assert_eq!(children[2].first_child().unwrap().text(), Some("4"));
}

#[test]
fn default_namespace_reaches_the_elements_inside() {
    let events = vec![
        start("GetData", Some("http://tempuri.org/"), None),
        start("value", None, None),
        text("33"),
        Event::End,
        Event::End,
    ];
    let e = Element::from_events(&events).unwrap();
    let value = e.first_child().unwrap();
    assert_eq!(value.name.namespace.as_deref(), Some("http://tempuri.org/"));
    assert!(value.name.prefix.is_none());
}

#[test]
fn prefixed_namespace_does_not_reach_the_elements_inside() {
    let events = vec![
        start("Envelope", Some("urn:soap"), Some("s")),
        start("plain", None, None),
        Event::End,
        Event::End,
    ];
    let e = Element::from_events(&events).unwrap();
    assert_eq!(e.name.namespace.as_deref(), Some("urn:soap"));
    assert_eq!(e.name.prefix.as_deref(), Some("s"));
    assert!(e.first_child().unwrap().name.namespace.is_none());
}

#[test]
fn empty_default_namespace_takes_the_scope_away() {
    let events = vec![
        start("a", Some("urn:a"), None),
        start("b", Some(""), None),
        start("c", None, None),
        Event::End,
        Event::End,
        start("d", None, None),
        Event::End,
        Event::End,
    ];
    let e = Element::from_events(&events).unwrap();
    let b = e.first_child().unwrap();
    assert!(b.name.namespace.is_none());
    assert!(b.first_child().unwrap().name.namespace.is_none());
    let d = e.first_child_where(|c| c.name.local_name == "d").unwrap();
    assert_eq!(d.name.namespace.as_deref(), Some("urn:a"));
}

#[test]
fn prefix_without_namespace_is_dropped() {
    let events = vec![start("a", None, Some("p")), Event::End];
    let e = Element::from_events(&events).unwrap();
    assert!(e.name.prefix.is_none());
    assert!(e.name.namespace.is_none());
}

#[test]
fn unbalanced_streams_are_refused() {
    assert!(Element::from_events(&vec![]).is_none());
    assert!(Element::from_events(&vec![Event::End]).is_none());
    assert!(Element::from_events(&vec![text("x")]).is_none());
    assert!(Element::from_events(&vec![start("a", None, None)]).is_none());
    assert!(Element::from_events(&vec![start("a", None, None), text("x")]).is_none());
    assert!(Element::from_events(&vec![
        start("a", None, None),
        start("b", None, None),
        Event::End
    ])
    .is_none());
}

#[test]
fn trailing_events_are_refused() {
    assert!(Element::from_events(&vec![start("a", None, None), Event::End, Event::End]).is_none());
    assert!(Element::from_events(&vec![
        start("a", None, None),
        Event::End,
        start("b", None, None),
        Event::End
    ])
    .is_none());
}

#[test]
fn mixed_content_is_refused() {
    assert!(Element::from_events(&vec![
        start("a", None, None),
        text("x"),
        start("b", None, None),
        Event::End,
        Event::End
    ])
    .is_none());
    assert!(Element::from_events(&vec![
        start("a", None, None),
        start("b", None, None),
        Event::End,
        text("x"),
        Event::End
    ])
    .is_none());
    assert!(Element::from_events(&vec![start("a", None, None), text("x"), text("y"), Event::End])
        .is_none());
}

#[test]
fn round_trip_of_an_explicit_tree() {
    let mut leaf = Element::new_ns_prefix("leaf", "urn:b", "b");
    leaf.push_text("some <text> & more");
    let mut other = Element::new_default_ns("other", "urn:c");
    other.push_child(Element::new_default_ns("deep", "urn:c"));
    let mut root = Element::new_ns_prefix("root", "urn:a", "a");
    root.push_child(leaf);
    root.push_child(other);
    root.push_child(Element::new_ns_prefix("last", "urn:a", "z"));
    let back = Element::from_events(&events_of(&written(&root))).unwrap();
    assert!(same_tree(&back, &root));
}

#[test]
fn round_trip_fills_in_the_inherited_namespace() {
    let request = GetDataRequest { value: 33 }.to_xml();
    let back = Element::from_events(&events_of(&written(&request))).unwrap();
    assert!(!same_tree(&back, &request));
    let value = back.first_child().unwrap();
    assert_eq!(value.name.namespace.as_deref(), Some("http://tempuri.org/"));
    assert_eq!(value.text(), Some("33"));
}

#[test]
fn response_document_is_unwrapped() {
    let doc = "<s:Envelope xmlns:s=\"http://schemas.xmlsoap.org/soap/envelope/\"><s:Body><GetDataResponse xmlns=\"http://tempuri.org/\"><GetDataResult>You entered: 33</GetDataResult></GetDataResponse></s:Body></s:Envelope>";
    let tree = Element::from_events(&events_of(doc.as_bytes())).unwrap();
    let out = Envelope::<GetDataResponse>::from_xml(&tree).unwrap();
    assert_eq!(out.0.get_data_result, "You entered: 33");
}
