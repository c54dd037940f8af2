use sulfate_xml::decimal::decimal_string;
use sulfate_xml::service::{
    GetDataRequest, GetDataResponse, IServiceError, ACTION, CONTENT_XML, SERVICE_URL, SVC_NS,
};
use sulfate_xml::{Element, FromXml, ToXml};

#[test]
fn decimal_of_small_numbers() {
    assert_eq!(decimal_string(0), "0");
    assert_eq!(decimal_string(7), "7");
    assert_eq!(decimal_string(9), "9");
    assert_eq!(decimal_string(10), "10");
    assert_eq!(decimal_string(33), "33");
    assert_eq!(decimal_string(1005), "1005");
}

#[test]
fn decimal_of_negative_numbers() {
    assert_eq!(decimal_string(-1), "-1");
    assert_eq!(decimal_string(-10), "-10");
    assert_eq!(decimal_string(-33), "-33");
}

#[test]
fn decimal_of_the_limits() {
    assert_eq!(decimal_string(i32::MAX), "2147483647");
    assert_eq!(decimal_string(i32::MIN), "-2147483648");
}

#[test]
fn decimal_agrees_with_std() {
    let mut v: i32 = -50_000;
    while v <= 50_000 {
        assert_eq!(decimal_string(v), v.to_string());
        v += 37;
    }
}

#[test]
fn service_constants() {
    assert_eq!(SERVICE_URL, "http://localhost:53016/Service1.svc");
    assert_eq!(ACTION, "http://tempuri.org/IService1/GetData");
    assert_eq!(CONTENT_XML, "text/xml; charset=utf-8");
}

#[test]
fn request_tree() {
    let e = GetDataRequest { value: -12 }.to_xml();
    assert_eq!(e.name.local_name, "GetData");
    assert_eq!(e.name.namespace.as_deref(), Some(SVC_NS));
    assert!(e.name.prefix.is_none());
    let value = e.first_child().unwrap();
    assert_eq!(value.name.local_name, "value");
    assert!(value.name.namespace.is_none());
    assert!(value.name.prefix.is_none());
    assert_eq!(value.text(), Some("-12"));
}

#[test]
fn response_is_read_from_its_result_child() {
    let mut result = Element::new_default_ns("GetDataResult", SVC_NS);
    result.push_text("You entered: 33");
    let mut src = Element::new_ns_prefix("GetDataResponse", SVC_NS, "a");
    src.push_child(Element::new_default_ns("Other", SVC_NS));
    src.push_child(result);
    let out = GetDataResponse::from_xml(&src).unwrap();
    assert_eq!(out.get_data_result, "You entered: 33");
}

#[test]
fn response_with_wrong_root_is_refused() {
    let mut result = Element::new_default_ns("GetDataResult", SVC_NS);
    result.push_text("x");
    let mut wrong_name = Element::new_default_ns("GetData", SVC_NS);
    wrong_name.push_child(result);
    assert_eq!(GetDataResponse::from_xml(&wrong_name).err(), Some(IServiceError));

    let mut result = Element::new_default_ns("GetDataResult", SVC_NS);
    result.push_text("x");
    let mut wrong_ns = Element::new_default_ns("GetDataResponse", "urn:other");
    wrong_ns.push_child(result);
    assert_eq!(GetDataResponse::from_xml(&wrong_ns).err(), Some(IServiceError));

    let mut result = Element::new_default_ns("GetDataResult", SVC_NS);
    result.push_text("x");
    let mut no_ns = Element::new("GetDataResponse");
    no_ns.push_child(result);
    assert_eq!(GetDataResponse::from_xml(&no_ns).err(), Some(IServiceError));
}

#[test]
fn response_without_result_is_refused() {
    let empty = Element::new_default_ns("GetDataResponse", SVC_NS);
    assert_eq!(GetDataResponse::from_xml(&empty).err(), Some(IServiceError));

    let mut result = Element::new("GetDataResult");
    result.push_text("x");
    let mut unqualified = Element::new_default_ns("GetDataResponse", SVC_NS);
    unqualified.push_child(result);
    assert_eq!(GetDataResponse::from_xml(&unqualified).err(), Some(IServiceError));

    let mut leaf = Element::new_default_ns("GetDataResponse", SVC_NS);
    leaf.push_text("x");
    assert_eq!(GetDataResponse::from_xml(&leaf).err(), Some(IServiceError));
}

#[test]
fn response_whose_result_holds_elements_is_refused() {
    let mut result = Element::new_default_ns("GetDataResult", SVC_NS);
    result.push_child(Element::new("inner"));
    let mut src = Element::new_default_ns("GetDataResponse", SVC_NS);
    src.push_child(result);
    assert_eq!(GetDataResponse::from_xml(&src).err(), Some(IServiceError));

    let mut src = Element::new_default_ns("GetDataResponse", SVC_NS);
    src.push_child(Element::new_default_ns("GetDataResult", SVC_NS));
    assert_eq!(GetDataResponse::from_xml(&src).err(), Some(IServiceError));
}

#[test]
fn response_takes_the_first_result_only() {
    let mut first = Element::new_default_ns("GetDataResult", SVC_NS);
    first.push_child(Element::new("inner"));
    let mut second = Element::new_default_ns("GetDataResult", SVC_NS);
    second.push_text("late");
    let mut src = Element::new_default_ns("GetDataResponse", SVC_NS);
    src.push_child(first);
    src.push_child(second);
    assert_eq!(GetDataResponse::from_xml(&src).err(), Some(IServiceError));
}
