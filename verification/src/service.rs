//! The payloads of the `GetData` operation of the data service.

use crate::convert::{Describe, FromXml, ToXml};
use crate::decimal::{decimal, decimal_string};
use crate::tree::{first_named, ContentView, Element, ElementView, NameView};
use vstd::prelude::*;

verus! {

/// The address that requests to the service are posted to.
pub const SERVICE_URL: &'static str = "http://localhost:53016/Service1.svc";

/// The action that names the `GetData` operation to the service.
pub const ACTION: &'static str = "http://tempuri.org/IService1/GetData";

/// The namespace of the service's own elements.
pub const SVC_NS: &'static str = "http://tempuri.org/";

/// The content type that a request is posted with.
pub const CONTENT_XML: &'static str = "text/xml; charset=utf-8";

/// The request of `GetData`: one number.
pub struct GetDataRequest {
    pub value: i32,
}

/// The answer to `GetData`: one text.
pub struct GetDataResponse {
    pub get_data_result: String,
}

/// A tree that is no answer of the service.
#[derive(Debug, Copy, Clone, PartialEq, Eq)]
pub struct IServiceError;

/// The tree of a request for `value`: a `GetData` element in the service
/// namespace, declared as default, around one `value` element that holds the
/// number in decimal notation.
pub open spec fn get_data_request_xml(value: int) -> ElementView {
    ElementView {
        name: NameView { local_name: "GetData"@, namespace: Some(SVC_NS@), prefix: None },
        content: ContentView::Children(
            seq![
                ElementView {
                    name: NameView { local_name: "value"@, namespace: None, prefix: None },
                    content: ContentView::Text(decimal(value)),
                },
            ],
        ),
    }
}

/// The text that an answer tree carries: that of the first `GetDataResult`
/// child, in the service namespace, of a `GetDataResponse` root in the
/// service namespace. There is none where the root has another name, where
/// it has no such child, or where that child holds elements.
pub open spec fn get_data_result_of(src: ElementView) -> Option<Seq<char>> {
    if !src.name.is("GetDataResponse"@, SVC_NS@) {
        None
    } else {
        match first_named(src.children(), "GetDataResult"@, SVC_NS@) {
            None => None,
            Some(result) => match result.content {
                ContentView::Text(text) => Some(text),
                ContentView::Children(_) => None,
            },
        }
    }
}

impl ToXml for GetDataRequest {
    open spec fn xml(&self) -> ElementView {
        get_data_request_xml(self.value as int)
    }

    fn to_xml(&self) -> (e: Element) {
        let mut ret = Element::new_default_ns("GetData", SVC_NS);
        let mut value = Element::new("value");
        let digits = decimal_string(self.value);
        value.push_text(digits.as_str());
        ret.push_child(value);
        proof {
            assert(ret@.content->Children_0 =~= get_data_request_xml(
                self.value as int,
            ).content->Children_0);
        }
        ret
    }
}

impl FromXml for GetDataResponse {
    type Error = IServiceError;

    open spec fn parses(src: ElementView, out: Result<Self, IServiceError>) -> bool {
        match get_data_result_of(src) {
            Some(text) => out matches Ok(response) && response.get_data_result@ == text,
            None => out is Err,
        }
    }

    fn from_xml(src: &Element) -> (out: Result<Self, IServiceError>) {
        if !src.name.is("GetDataResponse", SVC_NS) {
            return Err(IServiceError);
        }
        match src.first_child_named("GetDataResult", SVC_NS) {
            None => Err(IServiceError),
            Some(result) => match result.text() {
                Some(text) => Ok(GetDataResponse { get_data_result: text.to_owned() }),
                None => Err(IServiceError),
            },
        }
    }
}

impl Describe for IServiceError {
    open spec fn text(&self) -> Seq<char> {
        "Error occurred while parsing IService response"@
    }

    fn describe(&self) -> (s: String) {
        "Error occurred while parsing IService response".to_owned()
    }
}

} // verus!
