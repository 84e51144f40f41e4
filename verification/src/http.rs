//! Requests as plain values: what to fetch, how, and with which headers.
use vstd::prelude::*;
use crate::model::seq_views;

verus! {

/// The HTTP method of a request.
#[derive(Clone, Copy, Debug, PartialEq, Eq, Structural)]
pub enum Method {
    Get,
    Post,
}

/// One request header.
#[derive(Clone, Debug)]
pub struct Header {
    pub name: String,
    pub value: String,
}

/// The abstract contents of a [`Header`].
pub struct HeaderView {
    pub name: Seq<char>,
    pub value: Seq<char>,
}

impl View for Header {
    type V = HeaderView;

    open spec fn view(&self) -> HeaderView {
        HeaderView { name: self.name@, value: self.value@ }
    }
}

/// A request to send: address, method, headers in the order they are set,
/// and an optional body.
#[derive(Clone, Debug)]
pub struct HttpRequest {
    pub url: String,
    pub method: Method,
    pub headers: Vec<Header>,
    pub body: Option<String>,
}

/// The abstract contents of an [`HttpRequest`].
#[verifier::ext_equal]
pub struct HttpRequestView {
    pub url: Seq<char>,
    pub method: Method,
    pub headers: Seq<HeaderView>,
    pub body: Option<Seq<char>>,
}

impl View for HttpRequest {
    type V = HttpRequestView;

    open spec fn view(&self) -> HttpRequestView {
        HttpRequestView {
            url: self.url@,
            method: self.method,
            headers: seq_views(self.headers@),
            body: match self.body {
                Some(b) => Some(b@),
                None => None,
            },
        }
    }
}

/// The header `name: value`.
pub fn header(name: &str, value: &str) -> (h: Header)
    ensures
        h@ == (HeaderView { name: name@, value: value@ }),
{
    Header { name: name.to_owned(), value: value.to_owned() }
}

} // verus!
