//! HTTP messages and their headers.

use vstd::prelude::*;
use crate::error::{DecodeError, DecodeErrorView, ErrorKind};
use crate::document::{lemma_detach_kind, lemma_detach_members, Json, JsonView};
use crate::decode::{lemma_required_detached, members_of, required, required_field, Decode, Profile};
use crate::index::{
    decode_header_index, header_entries, header_index, lemma_header_index_detached, HeaderEntries, IndexedHeader,
    RawHeader,
};

verus! {

/// The headers of a request or of a response, in one of two shapes that hold
/// the same information. Which one a value has is settled when it is decoded:
/// a JSON array gives `Raw`, a JSON object gives `Indexed`.
#[derive(Debug)]
pub enum Headers<'i> {
    /// The headers as they came: pairs of name and value, in order, with
    /// repeated names kept apart.
    Raw(RawHeader<'i>),
    /// The headers by name: each name once, in the order of first
    /// occurrence, with all the values it had.
    Indexed(IndexedHeader<'i>),
}

/// The mathematical value of [`Headers`].
pub enum HeadersView {
    Raw(Seq<(Seq<char>, Seq<char>)>),
    Indexed(HeaderEntries),
}

impl<'i> DeepView for Headers<'i> {
    type V = HeadersView;

    open spec fn deep_view(&self) -> HeadersView {
        match self {
            Headers::Raw(pairs) => HeadersView::Raw(pairs.deep_view()),
            Headers::Indexed(index) => HeadersView::Indexed(header_entries(*index)),
        }
    }
}

impl<'i> Headers<'i> {
    /// The pairs, if the headers are in the raw shape.
    pub fn as_raw(&self) -> (r: Option<&RawHeader<'i>>)
        ensures
            match self {
                Headers::Raw(pairs) => r == Some(pairs),
                Headers::Indexed(_) => r is None,
            },
    {
        if let Headers::Raw(v) = self {
            Some(v)
        } else {
            None
        }
    }

    /// The index, if the headers are in the indexed shape.
    pub fn as_indexed(&self) -> (r: Option<&IndexedHeader<'i>>)
        ensures
            match self {
                Headers::Indexed(index) => r == Some(index),
                Headers::Raw(_) => r is None,
            },
    {
        if let Headers::Indexed(v) = self {
            Some(v)
        } else {
            None
        }
    }
}

/// The shape decides: an array is bound as pairs of strings, an object as a
/// header index, and nothing else is headers.
impl<'t> Decode<'t> for Headers<'t> {
    open spec fn decoded(v: JsonView, profile: Profile) -> Result<HeadersView, DecodeErrorView> {
        match v {
            JsonView::Array(_) => match <Vec<(&str, &str)>>::decoded(v, profile) {
                Ok(pairs) => Ok(HeadersView::Raw(pairs)),
                Err(e) => Err(e),
            },
            JsonView::Object(_) => match header_index(v, profile) {
                Ok(entries) => Ok(HeadersView::Indexed(entries)),
                Err(e) => Err(e),
            },
            _ => Err(DecodeErrorView::here(ErrorKind::UnrecognizedVariant)),
        }
    }

    fn decode(v: &'t Json<'t>, profile: Profile) -> (r: Result<Self, DecodeError>) {
        match v {
            Json::Array(_) => match <Vec<(&'t str, &'t str)>>::decode(v, profile) {
                Ok(pairs) => Ok(Headers::Raw(pairs)),
                Err(e) => Err(e),
            },
            Json::Object(_) => match decode_header_index(v, profile) {
                Ok(index) => Ok(Headers::Indexed(index)),
                Err(e) => Err(e),
            },
            _ => Err(DecodeError::here(ErrorKind::UnrecognizedVariant)),
        }
    }

    proof fn lemma_detached(v: JsonView) {
        lemma_detach_kind(v);
        <Vec<(&str, &str)>>::lemma_detached(v);
        if let JsonView::Object(m) = v {
            lemma_detach_members(m);
            lemma_header_index_detached(m);
        }
    }
}

/// An HTTP request, as the client sent it or as it went to a backend.
#[derive(Debug)]
pub struct HttpRequest<'i> {
    pub protocol: &'i str,
    pub method: &'i str,
    pub url: &'i str,
    pub headers: Headers<'i>,
}

/// The mathematical value of [`HttpRequest`].
pub struct HttpRequestView {
    pub protocol: Seq<char>,
    pub method: Seq<char>,
    pub url: Seq<char>,
    pub headers: HeadersView,
}

impl<'i> DeepView for HttpRequest<'i> {
    type V = HttpRequestView;

    open spec fn deep_view(&self) -> HttpRequestView {
        HttpRequestView {
            protocol: self.protocol@,
            method: self.method@,
            url: self.url@,
            headers: self.headers.deep_view(),
        }
    }
}

impl<'t> Decode<'t> for HttpRequest<'t> {
    open spec fn decoded(
        v: JsonView,
        profile: Profile,
    ) -> Result<HttpRequestView, DecodeErrorView> {
        match v {
            JsonView::Object(m) => {
                let protocol = required_field::<&str>(m, "protocol"@, profile);
                let method = required_field::<&str>(m, "method"@, profile);
                let url = required_field::<&str>(m, "url"@, profile);
                let headers = required_field::<Headers>(m, "headers"@, profile);
                if protocol is Err {
                    Err(protocol->Err_0)
                } else if method is Err {
                    Err(method->Err_0)
                } else if url is Err {
                    Err(url->Err_0)
                } else if headers is Err {
                    Err(headers->Err_0)
                } else {
                    Ok(
                        HttpRequestView {
                            protocol: protocol->Ok_0,
                            method: method->Ok_0,
                            url: url->Ok_0,
                            headers: headers->Ok_0,
                        },
                    )
                }
            },
            _ => Err(DecodeErrorView::here(ErrorKind::SchemaMismatch)),
        }
    }

    fn decode(v: &'t Json<'t>, profile: Profile) -> (r: Result<Self, DecodeError>) {
        let m = members_of(v)?;
        let protocol = required::<&'t str>(m, "protocol", profile)?;
        let method = required::<&'t str>(m, "method", profile)?;
        let url = required::<&'t str>(m, "url", profile)?;
        let headers = required::<Headers>(m, "headers", profile)?;
        Ok(HttpRequest { protocol, method, url, headers })
    }

    proof fn lemma_detached(v: JsonView) {
        lemma_detach_kind(v);
        if let JsonView::Object(m) = v {
            lemma_detach_members(m);
            lemma_required_detached::<&str>(m, "protocol"@);
            lemma_required_detached::<&str>(m, "method"@);
            lemma_required_detached::<&str>(m, "url"@);
            lemma_required_detached::<Headers>(m, "headers"@);
        }
    }
}

/// An HTTP response.
#[derive(Debug)]
pub struct HttpResponse<'i> {
    pub status: u32,
    /// The reason phrase that came with the status.
    pub reason: &'i str,
    pub protocol: &'i str,
    pub headers: Headers<'i>,
}

/// The mathematical value of [`HttpResponse`].
pub struct HttpResponseView {
    pub status: u32,
    pub reason: Seq<char>,
    pub protocol: Seq<char>,
    pub headers: HeadersView,
}

impl<'i> DeepView for HttpResponse<'i> {
    type V = HttpResponseView;

    open spec fn deep_view(&self) -> HttpResponseView {
        HttpResponseView {
            status: self.status,
            reason: self.reason@,
            protocol: self.protocol@,
            headers: self.headers.deep_view(),
        }
    }
}

impl<'t> Decode<'t> for HttpResponse<'t> {
    open spec fn decoded(
        v: JsonView,
        profile: Profile,
    ) -> Result<HttpResponseView, DecodeErrorView> {
        match v {
            JsonView::Object(m) => {
                let status = required_field::<u32>(m, "status"@, profile);
                let reason = required_field::<&str>(m, "reason"@, profile);
                let protocol = required_field::<&str>(m, "protocol"@, profile);
                let headers = required_field::<Headers>(m, "headers"@, profile);
                if status is Err {
                    Err(status->Err_0)
                } else if reason is Err {
                    Err(reason->Err_0)
                } else if protocol is Err {
                    Err(protocol->Err_0)
                } else if headers is Err {
                    Err(headers->Err_0)
                } else {
                    Ok(
                        HttpResponseView {
                            status: status->Ok_0,
                            reason: reason->Ok_0,
                            protocol: protocol->Ok_0,
                            headers: headers->Ok_0,
                        },
                    )
                }
            },
            _ => Err(DecodeErrorView::here(ErrorKind::SchemaMismatch)),
        }
    }

    fn decode(v: &'t Json<'t>, profile: Profile) -> (r: Result<Self, DecodeError>) {
        let m = members_of(v)?;
        let status = required::<u32>(m, "status", profile)?;
        let reason = required::<&'t str>(m, "reason", profile)?;
        let protocol = required::<&'t str>(m, "protocol", profile)?;
        let headers = required::<Headers>(m, "headers", profile)?;
        Ok(HttpResponse { status, reason, protocol, headers })
    }

    proof fn lemma_detached(v: JsonView) {
        lemma_detach_kind(v);
        if let JsonView::Object(m) = v {
            lemma_detach_members(m);
            lemma_required_detached::<u32>(m, "status"@);
            lemma_required_detached::<&str>(m, "reason"@);
            lemma_required_detached::<&str>(m, "protocol"@);
            lemma_required_detached::<Headers>(m, "headers"@);
        }
    }
}

} // verus!
