//! The records of the access log, and the decoding of a document into one.

use vstd::prelude::*;
use crate::error::{outcome, DecodeError, DecodeErrorView, ErrorKind, StepView};
use crate::document::{
    find, lemma_detach_kind, lemma_detach_members, member, same_text, Float, Json, JsonView,
};
use crate::decode::{
    lemma_optional_detached, lemma_required_detached, members_of, optional, optional_field, required, required_field,
    Decode, Profile,
};
use crate::index::{
    lemma_optional_header_index_detached, optional_entries, optional_header_index, optional_header_index_field,
    HeaderEntries, IndexedHeader,
};
use crate::address::{
    Address, AddressView, BackendConnection, BackendConnectionView, Compression, CompressionView,
    SessionInfo, SessionInfoView,
};
use crate::http::{HttpRequest, HttpRequestView, HttpResponse, HttpResponseView};
use crate::log::{Log, LogView};
use crate::backend::{BackendAccess, BackendAccessView};

verus! {

/// One exchange with a client: a request, or a subrequest made for an ESI
/// include.
#[derive(Debug)]
pub struct ClientRequest<'i> {
    /// The kind of record that the line says it is, where it says so.
    pub record_type: Option<&'i str>,
    /// The transaction's id.
    pub vxid: u64,
    pub session: Option<SessionInfo<'i>>,
    pub remote_address: Address<'i>,
    pub start_timestamp: Float,
    /// Absent while the exchange is in flight.
    pub end_timestamp: Option<Float>,
    /// How the request was handled, such as `hit`, `miss` or `pass`.
    pub handling: &'i str,
    pub request: Option<HttpRequest<'i>>,
    pub response: Option<HttpResponse<'i>>,
    /// The backend fetch, where one was made.
    pub backend_access: Option<BackendAccess<'i>>,
    pub process_duration: Option<Float>,
    pub fetch_duration: Option<Float>,
    pub ttfb_duration: Float,
    pub serve_duration: Float,
    pub recv_header_bytes: u64,
    pub recv_body_bytes: u64,
    pub recv_total_bytes: u64,
    pub sent_header_bytes: u64,
    pub sent_body_bytes: u64,
    pub sent_total_bytes: u64,
    /// How many ESI subrequests were made.
    pub esi_count: u64,
    pub compression: Option<Compression<'i>>,
    pub restart_count: u64,
    /// The log of the attempt before the last restart.
    pub restart_log: Option<Log<'i>>,
    pub log: Log<'i>,
    pub request_header_index: Option<IndexedHeader<'i>>,
    pub response_header_index: Option<IndexedHeader<'i>>,
}

/// The mathematical value of [`ClientRequest`].
pub struct ClientRequestView {
    pub record_type: Option<Seq<char>>,
    pub vxid: u64,
    pub session: Option<SessionInfoView>,
    pub remote_address: AddressView,
    pub start_timestamp: Float,
    pub end_timestamp: Option<Float>,
    pub handling: Seq<char>,
    pub request: Option<HttpRequestView>,
    pub response: Option<HttpResponseView>,
    pub backend_access: Option<BackendAccessView>,
    pub process_duration: Option<Float>,
    pub fetch_duration: Option<Float>,
    pub ttfb_duration: Float,
    pub serve_duration: Float,
    pub recv_header_bytes: u64,
    pub recv_body_bytes: u64,
    pub recv_total_bytes: u64,
    pub sent_header_bytes: u64,
    pub sent_body_bytes: u64,
    pub sent_total_bytes: u64,
    pub esi_count: u64,
    pub compression: Option<CompressionView>,
    pub restart_count: u64,
    pub restart_log: Option<LogView>,
    pub log: LogView,
    pub request_header_index: Option<HeaderEntries>,
    pub response_header_index: Option<HeaderEntries>,
}

impl<'i> DeepView for ClientRequest<'i> {
    type V = ClientRequestView;

    open spec fn deep_view(&self) -> ClientRequestView {
        ClientRequestView {
            record_type: self.record_type.deep_view(),
            vxid: self.vxid,
            session: self.session.deep_view(),
            remote_address: self.remote_address.deep_view(),
            start_timestamp: self.start_timestamp,
            end_timestamp: self.end_timestamp,
            handling: self.handling@,
            request: self.request.deep_view(),
            response: self.response.deep_view(),
            backend_access: self.backend_access.deep_view(),
            process_duration: self.process_duration,
            fetch_duration: self.fetch_duration,
            ttfb_duration: self.ttfb_duration,
            serve_duration: self.serve_duration,
            recv_header_bytes: self.recv_header_bytes,
            recv_body_bytes: self.recv_body_bytes,
            recv_total_bytes: self.recv_total_bytes,
            sent_header_bytes: self.sent_header_bytes,
            sent_body_bytes: self.sent_body_bytes,
            sent_total_bytes: self.sent_total_bytes,
            esi_count: self.esi_count,
            compression: self.compression.deep_view(),
            restart_count: self.restart_count,
            restart_log: self.restart_log.deep_view(),
            log: self.log.deep_view(),
            request_header_index: optional_entries(self.request_header_index),
            response_header_index: optional_entries(self.response_header_index),
        }
    }
}

impl<'t> Decode<'t> for ClientRequest<'t> {
    open spec fn decoded(
        v: JsonView,
        profile: Profile,
    ) -> Result<ClientRequestView, DecodeErrorView> {
        match v {
            JsonView::Object(m) => {
                let record_type = optional_field::<&str>(m, "record_type"@, profile);
                let vxid = required_field::<u64>(m, "vxid"@, profile);
                let session = optional_field::<SessionInfo>(m, "session"@, profile);
                let remote_address = required_field::<Address>(m, "remote_address"@, profile);
                let start_timestamp = required_field::<Float>(m, "start_timestamp"@, profile);
                let end_timestamp = optional_field::<Float>(m, "end_timestamp"@, profile);
                let handling = required_field::<&str>(m, "handling"@, profile);
                let request = optional_field::<HttpRequest>(m, "request"@, profile);
                let response = optional_field::<HttpResponse>(m, "response"@, profile);
                let backend_access = optional_field::<BackendAccess>(m, "backend_access"@, profile);
                let process_duration = optional_field::<Float>(m, "process_duration"@, profile);
                let fetch_duration = optional_field::<Float>(m, "fetch_duration"@, profile);
                let ttfb_duration = required_field::<Float>(m, "ttfb_duration"@, profile);
                let serve_duration = required_field::<Float>(m, "serve_duration"@, profile);
                let recv_header_bytes = required_field::<u64>(m, "recv_header_bytes"@, profile);
                let recv_body_bytes = required_field::<u64>(m, "recv_body_bytes"@, profile);
                let recv_total_bytes = required_field::<u64>(m, "recv_total_bytes"@, profile);
                let sent_header_bytes = required_field::<u64>(m, "sent_header_bytes"@, profile);
                let sent_body_bytes = required_field::<u64>(m, "sent_body_bytes"@, profile);
                let sent_total_bytes = required_field::<u64>(m, "sent_total_bytes"@, profile);
                let esi_count = required_field::<u64>(m, "esi_count"@, profile);
                let compression = optional_field::<Compression>(m, "compression"@, profile);
                let restart_count = required_field::<u64>(m, "restart_count"@, profile);
                let restart_log = optional_field::<Log>(m, "restart_log"@, profile);
                let log = required_field::<Log>(m, "log"@, profile);
                let request_header_index = optional_header_index_field(m, "request_header_index"@, profile);
                let response_header_index = optional_header_index_field(m, "response_header_index"@, profile);
                if record_type is Err {
                    Err(record_type->Err_0)
                } else if vxid is Err {
                    Err(vxid->Err_0)
                } else if session is Err {
                    Err(session->Err_0)
                } else if remote_address is Err {
                    Err(remote_address->Err_0)
                } else if start_timestamp is Err {
                    Err(start_timestamp->Err_0)
                } else if end_timestamp is Err {
                    Err(end_timestamp->Err_0)
                } else if handling is Err {
                    Err(handling->Err_0)
                } else if request is Err {
                    Err(request->Err_0)
                } else if response is Err {
                    Err(response->Err_0)
                } else if backend_access is Err {
                    Err(backend_access->Err_0)
                } else if process_duration is Err {
                    Err(process_duration->Err_0)
                } else if fetch_duration is Err {
                    Err(fetch_duration->Err_0)
                } else if ttfb_duration is Err {
                    Err(ttfb_duration->Err_0)
                } else if serve_duration is Err {
                    Err(serve_duration->Err_0)
                } else if recv_header_bytes is Err {
                    Err(recv_header_bytes->Err_0)
                } else if recv_body_bytes is Err {
                    Err(recv_body_bytes->Err_0)
                } else if recv_total_bytes is Err {
                    Err(recv_total_bytes->Err_0)
                } else if sent_header_bytes is Err {
                    Err(sent_header_bytes->Err_0)
                } else if sent_body_bytes is Err {
                    Err(sent_body_bytes->Err_0)
                } else if sent_total_bytes is Err {
                    Err(sent_total_bytes->Err_0)
                } else if esi_count is Err {
                    Err(esi_count->Err_0)
                } else if compression is Err {
                    Err(compression->Err_0)
                } else if restart_count is Err {
                    Err(restart_count->Err_0)
                } else if restart_log is Err {
                    Err(restart_log->Err_0)
                } else if log is Err {
                    Err(log->Err_0)
                } else if request_header_index is Err {
                    Err(request_header_index->Err_0)
                } else if response_header_index is Err {
                    Err(response_header_index->Err_0)
                } else {
                    Ok(
                        ClientRequestView {
                            record_type: record_type->Ok_0,
                            vxid: vxid->Ok_0,
                            session: session->Ok_0,
                            remote_address: remote_address->Ok_0,
                            start_timestamp: start_timestamp->Ok_0,
                            end_timestamp: end_timestamp->Ok_0,
                            handling: handling->Ok_0,
                            request: request->Ok_0,
                            response: response->Ok_0,
                            backend_access: backend_access->Ok_0,
                            process_duration: process_duration->Ok_0,
                            fetch_duration: fetch_duration->Ok_0,
                            ttfb_duration: ttfb_duration->Ok_0,
                            serve_duration: serve_duration->Ok_0,
                            recv_header_bytes: recv_header_bytes->Ok_0,
                            recv_body_bytes: recv_body_bytes->Ok_0,
                            recv_total_bytes: recv_total_bytes->Ok_0,
                            sent_header_bytes: sent_header_bytes->Ok_0,
                            sent_body_bytes: sent_body_bytes->Ok_0,
                            sent_total_bytes: sent_total_bytes->Ok_0,
                            esi_count: esi_count->Ok_0,
                            compression: compression->Ok_0,
                            restart_count: restart_count->Ok_0,
                            restart_log: restart_log->Ok_0,
                            log: log->Ok_0,
                            request_header_index: request_header_index->Ok_0,
                            response_header_index: response_header_index->Ok_0,
                        },
                    )
                }
            },
            _ => Err(DecodeErrorView::here(ErrorKind::SchemaMismatch)),
        }
    }

    fn decode(v: &'t Json<'t>, profile: Profile) -> (r: Result<Self, DecodeError>) {
        let m = members_of(v)?;
        let record_type = optional::<&'t str>(m, "record_type", profile)?;
        let vxid = required::<u64>(m, "vxid", profile)?;
        let session = optional::<SessionInfo>(m, "session", profile)?;
        let remote_address = required::<Address>(m, "remote_address", profile)?;
        let start_timestamp = required::<Float>(m, "start_timestamp", profile)?;
        let end_timestamp = optional::<Float>(m, "end_timestamp", profile)?;
        let handling = required::<&'t str>(m, "handling", profile)?;
        let request = optional::<HttpRequest>(m, "request", profile)?;
        let response = optional::<HttpResponse>(m, "response", profile)?;
        let backend_access = optional::<BackendAccess>(m, "backend_access", profile)?;
        let process_duration = optional::<Float>(m, "process_duration", profile)?;
        let fetch_duration = optional::<Float>(m, "fetch_duration", profile)?;
        let ttfb_duration = required::<Float>(m, "ttfb_duration", profile)?;
        let serve_duration = required::<Float>(m, "serve_duration", profile)?;
        let recv_header_bytes = required::<u64>(m, "recv_header_bytes", profile)?;
        let recv_body_bytes = required::<u64>(m, "recv_body_bytes", profile)?;
        let recv_total_bytes = required::<u64>(m, "recv_total_bytes", profile)?;
        let sent_header_bytes = required::<u64>(m, "sent_header_bytes", profile)?;
        let sent_body_bytes = required::<u64>(m, "sent_body_bytes", profile)?;
        let sent_total_bytes = required::<u64>(m, "sent_total_bytes", profile)?;
        let esi_count = required::<u64>(m, "esi_count", profile)?;
        let compression = optional::<Compression>(m, "compression", profile)?;
        let restart_count = required::<u64>(m, "restart_count", profile)?;
        let restart_log = optional::<Log>(m, "restart_log", profile)?;
        let log = required::<Log>(m, "log", profile)?;
        let request_header_index = optional_header_index(m, "request_header_index", profile)?;
        let response_header_index = optional_header_index(m, "response_header_index", profile)?;
        Ok(
            ClientRequest {
                record_type,
                vxid,
                session,
                remote_address,
                start_timestamp,
                end_timestamp,
                handling,
                request,
                response,
                backend_access,
                process_duration,
                fetch_duration,
                ttfb_duration,
                serve_duration,
                recv_header_bytes,
                recv_body_bytes,
                recv_total_bytes,
                sent_header_bytes,
                sent_body_bytes,
                sent_total_bytes,
                esi_count,
                compression,
                restart_count,
                restart_log,
                log,
                request_header_index,
                response_header_index,
            },
        )
    }

    proof fn lemma_detached(v: JsonView) {
        lemma_detach_kind(v);
        if let JsonView::Object(m) = v {
            lemma_detach_members(m);
            lemma_optional_detached::<&str>(m, "record_type"@);
            lemma_required_detached::<u64>(m, "vxid"@);
            lemma_optional_detached::<SessionInfo>(m, "session"@);
            lemma_required_detached::<Address>(m, "remote_address"@);
            lemma_required_detached::<Float>(m, "start_timestamp"@);
            lemma_optional_detached::<Float>(m, "end_timestamp"@);
            lemma_required_detached::<&str>(m, "handling"@);
            lemma_optional_detached::<HttpRequest>(m, "request"@);
            lemma_optional_detached::<HttpResponse>(m, "response"@);
            lemma_optional_detached::<BackendAccess>(m, "backend_access"@);
            lemma_optional_detached::<Float>(m, "process_duration"@);
            lemma_optional_detached::<Float>(m, "fetch_duration"@);
            lemma_required_detached::<Float>(m, "ttfb_duration"@);
            lemma_required_detached::<Float>(m, "serve_duration"@);
            lemma_required_detached::<u64>(m, "recv_header_bytes"@);
            lemma_required_detached::<u64>(m, "recv_body_bytes"@);
            lemma_required_detached::<u64>(m, "recv_total_bytes"@);
            lemma_required_detached::<u64>(m, "sent_header_bytes"@);
            lemma_required_detached::<u64>(m, "sent_body_bytes"@);
            lemma_required_detached::<u64>(m, "sent_total_bytes"@);
            lemma_required_detached::<u64>(m, "esi_count"@);
            lemma_optional_detached::<Compression>(m, "compression"@);
            lemma_required_detached::<u64>(m, "restart_count"@);
            lemma_optional_detached::<Log>(m, "restart_log"@);
            lemma_required_detached::<Log>(m, "log"@);
            lemma_optional_header_index_detached(m, "request_header_index"@);
            lemma_optional_header_index_detached(m, "response_header_index"@);
        }
    }
}

/// A connection that was passed through to a backend without being handled
/// as HTTP.
#[derive(Debug)]
pub struct PipeSession<'i> {
    /// The kind of record that the line says it is, where it says so.
    pub record_type: Option<&'i str>,
    /// The transaction's id.
    pub vxid: u64,
    pub remote_address: Address<'i>,
    pub start_timestamp: Float,
    pub end_timestamp: Option<Float>,
    pub backend_connection: Option<BackendConnection<'i>>,
    /// The request as the client sent it.
    pub request: HttpRequest<'i>,
    /// The request as it went to the backend.
    pub backend_request: HttpRequest<'i>,
    pub process_duration: Option<Float>,
    pub ttfb_duration: Option<Float>,
    pub recv_total_bytes: u64,
    pub sent_total_bytes: u64,
    pub log: Log<'i>,
    pub request_header_index: Option<IndexedHeader<'i>>,
    pub backend_request_header_index: Option<IndexedHeader<'i>>,
}

/// The mathematical value of [`PipeSession`].
pub struct PipeSessionView {
    pub record_type: Option<Seq<char>>,
    pub vxid: u64,
    pub remote_address: AddressView,
    pub start_timestamp: Float,
    pub end_timestamp: Option<Float>,
    pub backend_connection: Option<BackendConnectionView>,
    pub request: HttpRequestView,
    pub backend_request: HttpRequestView,
    pub process_duration: Option<Float>,
    pub ttfb_duration: Option<Float>,
    pub recv_total_bytes: u64,
    pub sent_total_bytes: u64,
    pub log: LogView,
    pub request_header_index: Option<HeaderEntries>,
    pub backend_request_header_index: Option<HeaderEntries>,
}

impl<'i> DeepView for PipeSession<'i> {
    type V = PipeSessionView;

    open spec fn deep_view(&self) -> PipeSessionView {
        PipeSessionView {
            record_type: self.record_type.deep_view(),
            vxid: self.vxid,
            remote_address: self.remote_address.deep_view(),
            start_timestamp: self.start_timestamp,
            end_timestamp: self.end_timestamp,
            backend_connection: self.backend_connection.deep_view(),
            request: self.request.deep_view(),
            backend_request: self.backend_request.deep_view(),
            process_duration: self.process_duration,
            ttfb_duration: self.ttfb_duration,
            recv_total_bytes: self.recv_total_bytes,
            sent_total_bytes: self.sent_total_bytes,
            log: self.log.deep_view(),
            request_header_index: optional_entries(self.request_header_index),
            backend_request_header_index: optional_entries(self.backend_request_header_index),
        }
    }
}

impl<'t> Decode<'t> for PipeSession<'t> {
    open spec fn decoded(
        v: JsonView,
        profile: Profile,
    ) -> Result<PipeSessionView, DecodeErrorView> {
        match v {
            JsonView::Object(m) => {
                let record_type = optional_field::<&str>(m, "record_type"@, profile);
                let vxid = required_field::<u64>(m, "vxid"@, profile);
                let remote_address = required_field::<Address>(m, "remote_address"@, profile);
                let start_timestamp = required_field::<Float>(m, "start_timestamp"@, profile);
                let end_timestamp = optional_field::<Float>(m, "end_timestamp"@, profile);
                let backend_connection = optional_field::<BackendConnection>(m, "backend_connection"@, profile);
                let request = required_field::<HttpRequest>(m, "request"@, profile);
                let backend_request = required_field::<HttpRequest>(m, "backend_request"@, profile);
                let process_duration = optional_field::<Float>(m, "process_duration"@, profile);
                let ttfb_duration = optional_field::<Float>(m, "ttfb_duration"@, profile);
                let recv_total_bytes = required_field::<u64>(m, "recv_total_bytes"@, profile);
                let sent_total_bytes = required_field::<u64>(m, "sent_total_bytes"@, profile);
                let log = required_field::<Log>(m, "log"@, profile);
                let request_header_index = optional_header_index_field(m, "request_header_index"@, profile);
                let backend_request_header_index = optional_header_index_field(m, "backend_request_header_index"@, profile);
                if record_type is Err {
                    Err(record_type->Err_0)
                } else if vxid is Err {
                    Err(vxid->Err_0)
                } else if remote_address is Err {
                    Err(remote_address->Err_0)
                } else if start_timestamp is Err {
                    Err(start_timestamp->Err_0)
                } else if end_timestamp is Err {
                    Err(end_timestamp->Err_0)
                } else if backend_connection is Err {
                    Err(backend_connection->Err_0)
                } else if request is Err {
                    Err(request->Err_0)
                } else if backend_request is Err {
                    Err(backend_request->Err_0)
                } else if process_duration is Err {
                    Err(process_duration->Err_0)
                } else if ttfb_duration is Err {
                    Err(ttfb_duration->Err_0)
                } else if recv_total_bytes is Err {
                    Err(recv_total_bytes->Err_0)
                } else if sent_total_bytes is Err {
                    Err(sent_total_bytes->Err_0)
                } else if log is Err {
                    Err(log->Err_0)
                } else if request_header_index is Err {
                    Err(request_header_index->Err_0)
                } else if backend_request_header_index is Err {
                    Err(backend_request_header_index->Err_0)
                } else {
                    Ok(
                        PipeSessionView {
                            record_type: record_type->Ok_0,
                            vxid: vxid->Ok_0,
                            remote_address: remote_address->Ok_0,
                            start_timestamp: start_timestamp->Ok_0,
                            end_timestamp: end_timestamp->Ok_0,
                            backend_connection: backend_connection->Ok_0,
                            request: request->Ok_0,
                            backend_request: backend_request->Ok_0,
                            process_duration: process_duration->Ok_0,
                            ttfb_duration: ttfb_duration->Ok_0,
                            recv_total_bytes: recv_total_bytes->Ok_0,
                            sent_total_bytes: sent_total_bytes->Ok_0,
                            log: log->Ok_0,
                            request_header_index: request_header_index->Ok_0,
                            backend_request_header_index: backend_request_header_index->Ok_0,
                        },
                    )
                }
            },
            _ => Err(DecodeErrorView::here(ErrorKind::SchemaMismatch)),
        }
    }

    fn decode(v: &'t Json<'t>, profile: Profile) -> (r: Result<Self, DecodeError>) {
        let m = members_of(v)?;
        let record_type = optional::<&'t str>(m, "record_type", profile)?;
        let vxid = required::<u64>(m, "vxid", profile)?;
        let remote_address = required::<Address>(m, "remote_address", profile)?;
        let start_timestamp = required::<Float>(m, "start_timestamp", profile)?;
        let end_timestamp = optional::<Float>(m, "end_timestamp", profile)?;
        let backend_connection = optional::<BackendConnection>(m, "backend_connection", profile)?;
        let request = required::<HttpRequest>(m, "request", profile)?;
        let backend_request = required::<HttpRequest>(m, "backend_request", profile)?;
        let process_duration = optional::<Float>(m, "process_duration", profile)?;
        let ttfb_duration = optional::<Float>(m, "ttfb_duration", profile)?;
        let recv_total_bytes = required::<u64>(m, "recv_total_bytes", profile)?;
        let sent_total_bytes = required::<u64>(m, "sent_total_bytes", profile)?;
        let log = required::<Log>(m, "log", profile)?;
        let request_header_index = optional_header_index(m, "request_header_index", profile)?;
        let backend_request_header_index = optional_header_index(m, "backend_request_header_index", profile)?;
        Ok(
            PipeSession {
                record_type,
                vxid,
                remote_address,
                start_timestamp,
                end_timestamp,
                backend_connection,
                request,
                backend_request,
                process_duration,
                ttfb_duration,
                recv_total_bytes,
                sent_total_bytes,
                log,
                request_header_index,
                backend_request_header_index,
            },
        )
    }

    proof fn lemma_detached(v: JsonView) {
        lemma_detach_kind(v);
        if let JsonView::Object(m) = v {
            lemma_detach_members(m);
            lemma_optional_detached::<&str>(m, "record_type"@);
            lemma_required_detached::<u64>(m, "vxid"@);
            lemma_required_detached::<Address>(m, "remote_address"@);
            lemma_required_detached::<Float>(m, "start_timestamp"@);
            lemma_optional_detached::<Float>(m, "end_timestamp"@);
            lemma_optional_detached::<BackendConnection>(m, "backend_connection"@);
            lemma_required_detached::<HttpRequest>(m, "request"@);
            lemma_required_detached::<HttpRequest>(m, "backend_request"@);
            lemma_optional_detached::<Float>(m, "process_duration"@);
            lemma_optional_detached::<Float>(m, "ttfb_duration"@);
            lemma_required_detached::<u64>(m, "recv_total_bytes"@);
            lemma_required_detached::<u64>(m, "sent_total_bytes"@);
            lemma_required_detached::<Log>(m, "log"@);
            lemma_optional_header_index_detached(m, "request_header_index"@);
            lemma_optional_header_index_detached(m, "backend_request_header_index"@);
        }
    }
}

/// One line of the access log.
#[derive(Debug)]
pub enum HttpAccessRecord<'i> {
    /// A request that a client made.
    ClientRequest(ClientRequest<'i>),
    /// A subrequest made for an ESI include. It has the fields of a client
    /// request.
    EsiSubrequest(ClientRequest<'i>),
    /// A connection that was piped to a backend.
    PipeSession(PipeSession<'i>),
}

/// The mathematical value of [`HttpAccessRecord`].
pub enum HttpAccessRecordView {
    ClientRequest(ClientRequestView),
    EsiSubrequest(ClientRequestView),
    PipeSession(PipeSessionView),
}

impl<'i> DeepView for HttpAccessRecord<'i> {
    type V = HttpAccessRecordView;

    open spec fn deep_view(&self) -> HttpAccessRecordView {
        match self {
            HttpAccessRecord::ClientRequest(c) => HttpAccessRecordView::ClientRequest(c.deep_view()),
            HttpAccessRecord::EsiSubrequest(c) => HttpAccessRecordView::EsiSubrequest(c.deep_view()),
            HttpAccessRecord::PipeSession(p) => HttpAccessRecordView::PipeSession(p.deep_view()),
        }
    }
}

impl<'i> HttpAccessRecord<'i> {
    /// The client request, if the record is one.
    pub fn as_client_request(&self) -> (r: Option<&ClientRequest<'i>>)
        ensures
            match self {
                HttpAccessRecord::ClientRequest(c) => r == Some(c),
                _ => r is None,
            },
    {
        if let HttpAccessRecord::ClientRequest(v) = self {
            Some(v)
        } else {
            None
        }
    }

    /// The ESI subrequest, if the record is one.
    pub fn as_esi_subrequest(&self) -> (r: Option<&ClientRequest<'i>>)
        ensures
            match self {
                HttpAccessRecord::EsiSubrequest(c) => r == Some(c),
                _ => r is None,
            },
    {
        if let HttpAccessRecord::EsiSubrequest(v) = self {
            Some(v)
        } else {
            None
        }
    }

    /// The pipe session, if the record is one.
    pub fn as_pipe_session(&self) -> (r: Option<&PipeSession<'i>>)
        ensures
            match self {
                HttpAccessRecord::PipeSession(p) => r == Some(p),
                _ => r is None,
            },
    {
        if let HttpAccessRecord::PipeSession(v) = self {
            Some(v)
        } else {
            None
        }
    }
}

/// How a line says which kind of record it is.
#[derive(Clone, Copy, PartialEq, Eq, Debug)]
pub enum Encoding {
    /// The member `record_type` names the kind.
    Tagged,
    /// Nothing names the kind: the record is a client request if the line
    /// can be bound as one, and otherwise a pipe session if it can be bound
    /// as that. An ESI subrequest then comes out as a client request, and
    /// only its field `record_type` tells the two apart.
    Untagged,
}

/// The kinds of record that a tag can name.
#[derive(Clone, Copy, PartialEq, Eq, Debug)]
pub enum RecordKind {
    ClientRequest,
    EsiSubrequest,
    PipeSession,
}

/// The failure for a document whose tag names no kind of record.
pub open spec fn unrecognized_tag() -> DecodeErrorView {
    DecodeErrorView::here(ErrorKind::UnrecognizedVariant).within(StepView::Field("record_type"@))
}

/// The kind of record that the tag of a document names. The document must be
/// an object, and its member `record_type` one of the three strings
/// `client_request`, `esi_subrequest` and `pipe_session`.
pub open spec fn tagged_kind(v: JsonView) -> Result<RecordKind, DecodeErrorView> {
    match v {
        JsonView::Object(m) => match member(m, "record_type"@) {
            Some(JsonView::Text(tag)) => if tag.chars == "client_request"@ {
                Ok(RecordKind::ClientRequest)
            } else if tag.chars == "esi_subrequest"@ {
                Ok(RecordKind::EsiSubrequest)
            } else if tag.chars == "pipe_session"@ {
                Ok(RecordKind::PipeSession)
            } else {
                Err(unrecognized_tag())
            },
            _ => Err(unrecognized_tag()),
        },
        _ => Err(DecodeErrorView::here(ErrorKind::SchemaMismatch)),
    }
}

/// The record that a document holds in the tagged encoding: the tag picks the
/// kind, and the document is bound as that kind.
pub open spec fn tagged_record(
    v: JsonView,
    profile: Profile,
) -> Result<HttpAccessRecordView, DecodeErrorView> {
    match tagged_kind(v) {
        Err(e) => Err(e),
        Ok(RecordKind::ClientRequest) => match ClientRequest::decoded(v, profile) {
            Ok(c) => Ok(HttpAccessRecordView::ClientRequest(c)),
            Err(e) => Err(e),
        },
        Ok(RecordKind::EsiSubrequest) => match ClientRequest::decoded(v, profile) {
            Ok(c) => Ok(HttpAccessRecordView::EsiSubrequest(c)),
            Err(e) => Err(e),
        },
        Ok(RecordKind::PipeSession) => match PipeSession::decoded(v, profile) {
            Ok(p) => Ok(HttpAccessRecordView::PipeSession(p)),
            Err(e) => Err(e),
        },
    }
}

/// The record that a document holds in the untagged encoding: a client
/// request if the document can be bound as one; if not, a pipe session if it
/// can be bound as that; if neither, no record.
pub open spec fn untagged_record(
    v: JsonView,
    profile: Profile,
) -> Result<HttpAccessRecordView, DecodeErrorView> {
    match ClientRequest::decoded(v, profile) {
        Ok(c) => Ok(HttpAccessRecordView::ClientRequest(c)),
        Err(_) => match PipeSession::decoded(v, profile) {
            Ok(p) => Ok(HttpAccessRecordView::PipeSession(p)),
            Err(_) => Err(DecodeErrorView::here(ErrorKind::UnrecognizedVariant)),
        },
    }
}

/// The record that a document holds.
pub open spec fn record_of(
    v: JsonView,
    encoding: Encoding,
    profile: Profile,
) -> Result<HttpAccessRecordView, DecodeErrorView> {
    match encoding {
        Encoding::Tagged => tagged_record(v, profile),
        Encoding::Untagged => untagged_record(v, profile),
    }
}

/// The view of the result of a classification.
pub open spec fn kind_outcome(
    r: Result<RecordKind, DecodeError>,
) -> Result<RecordKind, DecodeErrorView> {
    match r {
        Ok(kind) => Ok(kind),
        Err(e) => Err(e.deep_view()),
    }
}

/// Reads the tag of a document. Nothing else of the document is looked at.
pub fn classify<'t>(doc: &'t Json<'t>) -> (r: Result<RecordKind, DecodeError>)
    ensures
        kind_outcome(r) == tagged_kind(doc.deep_view()),
{
    let m = match members_of(doc) {
        Ok(m) => m,
        Err(e) => return Err(e),
    };
    match find(m, "record_type") {
        Some(Json::Text(tag)) => {
            let tag = tag.as_str();
            if same_text(tag, "client_request") {
                Ok(RecordKind::ClientRequest)
            } else if same_text(tag, "esi_subrequest") {
                Ok(RecordKind::EsiSubrequest)
            } else if same_text(tag, "pipe_session") {
                Ok(RecordKind::PipeSession)
            } else {
                Err(DecodeError::here(ErrorKind::UnrecognizedVariant).within_field("record_type"))
            }
        },
        _ => Err(DecodeError::here(ErrorKind::UnrecognizedVariant).within_field("record_type")),
    }
}

/// Decodes a document into the record that it holds.
///
/// The text fields of the record borrow from the document. In the zero-copy
/// profile each of them is a slice of the line that the document was read
/// from, and a line in which such a field holds an escape sequence is
/// refused.
pub fn decode_record<'t>(
    doc: &'t Json<'t>,
    encoding: Encoding,
    profile: Profile,
) -> (r: Result<HttpAccessRecord<'t>, DecodeError>)
    ensures
        outcome(r) == record_of(doc.deep_view(), encoding, profile),
{
    match encoding {
        Encoding::Tagged => match classify(doc) {
            Err(e) => Err(e),
            Ok(RecordKind::ClientRequest) => match ClientRequest::decode(doc, profile) {
                Ok(c) => Ok(HttpAccessRecord::ClientRequest(c)),
                Err(e) => Err(e),
            },
            Ok(RecordKind::EsiSubrequest) => match ClientRequest::decode(doc, profile) {
                Ok(c) => Ok(HttpAccessRecord::EsiSubrequest(c)),
                Err(e) => Err(e),
            },
            Ok(RecordKind::PipeSession) => match PipeSession::decode(doc, profile) {
                Ok(p) => Ok(HttpAccessRecord::PipeSession(p)),
                Err(e) => Err(e),
            },
        },
        Encoding::Untagged => match ClientRequest::decode(doc, profile) {
            Ok(c) => Ok(HttpAccessRecord::ClientRequest(c)),
            Err(_) => match PipeSession::decode(doc, profile) {
                Ok(p) => Ok(HttpAccessRecord::PipeSession(p)),
                Err(_) => Err(DecodeError::here(ErrorKind::UnrecognizedVariant)),
            },
        },
    }
}

} // verus!
