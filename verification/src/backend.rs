//! Backend fetches and what they left in the cache.

use vstd::prelude::*;
use crate::error::{DecodeError, DecodeErrorView, ErrorKind};
use crate::document::{lemma_detach_kind, lemma_detach_members, Float, Json, JsonView};
use crate::decode::{
    lemma_optional_detached, lemma_required_detached, members_of, optional, optional_field, required, required_field,
    Decode, Profile,
};
use crate::index::{
    lemma_optional_header_index_detached, optional_entries, optional_header_index, optional_header_index_field,
    HeaderEntries, IndexedHeader,
};
use crate::address::{BackendConnection, BackendConnectionView, Compression, CompressionView};
use crate::http::{HttpRequest, HttpRequestView, HttpResponse, HttpResponseView};
use crate::log::{Log, LogView};

verus! {

/// The object that a backend fetch put into the cache.
#[derive(Debug)]
pub struct CacheObject<'i> {
    /// The kind of storage that holds the object.
    pub storage_type: &'i str,
    pub storage_name: &'i str,
    /// How long the object stays fresh, in seconds.
    pub ttl_duration: Option<Float>,
    pub grace_duration: Option<Float>,
    pub keep_duration: Option<Float>,
    pub since_timestamp: Float,
    pub origin_timestamp: Float,
    pub fetch_mode: Option<&'i str>,
    pub fetch_streamed: Option<bool>,
    /// The response as it was cached.
    pub response: Option<HttpResponse<'i>>,
}

/// The mathematical value of [`CacheObject`].
pub struct CacheObjectView {
    pub storage_type: Seq<char>,
    pub storage_name: Seq<char>,
    pub ttl_duration: Option<Float>,
    pub grace_duration: Option<Float>,
    pub keep_duration: Option<Float>,
    pub since_timestamp: Float,
    pub origin_timestamp: Float,
    pub fetch_mode: Option<Seq<char>>,
    pub fetch_streamed: Option<bool>,
    pub response: Option<HttpResponseView>,
}

impl<'i> DeepView for CacheObject<'i> {
    type V = CacheObjectView;

    open spec fn deep_view(&self) -> CacheObjectView {
        CacheObjectView {
            storage_type: self.storage_type@,
            storage_name: self.storage_name@,
            ttl_duration: self.ttl_duration,
            grace_duration: self.grace_duration,
            keep_duration: self.keep_duration,
            since_timestamp: self.since_timestamp,
            origin_timestamp: self.origin_timestamp,
            fetch_mode: self.fetch_mode.deep_view(),
            fetch_streamed: self.fetch_streamed,
            response: self.response.deep_view(),
        }
    }
}

impl<'t> Decode<'t> for CacheObject<'t> {
    open spec fn decoded(
        v: JsonView,
        profile: Profile,
    ) -> Result<CacheObjectView, DecodeErrorView> {
        match v {
            JsonView::Object(m) => {
                let storage_type = required_field::<&str>(m, "storage_type"@, profile);
                let storage_name = required_field::<&str>(m, "storage_name"@, profile);
                let ttl_duration = optional_field::<Float>(m, "ttl_duration"@, profile);
                let grace_duration = optional_field::<Float>(m, "grace_duration"@, profile);
                let keep_duration = optional_field::<Float>(m, "keep_duration"@, profile);
                let since_timestamp = required_field::<Float>(m, "since_timestamp"@, profile);
                let origin_timestamp = required_field::<Float>(m, "origin_timestamp"@, profile);
                let fetch_mode = optional_field::<&str>(m, "fetch_mode"@, profile);
                let fetch_streamed = optional_field::<bool>(m, "fetch_streamed"@, profile);
                let response = optional_field::<HttpResponse>(m, "response"@, profile);
                if storage_type is Err {
                    Err(storage_type->Err_0)
                } else if storage_name is Err {
                    Err(storage_name->Err_0)
                } else if ttl_duration is Err {
                    Err(ttl_duration->Err_0)
                } else if grace_duration is Err {
                    Err(grace_duration->Err_0)
                } else if keep_duration is Err {
                    Err(keep_duration->Err_0)
                } else if since_timestamp is Err {
                    Err(since_timestamp->Err_0)
                } else if origin_timestamp is Err {
                    Err(origin_timestamp->Err_0)
                } else if fetch_mode is Err {
                    Err(fetch_mode->Err_0)
                } else if fetch_streamed is Err {
                    Err(fetch_streamed->Err_0)
                } else if response is Err {
                    Err(response->Err_0)
                } else {
                    Ok(
                        CacheObjectView {
                            storage_type: storage_type->Ok_0,
                            storage_name: storage_name->Ok_0,
                            ttl_duration: ttl_duration->Ok_0,
                            grace_duration: grace_duration->Ok_0,
                            keep_duration: keep_duration->Ok_0,
                            since_timestamp: since_timestamp->Ok_0,
                            origin_timestamp: origin_timestamp->Ok_0,
                            fetch_mode: fetch_mode->Ok_0,
                            fetch_streamed: fetch_streamed->Ok_0,
                            response: response->Ok_0,
                        },
                    )
                }
            },
            _ => Err(DecodeErrorView::here(ErrorKind::SchemaMismatch)),
        }
    }

    fn decode(v: &'t Json<'t>, profile: Profile) -> (r: Result<Self, DecodeError>) {
        let m = members_of(v)?;
        let storage_type = required::<&'t str>(m, "storage_type", profile)?;
        let storage_name = required::<&'t str>(m, "storage_name", profile)?;
        let ttl_duration = optional::<Float>(m, "ttl_duration", profile)?;
        let grace_duration = optional::<Float>(m, "grace_duration", profile)?;
        let keep_duration = optional::<Float>(m, "keep_duration", profile)?;
        let since_timestamp = required::<Float>(m, "since_timestamp", profile)?;
        let origin_timestamp = required::<Float>(m, "origin_timestamp", profile)?;
        let fetch_mode = optional::<&'t str>(m, "fetch_mode", profile)?;
        let fetch_streamed = optional::<bool>(m, "fetch_streamed", profile)?;
        let response = optional::<HttpResponse>(m, "response", profile)?;
        Ok(
            CacheObject {
                storage_type,
                storage_name,
                ttl_duration,
                grace_duration,
                keep_duration,
                since_timestamp,
                origin_timestamp,
                fetch_mode,
                fetch_streamed,
                response,
            },
        )
    }

    proof fn lemma_detached(v: JsonView) {
        lemma_detach_kind(v);
        if let JsonView::Object(m) = v {
            lemma_detach_members(m);
            lemma_required_detached::<&str>(m, "storage_type"@);
            lemma_required_detached::<&str>(m, "storage_name"@);
            lemma_optional_detached::<Float>(m, "ttl_duration"@);
            lemma_optional_detached::<Float>(m, "grace_duration"@);
            lemma_optional_detached::<Float>(m, "keep_duration"@);
            lemma_required_detached::<Float>(m, "since_timestamp"@);
            lemma_required_detached::<Float>(m, "origin_timestamp"@);
            lemma_optional_detached::<&str>(m, "fetch_mode"@);
            lemma_optional_detached::<bool>(m, "fetch_streamed"@);
            lemma_optional_detached::<HttpResponse>(m, "response"@);
        }
    }
}

/// One fetch from a backend, made for a client request.
#[derive(Debug)]
pub struct BackendAccess<'i> {
    pub vxid: i64,
    pub start_timestamp: Option<Float>,
    pub end_timestamp: Option<Float>,
    /// How the fetch ended.
    pub handling: &'i str,
    pub request: HttpRequest<'i>,
    pub response: Option<HttpResponse<'i>>,
    pub send_duration: Float,
    pub wait_duration: Option<Float>,
    pub ttfb_duration: Option<Float>,
    pub fetch_duration: Option<Float>,
    pub sent_header_bytes: Option<u64>,
    pub sent_body_bytes: Option<u64>,
    pub sent_total_bytes: Option<u64>,
    pub recv_header_bytes: Option<u64>,
    pub recv_body_bytes: Option<u64>,
    pub recv_total_bytes: Option<u64>,
    /// How many times the fetch was retried.
    pub retry: u64,
    pub backend_connection: Option<BackendConnection<'i>>,
    pub cache_object: Option<CacheObject<'i>>,
    pub compression: Option<Compression<'i>>,
    pub log: Log<'i>,
    pub request_header_index: Option<IndexedHeader<'i>>,
    pub response_header_index: Option<IndexedHeader<'i>>,
    pub cache_object_response_header_index: Option<IndexedHeader<'i>>,
    /// How many objects were evicted from the cache to make room.
    pub lru_nuked: u32,
}

/// The mathematical value of [`BackendAccess`].
pub struct BackendAccessView {
    pub vxid: i64,
    pub start_timestamp: Option<Float>,
    pub end_timestamp: Option<Float>,
    pub handling: Seq<char>,
    pub request: HttpRequestView,
    pub response: Option<HttpResponseView>,
    pub send_duration: Float,
    pub wait_duration: Option<Float>,
    pub ttfb_duration: Option<Float>,
    pub fetch_duration: Option<Float>,
    pub sent_header_bytes: Option<u64>,
    pub sent_body_bytes: Option<u64>,
    pub sent_total_bytes: Option<u64>,
    pub recv_header_bytes: Option<u64>,
    pub recv_body_bytes: Option<u64>,
    pub recv_total_bytes: Option<u64>,
    pub retry: u64,
    pub backend_connection: Option<BackendConnectionView>,
    pub cache_object: Option<CacheObjectView>,
    pub compression: Option<CompressionView>,
    pub log: LogView,
    pub request_header_index: Option<HeaderEntries>,
    pub response_header_index: Option<HeaderEntries>,
    pub cache_object_response_header_index: Option<HeaderEntries>,
    pub lru_nuked: u32,
}

impl<'i> DeepView for BackendAccess<'i> {
    type V = BackendAccessView;

    open spec fn deep_view(&self) -> BackendAccessView {
        BackendAccessView {
            vxid: self.vxid,
            start_timestamp: self.start_timestamp,
            end_timestamp: self.end_timestamp,
            handling: self.handling@,
            request: self.request.deep_view(),
            response: self.response.deep_view(),
            send_duration: self.send_duration,
            wait_duration: self.wait_duration,
            ttfb_duration: self.ttfb_duration,
            fetch_duration: self.fetch_duration,
            sent_header_bytes: self.sent_header_bytes,
            sent_body_bytes: self.sent_body_bytes,
            sent_total_bytes: self.sent_total_bytes,
            recv_header_bytes: self.recv_header_bytes,
            recv_body_bytes: self.recv_body_bytes,
            recv_total_bytes: self.recv_total_bytes,
            retry: self.retry,
            backend_connection: self.backend_connection.deep_view(),
            cache_object: self.cache_object.deep_view(),
            compression: self.compression.deep_view(),
            log: self.log.deep_view(),
            request_header_index: optional_entries(self.request_header_index),
            response_header_index: optional_entries(self.response_header_index),
            cache_object_response_header_index: optional_entries(self.cache_object_response_header_index),
            lru_nuked: self.lru_nuked,
        }
    }
}

impl<'t> Decode<'t> for BackendAccess<'t> {
    open spec fn decoded(
        v: JsonView,
        profile: Profile,
    ) -> Result<BackendAccessView, DecodeErrorView> {
        match v {
            JsonView::Object(m) => {
                let vxid = required_field::<i64>(m, "vxid"@, profile);
                let start_timestamp = optional_field::<Float>(m, "start_timestamp"@, profile);
                let end_timestamp = optional_field::<Float>(m, "end_timestamp"@, profile);
                let handling = required_field::<&str>(m, "handling"@, profile);
                let request = required_field::<HttpRequest>(m, "request"@, profile);
                let response = optional_field::<HttpResponse>(m, "response"@, profile);
                let send_duration = required_field::<Float>(m, "send_duration"@, profile);
                let wait_duration = optional_field::<Float>(m, "wait_duration"@, profile);
                let ttfb_duration = optional_field::<Float>(m, "ttfb_duration"@, profile);
                let fetch_duration = optional_field::<Float>(m, "fetch_duration"@, profile);
                let sent_header_bytes = optional_field::<u64>(m, "sent_header_bytes"@, profile);
                let sent_body_bytes = optional_field::<u64>(m, "sent_body_bytes"@, profile);
                let sent_total_bytes = optional_field::<u64>(m, "sent_total_bytes"@, profile);
                let recv_header_bytes = optional_field::<u64>(m, "recv_header_bytes"@, profile);
                let recv_body_bytes = optional_field::<u64>(m, "recv_body_bytes"@, profile);
                let recv_total_bytes = optional_field::<u64>(m, "recv_total_bytes"@, profile);
                let retry = required_field::<u64>(m, "retry"@, profile);
                let backend_connection = optional_field::<BackendConnection>(m, "backend_connection"@, profile);
                let cache_object = optional_field::<CacheObject>(m, "cache_object"@, profile);
                let compression = optional_field::<Compression>(m, "compression"@, profile);
                let log = required_field::<Log>(m, "log"@, profile);
                let request_header_index = optional_header_index_field(m, "request_header_index"@, profile);
                let response_header_index = optional_header_index_field(m, "response_header_index"@, profile);
                let cache_object_response_header_index = optional_header_index_field(m, "cache_object_response_header_index"@, profile);
                let lru_nuked = required_field::<u32>(m, "lru_nuked"@, profile);
                if vxid is Err {
                    Err(vxid->Err_0)
                } else if start_timestamp is Err {
                    Err(start_timestamp->Err_0)
                } else if end_timestamp is Err {
                    Err(end_timestamp->Err_0)
                } else if handling is Err {
                    Err(handling->Err_0)
                } else if request is Err {
                    Err(request->Err_0)
                } else if response is Err {
                    Err(response->Err_0)
                } else if send_duration is Err {
                    Err(send_duration->Err_0)
                } else if wait_duration is Err {
                    Err(wait_duration->Err_0)
                } else if ttfb_duration is Err {
                    Err(ttfb_duration->Err_0)
                } else if fetch_duration is Err {
                    Err(fetch_duration->Err_0)
                } else if sent_header_bytes is Err {
                    Err(sent_header_bytes->Err_0)
                } else if sent_body_bytes is Err {
                    Err(sent_body_bytes->Err_0)
                } else if sent_total_bytes is Err {
                    Err(sent_total_bytes->Err_0)
                } else if recv_header_bytes is Err {
                    Err(recv_header_bytes->Err_0)
                } else if recv_body_bytes is Err {
                    Err(recv_body_bytes->Err_0)
                } else if recv_total_bytes is Err {
                    Err(recv_total_bytes->Err_0)
                } else if retry is Err {
                    Err(retry->Err_0)
                } else if backend_connection is Err {
                    Err(backend_connection->Err_0)
                } else if cache_object is Err {
                    Err(cache_object->Err_0)
                } else if compression is Err {
                    Err(compression->Err_0)
                } else if log is Err {
                    Err(log->Err_0)
                } else if request_header_index is Err {
                    Err(request_header_index->Err_0)
                } else if response_header_index is Err {
                    Err(response_header_index->Err_0)
                } else if cache_object_response_header_index is Err {
                    Err(cache_object_response_header_index->Err_0)
                } else if lru_nuked is Err {
                    Err(lru_nuked->Err_0)
                } else {
                    Ok(
                        BackendAccessView {
                            vxid: vxid->Ok_0,
                            start_timestamp: start_timestamp->Ok_0,
                            end_timestamp: end_timestamp->Ok_0,
                            handling: handling->Ok_0,
                            request: request->Ok_0,
                            response: response->Ok_0,
                            send_duration: send_duration->Ok_0,
                            wait_duration: wait_duration->Ok_0,
                            ttfb_duration: ttfb_duration->Ok_0,
                            fetch_duration: fetch_duration->Ok_0,
                            sent_header_bytes: sent_header_bytes->Ok_0,
                            sent_body_bytes: sent_body_bytes->Ok_0,
                            sent_total_bytes: sent_total_bytes->Ok_0,
                            recv_header_bytes: recv_header_bytes->Ok_0,
                            recv_body_bytes: recv_body_bytes->Ok_0,
                            recv_total_bytes: recv_total_bytes->Ok_0,
                            retry: retry->Ok_0,
                            backend_connection: backend_connection->Ok_0,
                            cache_object: cache_object->Ok_0,
                            compression: compression->Ok_0,
                            log: log->Ok_0,
                            request_header_index: request_header_index->Ok_0,
                            response_header_index: response_header_index->Ok_0,
                            cache_object_response_header_index: cache_object_response_header_index->Ok_0,
                            lru_nuked: lru_nuked->Ok_0,
                        },
                    )
                }
            },
            _ => Err(DecodeErrorView::here(ErrorKind::SchemaMismatch)),
        }
    }

    fn decode(v: &'t Json<'t>, profile: Profile) -> (r: Result<Self, DecodeError>) {
        let m = members_of(v)?;
        let vxid = required::<i64>(m, "vxid", profile)?;
        let start_timestamp = optional::<Float>(m, "start_timestamp", profile)?;
        let end_timestamp = optional::<Float>(m, "end_timestamp", profile)?;
        let handling = required::<&'t str>(m, "handling", profile)?;
        let request = required::<HttpRequest>(m, "request", profile)?;
        let response = optional::<HttpResponse>(m, "response", profile)?;
        let send_duration = required::<Float>(m, "send_duration", profile)?;
        let wait_duration = optional::<Float>(m, "wait_duration", profile)?;
        let ttfb_duration = optional::<Float>(m, "ttfb_duration", profile)?;
        let fetch_duration = optional::<Float>(m, "fetch_duration", profile)?;
        let sent_header_bytes = optional::<u64>(m, "sent_header_bytes", profile)?;
        let sent_body_bytes = optional::<u64>(m, "sent_body_bytes", profile)?;
        let sent_total_bytes = optional::<u64>(m, "sent_total_bytes", profile)?;
        let recv_header_bytes = optional::<u64>(m, "recv_header_bytes", profile)?;
        let recv_body_bytes = optional::<u64>(m, "recv_body_bytes", profile)?;
        let recv_total_bytes = optional::<u64>(m, "recv_total_bytes", profile)?;
        let retry = required::<u64>(m, "retry", profile)?;
        let backend_connection = optional::<BackendConnection>(m, "backend_connection", profile)?;
        let cache_object = optional::<CacheObject>(m, "cache_object", profile)?;
        let compression = optional::<Compression>(m, "compression", profile)?;
        let log = required::<Log>(m, "log", profile)?;
        let request_header_index = optional_header_index(m, "request_header_index", profile)?;
        let response_header_index = optional_header_index(m, "response_header_index", profile)?;
        let cache_object_response_header_index = optional_header_index(m, "cache_object_response_header_index", profile)?;
        let lru_nuked = required::<u32>(m, "lru_nuked", profile)?;
        Ok(
            BackendAccess {
                vxid,
                start_timestamp,
                end_timestamp,
                handling,
                request,
                response,
                send_duration,
                wait_duration,
                ttfb_duration,
                fetch_duration,
                sent_header_bytes,
                sent_body_bytes,
                sent_total_bytes,
                recv_header_bytes,
                recv_body_bytes,
                recv_total_bytes,
                retry,
                backend_connection,
                cache_object,
                compression,
                log,
                request_header_index,
                response_header_index,
                cache_object_response_header_index,
                lru_nuked,
            },
        )
    }

    proof fn lemma_detached(v: JsonView) {
        lemma_detach_kind(v);
        if let JsonView::Object(m) = v {
            lemma_detach_members(m);
            lemma_required_detached::<i64>(m, "vxid"@);
            lemma_optional_detached::<Float>(m, "start_timestamp"@);
            lemma_optional_detached::<Float>(m, "end_timestamp"@);
            lemma_required_detached::<&str>(m, "handling"@);
            lemma_required_detached::<HttpRequest>(m, "request"@);
            lemma_optional_detached::<HttpResponse>(m, "response"@);
            lemma_required_detached::<Float>(m, "send_duration"@);
            lemma_optional_detached::<Float>(m, "wait_duration"@);
            lemma_optional_detached::<Float>(m, "ttfb_duration"@);
            lemma_optional_detached::<Float>(m, "fetch_duration"@);
            lemma_optional_detached::<u64>(m, "sent_header_bytes"@);
            lemma_optional_detached::<u64>(m, "sent_body_bytes"@);
            lemma_optional_detached::<u64>(m, "sent_total_bytes"@);
            lemma_optional_detached::<u64>(m, "recv_header_bytes"@);
            lemma_optional_detached::<u64>(m, "recv_body_bytes"@);
            lemma_optional_detached::<u64>(m, "recv_total_bytes"@);
            lemma_required_detached::<u64>(m, "retry"@);
            lemma_optional_detached::<BackendConnection>(m, "backend_connection"@);
            lemma_optional_detached::<CacheObject>(m, "cache_object"@);
            lemma_optional_detached::<Compression>(m, "compression"@);
            lemma_required_detached::<Log>(m, "log"@);
            lemma_optional_header_index_detached(m, "request_header_index"@);
            lemma_optional_header_index_detached(m, "response_header_index"@);
            lemma_optional_header_index_detached(m, "cache_object_response_header_index"@);
            lemma_required_detached::<u32>(m, "lru_nuked"@);
        }
    }
}

} // verus!
