//! Connections: addresses, sessions, and what was done to bodies on the way.

use vstd::prelude::*;
use crate::error::{DecodeError, DecodeErrorView, ErrorKind};
use crate::document::{lemma_detach_kind, lemma_detach_members, Float, Json, JsonView};
use crate::decode::{
    lemma_optional_detached, lemma_required_detached, members_of, optional, optional_field, required, required_field,
    Decode, Profile,
};

verus! {

/// A network endpoint. The address is passed through as the log has it: the
/// model does not check that it is the text of an IP address.
#[derive(Debug)]
pub struct Address<'i> {
    pub ip: &'i str,
    pub port: i64,
}

/// The mathematical value of [`Address`].
pub struct AddressView {
    pub ip: Seq<char>,
    pub port: i64,
}

impl<'i> DeepView for Address<'i> {
    type V = AddressView;

    open spec fn deep_view(&self) -> AddressView {
        AddressView {
            ip: self.ip@,
            port: self.port,
        }
    }
}

impl<'t> Decode<'t> for Address<'t> {
    open spec fn decoded(v: JsonView, profile: Profile) -> Result<AddressView, DecodeErrorView> {
        match v {
            JsonView::Object(m) => {
                let ip = required_field::<&str>(m, "ip"@, profile);
                let port = required_field::<i64>(m, "port"@, profile);
                if ip is Err {
                    Err(ip->Err_0)
                } else if port is Err {
                    Err(port->Err_0)
                } else {
                    Ok(
                        AddressView {
                            ip: ip->Ok_0,
                            port: port->Ok_0,
                        },
                    )
                }
            },
            _ => Err(DecodeErrorView::here(ErrorKind::SchemaMismatch)),
        }
    }

    fn decode(v: &'t Json<'t>, profile: Profile) -> (r: Result<Self, DecodeError>) {
        let m = members_of(v)?;
        let ip = required::<&'t str>(m, "ip", profile)?;
        let port = required::<i64>(m, "port", profile)?;
        Ok(Address { ip, port })
    }

    proof fn lemma_detached(v: JsonView) {
        lemma_detach_kind(v);
        if let JsonView::Object(m) = v {
            lemma_detach_members(m);
            lemma_required_detached::<&str>(m, "ip"@);
            lemma_required_detached::<i64>(m, "port"@);
        }
    }
}

/// What the PROXY protocol header of a connection said.
#[derive(Debug)]
pub struct Proxy<'i> {
    /// The version of the PROXY protocol.
    pub version: &'i str,
    pub client_address: Address<'i>,
    pub server_address: Address<'i>,
}

/// The mathematical value of [`Proxy`].
pub struct ProxyView {
    pub version: Seq<char>,
    pub client_address: AddressView,
    pub server_address: AddressView,
}

impl<'i> DeepView for Proxy<'i> {
    type V = ProxyView;

    open spec fn deep_view(&self) -> ProxyView {
        ProxyView {
            version: self.version@,
            client_address: self.client_address.deep_view(),
            server_address: self.server_address.deep_view(),
        }
    }
}

impl<'t> Decode<'t> for Proxy<'t> {
    open spec fn decoded(v: JsonView, profile: Profile) -> Result<ProxyView, DecodeErrorView> {
        match v {
            JsonView::Object(m) => {
                let version = required_field::<&str>(m, "version"@, profile);
                let client_address = required_field::<Address>(m, "client_address"@, profile);
                let server_address = required_field::<Address>(m, "server_address"@, profile);
                if version is Err {
                    Err(version->Err_0)
                } else if client_address is Err {
                    Err(client_address->Err_0)
                } else if server_address is Err {
                    Err(server_address->Err_0)
                } else {
                    Ok(
                        ProxyView {
                            version: version->Ok_0,
                            client_address: client_address->Ok_0,
                            server_address: server_address->Ok_0,
                        },
                    )
                }
            },
            _ => Err(DecodeErrorView::here(ErrorKind::SchemaMismatch)),
        }
    }

    fn decode(v: &'t Json<'t>, profile: Profile) -> (r: Result<Self, DecodeError>) {
        let m = members_of(v)?;
        let version = required::<&'t str>(m, "version", profile)?;
        let client_address = required::<Address>(m, "client_address", profile)?;
        let server_address = required::<Address>(m, "server_address", profile)?;
        Ok(Proxy { version, client_address, server_address })
    }

    proof fn lemma_detached(v: JsonView) {
        lemma_detach_kind(v);
        if let JsonView::Object(m) = v {
            lemma_detach_members(m);
            lemma_required_detached::<&str>(m, "version"@);
            lemma_required_detached::<Address>(m, "client_address"@);
            lemma_required_detached::<Address>(m, "server_address"@);
        }
    }
}

/// The client connection that a request arrived on.
#[derive(Debug)]
pub struct SessionInfo<'i> {
    /// The session's transaction id.
    pub vxid: u64,
    /// When the connection was opened, in seconds.
    pub open_timestamp: Float,
    pub local_address: Option<Address<'i>>,
    pub remote_address: Address<'i>,
    pub proxy: Option<Proxy<'i>>,
}

/// The mathematical value of [`SessionInfo`].
pub struct SessionInfoView {
    pub vxid: u64,
    pub open_timestamp: Float,
    pub local_address: Option<AddressView>,
    pub remote_address: AddressView,
    pub proxy: Option<ProxyView>,
}

impl<'i> DeepView for SessionInfo<'i> {
    type V = SessionInfoView;

    open spec fn deep_view(&self) -> SessionInfoView {
        SessionInfoView {
            vxid: self.vxid,
            open_timestamp: self.open_timestamp,
            local_address: self.local_address.deep_view(),
            remote_address: self.remote_address.deep_view(),
            proxy: self.proxy.deep_view(),
        }
    }
}

impl<'t> Decode<'t> for SessionInfo<'t> {
    open spec fn decoded(
        v: JsonView,
        profile: Profile,
    ) -> Result<SessionInfoView, DecodeErrorView> {
        match v {
            JsonView::Object(m) => {
                let vxid = required_field::<u64>(m, "vxid"@, profile);
                let open_timestamp = required_field::<Float>(m, "open_timestamp"@, profile);
                let local_address = optional_field::<Address>(m, "local_address"@, profile);
                let remote_address = required_field::<Address>(m, "remote_address"@, profile);
                let proxy = optional_field::<Proxy>(m, "proxy"@, profile);
                if vxid is Err {
                    Err(vxid->Err_0)
                } else if open_timestamp is Err {
                    Err(open_timestamp->Err_0)
                } else if local_address is Err {
                    Err(local_address->Err_0)
                } else if remote_address is Err {
                    Err(remote_address->Err_0)
                } else if proxy is Err {
                    Err(proxy->Err_0)
                } else {
                    Ok(
                        SessionInfoView {
                            vxid: vxid->Ok_0,
                            open_timestamp: open_timestamp->Ok_0,
                            local_address: local_address->Ok_0,
                            remote_address: remote_address->Ok_0,
                            proxy: proxy->Ok_0,
                        },
                    )
                }
            },
            _ => Err(DecodeErrorView::here(ErrorKind::SchemaMismatch)),
        }
    }

    fn decode(v: &'t Json<'t>, profile: Profile) -> (r: Result<Self, DecodeError>) {
        let m = members_of(v)?;
        let vxid = required::<u64>(m, "vxid", profile)?;
        let open_timestamp = required::<Float>(m, "open_timestamp", profile)?;
        let local_address = optional::<Address>(m, "local_address", profile)?;
        let remote_address = required::<Address>(m, "remote_address", profile)?;
        let proxy = optional::<Proxy>(m, "proxy", profile)?;
        Ok(SessionInfo { vxid, open_timestamp, local_address, remote_address, proxy })
    }

    proof fn lemma_detached(v: JsonView) {
        lemma_detach_kind(v);
        if let JsonView::Object(m) = v {
            lemma_detach_members(m);
            lemma_required_detached::<u64>(m, "vxid"@);
            lemma_required_detached::<Float>(m, "open_timestamp"@);
            lemma_optional_detached::<Address>(m, "local_address"@);
            lemma_required_detached::<Address>(m, "remote_address"@);
            lemma_optional_detached::<Proxy>(m, "proxy"@);
        }
    }
}

/// The connection to a backend that a fetch or a pipe session used.
#[derive(Debug)]
pub struct BackendConnection<'i> {
    /// The file descriptor of the connection.
    pub fd: i64,
    /// The backend's name.
    pub name: &'i str,
    pub remote_address: Option<Address<'i>>,
    pub local_address: Address<'i>,
}

/// The mathematical value of [`BackendConnection`].
pub struct BackendConnectionView {
    pub fd: i64,
    pub name: Seq<char>,
    pub remote_address: Option<AddressView>,
    pub local_address: AddressView,
}

impl<'i> DeepView for BackendConnection<'i> {
    type V = BackendConnectionView;

    open spec fn deep_view(&self) -> BackendConnectionView {
        BackendConnectionView {
            fd: self.fd,
            name: self.name@,
            remote_address: self.remote_address.deep_view(),
            local_address: self.local_address.deep_view(),
        }
    }
}

impl<'t> Decode<'t> for BackendConnection<'t> {
    open spec fn decoded(
        v: JsonView,
        profile: Profile,
    ) -> Result<BackendConnectionView, DecodeErrorView> {
        match v {
            JsonView::Object(m) => {
                let fd = required_field::<i64>(m, "fd"@, profile);
                let name = required_field::<&str>(m, "name"@, profile);
                let remote_address = optional_field::<Address>(m, "remote_address"@, profile);
                let local_address = required_field::<Address>(m, "local_address"@, profile);
                if fd is Err {
                    Err(fd->Err_0)
                } else if name is Err {
                    Err(name->Err_0)
                } else if remote_address is Err {
                    Err(remote_address->Err_0)
                } else if local_address is Err {
                    Err(local_address->Err_0)
                } else {
                    Ok(
                        BackendConnectionView {
                            fd: fd->Ok_0,
                            name: name->Ok_0,
                            remote_address: remote_address->Ok_0,
                            local_address: local_address->Ok_0,
                        },
                    )
                }
            },
            _ => Err(DecodeErrorView::here(ErrorKind::SchemaMismatch)),
        }
    }

    fn decode(v: &'t Json<'t>, profile: Profile) -> (r: Result<Self, DecodeError>) {
        let m = members_of(v)?;
        let fd = required::<i64>(m, "fd", profile)?;
        let name = required::<&'t str>(m, "name", profile)?;
        let remote_address = optional::<Address>(m, "remote_address", profile)?;
        let local_address = required::<Address>(m, "local_address", profile)?;
        Ok(BackendConnection { fd, name, remote_address, local_address })
    }

    proof fn lemma_detached(v: JsonView) {
        lemma_detach_kind(v);
        if let JsonView::Object(m) = v {
            lemma_detach_members(m);
            lemma_required_detached::<i64>(m, "fd"@);
            lemma_required_detached::<&str>(m, "name"@);
            lemma_optional_detached::<Address>(m, "remote_address"@);
            lemma_required_detached::<Address>(m, "local_address"@);
        }
    }
}

/// What a compression or decompression step did to a body.
#[derive(Debug)]
pub struct Compression<'i> {
    /// The operation, such as `gzip` or `gunzip`.
    pub operation: &'i str,
    pub bytes_in: u64,
    pub bytes_out: u64,
}

/// The mathematical value of [`Compression`].
pub struct CompressionView {
    pub operation: Seq<char>,
    pub bytes_in: u64,
    pub bytes_out: u64,
}

impl<'i> DeepView for Compression<'i> {
    type V = CompressionView;

    open spec fn deep_view(&self) -> CompressionView {
        CompressionView {
            operation: self.operation@,
            bytes_in: self.bytes_in,
            bytes_out: self.bytes_out,
        }
    }
}

impl<'t> Decode<'t> for Compression<'t> {
    open spec fn decoded(
        v: JsonView,
        profile: Profile,
    ) -> Result<CompressionView, DecodeErrorView> {
        match v {
            JsonView::Object(m) => {
                let operation = required_field::<&str>(m, "operation"@, profile);
                let bytes_in = required_field::<u64>(m, "bytes_in"@, profile);
                let bytes_out = required_field::<u64>(m, "bytes_out"@, profile);
                if operation is Err {
                    Err(operation->Err_0)
                } else if bytes_in is Err {
                    Err(bytes_in->Err_0)
                } else if bytes_out is Err {
                    Err(bytes_out->Err_0)
                } else {
                    Ok(
                        CompressionView {
                            operation: operation->Ok_0,
                            bytes_in: bytes_in->Ok_0,
                            bytes_out: bytes_out->Ok_0,
                        },
                    )
                }
            },
            _ => Err(DecodeErrorView::here(ErrorKind::SchemaMismatch)),
        }
    }

    fn decode(v: &'t Json<'t>, profile: Profile) -> (r: Result<Self, DecodeError>) {
        let m = members_of(v)?;
        let operation = required::<&'t str>(m, "operation", profile)?;
        let bytes_in = required::<u64>(m, "bytes_in", profile)?;
        let bytes_out = required::<u64>(m, "bytes_out", profile)?;
        Ok(Compression { operation, bytes_in, bytes_out })
    }

    proof fn lemma_detached(v: JsonView) {
        lemma_detach_kind(v);
        if let JsonView::Object(m) = v {
            lemma_detach_members(m);
            lemma_required_detached::<&str>(m, "operation"@);
            lemma_required_detached::<u64>(m, "bytes_in"@);
            lemma_required_detached::<u64>(m, "bytes_out"@);
        }
    }
}

} // verus!
