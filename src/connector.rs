//! Connector kinds by name, and the codecs they ask for.
use vstd::prelude::*;
use crate::value::same_text;

verus! {

/// What a connector asks of the codec configuration.
#[derive(PartialEq, Eq, Structural, Clone, Copy, Debug)]
pub enum CodecReq {
    /// A codec must be configured.
    Required,
    /// A codec may be configured; JSON is used otherwise.
    OptionalJson,
    /// Events pass as structured values, without a codec.
    Structured,
}

/// The connectors this library knows, by their type name.
#[derive(PartialEq, Eq, Structural, Clone, Copy, Debug)]
pub enum ConnectorKind {
    Cb,
    Clickhouse,
    TcpServer,
    WsServer,
    UnixSocketServer,
}

impl ConnectorKind {
    pub open spec fn spec_name(self) -> Seq<char> {
        match self {
            ConnectorKind::Cb => "cb"@,
            ConnectorKind::Clickhouse => "clickhouse"@,
            ConnectorKind::TcpServer => "tcp_server"@,
            ConnectorKind::WsServer => "ws_server"@,
            ConnectorKind::UnixSocketServer => "unix_socket_server"@,
        }
    }

    /// The connector type's name.
    pub fn connector_type(self) -> (r: &'static str)
        ensures
            r@ == self.spec_name(),
    {
        match self {
            ConnectorKind::Cb => "cb",
            ConnectorKind::Clickhouse => "clickhouse",
            ConnectorKind::TcpServer => "tcp_server",
            ConnectorKind::WsServer => "ws_server",
            ConnectorKind::UnixSocketServer => "unix_socket_server",
        }
    }

    /// The connector of type `name`.
    pub fn from_name(name: &str) -> (r: Option<ConnectorKind>)
        ensures
            match r {
                Some(k) => k.spec_name() == name@,
                None => forall|k: ConnectorKind| k.spec_name() != name@,
            },
    {
        if same_text(name, "cb") {
            Some(ConnectorKind::Cb)
        } else if same_text(name, "clickhouse") {
            Some(ConnectorKind::Clickhouse)
        } else if same_text(name, "tcp_server") {
            Some(ConnectorKind::TcpServer)
        } else if same_text(name, "ws_server") {
            Some(ConnectorKind::WsServer)
        } else if same_text(name, "unix_socket_server") {
            Some(ConnectorKind::UnixSocketServer)
        } else {
            None
        }
    }

    pub open spec fn spec_codec_requirements(self) -> CodecReq {
        match self {
            ConnectorKind::Cb => CodecReq::OptionalJson,
            ConnectorKind::Clickhouse => CodecReq::Structured,
            _ => CodecReq::Required,
        }
    }

    pub fn codec_requirements(self) -> (r: CodecReq)
        ensures
            r == self.spec_codec_requirements(),
    {
        match self {
            ConnectorKind::Cb => CodecReq::OptionalJson,
            ConnectorKind::Clickhouse => CodecReq::Structured,
            _ => CodecReq::Required,
        }
    }
}

} // verus!
