//! The framework's decisions around the message loop: where an incoming
//! message goes, whether an HTTP API call reaches the handler, and the
//! shape of what goes back out.
use vstd::prelude::*;
use vstd::string::*;
use crate::address::{Address, AddressView};

verus! {

/// Where an incoming message goes.
#[derive(Clone, Copy, PartialEq, Eq, Structural, Debug)]
pub enum Route {
    /// A local request from the HTTP server: to the API handler.
    HttpApi,
    /// Another local message: dropped.
    Ignore,
    /// A message from another node: to the remote request handler.
    Remote,
}

/// The text form of a process identifier, `process:package:publisher`.
pub open spec fn process_id_text(a: AddressView) -> Seq<char> {
    a.process_name + ":"@ + a.package_name + ":"@ + a.publisher_node
}

/// The process identifier of the HTTP server.
pub open spec fn http_server_process() -> Seq<char> {
    "http_server:distro:sys"@
}

/// Where a message from `source` goes in the process at `our`: local
/// messages (from our own node) go to the API handler when the HTTP server
/// sent them and are dropped otherwise; all others are remote requests.
pub open spec fn route(our: AddressView, source: AddressView) -> Route {
    if source.node == our.node {
        if process_id_text(source) == http_server_process() {
            Route::HttpApi
        } else {
            Route::Ignore
        }
    } else {
        Route::Remote
    }
}

fn process_id_string(a: &Address) -> (s: String)
    ensures
        s@ == process_id_text(a@),
{
    let s = String::from_str(a.process_name.as_str());
    let s = s.concat(":");
    let s = s.concat(a.package_name.as_str());
    let s = s.concat(":");
    s.concat(a.publisher_node.as_str())
}

/// Routes a message from `source` arriving at the process at `our`.
pub fn route_message(our: &Address, source: &Address) -> (r: Route)
    ensures
        r == route(our@, source@),
        (r == Route::Remote) <==> source.node@ != our.node@,
        (r == Route::HttpApi) <==> (source.node@ == our.node@ && source.process_name@ + ":"@
            + source.package_name@ + ":"@ + source.publisher_node@ == "http_server:distro:sys"@),
{
    if source.node == our.node {
        let http_server = String::from_str("http_server:distro:sys");
        if process_id_string(source) == http_server {
            Route::HttpApi
        } else {
            Route::Ignore
        }
    } else {
        Route::Remote
    }
}

/// What becomes of an HTTP API request.
#[derive(Debug, PartialEq, Eq)]
pub enum ApiDecision<T> {
    /// Answer with this status and no body.
    Reject { status: u16 },
    /// Hand the decoded call to the API handler.
    Call(T),
}

/// The HTTP status of a rejected API request.
pub const BAD_REQUEST: u16 = 400;

/// Decides an HTTP API request from its body: `None` when it has no body,
/// otherwise the outcome of decoding the body as a call. A missing body or
/// one that does not decode is answered with 400; a decoded call goes to
/// the handler.
pub fn decide_api_call<T, E>(body: Option<Result<T, E>>) -> (d: ApiDecision<T>)
    ensures
        match body {
            Some(Ok(call)) => d == ApiDecision::<T>::Call(call),
            _ => d == ApiDecision::<T>::Reject { status: BAD_REQUEST },
        },
{
    match body {
        Some(Ok(call)) => ApiDecision::Call(call),
        _ => ApiDecision::Reject { status: BAD_REQUEST },
    }
}

/// A payload with its MIME type.
#[derive(Debug, PartialEq, Eq)]
pub struct Blob {
    pub mime: Option<String>,
    pub bytes: Vec<u8>,
}

/// Wraps bytes as a JSON payload.
pub fn json_blob(bytes: Vec<u8>) -> (b: Blob)
    ensures
        b.mime matches Some(m) && m@ == "application/json"@,
        b.bytes@ == bytes@,
{
    Blob { mime: Some(String::from_str("application/json")), bytes }
}

/// The kind of a WebSocket message.
#[derive(Clone, Copy, PartialEq, Eq, Structural, Debug)]
pub enum WsMessageKind {
    Text,
    Binary,
}

/// A WebSocket message to push to every client of a path.
#[derive(Debug, PartialEq, Eq)]
pub struct WsPush {
    pub path: String,
    pub kind: WsMessageKind,
    pub blob: Blob,
}

/// The update to push to every WebSocket client: a JSON text message on
/// `/updates`.
pub fn ws_update(bytes: Vec<u8>) -> (p: WsPush)
    ensures
        p.path@ == "/updates"@,
        p.kind == WsMessageKind::Text,
        p.blob.mime matches Some(m) && m@ == "application/json"@,
        p.blob.bytes@ == bytes@,
{
    WsPush { path: String::from_str("/updates"), kind: WsMessageKind::Text, blob: json_blob(bytes) }
}

/// How the HTTP server of an application is set up.
#[derive(Debug, PartialEq, Eq)]
pub struct ServerSetup {
    /// Seconds the server waits on its own requests.
    pub timeout_secs: u64,
    /// The directory of the static UI.
    pub ui_directory: String,
    /// The paths that serve the UI.
    pub ui_paths: Vec<String>,
    /// The path of the HTTP API.
    pub api_path: String,
    /// The path of the WebSocket updates.
    pub ws_path: String,
    /// The path that the homepage entry links to.
    pub homepage_path: String,
}

/// The set-up of every application: a server with a five-second timeout,
/// the UI from `ui` on `/`, the API on `/api`, updates on `/updates`, and a
/// homepage entry linking to `/`.
pub fn server_setup() -> (s: ServerSetup)
    ensures
        s.timeout_secs == 5,
        s.ui_directory@ == "ui"@,
        s.ui_paths@.len() == 1,
        s.ui_paths@[0]@ == "/"@,
        s.api_path@ == "/api"@,
        s.ws_path@ == "/updates"@,
        s.homepage_path@ == "/"@,
{
    let mut ui_paths: Vec<String> = Vec::new();
    ui_paths.push(String::from_str("/"));
    ServerSetup {
        timeout_secs: 5,
        ui_directory: String::from_str("ui"),
        ui_paths,
        api_path: String::from_str("/api"),
        ws_path: String::from_str("/updates"),
        homepage_path: String::from_str("/"),
    }
}

} // verus!
