//! Calls of the daemon: what is sent, and what becomes of the reply.

use vstd::prelude::*;
use crate::json::Json;
use crate::llm::{cut_for_debug, truncate_debug};
use crate::rpc::{JsonRpcError, JsonRpcId, JsonRpcRequest, JsonRpcResponse};
use crate::text::{blank, cat, cat3, chars_of, integer_text, integer_to_text, is_blank, string_of};

verus! {

#[derive(Debug)]
pub enum RpcClientError {
    Transport(String),
    InvalidRequest(String),
    InvalidResponse(String),
    Rpc(i64, String),
}

impl RpcClientError {
    /// The error in words.
    pub open spec fn said(self) -> Seq<char> {
        match self {
            RpcClientError::Transport(s) => "transport error: "@ + s@,
            RpcClientError::InvalidRequest(s) => "invalid request: "@ + s@,
            RpcClientError::InvalidResponse(s) => "invalid response: "@ + s@,
            RpcClientError::Rpc(code, s) => "rpc error "@ + integer_text(code as int) + ": "@ + s@,
        }
    }

    /// The error in words.
    pub fn to_text(&self) -> (r: String)
        ensures
            r@ == self.said(),
    {
        match self {
            RpcClientError::Transport(s) => cat("transport error: ", s.as_str()),
            RpcClientError::InvalidRequest(s) => cat("invalid request: ", s.as_str()),
            RpcClientError::InvalidResponse(s) => cat("invalid response: ", s.as_str()),
            RpcClientError::Rpc(code, s) => {
                let head = cat3("rpc error ", integer_to_text(*code).as_str(), ": ");
                cat(head.as_str(), s.as_str())
            },
        }
    }
}

/// A text without the slashes at its end.
pub open spec fn without_slashes(s: Seq<char>) -> Seq<char>
    decreases s.len(),
{
    if s.len() > 0 && s.last() == '/' {
        without_slashes(s.drop_last())
    } else {
        s
    }
}

/// Where calls are sent, given the address of the daemon.
pub fn endpoint(addr: &str) -> (r: String)
    ensures
        r@ == without_slashes(addr@) + "/rpc"@,
{
    let chars = chars_of(addr);
    let mut n: usize = chars.len();
    assert(chars@.take(n as int) =~= chars@);
    while n > 0 && chars[n - 1] == '/'
        invariant
            n <= chars@.len(),
            without_slashes(chars@) == without_slashes(chars@.take(n as int)),
        decreases n,
    {
        assert(chars@.take(n as int).drop_last() =~= chars@.take(n - 1));
        n = n - 1;
    }
    let base = string_of(&chars, 0, n);
    assert(base@ =~= chars@.take(n as int));
    cat(base.as_str(), "/rpc")
}

/// The request that a call sends. A call needs the name of a method.
pub fn request(method: &str, params: Option<Json>, id: i64) -> (r: Result<
    JsonRpcRequest,
    RpcClientError,
>)
    ensures
        match r {
            Ok(request) => {
                &&& !blank(method@)
                &&& request.jsonrpc@ == "2.0"@
                &&& request.method@ == method@
                &&& request.params == params
                &&& request.id == Some(JsonRpcId::Number(id))
            },
            Err(e) => blank(method@) && (e matches RpcClientError::InvalidRequest(s) && s@
                == "method must not be empty"@),
        },
{
    if is_blank(method) {
        return Err(RpcClientError::InvalidRequest("method must not be empty".to_owned()));
    }
    Ok(
        JsonRpcRequest {
            jsonrpc: "2.0".to_owned(),
            method: method.to_owned(),
            params,
            id: Some(JsonRpcId::Number(id)),
        },
    )
}

/// What is said of a request and its reply for those who look for faults.
pub open spec fn debug_context(request: Seq<char>, response: Seq<char>) -> Seq<char> {
    if response.len() == 0 {
        "request="@ + cut_for_debug(request, 4000)
    } else {
        "request="@ + cut_for_debug(request, 4000) + " response="@ + cut_for_debug(response, 4000)
    }
}

pub fn format_rpc_debug_context(request_debug: &str, response_debug: &str) -> (r: String)
    ensures
        r@ == debug_context(request_debug@, response_debug@),
{
    let mut text = cat("request=", truncate_debug(request_debug, 4000).as_str());
    if response_debug.is_empty() {
        return text;
    }
    text.append(" response=");
    text.append(truncate_debug(response_debug, 4000).as_str());
    text
}

/// Why a request brought no reply.
#[derive(Debug)]
pub enum TransportFault {
    /// There was no connection.
    Connect,
    /// It took too long.
    Timeout,
    /// Anything else, as it is said.
    Other(String),
}

/// What is said of a request that brought no reply.
pub open spec fn transport_said(
    fault: TransportFault,
    endpoint: Seq<char>,
    method: Seq<char>,
    request: Seq<char>,
) -> Seq<char> {
    let context = debug_context(request, Seq::empty());
    match fault {
        TransportFault::Connect => "unable to reach daemon admin RPC at '"@ + endpoint
            + "' for method '"@ + method
            + "'. neuromancerd does not appear to be running. Start it with `neuroctl daemon start`. "@
            + context,
        TransportFault::Timeout => "request to daemon admin RPC at '"@ + endpoint
            + "' timed out for method '"@ + method + "'. "@ + context,
        TransportFault::Other(said) => said@ + ". "@ + context,
    }
}

pub fn map_transport_error(
    fault: TransportFault,
    endpoint: &str,
    method: &str,
    request_debug: &str,
) -> (r: RpcClientError)
    ensures
        r matches RpcClientError::Transport(s) && s@ == transport_said(
            fault,
            endpoint@,
            method@,
            request_debug@,
        ),
{
    proof {
        reveal_strlit("");
        assert(""@ =~= Seq::empty());
    }
    let context = format_rpc_debug_context(request_debug, "");
    let text = match fault {
        TransportFault::Connect => {
            let mut text = cat3(
                "unable to reach daemon admin RPC at '",
                endpoint,
                "' for method '",
            );
            text.append(method);
            text.append(
                "'. neuromancerd does not appear to be running. Start it with `neuroctl daemon start`. ",
            );
            text.append(context.as_str());
            text
        },
        TransportFault::Timeout => {
            let mut text = cat3(
                "request to daemon admin RPC at '",
                endpoint,
                "' timed out for method '",
            );
            text.append(method);
            text.append("'. ");
            text.append(context.as_str());
            text
        },
        TransportFault::Other(said) => cat3(said.as_str(), ". ", context.as_str()),
    };
    RpcClientError::Transport(text)
}

/// The error that the daemon reports.
pub fn map_rpc_error(err: JsonRpcError, request_debug: &str, response_debug: &str) -> (r:
    RpcClientError)
    ensures
        r matches RpcClientError::Rpc(code, s) && code == err.code && s@ == err.message@ + ". "@
            + debug_context(request_debug@, response_debug@),
{
    let context = format_rpc_debug_context(request_debug, response_debug);
    RpcClientError::Rpc(err.code, cat3(err.message.as_str(), ". ", context.as_str()))
}

/// A reply that is not as it must be.
pub open spec fn is_bad_reply(e: RpcClientError, said: Seq<char>, context: Seq<char>) -> bool {
    e matches RpcClientError::InvalidResponse(s) && s@ == said + ". "@ + context
}

/// A reply brings the result of the request with this number.
pub open spec fn counts_for(reply: JsonRpcResponse, id: i64) -> bool {
    &&& reply.id == Some(JsonRpcId::Number(id))
    &&& reply.error is None
    &&& reply.result is Some
}

/// The result that a reply brings. The reply must be readable and must answer the request; it may
/// report an error; else it must have a result.
pub fn read_reply(
    method: &str,
    id: i64,
    reply: Result<JsonRpcResponse, String>,
    status: &str,
    request_debug: &str,
    body_debug: &str,
) -> (r: Result<Json, RpcClientError>)
    ensures
        r is Ok == (reply matches Ok(envelope) && counts_for(envelope, id)),
        ({
            let context = debug_context(request_debug@, body_debug@);
            match reply {
                Err(fault) => r matches Err(e) && is_bad_reply(
                    e,
                    "failed to parse JSON-RPC response for method '"@ + method@ + "': "@ + fault@,
                    context,
                ),
                Ok(envelope) => if envelope.id != Some(JsonRpcId::Number(id)) {
                    r matches Err(e) && is_bad_reply(
                        e,
                        "mismatched response id for method '"@ + method@ + "'"@,
                        context,
                    )
                } else {
                    match (envelope.error, envelope.result) {
                        (Some(err), _) => r matches Err(RpcClientError::Rpc(code, s)) && code
                            == err.code && s@ == err.message@ + ". "@ + context,
                        (None, Some(result)) => r == Ok::<Json, RpcClientError>(result),
                        (None, None) => r matches Err(e) && is_bad_reply(
                            e,
                            "missing result in response for method '"@ + method@
                                + "' (http status: "@ + status@ + ")"@,
                            context,
                        ),
                    }
                },
            }
        }),
{
    let envelope = match reply {
        Err(fault) => {
            let mut text = cat3(
                "failed to parse JSON-RPC response for method '",
                method,
                "': ",
            );
            text.append(fault.as_str());
            text.append(". ");
            text.append(format_rpc_debug_context(request_debug, body_debug).as_str());
            return Err(RpcClientError::InvalidResponse(text));
        },
        Ok(envelope) => envelope,
    };
    let answers = match &envelope.id {
        Some(JsonRpcId::Number(n)) => *n == id,
        _ => false,
    };
    if !answers {
        let mut text = cat3("mismatched response id for method '", method, "'");
        text.append(". ");
        text.append(format_rpc_debug_context(request_debug, body_debug).as_str());
        return Err(RpcClientError::InvalidResponse(text));
    }
    if let Some(err) = envelope.error {
        return Err(map_rpc_error(err, request_debug, body_debug));
    }
    match envelope.result {
        Some(result) => Ok(result),
        None => {
            let mut text = cat3(
                "missing result in response for method '",
                method,
                "' (http status: ",
            );
            text.append(status);
            text.append(")");
            text.append(". ");
            text.append(format_rpc_debug_context(request_debug, body_debug).as_str());
            Err(RpcClientError::InvalidResponse(text))
        },
    }
}

/// No reply counts for two requests.
pub proof fn only_own_replies_count(reply: JsonRpcResponse, id: i64, other: i64)
    requires
        counts_for(reply, id),
        counts_for(reply, other),
    ensures
        id == other,
{
}

/// The slashes at the end of an address do not count.
pub proof fn slashes_at_the_end_do_not_count(s: Seq<char>)
    ensures
        without_slashes(s.push('/')) == without_slashes(s),
        s.len() > 0 && s.last() != '/' ==> without_slashes(s) == s,
        without_slashes(Seq::empty()) == Seq::<char>::empty(),
{
    assert(s.push('/').drop_last() =~= s);
}

/// What was asked and what came back is told in the error, as far as anything came back.
pub proof fn errors_tell_what_was_asked(request: Seq<char>, response: Seq<char>)
    requires
        request.len() <= 4000,
        response.len() <= 4000,
    ensures
        response.len() == 0 ==> debug_context(request, response) == "request="@ + request,
        response.len() > 0 ==> debug_context(request, response) == "request="@ + request
            + " response="@ + response,
{
}

/// What is said where nothing came back: who was asked for what, and what to do.
pub proof fn faults_name_the_daemon(
    said: String,
    endpoint: Seq<char>,
    method: Seq<char>,
    request: Seq<char>,
)
    requires
        request.len() <= 4000,
    ensures
        transport_said(TransportFault::Connect, endpoint, method, request)
            == "unable to reach daemon admin RPC at '"@ + endpoint + "' for method '"@ + method
            + "'. neuromancerd does not appear to be running. Start it with `neuroctl daemon start`. "@
            + ("request="@ + request),
        transport_said(TransportFault::Timeout, endpoint, method, request)
            == "request to daemon admin RPC at '"@ + endpoint + "' timed out for method '"@ + method
            + "'. "@ + ("request="@ + request),
        transport_said(TransportFault::Other(said), endpoint, method, request) == said@ + ". "@ + (
        "request="@ + request),
{
}

/// What each error of the client says.
pub proof fn client_errors_say_what_went_wrong(s: String, code: i64)
    ensures
        RpcClientError::Transport(s).said() == "transport error: "@ + s@,
        RpcClientError::InvalidRequest(s).said() == "invalid request: "@ + s@,
        RpcClientError::InvalidResponse(s).said() == "invalid response: "@ + s@,
        RpcClientError::Rpc(code, s).said() == "rpc error "@ + integer_text(code as int) + ": "@ + s@,
{
}

/// A reply counts where it answers the request that was made, with a result and without an error.
pub proof fn replies_answer_their_request(reply: JsonRpcResponse, id: i64)
    ensures
        counts_for(reply, id) <==> (reply.id matches Some(JsonRpcId::Number(n)) && n == id)
            && reply.error is None && reply.result is Some,
{
}

/// A bad reply is told with what was said of it and what was asked.
pub proof fn bad_replies_are_told(e: RpcClientError, said: Seq<char>, context: Seq<char>)
    requires
        is_bad_reply(e, said, context),
    ensures
        e.said() == "invalid response: "@ + (said + ". "@ + context),
{
}

} // verus!
