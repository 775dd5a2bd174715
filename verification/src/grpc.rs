//! The gRPC technology.

use vstd::prelude::*;
use vstd::slice::slice_to_vec;
use crate::call::{
    fields, Arrival, ArrivalView, ContractId, Fault, FaultView, Header, HeaderView, Invocation,
    InvocationView, Outcome, OutcomeView, Reply, ReplyView, Request, RequestView, Stream,
    StreamView,
};
use crate::error::{LogicError, LogicErrorView};
use crate::frame::{frame, framed, unframe, unframed};
use crate::metadata::{field, field_of, lemma_field_of_both, metadata, metadata_of};
use crate::path::{name_of, named, path_to};
use crate::status::{status_code, status_of};
use crate::text::same_text;

verus! {

/// The media type of a framed message.
pub const CONTENT_TYPE: &'static str = "application/grpc";

/// The media type of a message out of its frame.
pub const ARGUMENTS: &'static str = "application/protobuf";

/// The gRPC technology.
pub struct Grpc;

/// The field `name` with the given value.
pub open spec fn header(name: Seq<char>, value: Seq<char>) -> HeaderView {
    HeaderView { name, value }
}

/// The invocation that an arrival stands for. A target that names no operation
/// is refused before a body that holds no frame.
pub open spec fn invocation_of(arrival: ArrivalView) -> Result<InvocationView, LogicErrorView> {
    match named(arrival.target) {
        Err(error) => Err(error),
        Ok(operation) => match unframed(arrival.body.bytes) {
            Err(error) => Err(error),
            Ok((message, compressed)) => Ok(
                InvocationView {
                    operation,
                    arguments: StreamView {
                        id: arrival.body.id,
                        bytes: message,
                        media_type: Some(ARGUMENTS@),
                    },
                    parameters: if compressed {
                        metadata_of(arrival.headers).push(header("grpc-compressed"@, "true"@))
                    } else {
                        metadata_of(arrival.headers)
                    },
                    contract: Some("protobuf"@),
                },
            ),
        },
    }
}

/// The header fields of every reply.
pub open spec fn reply_headers() -> Seq<HeaderView> {
    seq![header(":status"@, "200"@), header("content-type"@, CONTENT_TYPE@)]
}

/// The trailer fields of a reply that carries a result.
pub open spec fn result_trailers() -> Seq<HeaderView> {
    seq![header("grpc-status"@, "0"@)]
}

/// The trailer fields of a reply that carries a fault.
pub open spec fn fault_trailers(fault: FaultView) -> Seq<HeaderView> {
    seq![
        header("grpc-status"@, status_of(fault.code)),
        header("grpc-message"@, fault.message),
    ]
}

/// The reply to an invocation that came out as `outcome`: one frame for a
/// result, an empty body for a fault, and the status in the trailers.
pub open spec fn reply_to(invocation: InvocationView, outcome: OutcomeView) -> Result<
    ReplyView,
    LogicErrorView,
> {
    match outcome {
        OutcomeView::Result(result) => match framed(result.bytes) {
            Err(error) => Err(error),
            Ok(bytes) => Ok(
                ReplyView {
                    headers: reply_headers(),
                    body: StreamView {
                        id: invocation.arguments.id,
                        bytes,
                        media_type: Some(CONTENT_TYPE@),
                    },
                    trailers: result_trailers(),
                },
            ),
        },
        OutcomeView::Fault(fault) => Ok(
            ReplyView {
                headers: reply_headers(),
                body: StreamView {
                    id: invocation.arguments.id,
                    bytes: Seq::empty(),
                    media_type: Some(CONTENT_TYPE@),
                },
                trailers: fault_trailers(fault),
            },
        ),
    }
}

/// The header fields of every request, before its metadata.
pub open spec fn request_headers() -> Seq<HeaderView> {
    seq![header("content-type"@, CONTENT_TYPE@), header("te"@, "trailers"@)]
}

/// The request that asks for an invocation: its operation in the target, its
/// arguments in one frame, its parameters among the headers.
pub open spec fn request_for(invocation: InvocationView) -> Result<RequestView, LogicErrorView> {
    match framed(invocation.arguments.bytes) {
        Err(error) => Err(error),
        Ok(bytes) => Ok(
            RequestView {
                target: path_to(invocation.operation),
                method: "POST"@,
                headers: request_headers() + metadata_of(invocation.parameters),
                body: StreamView {
                    id: invocation.arguments.id,
                    bytes,
                    media_type: Some(CONTENT_TYPE@),
                },
            },
        ),
    }
}

/// What a reply says under `name`: in its trailers, or else in its headers.
pub open spec fn reply_field(reply: ReplyView, name: Seq<char>) -> Option<Seq<char>> {
    field_of(reply.trailers + reply.headers, name)
}

/// The status of a reply: that of a result where it says none.
pub open spec fn reply_status(reply: ReplyView) -> Seq<char> {
    match reply_field(reply, "grpc-status"@) {
        Some(status) => status,
        None => "0"@,
    }
}

/// How an invocation came out, as its reply tells: a fault under any status but
/// `0`, and otherwise the message in the body.
pub open spec fn outcome_of(invocation: InvocationView, reply: ReplyView) -> Result<
    OutcomeView,
    LogicErrorView,
> {
    if reply_status(reply) != "0"@ {
        Ok(
            OutcomeView::Fault(
                FaultView {
                    code: reply_status(reply),
                    message: match reply_field(reply, "grpc-message"@) {
                        Some(message) => message,
                        None => Seq::empty(),
                    },
                },
            ),
        )
    } else {
        match unframed(reply.body.bytes) {
            Err(error) => Err(error),
            Ok((message, _)) => Ok(
                OutcomeView::Result(
                    StreamView {
                        id: invocation.arguments.id,
                        bytes: message,
                        media_type: Some(ARGUMENTS@),
                    },
                ),
            ),
        }
    }
}

/// What a reply says under `name`: in its trailers first, since a reply with no
/// body may carry its status in its only header block.
fn said_in<'a>(reply: &'a Reply, name: &str) -> (value: Option<&'a str>)
    ensures
        match value {
            Some(value) => reply_field(reply@, name@) == Some(value@),
            None => reply_field(reply@, name@) is None,
        },
{
    proof {
        lemma_field_of_both(reply@.trailers, reply@.headers, name@);
    }
    match field(reply.trailers.as_slice(), name) {
        Some(value) => Some(value),
        None => field(reply.headers.as_slice(), name),
    }
}

impl Grpc {
    /// The technology's name.
    pub fn technology(&self) -> (name: &'static str)
        ensures
            name@ == "grpc"@,
    {
        "grpc"
    }

    /// The invocation that an arrival stands for.
    pub fn invocation(&self, arrival: &Arrival<'_>) -> (read: Result<Invocation, LogicError>)
        ensures
            match read {
                Ok(invocation) => invocation_of(arrival@) == Ok::<InvocationView, LogicErrorView>(
                    invocation@,
                ),
                Err(error) => invocation_of(arrival@) == Err::<InvocationView, LogicErrorView>(
                    error@,
                ),
            },
    {
        let operation = match name_of(arrival.target) {
            Ok(operation) => operation,
            Err(error) => return Err(error),
        };
        let (message, compressed) = match unframe(arrival.body.bytes()) {
            Ok(unframed) => unframed,
            Err(error) => return Err(error),
        };
        let mut parameters = metadata(arrival.headers);
        if compressed {
            // The bytes are passed through with the fact recorded; decoding is
            // the message representation's concern, not the method's.
            let ghost before = parameters@;
            parameters.push(Header::new("grpc-compressed", "true"));
            assert(fields(parameters@) =~= fields(before).push(
                header("grpc-compressed"@, "true"@),
            ));
        }
        Ok(
            Invocation {
                operation,
                arguments: Stream::new(
                    arrival.body.id(),
                    slice_to_vec(message),
                    Some(ARGUMENTS.to_string()),
                ),
                parameters,
                contract: Some(ContractId("protobuf".to_string())),
            },
        )
    }

    /// The reply to an invocation that came out as `outcome`.
    pub fn reply(&self, invocation: &Invocation, outcome: &Outcome) -> (written: Result<
        Reply,
        LogicError,
    >)
        ensures
            match written {
                Ok(reply) => reply_to(invocation@, outcome@) == Ok::<ReplyView, LogicErrorView>(
                    reply@,
                ),
                Err(error) => reply_to(invocation@, outcome@) == Err::<ReplyView, LogicErrorView>(
                    error@,
                ),
            },
    {
        let id = invocation.arguments.id();
        let headers = vec![
            Header::new(":status", "200"),
            Header::new("content-type", CONTENT_TYPE),
        ];
        assert(fields(headers@) =~= reply_headers());
        match outcome {
            Outcome::Result(result) => {
                let bytes = match frame(result.bytes()) {
                    Ok(bytes) => bytes,
                    Err(error) => return Err(error),
                };
                let trailers = vec![Header::new("grpc-status", "0")];
                assert(fields(trailers@) =~= result_trailers());
                Ok(
                    Reply {
                        headers,
                        body: Stream::new(id, bytes, Some(CONTENT_TYPE.to_string())),
                        trailers,
                    },
                )
            },
            Outcome::Fault(fault) => {
                let trailers = vec![
                    Header::new("grpc-status", status_code(fault)),
                    Header::new("grpc-message", fault.message.as_str()),
                ];
                assert(fields(trailers@) =~= fault_trailers(fault@));
                Ok(
                    Reply {
                        headers,
                        body: Stream::new(id, Vec::new(), Some(CONTENT_TYPE.to_string())),
                        trailers,
                    },
                )
            },
        }
    }

    /// The request that asks for an invocation.
    pub fn request(&self, invocation: &Invocation) -> (written: Result<Request, LogicError>)
        ensures
            match written {
                Ok(request) => request_for(invocation@) == Ok::<RequestView, LogicErrorView>(
                    request@,
                ),
                Err(error) => request_for(invocation@) == Err::<RequestView, LogicErrorView>(
                    error@,
                ),
            },
    {
        let bytes = match frame(invocation.arguments.bytes()) {
            Ok(bytes) => bytes,
            Err(error) => return Err(error),
        };
        let mut headers = vec![
            Header::new("content-type", CONTENT_TYPE),
            Header::new("te", "trailers"),
        ];
        assert(fields(headers@) =~= request_headers());
        let mut parameters = metadata(invocation.parameters.as_slice());
        proof {
            let both = headers@ + parameters@;
            assert(fields(both) =~= fields(headers@) + fields(parameters@));
        }
        headers.append(&mut parameters);
        let mut target = "/".to_string();
        target.append(invocation.operation.service.as_str());
        target.append("/");
        target.append(invocation.operation.name.as_str());
        proof {
            reveal_strlit("/");
            assert("/"@ =~= seq!['/']);
        }
        Ok(
            Request {
                target,
                method: "POST".to_string(),
                headers,
                body: Stream::new(
                    invocation.arguments.id(),
                    bytes,
                    Some(CONTENT_TYPE.to_string()),
                ),
            },
        )
    }

    /// How an invocation came out, as its reply tells.
    pub fn outcome(&self, invocation: &Invocation, reply: &Reply) -> (read: Result<
        Outcome,
        LogicError,
    >)
        ensures
            match read {
                Ok(outcome) => outcome_of(invocation@, reply@) == Ok::<OutcomeView, LogicErrorView>(
                    outcome@,
                ),
                Err(error) => outcome_of(invocation@, reply@) == Err::<OutcomeView, LogicErrorView>(
                    error@,
                ),
            },
    {
        let status = match said_in(reply, "grpc-status") {
            Some(status) => status,
            None => "0",
        };
        if !same_text(status, "0") {
            let message = match said_in(reply, "grpc-message") {
                Some(message) => message.to_string(),
                None => String::new(),
            };
            return Ok(Outcome::Fault(Fault { code: status.to_string(), message }));
        }
        let (message, _) = match unframe(reply.body.bytes()) {
            Ok(unframed) => unframed,
            Err(error) => return Err(error),
        };
        Ok(
            Outcome::Result(
                Stream::new(
                    invocation.arguments.id(),
                    slice_to_vec(message),
                    Some(ARGUMENTS.to_string()),
                ),
            ),
        )
    }
}

} // verus!
