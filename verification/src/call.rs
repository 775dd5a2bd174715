//! The parts of a call: what arrives, what is invoked, how it comes out, and
//! what goes back.

use vstd::prelude::*;

verus! {

/// The identity of a stream.
#[derive(Clone, Copy, Debug, PartialEq, Eq, Structural)]
pub struct StreamId(pub u64);

impl StreamId {
    /// The identity with this number.
    pub fn new(value: u64) -> (id: StreamId)
        ensures
            id == StreamId(value),
    {
        StreamId(value)
    }
}

/// A piece of content: its identity, its bytes, and the media type they are
/// in, where that is known.
#[derive(Debug, PartialEq, Eq)]
pub struct Stream {
    pub id: StreamId,
    pub bytes: Vec<u8>,
    pub media_type: Option<String>,
}

/// A `Stream` as a mathematical value.
#[verifier::ext_equal]
pub struct StreamView {
    pub id: StreamId,
    pub bytes: Seq<u8>,
    pub media_type: Option<Seq<char>>,
}

impl View for Stream {
    type V = StreamView;

    open spec fn view(&self) -> StreamView {
        StreamView {
            id: self.id,
            bytes: self.bytes@,
            media_type: match self.media_type {
                Some(media_type) => Some(media_type@),
                None => None,
            },
        }
    }
}

impl Stream {
    /// The content `bytes` under the identity `id`.
    pub fn new(id: StreamId, bytes: Vec<u8>, media_type: Option<String>) -> (stream: Stream)
        ensures
            stream.id == id,
            stream.bytes == bytes,
            stream.media_type == media_type,
    {
        Stream { id, bytes, media_type }
    }

    /// The stream's identity.
    pub fn id(&self) -> (id: StreamId)
        ensures
            id == self@.id,
    {
        self.id
    }

    /// The stream's bytes.
    pub fn bytes(&self) -> (bytes: &[u8])
        ensures
            bytes@ == self@.bytes,
    {
        self.bytes.as_slice()
    }

    /// Whether the stream has no bytes.
    pub fn is_empty(&self) -> (empty: bool)
        ensures
            empty == (self@.bytes.len() == 0),
    {
        self.bytes.len() == 0
    }
}

/// A header or trailer field.
#[derive(Debug, PartialEq, Eq)]
pub struct Header {
    pub name: String,
    pub value: String,
}

/// A `Header` as a mathematical value.
#[verifier::ext_equal]
pub struct HeaderView {
    pub name: Seq<char>,
    pub value: Seq<char>,
}

impl View for Header {
    type V = HeaderView;

    open spec fn view(&self) -> HeaderView {
        HeaderView { name: self.name@, value: self.value@ }
    }
}

impl Header {
    /// The field `name` with the given value.
    pub fn new(name: &str, value: &str) -> (header: Header)
        ensures
            header@ == (HeaderView { name: name@, value: value@ }),
    {
        Header { name: name.to_string(), value: value.to_string() }
    }
}

impl Clone for Header {
    fn clone(&self) -> (copy: Header)
        ensures
            copy@ == self@,
    {
        Header { name: self.name.clone(), value: self.value.clone() }
    }
}

/// A block of fields as a mathematical value.
pub open spec fn fields(headers: Seq<Header>) -> Seq<HeaderView> {
    headers.map_values(|header: Header| header@)
}

/// An operation: the service it belongs to and its own name.
#[derive(Debug, PartialEq, Eq)]
pub struct OperationName {
    pub service: String,
    pub name: String,
}

/// An `OperationName` as a mathematical value.
#[verifier::ext_equal]
pub struct OperationNameView {
    pub service: Seq<char>,
    pub name: Seq<char>,
}

impl View for OperationName {
    type V = OperationNameView;

    open spec fn view(&self) -> OperationNameView {
        OperationNameView { service: self.service@, name: self.name@ }
    }
}

impl OperationName {
    /// The operation `name` of `service`.
    pub fn new(service: &str, name: &str) -> (operation: OperationName)
        ensures
            operation@ == (OperationNameView { service: service@, name: name@ }),
    {
        OperationName { service: service.to_string(), name: name.to_string() }
    }
}

/// The name of the contract that types a call's arguments and result.
#[derive(Debug, PartialEq, Eq)]
pub struct ContractId(pub String);

impl View for ContractId {
    type V = Seq<char>;

    open spec fn view(&self) -> Seq<char> {
        self.0@
    }
}

/// What a transport hands over: a target, a verb, header fields and a body.
pub struct Arrival<'a> {
    pub target: &'a str,
    pub method: &'a str,
    pub headers: &'a [Header],
    pub body: &'a Stream,
}

/// An `Arrival` as a mathematical value.
#[verifier::ext_equal]
pub struct ArrivalView {
    pub target: Seq<char>,
    pub method: Seq<char>,
    pub headers: Seq<HeaderView>,
    pub body: StreamView,
}

impl<'a> View for Arrival<'a> {
    type V = ArrivalView;

    open spec fn view(&self) -> ArrivalView {
        ArrivalView {
            target: self.target@,
            method: self.method@,
            headers: fields(self.headers@),
            body: self.body@,
        }
    }
}

/// An operation with its arguments, the parameters beside them, and the
/// contract that types them.
#[derive(Debug, PartialEq, Eq)]
pub struct Invocation {
    pub operation: OperationName,
    pub arguments: Stream,
    pub parameters: Vec<Header>,
    pub contract: Option<ContractId>,
}

/// An `Invocation` as a mathematical value.
#[verifier::ext_equal]
pub struct InvocationView {
    pub operation: OperationNameView,
    pub arguments: StreamView,
    pub parameters: Seq<HeaderView>,
    pub contract: Option<Seq<char>>,
}

impl View for Invocation {
    type V = InvocationView;

    open spec fn view(&self) -> InvocationView {
        InvocationView {
            operation: self.operation@,
            arguments: self.arguments@,
            parameters: fields(self.parameters@),
            contract: match self.contract {
                Some(contract) => Some(contract@),
                None => None,
            },
        }
    }
}

/// Why an operation gave no result.
#[derive(Debug, PartialEq, Eq)]
pub struct Fault {
    pub code: String,
    pub message: String,
}

/// A `Fault` as a mathematical value.
#[verifier::ext_equal]
pub struct FaultView {
    pub code: Seq<char>,
    pub message: Seq<char>,
}

impl View for Fault {
    type V = FaultView;

    open spec fn view(&self) -> FaultView {
        FaultView { code: self.code@, message: self.message@ }
    }
}

/// How an operation came out.
#[derive(Debug, PartialEq, Eq)]
pub enum Outcome {
    Result(Stream),
    Fault(Fault),
}

/// An `Outcome` as a mathematical value.
#[verifier::ext_equal]
pub enum OutcomeView {
    Result(StreamView),
    Fault(FaultView),
}

impl View for Outcome {
    type V = OutcomeView;

    open spec fn view(&self) -> OutcomeView {
        match self {
            Outcome::Result(stream) => OutcomeView::Result(stream@),
            Outcome::Fault(fault) => OutcomeView::Fault(fault@),
        }
    }
}

/// What goes back for an arrival: header fields, a body, and trailer fields.
#[derive(Debug, PartialEq, Eq)]
pub struct Reply {
    pub headers: Vec<Header>,
    pub body: Stream,
    pub trailers: Vec<Header>,
}

/// A `Reply` as a mathematical value.
#[verifier::ext_equal]
pub struct ReplyView {
    pub headers: Seq<HeaderView>,
    pub body: StreamView,
    pub trailers: Seq<HeaderView>,
}

impl View for Reply {
    type V = ReplyView;

    open spec fn view(&self) -> ReplyView {
        ReplyView {
            headers: fields(self.headers@),
            body: self.body@,
            trailers: fields(self.trailers@),
        }
    }
}

/// What a transport is handed to send: a target, a verb, header fields and a
/// body.
#[derive(Debug, PartialEq, Eq)]
pub struct Request {
    pub target: String,
    pub method: String,
    pub headers: Vec<Header>,
    pub body: Stream,
}

/// A `Request` as a mathematical value.
#[verifier::ext_equal]
pub struct RequestView {
    pub target: Seq<char>,
    pub method: Seq<char>,
    pub headers: Seq<HeaderView>,
    pub body: StreamView,
}

impl View for Request {
    type V = RequestView;

    open spec fn view(&self) -> RequestView {
        RequestView {
            target: self.target@,
            method: self.method@,
            headers: fields(self.headers@),
            body: self.body@,
        }
    }
}

} // verus!
