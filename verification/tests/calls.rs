use logic_grpc::call::{
    Arrival, ContractId, Fault, Header, Invocation, OperationName, Outcome, Reply, Stream, StreamId,
};
use logic_grpc::error::LogicError;
use logic_grpc::frame::frame;
use logic_grpc::grpc::{ARGUMENTS, CONTENT_TYPE};
use logic_grpc::metadata::field;
use logic_grpc::Grpc;

fn stream(bytes: &[u8]) -> Stream {
    Stream::new(
        StreamId::new(1),
        bytes.to_vec(),
        Some(CONTENT_TYPE.to_string()),
    )
}

fn invoked(service: &str, method: &str, bytes: &[u8], parameters: Vec<Header>) -> Invocation {
    Invocation {
        operation: OperationName::new(service, method),
        arguments: stream(bytes),
        parameters,
        contract: None,
    }
}

fn fault(code: &str, message: &str) -> Fault {
    Fault {
        code: code.into(),
        message: message.into(),
    }
}

#[test]
fn a_path_and_a_frame_become_the_operation_and_its_message() {
    let body = stream(&frame(b"\x0a\x01X").expect("frame"));
    let headers = vec![
        Header::new("x-request-id", "7"),
        Header::new("te", "trailers"),
    ];
    let arrival = Arrival {
        target: "/orders.OrderService/PlaceOrder",
        method: "POST",
        headers: &headers,
        body: &body,
    };
    let invocation = Grpc.invocation(&arrival).expect("invocation");
    assert_eq!(
        invocation.operation,
        OperationName::new("orders.OrderService", "PlaceOrder")
    );
    assert_eq!(invocation.arguments.bytes(), b"\x0a\x01X");
    assert_eq!(
        invocation.parameters,
        vec![Header::new("x-request-id", "7")]
    );
    let short = stream(b"\x00\x00");
    let arrival = Arrival {
        target: "/orders.OrderService/PlaceOrder",
        method: "POST",
        headers: &[],
        body: &short,
    };
    assert!(Grpc.invocation(&arrival).is_err());
    let bad = Arrival {
        target: "/orders",
        method: "POST",
        headers: &[],
        body: &body,
    };
    assert!(Grpc.invocation(&bad).is_err());
}

#[test]
fn a_result_is_a_frame_with_status_zero_and_a_fault_is_a_status_with_a_message() {
    let invocation = Invocation {
        operation: OperationName::new("orders.OrderService", "PlaceOrder"),
        arguments: stream(b""),
        parameters: vec![],
        contract: None,
    };
    let ok = Grpc
        .reply(&invocation, &Outcome::Result(stream(b"\x10\x2a")))
        .expect("reply");
    assert_eq!(ok.trailers, [Header::new("grpc-status", "0")]);
    assert!(!ok.headers.iter().any(|h| h.name.starts_with("grpc-")));
    assert_eq!(ok.body.bytes(), b"\x00\x00\x00\x00\x02\x10\x2a");
    let fault = Fault {
        code: "NOT_FOUND".into(),
        message: "no such order".into(),
    };
    let refused = Grpc
        .reply(&invocation, &Outcome::Fault(fault))
        .expect("reply");
    assert!(refused.trailers.contains(&Header::new("grpc-status", "5")));
    assert!(refused.body.is_empty());
}

#[test]
fn a_request_frames_and_an_outcome_reads_the_trailers() {
    let invocation = Invocation {
        operation: OperationName::new("orders.OrderService", "GetOrder"),
        arguments: stream(b"\x08\x2a"),
        parameters: vec![Header::new("authorization", "Bearer t")],
        contract: None,
    };
    let request = Grpc.request(&invocation).expect("request");
    assert_eq!(request.target, "/orders.OrderService/GetOrder");
    assert!(request
        .headers
        .contains(&Header::new("authorization", "Bearer t")));
    assert_eq!(request.body.bytes()[..5], [0, 0, 0, 0, 2]);
    let answered = Reply {
        trailers: vec![Header::new("grpc-status", "0")],
        headers: vec![Header::new(":status", "200")],
        body: stream(&frame(b"\x10\x01").expect("frame")),
    };
    match Grpc.outcome(&invocation, &answered).expect("outcome") {
        Outcome::Result(result) => assert_eq!(result.bytes(), b"\x10\x01"),
        Outcome::Fault(fault) => panic!("unexpected {fault:?}"),
    }
    // Trailers-Only: no body, the status in the one header block.
    let refused = Reply {
        trailers: Vec::new(),
        headers: vec![
            Header::new("grpc-status", "5"),
            Header::new("grpc-message", "no such order"),
        ],
        body: stream(b""),
    };
    match Grpc.outcome(&invocation, &refused).expect("outcome") {
        Outcome::Fault(fault) => assert_eq!(
            fault,
            Fault {
                code: "5".into(),
                message: "no such order".into()
            }
        ),
        Outcome::Result(_) => panic!("expected a fault"),
    }
}

/// Answers `GetOrder` with its argument reversed, and every other method as
/// unimplemented.
fn served(target: &str, headers: &[Header], bytes: &[u8]) -> Reply {
    assert_eq!(field(headers, "content-type"), Some(CONTENT_TYPE));
    assert_eq!(field(headers, "te"), Some("trailers"));
    let body = Stream::new(StreamId::new(9), bytes.to_vec(), None);
    let arrival = Arrival {
        target,
        method: "POST",
        headers,
        body: &body,
    };
    let invocation = Grpc.invocation(&arrival).expect("an invocation");
    assert_eq!(invocation.arguments.id(), StreamId::new(9));
    let outcome = if invocation.operation.name == "GetOrder" {
        let mut bytes = invocation.arguments.bytes().to_vec();
        bytes.reverse();
        Outcome::Result(stream(&bytes))
    } else {
        Outcome::Fault(fault("UNIMPLEMENTED", "no such method"))
    };
    Grpc.reply(&invocation, &outcome).expect("a reply")
}

#[test]
fn a_method_is_called_from_its_request_to_its_outcome() {
    let invocation = invoked(
        "orders.OrderService",
        "GetOrder",
        b"\x08\x2a",
        vec![Header::new("x-request-id", "7")],
    );
    let request = Grpc.request(&invocation).expect("a request");
    let answer = served(&request.target, &request.headers, request.body.bytes());
    assert_eq!(field(&answer.headers, "content-type"), Some(CONTENT_TYPE));
    assert_eq!(field(&answer.trailers, "grpc-status"), Some("0"));
    assert_eq!(field(&answer.headers, "grpc-status"), None);
    assert_eq!(answer.body.bytes(), [0, 0, 0, 0, 2, 0x2a, 0x08]);
    assert_eq!(answer.body.id(), StreamId::new(9));
    match Grpc.outcome(&invocation, &answer).expect("an outcome") {
        Outcome::Result(result) => {
            assert_eq!(result.bytes(), b"\x2a\x08");
            assert_eq!(result.id(), StreamId::new(1));
            assert_eq!(result.media_type, Some(ARGUMENTS.to_string()));
        }
        Outcome::Fault(fault) => panic!("unexpected {fault:?}"),
    }

    let invocation = invoked("orders.OrderService", "CancelOrder", b"\x08\x2a", vec![]);
    let request = Grpc.request(&invocation).expect("a request");
    let answer = served(&request.target, &request.headers, request.body.bytes());
    assert_eq!(field(&answer.trailers, "grpc-status"), Some("12"));
    match Grpc.outcome(&invocation, &answer).expect("an outcome") {
        Outcome::Fault(got) => assert_eq!(got, fault("12", "no such method")),
        Outcome::Result(_) => panic!("expected UNIMPLEMENTED"),
    }
}

#[test]
fn the_technology_is_named_grpc() {
    assert_eq!(Grpc.technology(), "grpc");
}

#[test]
fn an_invocation_holds_all_that_arrived() {
    let body = Stream::new(StreamId::new(4), vec![0, 0, 0, 0, 1, 7, 99], None);
    let headers = [
        Header::new(":path", "/s/m"),
        Header::new("Content-Type", "application/grpc"),
        Header::new("X-A", "1"),
        Header::new("x-b", "2"),
    ];
    let arrival = Arrival {
        target: "/s/m",
        method: "POST",
        headers: &headers,
        body: &body,
    };
    assert_eq!(
        Grpc.invocation(&arrival).unwrap(),
        Invocation {
            operation: OperationName::new("s", "m"),
            arguments: Stream::new(
                StreamId::new(4),
                vec![7],
                Some("application/protobuf".to_string())
            ),
            parameters: vec![Header::new("X-A", "1"), Header::new("x-b", "2")],
            contract: Some(ContractId("protobuf".to_string())),
        }
    );
}

#[test]
fn a_compressed_message_is_passed_through_and_recorded() {
    let body = stream(&[1, 0, 0, 0, 2, 5, 6]);
    let headers = [Header::new("x-a", "1")];
    let arrival = Arrival {
        target: "/s/m",
        method: "POST",
        headers: &headers,
        body: &body,
    };
    let invocation = Grpc.invocation(&arrival).unwrap();
    assert_eq!(invocation.arguments.bytes(), [5, 6]);
    assert_eq!(
        invocation.parameters,
        [
            Header::new("x-a", "1"),
            Header::new("grpc-compressed", "true")
        ]
    );
}

#[test]
fn an_invocation_that_was_read_can_be_passed_on() {
    let body = stream(&[1, 0, 0, 0, 2, 5, 6, 7]);
    let headers = [Header::new("x-a", "1"), Header::new("TE", "trailers")];
    let first = Arrival {
        target: "//s/m?x=1",
        method: "POST",
        headers: &headers,
        body: &body,
    };
    let invocation = Grpc.invocation(&first).unwrap();
    let request = Grpc.request(&invocation).unwrap();
    let second = Arrival {
        target: &request.target,
        method: &request.method,
        headers: &request.headers,
        body: &request.body,
    };
    assert_eq!(Grpc.invocation(&second).unwrap(), invocation);
}

#[test]
fn a_bad_target_is_refused_before_a_bad_body() {
    let short = stream(b"\x00");
    let arrival = Arrival {
        target: "/orders",
        method: "POST",
        headers: &[],
        body: &short,
    };
    assert_eq!(
        Grpc.invocation(&arrival).unwrap_err(),
        LogicError::NotAMethodPath {
            target: "/orders".to_string()
        }
    );
    let arrival = Arrival {
        target: "/s/m",
        ..arrival
    };
    assert_eq!(
        Grpc.invocation(&arrival).unwrap_err(),
        LogicError::ShortPrefix
    );
}

#[test]
fn a_request_holds_all_that_is_invoked() {
    let invocation = invoked(
        "s",
        "m",
        b"\x07",
        vec![
            Header::new("te", "deflate"),
            Header::new("x-a", "1"),
            Header::new("GRPC-Status", "3"),
        ],
    );
    let request = Grpc.request(&invocation).unwrap();
    assert_eq!(request.method, "POST");
    assert_eq!(request.target, "/s/m");
    assert_eq!(
        request.headers,
        [
            Header::new("content-type", "application/grpc"),
            Header::new("te", "trailers"),
            Header::new("x-a", "1"),
        ]
    );
    assert_eq!(request.body, stream(&[0, 0, 0, 0, 1, 7]));
}

#[test]
fn a_fault_is_answered_in_the_trailers_alone() {
    let invocation = invoked("s", "m", b"", vec![]);
    let reply = Grpc
        .reply(&invocation, &Outcome::Fault(fault("ABORTED", "stopped")))
        .unwrap();
    assert_eq!(
        reply,
        Reply {
            headers: vec![
                Header::new(":status", "200"),
                Header::new("content-type", "application/grpc"),
            ],
            body: stream(b""),
            trailers: vec![
                Header::new("grpc-status", "10"),
                Header::new("grpc-message", "stopped"),
            ],
        }
    );
}

#[test]
fn a_fault_reads_back_as_its_status_and_its_message() {
    let invocation = invoked("s", "m", b"", vec![]);
    for (code, status) in [
        ("INTERNAL", "13"),
        ("7", "7"),
        ("odd", "2"),
        ("0", "2"),
        ("00", "2"),
        ("+0", "2"),
    ] {
        let reply = Grpc
            .reply(&invocation, &Outcome::Fault(fault(code, "why")))
            .unwrap();
        assert_eq!(
            Grpc.outcome(&invocation, &reply).unwrap(),
            Outcome::Fault(fault(status, "why"))
        );
    }
}

#[test]
fn a_fault_that_was_read_can_be_passed_on() {
    let invocation = invoked("s", "m", b"", vec![]);
    for code in ["12", "255", "+5", "007"] {
        let reply = Grpc
            .reply(&invocation, &Outcome::Fault(fault(code, "why")))
            .unwrap();
        assert_eq!(
            Grpc.outcome(&invocation, &reply).unwrap(),
            Outcome::Fault(fault(code, "why"))
        );
    }
}

#[test]
fn a_request_reads_back_among_the_fields_of_its_transport() {
    let invocation = invoked("s", "m", b"\x07", vec![Header::new("x-a", "1")]);
    let request = Grpc.request(&invocation).unwrap();
    let mut headers = vec![
        Header::new(":method", "POST"),
        Header::new(":path", "/s/m"),
    ];
    headers.extend(request.headers);
    headers.push(Header::new("x-forwarded-for", "h"));
    let arrival = Arrival {
        target: &request.target,
        method: &request.method,
        headers: &headers,
        body: &request.body,
    };
    let read = Grpc.invocation(&arrival).unwrap();
    assert_eq!(read.operation, invocation.operation);
    assert_eq!(read.arguments.bytes(), b"\x07");
    assert_eq!(
        read.parameters,
        [Header::new("x-a", "1"), Header::new("x-forwarded-for", "h")]
    );
}

#[test]
fn the_trailers_decide_over_the_headers() {
    let invocation = invoked("s", "m", b"", vec![]);
    let reply = Reply {
        trailers: vec![
            Header::new("Grpc-Status", "5"),
            Header::new("grpc-status", "6"),
            Header::new("GRPC-MESSAGE", "first"),
        ],
        headers: vec![
            Header::new("grpc-status", "0"),
            Header::new("grpc-message", "second"),
        ],
        body: stream(&[0, 0, 0, 0, 0]),
    };
    assert_eq!(
        Grpc.outcome(&invocation, &reply).unwrap(),
        Outcome::Fault(fault("5", "first"))
    );
}

#[test]
fn a_message_may_stand_in_the_headers_or_be_missing() {
    let invocation = invoked("s", "m", b"", vec![]);
    let reply = Reply {
        trailers: vec![Header::new("grpc-status", "5")],
        headers: vec![Header::new("grpc-message", "led")],
        body: stream(b""),
    };
    assert_eq!(
        Grpc.outcome(&invocation, &reply).unwrap(),
        Outcome::Fault(fault("5", "led"))
    );
    let reply = Reply {
        headers: vec![],
        ..reply
    };
    assert_eq!(
        Grpc.outcome(&invocation, &reply).unwrap(),
        Outcome::Fault(fault("5", ""))
    );
}

#[test]
fn a_reply_without_a_status_is_a_result() {
    let invocation = invoked("s", "m", b"", vec![]);
    let reply = Reply {
        trailers: vec![],
        headers: vec![],
        body: stream(&[1, 0, 0, 0, 1, 8]),
    };
    match Grpc.outcome(&invocation, &reply).unwrap() {
        Outcome::Result(result) => assert_eq!(result.bytes(), [8]),
        Outcome::Fault(fault) => panic!("unexpected {fault:?}"),
    }
    let reply = Reply {
        body: stream(&[0, 0, 0, 0, 9]),
        ..reply
    };
    assert_eq!(
        Grpc.outcome(&invocation, &reply).unwrap_err(),
        LogicError::ShortFrame { length: 9 }
    );
}

#[test]
fn the_only_block_may_lead_or_trail() {
    let invocation = invoked("s", "m", b"", vec![]);
    let leading = Reply {
        headers: vec![
            Header::new("grpc-status", "5"),
            Header::new("grpc-message", "no"),
        ],
        body: stream(b""),
        trailers: vec![],
    };
    let trailing = Reply {
        headers: vec![],
        body: stream(b""),
        trailers: leading.headers.clone(),
    };
    assert_eq!(
        Grpc.outcome(&invocation, &leading),
        Grpc.outcome(&invocation, &trailing)
    );
}
