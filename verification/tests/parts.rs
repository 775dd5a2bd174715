use logic_grpc::call::{Fault, Header, OperationName};
use logic_grpc::error::{path_refusal, LogicError};
use logic_grpc::frame::{frame, unframe};
use logic_grpc::metadata::{field, metadata};
use logic_grpc::path::name_of;
use logic_grpc::status::status_code;
use logic_grpc::text::{
    begins_with, byte_value, characters, decimal_text, same_ignoring_ascii_case, same_text,
};

fn status(code: &str) -> String {
    let fault = Fault {
        code: code.to_string(),
        message: String::new(),
    };
    status_code(&fault).to_string()
}

#[test]
fn a_frame_is_a_flag_a_length_and_a_message() {
    assert_eq!(frame(b"").unwrap(), [0, 0, 0, 0, 0]);
    assert_eq!(frame(&[7]).unwrap(), [0, 0, 0, 0, 1, 7]);
    let long = vec![9u8; 0x01_02_03];
    let framed = frame(&long).unwrap();
    assert_eq!(framed[..5], [0, 0, 1, 2, 3]);
    assert_eq!(framed[5..], long[..]);
    let longer = vec![0u8; 0x0102_0304];
    assert_eq!(frame(&longer).unwrap()[..5], [0, 1, 2, 3, 4]);
}

#[test]
fn a_frame_reads_back() {
    for message in [vec![], vec![1u8], vec![3u8; 300], vec![5u8; 70_000]] {
        let mut body = frame(&message).unwrap();
        assert_eq!(unframe(&body).unwrap(), (&message[..], false));
        body.extend_from_slice(&[1, 2, 3]);
        assert_eq!(unframe(&body).unwrap(), (&message[..], false));
        body[0] = 2;
        assert_eq!(unframe(&body).unwrap(), (&message[..], true));
    }
}

#[test]
fn a_short_body_holds_no_frame() {
    for n in 0..5 {
        assert_eq!(unframe(&vec![0; n]).unwrap_err(), LogicError::ShortPrefix);
    }
    assert_eq!(
        unframe(&[0, 0, 0, 0, 2, 1]).unwrap_err(),
        LogicError::ShortFrame { length: 2 }
    );
    assert_eq!(
        unframe(&[0, 255, 255, 255, 255, 1]).unwrap_err(),
        LogicError::ShortFrame { length: u32::MAX }
    );
    assert_eq!(
        unframe(&[0, 1, 2, 3, 4]).unwrap_err(),
        LogicError::ShortFrame {
            length: 0x0102_0304
        }
    );
}

#[test]
fn errors_say_what_is_wrong() {
    assert_eq!(
        LogicError::ShortPrefix.message(),
        "the body is shorter than a gRPC frame prefix"
    );
    assert_eq!(
        LogicError::ShortFrame { length: 4_294_967_295 }.message(),
        "the frame claims 4294967295 bytes, the body has fewer"
    );
    assert_eq!(
        LogicError::Oversized.message(),
        "a message over 4 GiB does not fit a frame"
    );
    assert_eq!(
        LogicError::NotAMethodPath {
            target: "/a\"b\n".to_string()
        }
        .message(),
        "\"/a\\\"b\\n\" is not /package.Service/Method"
    );
    assert_eq!(path_refusal("<x>"), "<x> is not /package.Service/Method");
}

#[test]
fn a_path_is_a_service_and_a_method() {
    let named = OperationName::new("p.S", "M");
    for target in [
        "/p.S/M",
        "p.S/M",
        "//p.S/M",
        "/p.S/M?",
        "/p.S/M?a=/b?c",
    ] {
        assert_eq!(name_of(target).unwrap(), named);
    }
    for target in [
        "", "/", "?", "/p.S", "/p.S/", "//M", "/p.S//M", "/p.S/M/", "/p.S/M/x", "/p.S?/M",
        "?/p.S/M",
    ] {
        assert_eq!(
            name_of(target).unwrap_err(),
            LogicError::NotAMethodPath {
                target: target.to_string()
            }
        );
    }
    assert_eq!(
        name_of("/påket.Tjänst/Mät?é").unwrap(),
        OperationName::new("påket.Tjänst", "Mät")
    );
}

#[test]
fn metadata_leaves_out_what_http_and_grpc_write() {
    let headers = [
        Header::new(":method", "POST"),
        Header::new("x-a", "1"),
        Header::new("TE", "trailers"),
        Header::new("Content-type", "text/plain"),
        Header::new("X-A", "2"),
        Header::new("grpc-STATUS", "0"),
        Header::new("Grpc-Message", "m"),
        Header::new("tea", "green"),
        Header::new("", "empty"),
        Header::new("grpc-timeout", "1S"),
    ];
    let kept = metadata(&headers);
    assert_eq!(
        kept,
        [
            Header::new("x-a", "1"),
            Header::new("X-A", "2"),
            Header::new("tea", "green"),
            Header::new("", "empty"),
            Header::new("grpc-timeout", "1S"),
        ]
    );
    assert_eq!(metadata(&kept), kept);
}

#[test]
fn a_field_is_found_by_its_first_name_in_any_case() {
    let headers = [
        Header::new("a", "1"),
        Header::new("B", "2"),
        Header::new("b", "3"),
    ];
    assert_eq!(field(&headers, "b"), Some("2"));
    assert_eq!(field(&headers, "A"), Some("1"));
    assert_eq!(field(&headers, "c"), None);
    assert_eq!(field(&[], "a"), None);
}

#[test]
fn each_code_has_its_status() {
    for (code, number) in [
        ("CANCELLED", "1"),
        ("UNKNOWN", "2"),
        ("INVALID_ARGUMENT", "3"),
        ("DEADLINE_EXCEEDED", "4"),
        ("NOT_FOUND", "5"),
        ("ALREADY_EXISTS", "6"),
        ("PERMISSION_DENIED", "7"),
        ("RESOURCE_EXHAUSTED", "8"),
        ("FAILED_PRECONDITION", "9"),
        ("ABORTED", "10"),
        ("OUT_OF_RANGE", "11"),
        ("UNIMPLEMENTED", "12"),
        ("INTERNAL", "13"),
        ("UNAVAILABLE", "14"),
        ("DATA_LOSS", "15"),
        ("UNAUTHENTICATED", "16"),
        ("0", "2"),
        ("00", "2"),
        ("+0", "2"),
        ("1", "1"),
        ("17", "17"),
        ("255", "255"),
        ("+5", "+5"),
        ("007", "007"),
        ("256", "2"),
        ("-1", "2"),
        ("", "2"),
        ("+", "2"),
        ("not_found", "2"),
        ("NOT_FOUND ", "2"),
    ] {
        assert_eq!(status(code), number);
        assert_eq!(status(&status(code)), number);
        assert_ne!(status(code).parse::<u8>().unwrap(), 0);
    }
}

#[test]
fn a_byte_is_what_std_parses_as_one() {
    for n in 0..2000u32 {
        let text = n.to_string();
        assert_eq!(byte_value(&text), text.parse::<u8>().ok());
        let signed = format!("+{text}");
        assert_eq!(byte_value(&signed), signed.parse::<u8>().ok());
        let padded = format!("000{text}");
        assert_eq!(byte_value(&padded), padded.parse::<u8>().ok());
    }
    for text in [
        "", "+", "-", "-0", "++1", "+-1", " 1", "1 ", "1_0", "0x1", "٣", "1é", "00000000000000000256",
        "00000000000000000255", "18446744073709551617", "99999999999999999999999999", "1+", "256x",
    ] {
        assert_eq!(byte_value(text), text.parse::<u8>().ok());
    }
}

#[test]
fn text_compares_as_std_compares_it() {
    let texts = ["", "a", "A", "ab", "aB", "é", "É", "grpc-status", "GRPC-Status", "[", "{", "@", "`"];
    for a in texts {
        for b in texts {
            assert_eq!(same_text(a, b), a == b);
            assert_eq!(same_ignoring_ascii_case(a, b), a.eq_ignore_ascii_case(b));
        }
        assert_eq!(begins_with(a, 'a'), a.starts_with('a'));
        assert_eq!(characters(a), a.chars().collect::<Vec<char>>());
    }
}

#[test]
fn numbers_are_written_in_decimal() {
    for n in [0u32, 1, 9, 10, 11, 99, 100, 1_234_567_890, u32::MAX] {
        assert_eq!(decimal_text(n), n.to_string());
    }
}
