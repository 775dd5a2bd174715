//! The number that `grpc-status` carries for a fault.

use vstd::prelude::*;
use crate::call::Fault;
use crate::text::{byte_value, is_byte_numeral, numeral_value, same_text};

verus! {

/// The status of each code that gRPC names.
pub open spec fn named_status(code: Seq<char>) -> Option<Seq<char>> {
    if code == "CANCELLED"@ {
        Some("1"@)
    } else if code == "UNKNOWN"@ {
        Some("2"@)
    } else if code == "INVALID_ARGUMENT"@ {
        Some("3"@)
    } else if code == "DEADLINE_EXCEEDED"@ {
        Some("4"@)
    } else if code == "NOT_FOUND"@ {
        Some("5"@)
    } else if code == "ALREADY_EXISTS"@ {
        Some("6"@)
    } else if code == "PERMISSION_DENIED"@ {
        Some("7"@)
    } else if code == "RESOURCE_EXHAUSTED"@ {
        Some("8"@)
    } else if code == "FAILED_PRECONDITION"@ {
        Some("9"@)
    } else if code == "ABORTED"@ {
        Some("10"@)
    } else if code == "OUT_OF_RANGE"@ {
        Some("11"@)
    } else if code == "UNIMPLEMENTED"@ {
        Some("12"@)
    } else if code == "INTERNAL"@ {
        Some("13"@)
    } else if code == "UNAVAILABLE"@ {
        Some("14"@)
    } else if code == "DATA_LOSS"@ {
        Some("15"@)
    } else if code == "UNAUTHENTICATED"@ {
        Some("16"@)
    } else {
        None
    }
}

/// The status of a code: that of a code that gRPC names, a number of one byte
/// as it is written, and the status of `UNKNOWN` for anything else. Zero is the
/// status of a result, so a code that writes zero is such a thing too.
pub open spec fn status_of(code: Seq<char>) -> Seq<char> {
    match named_status(code) {
        Some(status) => status,
        None => if is_byte_numeral(code) && numeral_value(code) != 0 {
            code
        } else {
            "2"@
        },
    }
}

/// The status that stands for a fault.
pub fn status_code(fault: &Fault) -> (status: &str)
    ensures
        status@ == status_of(fault@.code),
{
    let code = fault.code.as_str();
    if same_text(code, "CANCELLED") {
        "1"
    } else if same_text(code, "UNKNOWN") {
        "2"
    } else if same_text(code, "INVALID_ARGUMENT") {
        "3"
    } else if same_text(code, "DEADLINE_EXCEEDED") {
        "4"
    } else if same_text(code, "NOT_FOUND") {
        "5"
    } else if same_text(code, "ALREADY_EXISTS") {
        "6"
    } else if same_text(code, "PERMISSION_DENIED") {
        "7"
    } else if same_text(code, "RESOURCE_EXHAUSTED") {
        "8"
    } else if same_text(code, "FAILED_PRECONDITION") {
        "9"
    } else if same_text(code, "ABORTED") {
        "10"
    } else if same_text(code, "OUT_OF_RANGE") {
        "11"
    } else if same_text(code, "UNIMPLEMENTED") {
        "12"
    } else if same_text(code, "INTERNAL") {
        "13"
    } else if same_text(code, "UNAVAILABLE") {
        "14"
    } else if same_text(code, "DATA_LOSS") {
        "15"
    } else if same_text(code, "UNAUTHENTICATED") {
        "16"
    } else {
        match byte_value(code) {
            Some(value) => if value != 0 {
                code
            } else {
                "2"
            },
            None => "2",
        }
    }
}

} // verus!
