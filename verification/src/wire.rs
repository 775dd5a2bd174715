//! What each operation puts on the wire and reads from it, byte by byte and
//! field by field: relations between what goes in and what comes out.

use vstd::prelude::*;
use crate::call::{
    Arrival, ArrivalView, ContractId, Fault, FaultView, Header, HeaderView, Invocation,
    InvocationView, OperationName, OperationNameView, Outcome, OutcomeView, Reply, ReplyView,
    Request, Stream, StreamView,
};
use crate::error::{LogicError, LogicErrorView};
use crate::frame::{big_endian, big_endian_value, framed, unframed};
use crate::grpc::{invocation_of, outcome_of, reply_status, reply_to, request_for};
use crate::laws::{
    is_path_with, law_a_name_comes_from_a_path, law_a_path_names_its_operation, slashes,
};
use crate::metadata::{
    carries_metadata, field_of, lemma_metadata_push, lemma_reserved_names_are_lower, metadata_of,
};
use crate::path::{is_nameable, named, operation_of};
use crate::status::status_of;
use crate::text::{
    all_digits, ascii_lower, ascii_lower_char, decimal, is_byte_numeral, is_digit, numeral_value,
    unsigned_part,
};

verus! {

/// Lower case changes the twenty-six letters from `A` by 32 places and leaves
/// every other character alone.
pub proof fn law_lower_case_moves_letters_only(s: Seq<char>, i: int)
    requires
        0 <= i < s.len(),
    ensures
        ascii_lower(s).len() == s.len(),
        65 <= s[i] as int <= 90 ==> ascii_lower(s)[i] as int == s[i] as int + 32,
        !(65 <= s[i] as int <= 90) ==> ascii_lower(s)[i] == s[i],
{
    assert(ascii_lower(s)[i] == ascii_lower_char(s[i]));
}

/// One digit more makes a number ten times as great, and that digit greater. A
/// `+` in front adds nothing.
pub proof fn law_digits_count_by_tens(s: Seq<char>, c: char)
    requires
        48 <= c as int <= 57,
    ensures
        numeral_value(s.push(c)) == 10 * numeral_value(s) + (c as int - 48),
        numeral_value(Seq::<char>::empty()) == 0,
        numeral_value(seq!['+']) == 0,
{
    assert(s.push(c).drop_last() =~= s);
    if s.len() > 0 && s[0] == '+' {
        assert(unsigned_part(s.push(c)) =~= unsigned_part(s).push(c));
    } else {
        assert(unsigned_part(s.push(c)) == s.push(c));
    }
    assert(unsigned_part(s).push(c).drop_last() =~= unsigned_part(s));
    assert(unsigned_part(seq!['+']) =~= Seq::<char>::empty());
}

/// A number of one byte is digits alone but for one `+` in front, at least one
/// of them, and no greater than a byte.
pub proof fn law_a_byte_is_digits_up_to_255(s: Seq<char>)
    ensures
        is_byte_numeral(s) <==> {
            &&& s.len() > 0
            &&& s[0] == '+' ==> s.len() > 1
            &&& forall|i: int|
                0 <= i < s.len() ==> 48 <= #[trigger] s[i] as int <= 57 || (i == 0 && s[i] == '+')
            &&& numeral_value(s) <= 255
        },
{
    let digits = unsigned_part(s);
    if s.len() > 0 && s[0] == '+' {
        assert forall|i: int| 0 <= i < digits.len() implies digits[i] == s[i + 1] by {}
        if all_digits(digits) {
            assert forall|i: int| 0 <= i < s.len() implies 48 <= #[trigger] s[i] as int <= 57 || (i
                == 0 && s[i] == '+') by {
                if i > 0 {
                    assert(is_digit(digits[i - 1]));
                }
            }
        }
    } else if all_digits(digits) {
        assert forall|i: int| 0 <= i < s.len() implies 48 <= #[trigger] s[i] as int <= 57 by {
            assert(is_digit(digits[i]));
        }
    }
}

/// A number in decimal is written in digits, with no zero in front of others,
/// and writes that number.
pub proof fn law_decimal_writes_its_number(n: nat)
    ensures
        decimal(n).len() > 0,
        forall|i: int| 0 <= i < decimal(n).len() ==> 48 <= #[trigger] decimal(n)[i] as int <= 57,
        decimal(n).len() > 1 ==> decimal(n)[0] != '0',
        numeral_value(decimal(n)) == n,
    decreases n,
{
    if n < 10 {
        let c = decimal(n)[0];
        assert(decimal(n) =~= Seq::<char>::empty().push(c));
        law_digits_count_by_tens(Seq::empty(), c);
    } else {
        let rest = decimal(n / 10);
        law_decimal_writes_its_number(n / 10);
        let c = decimal(n).last();
        law_digits_count_by_tens(rest, c);
        assert forall|i: int| 0 <= i < decimal(n).len() implies 48 <= #[trigger] decimal(
            n,
        )[i] as int <= 57 by {
            if i < rest.len() {
                assert(decimal(n)[i] == rest[i]);
            }
        }
        if rest.len() == 1 {
            // The one digit of a number from one to nine.
            assert(n / 10 != 0);
            let first = rest[0];
            assert(rest =~= Seq::<char>::empty().push(first));
            law_digits_count_by_tens(Seq::empty(), first);
        }
    }
}

/// What an error says, whatever it holds.
pub proof fn law_each_error_has_its_words(length: u32, target: Seq<char>)
    ensures
        (LogicErrorView::ShortPrefix).message() == "the body is shorter than a gRPC frame prefix"@,
        (LogicErrorView::ShortFrame { length }).message() == "the frame claims "@ + decimal(
            length as nat,
        ) + " bytes, the body has fewer"@,
        (LogicErrorView::Oversized).message() == "a message over 4 GiB does not fit a frame"@,
        (LogicErrorView::NotAMethodPath { target }).message() == crate::error::debug_quoted(target)
            + " is not /package.Service/Method"@,
{
}

/// A frame is a zero, the length of the message in four bytes, and the message;
/// nothing follows. Only a message that four bytes cannot count has none.
pub proof fn law_a_frame_is_five_bytes_and_the_message(message: Seq<u8>)
    ensures
        match framed(message) {
            Ok(bytes) => {
                &&& bytes.len() == message.len() + 5
                &&& bytes[0] == 0
                &&& bytes[1] * 0x100_0000 + bytes[2] * 0x1_0000 + bytes[3] * 0x100 + bytes[4]
                    == message.len()
                &&& forall|i: int| 0 <= i < message.len() ==> #[trigger] bytes[5 + i] == message[i]
            },
            Err(error) => message.len() > 0xffff_ffff && error == LogicErrorView::Oversized,
        },
{
    if message.len() <= u32::MAX {
        let n = message.len();
        let prefix = big_endian(n);
        let bytes = framed(message)->Ok_0;
        assert(bytes[1] == prefix[0] && bytes[2] == prefix[1] && bytes[3] == prefix[2] && bytes[4]
            == prefix[3]);
        assert(n / 0x100_0000 * 0x100_0000 + n / 0x1_0000 % 0x100 * 0x1_0000 + n / 0x100 % 0x100
            * 0x100 + n % 0x100 == n);
    }
}

/// What is read of a body is as many bytes as its second to fifth count, from
/// the sixth on, and whether its first is not zero. A body without five bytes,
/// or without as many after them, is refused as such, and no other is.
pub proof fn law_what_is_read_is_what_the_prefix_counts(body: Seq<u8>)
    ensures
        match unframed(body) {
            Ok((message, compressed)) => {
                &&& body.len() >= 5 + message.len()
                &&& message.len() == body[1] * 0x100_0000 + body[2] * 0x1_0000 + body[3] * 0x100
                    + body[4]
                &&& forall|i: int| 0 <= i < message.len() ==> #[trigger] message[i] == body[5 + i]
                &&& compressed <==> body[0] != 0
            },
            Err(LogicErrorView::ShortPrefix) => body.len() < 5,
            Err(LogicErrorView::ShortFrame { length }) => {
                &&& 5 <= body.len() < 5 + length
                &&& length == body[1] * 0x100_0000 + body[2] * 0x1_0000 + body[3] * 0x100 + body[4]
            },
            Err(_) => false,
        },
{
    if body.len() >= 5 {
        let prefix = body.subrange(1, 5);
        assert(prefix[0] == body[1] && prefix[1] == body[2] && prefix[2] == body[3] && prefix[3]
            == body[4]);
        assert(big_endian_value(prefix) <= u32::MAX);
    }
}

proof fn lemma_read_of_parts(
    flag: u8,
    a: u8,
    b: u8,
    c: u8,
    d: u8,
    message: Seq<u8>,
    rest: Seq<u8>,
)
    requires
        a * 0x100_0000 + b * 0x1_0000 + c * 0x100 + d == message.len(),
    ensures
        unframed(seq![flag, a, b, c, d] + message + rest) == Ok::<(Seq<u8>, bool), LogicErrorView>(
            (message, flag != 0),
        ),
{
    let body = seq![flag, a, b, c, d] + message + rest;
    assert(body[0] == flag && body[1] == a && body[2] == b && body[3] == c && body[4] == d);
    law_what_is_read_is_what_the_prefix_counts(body);
    assert(unframed(body) is Ok);
    assert(unframed(body)->Ok_0.0 =~= message);
}

/// Whether `target` is slashes, `service`, a slash, `method`, and then nothing
/// or a query; neither name is empty or holds a slash or a question mark.
pub open spec fn is_target(
    target: Seq<char>,
    slashes: Seq<char>,
    service: Seq<char>,
    method: Seq<char>,
    query: Seq<char>,
) -> bool {
    &&& target == slashes + service + seq!['/'] + method + query
    &&& forall|i: int| 0 <= i < slashes.len() ==> #[trigger] slashes[i] == '/'
    &&& service.len() > 0
    &&& forall|i: int| 0 <= i < service.len() ==> #[trigger] service[i] != '/' && service[i] != '?'
    &&& method.len() > 0
    &&& forall|i: int| 0 <= i < method.len() ==> #[trigger] method[i] != '/' && method[i] != '?'
    &&& query.len() > 0 ==> query[0] == '?'
}

/// Whether `target` is such a path at all.
pub open spec fn is_some_target(target: Seq<char>) -> bool {
    exists|slashes: Seq<char>, service: Seq<char>, method: Seq<char>, query: Seq<char>|
        is_target(target, slashes, service, method, query)
}

/// A target that is a path names the service and the method that stand in it.
pub proof fn law_a_target_names_what_stands_in_it(
    target: Seq<char>,
    slashes: Seq<char>,
    service: Seq<char>,
    method: Seq<char>,
    query: Seq<char>,
)
    requires
        is_target(target, slashes, service, method, query),
    ensures
        named(target) matches Ok(operation) && operation.service == service && operation.name
            == method,
{
    let operation = OperationNameView { service, name: method };
    assert(slashes =~= crate::laws::slashes(slashes.len()));
    assert(is_nameable(operation));
    law_a_path_names_its_operation(target, operation, slashes.len(), query);
}

/// A target that is no path names nothing, and the refusal repeats it; one that
/// names something is a path.
pub proof fn law_only_a_path_names_an_operation(target: Seq<char>)
    ensures
        named(target) is Ok <==> is_some_target(target),
        named(target) matches Err(error) ==> error == (LogicErrorView::NotAMethodPath { target }),
{
    if let Some(operation) = operation_of(target) {
        law_a_name_comes_from_a_path(target, operation);
        let (n, query) = choose|n: nat, query: Seq<char>| is_path_with(target, operation, n, query);
        assert(is_target(target, slashes(n), operation.service, operation.name, query));
    }
    if is_some_target(target) {
        let (slashes, service, method, query) = choose|
            slashes: Seq<char>,
            service: Seq<char>,
            method: Seq<char>,
            query: Seq<char>,
        | is_target(target, slashes, service, method, query);
        law_a_target_names_what_stands_in_it(target, slashes, service, method, query);
    }
}

/// One field alone is left out of the metadata where its name begins with a
/// colon or is, in any case, one of four names, and is kept under every other.
pub proof fn law_four_names_and_a_colon_are_left_out(field: HeaderView)
    ensures
        metadata_of(seq![field]) == if (field.name.len() > 0 && field.name[0] == ':')
            || ascii_lower(field.name) == "content-type"@ || ascii_lower(field.name) == "te"@
            || ascii_lower(field.name) == "grpc-status"@ || ascii_lower(field.name)
            == "grpc-message"@ {
            Seq::empty()
        } else {
            seq![field]
        },
        metadata_of(Seq::empty()) == Seq::<HeaderView>::empty(),
{
    let none = Seq::<HeaderView>::empty();
    assert(metadata_of(none) == none) by {
        reveal(Seq::filter);
    }
    lemma_metadata_push(none, field);
    assert(none.push(field) =~= seq![field]);
    if field.name.len() > 0 {
        law_lower_case_moves_letters_only(field.name, 0);
    }
}

/// The metadata of a block is the block without the fields whose name begins
/// with a colon or is, in any case, one of four names: every other field is
/// kept, as often as it stands there, in its order.
pub proof fn law_metadata_is_the_rest_of_the_block(block: Seq<HeaderView>)
    ensures
        metadata_of(block) == block.filter(
            |field: HeaderView|
                !(field.name.len() > 0 && field.name[0] == ':') && ascii_lower(field.name)
                    != "content-type"@ && ascii_lower(field.name) != "te"@ && ascii_lower(
                    field.name,
                ) != "grpc-status"@ && ascii_lower(field.name) != "grpc-message"@,
        ),
{
    let kept = |field: HeaderView|
        !(field.name.len() > 0 && field.name[0] == ':') && ascii_lower(field.name)
            != "content-type"@ && ascii_lower(field.name) != "te"@ && ascii_lower(field.name)
            != "grpc-status"@ && ascii_lower(field.name) != "grpc-message"@;
    assert forall|field: HeaderView| #[trigger] carries_metadata()(field) == kept(field) by {
        if field.name.len() > 0 {
            law_lower_case_moves_letters_only(field.name, 0);
        }
    }
    assert(carries_metadata() =~= kept);
}

/// A field is found by the first name in the block that is the same in lower
/// case, and not where there is none.
pub proof fn law_the_first_of_a_name_is_found(block: Seq<HeaderView>, name: Seq<char>, at: int)
    requires
        0 <= at <= block.len(),
        forall|i: int| 0 <= i < at ==> ascii_lower(#[trigger] block[i].name) != ascii_lower(name),
        at < block.len() ==> ascii_lower(block[at].name) == ascii_lower(name),
    ensures
        at < block.len() ==> field_of(block, name) == Some(block[at].value),
        at == block.len() ==> field_of(block, name) == None::<Seq<char>>,
    decreases block.len(),
{
    if at > 0 {
        let rest = block.drop_first();
        assert forall|i: int| 0 <= i < at - 1 implies ascii_lower(#[trigger] rest[i].name)
            != ascii_lower(name) by {
            assert(rest[i] == block[i + 1]);
        }
        assert(ascii_lower(block[0].name) != ascii_lower(name));
        law_the_first_of_a_name_is_found(rest, name, at - 1);
    }
}

/// The status of each code that gRPC names is its number; a number of one byte
/// other than zero is its own; and every other code has that of `UNKNOWN`.
pub proof fn law_every_code_has_its_status(code: Seq<char>)
    ensures
        code == "CANCELLED"@ ==> status_of(code) == "1"@,
        code == "UNKNOWN"@ ==> status_of(code) == "2"@,
        code == "INVALID_ARGUMENT"@ ==> status_of(code) == "3"@,
        code == "DEADLINE_EXCEEDED"@ ==> status_of(code) == "4"@,
        code == "NOT_FOUND"@ ==> status_of(code) == "5"@,
        code == "ALREADY_EXISTS"@ ==> status_of(code) == "6"@,
        code == "PERMISSION_DENIED"@ ==> status_of(code) == "7"@,
        code == "RESOURCE_EXHAUSTED"@ ==> status_of(code) == "8"@,
        code == "FAILED_PRECONDITION"@ ==> status_of(code) == "9"@,
        code == "ABORTED"@ ==> status_of(code) == "10"@,
        code == "OUT_OF_RANGE"@ ==> status_of(code) == "11"@,
        code == "UNIMPLEMENTED"@ ==> status_of(code) == "12"@,
        code == "INTERNAL"@ ==> status_of(code) == "13"@,
        code == "UNAVAILABLE"@ ==> status_of(code) == "14"@,
        code == "DATA_LOSS"@ ==> status_of(code) == "15"@,
        code == "UNAUTHENTICATED"@ ==> status_of(code) == "16"@,
        is_byte_numeral(code) && numeral_value(code) != 0 ==> status_of(code) == code,
        status_of(code) != "2"@ ==> {
            ||| is_byte_numeral(code) && numeral_value(code) != 0
            ||| code == "CANCELLED"@
            ||| code == "INVALID_ARGUMENT"@
            ||| code == "DEADLINE_EXCEEDED"@
            ||| code == "NOT_FOUND"@
            ||| code == "ALREADY_EXISTS"@
            ||| code == "PERMISSION_DENIED"@
            ||| code == "RESOURCE_EXHAUSTED"@
            ||| code == "FAILED_PRECONDITION"@
            ||| code == "ABORTED"@
            ||| code == "OUT_OF_RANGE"@
            ||| code == "UNIMPLEMENTED"@
            ||| code == "INTERNAL"@
            ||| code == "UNAVAILABLE"@
            ||| code == "DATA_LOSS"@
            ||| code == "UNAUTHENTICATED"@
        },
{
    if is_byte_numeral(code) && numeral_value(code) != 0 {
        crate::laws::law_a_numeric_code_is_its_status(code);
    }
    reveal_strlit("CANCELLED");
    reveal_strlit("UNKNOWN");
    reveal_strlit("INVALID_ARGUMENT");
    reveal_strlit("DEADLINE_EXCEEDED");
    reveal_strlit("NOT_FOUND");
    reveal_strlit("ALREADY_EXISTS");
    reveal_strlit("PERMISSION_DENIED");
    reveal_strlit("RESOURCE_EXHAUSTED");
    reveal_strlit("FAILED_PRECONDITION");
    reveal_strlit("ABORTED");
    reveal_strlit("OUT_OF_RANGE");
    reveal_strlit("UNIMPLEMENTED");
    reveal_strlit("INTERNAL");
    reveal_strlit("UNAVAILABLE");
    reveal_strlit("DATA_LOSS");
    reveal_strlit("UNAUTHENTICATED");
    // No two of the names agree in length and in their first letter.
    assert(code == "CANCELLED"@ ==> code[0] == 'C');
    assert(code == "UNKNOWN"@ ==> code[0] == 'U');
    assert(code == "DEADLINE_EXCEEDED"@ ==> code[0] == 'D');
    assert(code == "NOT_FOUND"@ ==> code[0] == 'N');
    assert(code == "PERMISSION_DENIED"@ ==> code[0] == 'P');
    assert(code == "ABORTED"@ ==> code[0] == 'A');
    assert(code == "DATA_LOSS"@ ==> code[0] == 'D');
}

/// An arrival whose target is a path and whose body holds a frame is an
/// invocation: of the service and method in the path, with the framed bytes as
/// its arguments and the metadata among its headers as its parameters, and one
/// parameter more where the frame is flagged.
pub proof fn law_an_arrival_is_an_invocation(
    arrival: ArrivalView,
    slashes: Seq<char>,
    service: Seq<char>,
    method: Seq<char>,
    query: Seq<char>,
    flag: u8,
    a: u8,
    b: u8,
    c: u8,
    d: u8,
    message: Seq<u8>,
    rest: Seq<u8>,
)
    requires
        is_target(arrival.target, slashes, service, method, query),
        arrival.body.bytes == seq![flag, a, b, c, d] + message + rest,
        a * 0x100_0000 + b * 0x1_0000 + c * 0x100 + d == message.len(),
    ensures
        invocation_of(arrival) matches Ok(invocation) && {
            &&& invocation.operation.service == service
            &&& invocation.operation.name == method
            &&& invocation.arguments.id == arrival.body.id
            &&& invocation.arguments.bytes == message
            &&& invocation.arguments.media_type == Some("application/protobuf"@)
            &&& invocation.contract == Some("protobuf"@)
            &&& invocation.parameters == arrival.headers.filter(
                |field: HeaderView|
                    !(field.name.len() > 0 && field.name[0] == ':') && ascii_lower(field.name)
                        != "content-type"@ && ascii_lower(field.name) != "te"@ && ascii_lower(
                        field.name,
                    ) != "grpc-status"@ && ascii_lower(field.name) != "grpc-message"@,
            ) + if flag != 0 {
                seq![HeaderView { name: "grpc-compressed"@, value: "true"@ }]
            } else {
                Seq::empty()
            }
        },
{
    law_a_target_names_what_stands_in_it(arrival.target, slashes, service, method, query);
    lemma_read_of_parts(flag, a, b, c, d, message, rest);
    law_metadata_is_the_rest_of_the_block(arrival.headers);
    let record = HeaderView { name: "grpc-compressed"@, value: "true"@ };
    let kept = metadata_of(arrival.headers);
    assert(kept.push(record) =~= kept + seq![record]);
    assert(kept + Seq::<HeaderView>::empty() =~= kept);
}

/// An arrival is refused for its target, which the refusal repeats, where that
/// is no path; otherwise for its body, where that holds no frame; and never for
/// anything else.
pub proof fn law_an_arrival_is_refused_for_its_target_or_its_body(arrival: ArrivalView)
    ensures
        match invocation_of(arrival) {
            Ok(invocation) => {
                let body = arrival.body.bytes;
                &&& is_some_target(arrival.target)
                &&& body.len() >= 5
                &&& body.len() >= 5 + body[1] * 0x100_0000 + body[2] * 0x1_0000 + body[3] * 0x100
                    + body[4]
            },
            Err(LogicErrorView::NotAMethodPath { target }) => {
                &&& target == arrival.target
                &&& !is_some_target(arrival.target)
            },
            Err(LogicErrorView::ShortPrefix) => {
                &&& is_some_target(arrival.target)
                &&& arrival.body.bytes.len() < 5
            },
            Err(LogicErrorView::ShortFrame { length }) => {
                let body = arrival.body.bytes;
                &&& is_some_target(arrival.target)
                &&& 5 <= body.len() < 5 + length
                &&& length == body[1] * 0x100_0000 + body[2] * 0x1_0000 + body[3] * 0x100 + body[4]
            },
            Err(LogicErrorView::Oversized) => false,
        },
{
    law_only_a_path_names_an_operation(arrival.target);
    law_what_is_read_is_what_the_prefix_counts(arrival.body.bytes);
}

/// Every reply has the HTTP status 200 and the content type of gRPC as its
/// headers, no others, and a body under the identity of what was invoked.
pub proof fn law_every_reply_is_a_200_of_grpc(invocation: InvocationView, outcome: OutcomeView)
    ensures
        reply_to(invocation, outcome) matches Ok(reply) ==> {
            &&& reply.headers.len() == 2
            &&& reply.headers[0].name == ":status"@
            &&& reply.headers[0].value == "200"@
            &&& reply.headers[1].name == "content-type"@
            &&& reply.headers[1].value == "application/grpc"@
            &&& reply.body.id == invocation.arguments.id
            &&& reply.body.media_type == Some("application/grpc"@)
        },
{
}

/// The reply to a result holds its frame, a zero, its length and its bytes, and
/// one trailer, the status 0. A result is refused only where four bytes cannot
/// count it.
pub proof fn law_a_result_goes_back_in_one_frame(invocation: InvocationView, result: StreamView)
    ensures
        match reply_to(invocation, OutcomeView::Result(result)) {
            Ok(reply) => {
                let bytes = reply.body.bytes;
                &&& reply.trailers.len() == 1
                &&& reply.trailers[0].name == "grpc-status"@
                &&& reply.trailers[0].value == "0"@
                &&& bytes.len() == result.bytes.len() + 5
                &&& bytes[0] == 0
                &&& bytes[1] * 0x100_0000 + bytes[2] * 0x1_0000 + bytes[3] * 0x100 + bytes[4]
                    == result.bytes.len()
                &&& forall|i: int|
                    0 <= i < result.bytes.len() ==> #[trigger] bytes[5 + i] == result.bytes[i]
            },
            Err(error) => result.bytes.len() > 0xffff_ffff && error == LogicErrorView::Oversized,
        },
{
    law_a_frame_is_five_bytes_and_the_message(result.bytes);
}

/// The reply to a fault holds no byte, and two trailers: a status that is a
/// number of one byte other than zero, and the fault's own message. No fault is
/// refused.
pub proof fn law_a_fault_goes_back_in_two_trailers(invocation: InvocationView, fault: FaultView)
    ensures
        reply_to(invocation, OutcomeView::Fault(fault)) matches Ok(reply) && {
            &&& reply.body.bytes.len() == 0
            &&& reply.trailers.len() == 2
            &&& reply.trailers[0].name == "grpc-status"@
            &&& reply.trailers[0].value == status_of(fault.code)
            &&& is_byte_numeral(reply.trailers[0].value)
            &&& numeral_value(reply.trailers[0].value) != 0
            &&& reply.trailers[1].name == "grpc-message"@
            &&& reply.trailers[1].value == fault.message
        },
{
    crate::laws::law_a_status_is_a_number_other_than_zero(fault.code);
}

/// Every request is a POST to the path of its operation, with the content type
/// of gRPC, the word that trailers are understood, and the metadata among the
/// parameters as its headers, and the frame of the arguments as its body, under
/// their identity. It is refused only where four bytes cannot count them.
pub proof fn law_every_request_is_a_post_of_one_frame(invocation: InvocationView)
    ensures
        match request_for(invocation) {
            Ok(request) => {
                let message = invocation.arguments.bytes;
                let bytes = request.body.bytes;
                &&& request.method == "POST"@
                &&& request.target == seq!['/'] + invocation.operation.service + seq!['/']
                    + invocation.operation.name
                &&& request.headers.len() >= 2
                &&& request.headers[0].name == "content-type"@
                &&& request.headers[0].value == "application/grpc"@
                &&& request.headers[1].name == "te"@
                &&& request.headers[1].value == "trailers"@
                &&& request.headers.skip(2) == invocation.parameters.filter(
                    |field: HeaderView|
                        !(field.name.len() > 0 && field.name[0] == ':') && ascii_lower(field.name)
                            != "content-type"@ && ascii_lower(field.name) != "te"@ && ascii_lower(
                            field.name,
                        ) != "grpc-status"@ && ascii_lower(field.name) != "grpc-message"@,
                )
                &&& request.body.id == invocation.arguments.id
                &&& request.body.media_type == Some("application/grpc"@)
                &&& bytes.len() == message.len() + 5
                &&& bytes[0] == 0
                &&& bytes[1] * 0x100_0000 + bytes[2] * 0x1_0000 + bytes[3] * 0x100 + bytes[4]
                    == message.len()
                &&& forall|i: int| 0 <= i < message.len() ==> #[trigger] bytes[5 + i] == message[i]
            },
            Err(error) => {
                &&& invocation.arguments.bytes.len() > 0xffff_ffff
                &&& error == LogicErrorView::Oversized
            },
        },
{
    law_a_frame_is_five_bytes_and_the_message(invocation.arguments.bytes);
    law_metadata_is_the_rest_of_the_block(invocation.parameters);
    if request_for(invocation) is Ok {
        let request = request_for(invocation)->Ok_0;
        assert(request.headers.skip(2) =~= metadata_of(invocation.parameters));
    }
}

/// Whether `at` is where the first field under `name`, which is in lower case,
/// stands in the trailers and then the headers of a reply, or where they end if
/// none does.
pub open spec fn is_first(reply: ReplyView, name: Seq<char>, at: int) -> bool {
    let block = reply.trailers + reply.headers;
    &&& 0 <= at <= block.len()
    &&& forall|i: int| 0 <= i < at ==> ascii_lower(#[trigger] block[i].name) != name
    &&& at < block.len() ==> ascii_lower(block[at].name) == name
}

proof fn lemma_first_status(reply: ReplyView, at: int)
    requires
        is_first(reply, "grpc-status"@, at),
    ensures
        reply_status(reply) == if at < reply.trailers.len() + reply.headers.len() {
            (reply.trailers + reply.headers)[at].value
        } else {
            "0"@
        },
{
    lemma_reserved_names_are_lower();
    law_the_first_of_a_name_is_found(reply.trailers + reply.headers, "grpc-status"@, at);
}

/// A reply that says the status 0, or none, over a body that holds a frame is a
/// result: exactly the framed bytes, whatever the flag, whatever follows the
/// frame and whatever other fields there are, under the identity of what was
/// invoked.
pub proof fn law_a_result_is_the_framed_bytes(
    invocation: InvocationView,
    reply: ReplyView,
    at: int,
    flag: u8,
    a: u8,
    b: u8,
    c: u8,
    d: u8,
    message: Seq<u8>,
    rest: Seq<u8>,
)
    requires
        is_first(reply, "grpc-status"@, at),
        at < reply.trailers.len() + reply.headers.len() ==> (reply.trailers
            + reply.headers)[at].value == "0"@,
        reply.body.bytes == seq![flag, a, b, c, d] + message + rest,
        a * 0x100_0000 + b * 0x1_0000 + c * 0x100 + d == message.len(),
    ensures
        outcome_of(invocation, reply) matches Ok(OutcomeView::Result(result)) && {
            &&& result.bytes == message
            &&& result.id == invocation.arguments.id
            &&& result.media_type == Some("application/protobuf"@)
        },
{
    lemma_first_status(reply, at);
    lemma_read_of_parts(flag, a, b, c, d, message, rest);
}

/// A reply that says the status 0, or none, is refused exactly where its body
/// holds no frame, and as such.
pub proof fn law_a_result_without_a_frame_is_refused(
    invocation: InvocationView,
    reply: ReplyView,
    at: int,
)
    requires
        is_first(reply, "grpc-status"@, at),
        at < reply.trailers.len() + reply.headers.len() ==> (reply.trailers
            + reply.headers)[at].value == "0"@,
    ensures
        ({
            let body = reply.body.bytes;
            match outcome_of(invocation, reply) {
                Ok(outcome) => {
                    &&& outcome is Result
                    &&& body.len() >= 5
                    &&& body.len() >= 5 + body[1] * 0x100_0000 + body[2] * 0x1_0000 + body[3]
                        * 0x100 + body[4]
                },
                Err(LogicErrorView::ShortPrefix) => body.len() < 5,
                Err(LogicErrorView::ShortFrame { length }) => {
                    &&& 5 <= body.len() < 5 + length
                    &&& length == body[1] * 0x100_0000 + body[2] * 0x1_0000 + body[3] * 0x100
                        + body[4]
                },
                Err(_) => false,
            }
        }),
{
    lemma_first_status(reply, at);
    law_what_is_read_is_what_the_prefix_counts(reply.body.bytes);
}

/// A reply whose first status is any text but 0 is a fault with that text as
/// its code and the first message there is, or none, as its message, whatever
/// its body holds.
pub proof fn law_any_other_status_is_a_fault(
    invocation: InvocationView,
    reply: ReplyView,
    at: int,
    said: int,
)
    requires
        is_first(reply, "grpc-status"@, at),
        is_first(reply, "grpc-message"@, said),
        at < reply.trailers.len() + reply.headers.len(),
        (reply.trailers + reply.headers)[at].value != "0"@,
    ensures
        outcome_of(invocation, reply) matches Ok(OutcomeView::Fault(fault)) && {
            &&& fault.code == (reply.trailers + reply.headers)[at].value
            &&& said < reply.trailers.len() + reply.headers.len() ==> fault.message == (
            reply.trailers + reply.headers)[said].value
            &&& said == reply.trailers.len() + reply.headers.len() ==> fault.message.len() == 0
        },
{
    lemma_first_status(reply, at);
    lemma_reserved_names_are_lower();
    law_the_first_of_a_name_is_found(reply.trailers + reply.headers, "grpc-message"@, said);
}

/// Every reply has such a place for every name, so one of the laws above speaks
/// of it.
pub proof fn law_there_is_a_first(reply: ReplyView, name: Seq<char>)
    ensures
        exists|at: int| is_first(reply, name, at),
{
    lemma_first_from(reply, name, 0);
}

proof fn lemma_first_from(reply: ReplyView, name: Seq<char>, from: int)
    requires
        0 <= from <= reply.trailers.len() + reply.headers.len(),
        forall|i: int|
            0 <= i < from ==> ascii_lower(#[trigger] (reply.trailers + reply.headers)[i].name)
                != name,
    ensures
        exists|at: int| is_first(reply, name, at),
    decreases reply.trailers.len() + reply.headers.len() - from,
{
    let block = reply.trailers + reply.headers;
    if from == block.len() || ascii_lower(block[from].name) == name {
        assert(is_first(reply, name, from));
    } else {
        lemma_first_from(reply, name, from + 1);
    }
}

/// The mathematical value of each part of a call holds all that the part holds.
pub proof fn law_views_leave_nothing_out(
    stream: Stream,
    header: Header,
    operation: OperationName,
    contract: ContractId,
    fault: Fault,
    arrival: Arrival<'_>,
    invocation: Invocation,
    reply: Reply,
    request: Request,
)
    ensures
        stream@.id == stream.id,
        stream@.bytes == stream.bytes@,
        stream@.media_type is Some <==> stream.media_type is Some,
        stream.media_type matches Some(text) ==> stream@.media_type == Some(text@),
        header@.name == header.name@,
        header@.value == header.value@,
        operation@.service == operation.service@,
        operation@.name == operation.name@,
        contract@ == contract.0@,
        fault@.code == fault.code@,
        fault@.message == fault.message@,
        (Outcome::Result(stream))@ == OutcomeView::Result(stream@),
        (Outcome::Fault(fault))@ == OutcomeView::Fault(fault@),
        arrival@.target == arrival.target@,
        arrival@.method == arrival.method@,
        arrival@.headers == arrival.headers@.map_values(|field: Header| field@),
        arrival@.body == arrival.body@,
        invocation@.operation == invocation.operation@,
        invocation@.arguments == invocation.arguments@,
        invocation@.parameters == invocation.parameters@.map_values(|field: Header| field@),
        invocation@.contract is Some <==> invocation.contract is Some,
        invocation.contract matches Some(id) ==> invocation@.contract == Some(id@),
        reply@.headers == reply.headers@.map_values(|field: Header| field@),
        reply@.body == reply.body@,
        reply@.trailers == reply.trailers@.map_values(|field: Header| field@),
        request@.target == request.target@,
        request@.method == request.method@,
        request@.headers == request.headers@.map_values(|field: Header| field@),
        request@.body == request.body@,
{
}

/// The mathematical value of an error holds all that the error holds.
pub proof fn law_error_views_leave_nothing_out(length: u32, target: String)
    ensures
        (LogicError::ShortPrefix)@ == LogicErrorView::ShortPrefix,
        (LogicError::ShortFrame { length })@ == (LogicErrorView::ShortFrame { length }),
        (LogicError::Oversized)@ == LogicErrorView::Oversized,
        (LogicError::NotAMethodPath { target })@ == (LogicErrorView::NotAMethodPath {
            target: target@,
        }),
{
}

} // verus!
