//! What holds of the technology as a whole, whatever the call.

use vstd::prelude::*;
use crate::call::{
    ArrivalView, FaultView, HeaderView, InvocationView, OperationNameView, OutcomeView, ReplyView,
    StreamView,
};
use crate::error::LogicErrorView;
use crate::frame::{big_endian, big_endian_value, framed, unframed};
use crate::grpc::{
    fault_trailers, invocation_of, outcome_of, reply_headers, reply_status, reply_to, request_for,
    request_headers, result_trailers,
};
use crate::metadata::{
    carries_metadata, field_of, is_metadata, lemma_field_of_both, lemma_metadata_push,
    lemma_reserved_names_are_lower, metadata_of,
};
use crate::path::{is_nameable, operation_of, path_to};
use crate::status::{named_status, status_of};
use crate::text::{
    ascii_lower, before, digits_value, is_byte_numeral, lemma_position, lemma_position_is_first,
    lemma_without_leading, numeral_value, position, unsigned_part, without_leading,
};

verus! {

/// A body that begins with a flag, the length of a message, and the message
/// reads as that message, compressed if the flag is not zero, whatever follows.
pub proof fn law_first_message_is_read(flag: u8, message: Seq<u8>, rest: Seq<u8>)
    requires
        message.len() <= u32::MAX,
    ensures
        unframed(seq![flag] + big_endian(message.len()) + message + rest) == Ok::<
            (Seq<u8>, bool),
            LogicErrorView,
        >((message, flag != 0)),
{
    let body = seq![flag] + big_endian(message.len()) + message + rest;
    assert(body.subrange(1, 5) =~= big_endian(message.len()));
    assert(big_endian_value(big_endian(message.len())) == message.len());
    assert(body.subrange(5, (5 + message.len()) as int) =~= message);
}

proof fn lemma_big_endian_of_value(bytes: Seq<u8>)
    requires
        bytes.len() == 4,
    ensures
        big_endian_value(bytes) <= u32::MAX,
        big_endian(big_endian_value(bytes)) == bytes,
{
    let n = big_endian_value(bytes);
    let low = bytes[2] * 0x100 + bytes[3];
    let middle = bytes[1] * 0x1_0000 + low;
    assert(n == bytes[0] * 0x100_0000 + middle && middle < 0x100_0000);
    assert(n / 0x100_0000 == bytes[0]);
    assert(n / 0x1_0000 == bytes[0] * 0x100 + bytes[1]);
    assert(n / 0x100 == bytes[0] * 0x1_0000 + bytes[1] * 0x100 + bytes[2]);
    assert(big_endian(n) =~= bytes);
}

/// What is read is what the body begins with: a flag, the length of the
/// message, and the message.
pub proof fn law_what_is_read_stands_in_the_body(body: Seq<u8>, message: Seq<u8>, compressed: bool)
    requires
        unframed(body) == Ok::<(Seq<u8>, bool), LogicErrorView>((message, compressed)),
    ensures
        message.len() <= u32::MAX,
        compressed == (body[0] != 0),
        body == seq![body[0]] + big_endian(message.len()) + message + body.skip(
            (5 + message.len()) as int,
        ),
{
    let length = big_endian_value(body.subrange(1, 5));
    lemma_big_endian_of_value(body.subrange(1, 5));
    assert(message.len() == length);
    assert(body =~= seq![body[0]] + body.subrange(1, 5) + body.subrange(5, (5 + length) as int)
        + body.skip((5 + length) as int));
}

/// A message reads back from its frame, not compressed, also where more bytes
/// follow the frame. Every message that fits has a frame.
pub proof fn law_frame_reads_back(message: Seq<u8>, rest: Seq<u8>)
    requires
        message.len() <= u32::MAX,
    ensures
        framed(message) is Ok,
        unframed(framed(message)->Ok_0 + rest) == Ok::<(Seq<u8>, bool), LogicErrorView>(
            (message, false),
        ),
        unframed(framed(message)->Ok_0) == Ok::<(Seq<u8>, bool), LogicErrorView>((message, false)),
{
    law_first_message_is_read(0, message, rest);
    law_first_message_is_read(0, message, Seq::empty());
    assert(framed(message)->Ok_0 + Seq::empty() =~= framed(message)->Ok_0);
}

/// `n` slashes.
pub open spec fn slashes(n: nat) -> Seq<char> {
    Seq::new(n, |i: int| '/')
}

/// Whether `target` is `n` slashes, the service and the method of `operation`
/// with a slash between them, and then nothing or a query.
pub open spec fn is_path_with(
    target: Seq<char>,
    operation: OperationNameView,
    n: nat,
    query: Seq<char>,
) -> bool {
    &&& target == slashes(n) + operation.service + seq!['/'] + operation.name + query
    &&& query.len() > 0 ==> query[0] == '?'
}

proof fn lemma_leading(s: Seq<char>, c: char) -> (from: int)
    ensures
        0 <= from <= s.len(),
        forall|i: int| 0 <= i < from ==> s[i] == c,
        from < s.len() ==> s[from] != c,
        without_leading(s, c) == s.skip(from),
    decreases s.len(),
{
    if s.len() > 0 && s[0] == c {
        let rest = s.drop_first();
        let inner = lemma_leading(rest, c);
        assert forall|i: int| 0 <= i < inner + 1 implies s[i] == c by {
            if i > 0 {
                assert(rest[i - 1] == s[i]);
            }
        }
        assert(inner < rest.len() ==> rest[inner] == s[inner + 1]);
        lemma_without_leading(s, c, inner + 1);
        inner + 1
    } else {
        lemma_without_leading(s, c, 0);
        0
    }
}

/// A target that is such a path names the operation in it.
pub proof fn law_a_path_names_its_operation(
    target: Seq<char>,
    operation: OperationNameView,
    n: nat,
    query: Seq<char>,
)
    requires
        is_nameable(operation),
        is_path_with(target, operation, n, query),
    ensures
        operation_of(target) == Some(operation),
{
    let service = operation.service;
    let method = operation.name;
    let path = service + seq!['/'] + method;
    let end = n + path.len();
    assert(target =~= slashes(n) + path + query);
    assert forall|i: int| 0 <= i < end implies target[i] != '?' by {
        if i < n {
        } else if i < n + service.len() {
            assert(target[i] == service[i - n]);
        } else if i > n + service.len() {
            assert(target[i] == method[i - n - service.len() - 1]);
        }
    }
    assert(end < target.len() ==> target[end as int] == query[0]);
    lemma_position(target, '?', end as int);
    let all = before(target, '?');
    assert(all =~= slashes(n) + path);
    assert(all[n as int] == service[0]);
    lemma_without_leading(all, '/', n as int);
    assert(all.skip(n as int) =~= path);
    assert forall|i: int| 0 <= i < service.len() implies path[i] != '/' by {
        assert(path[i] == service[i]);
    }
    lemma_position(path, '/', service.len() as int);
    assert(path.take(service.len() as int) =~= service);
    assert(path.skip(service.len() as int + 1) =~= method);
}

/// A target that names an operation is such a path, and the operation is one
/// that a path can name.
pub proof fn law_a_name_comes_from_a_path(target: Seq<char>, operation: OperationNameView)
    requires
        operation_of(target) == Some(operation),
    ensures
        is_nameable(operation),
        exists|n: nat, query: Seq<char>| is_path_with(target, operation, n, query),
{
    let end = position(target, '?') as int;
    let all = before(target, '?');
    lemma_position_is_first(target, '?');
    let from = lemma_leading(all, '/');
    let path = all.skip(from);
    let slash = position(path, '/') as int;
    lemma_position_is_first(path, '/');
    let service = operation.service;
    let method = operation.name;
    assert(!service.contains('/') && !service.contains('?')) by {
        assert forall|i: int| 0 <= i < service.len() implies service[i] != '/' && service[i]
            != '?' by {
            assert(service[i] == path[i]);
            assert(path[i] == target[from + i]);
        }
    }
    assert(!method.contains('?')) by {
        assert forall|i: int| 0 <= i < method.len() implies method[i] != '?' by {
            assert(method[i] == target[from + slash + 1 + i]);
        }
    }
    let query = target.skip(end);
    assert(path =~= service + seq!['/'] + method);
    assert(all =~= slashes(from as nat) + path);
    assert(target =~= all + query);
    assert(target =~= slashes(from as nat) + service + seq!['/'] + method + query);
    assert(is_path_with(target, operation, from as nat, query));
}

/// The path to an operation names that operation, exactly where a path can name
/// it at all.
pub proof fn law_path_reads_back(operation: OperationNameView)
    ensures
        operation_of(path_to(operation)) == Some(operation) <==> is_nameable(operation),
{
    if is_nameable(operation) {
        let query = Seq::<char>::empty();
        assert(path_to(operation) =~= slashes(1) + operation.service + seq!['/'] + operation.name
            + query);
        law_a_path_names_its_operation(path_to(operation), operation, 1, query);
    }
    if operation_of(path_to(operation)) == Some(operation) {
        law_a_name_comes_from_a_path(path_to(operation), operation);
    }
}

/// A slash more in front of a target changes nothing.
pub proof fn law_leading_slashes_do_not_matter(target: Seq<char>)
    ensures
        operation_of(seq!['/'] + target) == operation_of(target),
{
    let longer = seq!['/'] + target;
    lemma_position_is_first(target, '?');
    assert(longer.drop_first() =~= target);
    assert(position(longer, '?') == 1 + position(target, '?'));
    assert(before(longer, '?') =~= seq!['/'] + before(target, '?'));
    assert(before(longer, '?').drop_first() =~= before(target, '?'));
    assert(without_leading(before(longer, '?'), '/') == without_leading(before(target, '?'), '/'));
}

/// A query after a target changes nothing.
pub proof fn law_the_query_does_not_matter(target: Seq<char>, query: Seq<char>)
    ensures
        operation_of(target + seq!['?'] + query) == operation_of(target),
{
    let longer = target + seq!['?'] + query;
    let end = position(target, '?') as int;
    lemma_position_is_first(target, '?');
    assert forall|i: int| 0 <= i < end implies longer[i] != '?' by {
        assert(longer[i] == target[i]);
    }
    assert(longer[end] == '?');
    lemma_position(longer, '?', end);
    assert(before(longer, '?') =~= before(target, '?'));
}

proof fn lemma_named_status(code: Seq<char>)
    requires
        named_status(code) is Some,
    ensures
        !is_byte_numeral(code),
        is_byte_numeral(named_status(code)->0),
        1 <= numeral_value(named_status(code)->0) <= 16,
{
    reveal_strlit("CANCELLED");
    reveal_strlit("UNKNOWN");
    reveal_strlit("INVALID_ARGUMENT");
    reveal_strlit("DEADLINE_EXCEEDED");
    reveal_strlit("NOT_FOUND");
    reveal_strlit("ALREADY_EXISTS");
    reveal_strlit("PERMISSION_DENIED");
    reveal_strlit("RESOURCE_EXHAUSTED");
    reveal_strlit("FAILED_PRECONDITION");
    reveal_strlit("ABORTED");
    reveal_strlit("OUT_OF_RANGE");
    reveal_strlit("UNIMPLEMENTED");
    reveal_strlit("INTERNAL");
    reveal_strlit("UNAVAILABLE");
    reveal_strlit("DATA_LOSS");
    reveal_strlit("UNAUTHENTICATED");
    reveal_strlit("1");
    reveal_strlit("2");
    reveal_strlit("3");
    reveal_strlit("4");
    reveal_strlit("5");
    reveal_strlit("6");
    reveal_strlit("7");
    reveal_strlit("8");
    reveal_strlit("9");
    reveal_strlit("10");
    reveal_strlit("11");
    reveal_strlit("12");
    reveal_strlit("13");
    reveal_strlit("14");
    reveal_strlit("15");
    reveal_strlit("16");
    reveal_with_fuel(digits_value, 3);
    assert(!crate::text::is_digit(code[0]) && code[0] != '+');
    assert(unsigned_part(code)[0] == code[0]);
    let status = named_status(code)->0;
    assert(unsigned_part(status) == status);
}

proof fn lemma_unknown_and_zero()
    ensures
        named_status("UNKNOWN"@) == Some("2"@),
        is_byte_numeral("0"@),
        numeral_value("0"@) == 0,
{
    reveal_strlit("CANCELLED");
    reveal_strlit("UNKNOWN");
    reveal_strlit("0");
    reveal_with_fuel(digits_value, 2);
    assert("CANCELLED"@.len() != "UNKNOWN"@.len());
    assert(unsigned_part("0"@) == "0"@);
}

/// Every fault has a status that is a number of one byte, and that number is
/// not zero: it is not the status of a result.
pub proof fn law_a_status_is_a_number_other_than_zero(code: Seq<char>)
    ensures
        is_byte_numeral(status_of(code)),
        numeral_value(status_of(code)) != 0,
        status_of(code) != "0"@,
{
    lemma_unknown_and_zero();
    lemma_named_status("UNKNOWN"@);
    if named_status(code) is Some {
        lemma_named_status(code);
    }
}

/// A status stands for itself: a fault that is passed on keeps its status.
pub proof fn law_a_status_stands_for_itself(code: Seq<char>)
    ensures
        status_of(status_of(code)) == status_of(code),
{
    law_a_status_is_a_number_other_than_zero(code);
    if named_status(status_of(code)) is Some {
        lemma_named_status(status_of(code));
    }
}

/// A code that writes a number of one byte other than zero is its own status,
/// as it is written.
pub proof fn law_a_numeric_code_is_its_status(code: Seq<char>)
    requires
        is_byte_numeral(code),
        numeral_value(code) != 0,
    ensures
        status_of(code) == code,
{
    if named_status(code) is Some {
        lemma_named_status(code);
    }
}

/// The metadata of two blocks is that of the one and then that of the other.
pub proof fn law_metadata_of_two_blocks(first: Seq<HeaderView>, second: Seq<HeaderView>)
    ensures
        metadata_of(first + second) == metadata_of(first) + metadata_of(second),
{
    Seq::filter_distributes_over_add(first, second, carries_metadata());
}

/// Metadata is made of the fields of the block that are metadata, all of them
/// and no others.
pub proof fn law_metadata_is_all_that_is_metadata(block: Seq<HeaderView>, field: HeaderView)
    ensures
        metadata_of(block).contains(field) <==> block.contains(field) && is_metadata(field.name),
    decreases block.len(),
{
    if block.len() == 0 {
        reveal(Seq::filter);
    } else {
        let rest = block.drop_last();
        law_metadata_is_all_that_is_metadata(rest, field);
        lemma_metadata_push(rest, block.last());
        assert(rest.push(block.last()) =~= block);
        assert(block.contains(field) <==> rest.contains(field) || field == block.last()) by {
            if block.contains(field) && field != block.last() {
                let i = choose|i: int| 0 <= i < block.len() && block[i] == field;
                assert(rest[i] == field);
            }
            if rest.contains(field) {
                let i = choose|i: int| 0 <= i < rest.len() && rest[i] == field;
                assert(block[i] == field);
            }
            if field == block.last() {
                assert(block[block.len() - 1] == field);
            }
        }
        let kept = metadata_of(rest);
        assert(kept.push(block.last()).contains(field) <==> kept.contains(field) || field
            == block.last()) by {
            if kept.contains(field) {
                let i = choose|i: int| 0 <= i < kept.len() && kept[i] == field;
                assert(kept.push(block.last())[i] == field);
            }
            if field == block.last() {
                assert(kept.push(block.last())[kept.len() as int] == field);
            }
        }
    }
}

/// Taking the metadata of metadata changes nothing.
pub proof fn law_metadata_stays_metadata(block: Seq<HeaderView>)
    ensures
        metadata_of(metadata_of(block)) == metadata_of(block),
    decreases block.len(),
{
    if block.len() == 0 {
        reveal(Seq::filter);
    } else {
        let rest = block.drop_last();
        law_metadata_stays_metadata(rest);
        lemma_metadata_push(rest, block.last());
        lemma_metadata_push(metadata_of(rest), block.last());
        assert(rest.push(block.last()) =~= block);
    }
}

/// The case of the letters in a field's name decides nothing: neither whether
/// the field is metadata, nor whether it is found.
pub proof fn law_case_does_not_matter(name: Seq<char>, other: Seq<char>, block: Seq<HeaderView>)
    requires
        ascii_lower(name) == ascii_lower(other),
    ensures
        is_metadata(name) == is_metadata(other),
        field_of(block, name) == field_of(block, other),
    decreases block.len(),
{
    if block.len() > 0 {
        law_case_does_not_matter(name, other, block.drop_first());
    }
}

proof fn lemma_request_headers_are_no_metadata()
    ensures
        metadata_of(request_headers()) == Seq::<HeaderView>::empty(),
{
    lemma_reserved_names_are_lower();
    let none = Seq::<HeaderView>::empty();
    let content_type = request_headers()[0];
    let te = request_headers()[1];
    assert(metadata_of(none) == none) by {
        reveal(Seq::filter);
    }
    lemma_metadata_push(none, content_type);
    lemma_metadata_push(none.push(content_type), te);
    assert(none.push(content_type).push(te) =~= request_headers());
}

/// A request reads back, where it arrives, as the invocation that it asks for:
/// the same operation and the same bytes, under the identity of the body that
/// arrived. Its parameters are the metadata that arrived, whatever fields the
/// transport adds or leaves; the metadata that is sent is that among the
/// parameters of what was asked for.
pub proof fn law_a_request_reads_back(invocation: InvocationView, arrival: ArrivalView)
    requires
        is_nameable(invocation.operation),
        invocation.arguments.bytes.len() <= u32::MAX,
        arrival.target == (request_for(invocation)->Ok_0).target,
        arrival.body.bytes == (request_for(invocation)->Ok_0).body.bytes,
    ensures
        request_for(invocation) is Ok,
        metadata_of((request_for(invocation)->Ok_0).headers) == metadata_of(invocation.parameters),
        invocation_of(arrival) == Ok::<InvocationView, LogicErrorView>(
            InvocationView {
                operation: invocation.operation,
                arguments: StreamView {
                    id: arrival.body.id,
                    bytes: invocation.arguments.bytes,
                    media_type: Some(crate::grpc::ARGUMENTS@),
                },
                parameters: metadata_of(arrival.headers),
                contract: Some("protobuf"@),
            },
        ),
{
    let message = invocation.arguments.bytes;
    law_frame_reads_back(message, Seq::empty());
    law_path_reads_back(invocation.operation);
    law_metadata_of_two_blocks(request_headers(), metadata_of(invocation.parameters));
    law_metadata_stays_metadata(invocation.parameters);
    lemma_request_headers_are_no_metadata();
    assert(Seq::<HeaderView>::empty() + metadata_of(invocation.parameters) =~= metadata_of(
        invocation.parameters,
    ));
}

/// An invocation that was read can be asked for in turn, and where that request
/// arrives with the metadata that it was sent with, it reads as the same
/// invocation.
#[verifier::spinoff_prover]
#[verifier::rlimit(50)]
pub proof fn law_an_invocation_can_be_passed_on(
    first: ArrivalView,
    invocation: InvocationView,
    second: ArrivalView,
)
    requires
        invocation_of(first) == Ok::<InvocationView, LogicErrorView>(invocation),
        second.target == (request_for(invocation)->Ok_0).target,
        metadata_of(second.headers) == metadata_of((request_for(invocation)->Ok_0).headers),
        second.body == (request_for(invocation)->Ok_0).body,
    ensures
        request_for(invocation) is Ok,
        invocation_of(second) == Ok::<InvocationView, LogicErrorView>(invocation),
{
    law_a_name_comes_from_a_path(first.target, invocation.operation);
    let (message, compressed) = unframed(first.body.bytes)->Ok_0;
    law_what_is_read_stands_in_the_body(first.body.bytes, message, compressed);
    law_a_request_reads_back(invocation, second);
    law_metadata_stays_metadata(first.headers);
    if compressed {
        let record = crate::grpc::header("grpc-compressed"@, "true"@);
        assert(is_metadata(record.name)) by {
            reveal_strlit("grpc-compressed");
            reveal_strlit("content-type");
            reveal_strlit("te");
            reveal_strlit("grpc-status");
            reveal_strlit("grpc-message");
            assert(ascii_lower(record.name)[0] == 'g');
            assert(ascii_lower(record.name).len() == 15);
        }
        lemma_metadata_push(metadata_of(first.headers), record);
    }
}

/// The flag of a frame changes nothing about an invocation but one parameter
/// more, which records it; the bytes are the same.
pub proof fn law_compression_is_recorded(arrival: ArrivalView, plain: ArrivalView)
    requires
        arrival.body.bytes.len() > 0,
        arrival.body.bytes[0] != 0,
        plain == (ArrivalView {
            body: StreamView { bytes: arrival.body.bytes.update(0, 0), ..arrival.body },
            ..arrival
        }),
    ensures
        match invocation_of(plain) {
            Ok(invocation) => invocation_of(arrival) == Ok::<InvocationView, LogicErrorView>(
                InvocationView {
                    parameters: invocation.parameters.push(
                        crate::grpc::header("grpc-compressed"@, "true"@),
                    ),
                    ..invocation
                },
            ),
            Err(error) => invocation_of(arrival) == Err::<InvocationView, LogicErrorView>(error),
        },
{
    let flagged = arrival.body.bytes;
    let cleared = plain.body.bytes;
    if flagged.len() >= 5 {
        assert(flagged.subrange(1, 5) =~= cleared.subrange(1, 5));
        let end = (5 + big_endian_value(flagged.subrange(1, 5))) as int;
        if end <= flagged.len() {
            assert(flagged.subrange(5, end) =~= cleared.subrange(5, end));
        }
    }
}

proof fn lemma_fields_of_replies(fault: FaultView)
    ensures
        field_of(reply_headers(), "grpc-status"@) is None,
        field_of(reply_headers(), "grpc-message"@) is None,
        field_of(result_trailers(), "grpc-status"@) == Some("0"@),
        field_of(fault_trailers(fault), "grpc-status"@) == Some(status_of(fault.code)),
        field_of(fault_trailers(fault), "grpc-message"@) == Some(fault.message),
{
    reveal_with_fuel(field_of, 3);
    reveal_strlit(":status");
    reveal_strlit("content-type");
    reveal_strlit("grpc-status");
    reveal_strlit("grpc-message");
    lemma_reserved_names_are_lower();
    assert(ascii_lower(":status"@)[0] == ':');
    assert("content-type"@[0] == 'c' && "grpc-message"@[0] == 'g');
    assert(ascii_lower(":status"@).len() == 7);
}

/// A fault is always answered: with no body, its status and its message in the
/// trailers, and no word of either in the headers. That status is a
/// number other than zero.
pub proof fn law_a_fault_is_a_status_with_a_message(invocation: InvocationView, fault: FaultView)
    ensures
        reply_to(invocation, OutcomeView::Fault(fault)) matches Ok(reply) && {
            &&& reply.body.bytes == Seq::<u8>::empty()
            &&& reply.body.id == invocation.arguments.id
            &&& field_of(reply.headers, "grpc-status"@) is None
            &&& field_of(reply.headers, "grpc-message"@) is None
            &&& field_of(reply.trailers, "grpc-status"@) == Some(status_of(fault.code))
            &&& field_of(reply.trailers, "grpc-message"@) == Some(fault.message)
            &&& reply_status(reply) == status_of(fault.code)
            &&& is_byte_numeral(reply_status(reply))
            &&& numeral_value(reply_status(reply)) != 0
            &&& reply_status(reply) != "0"@
        },
{
    lemma_fields_of_replies(fault);
    lemma_field_of_both(fault_trailers(fault), reply_headers(), "grpc-status"@);
    law_a_status_is_a_number_other_than_zero(fault.code);
}

/// A result that fits a frame is always answered: with that frame, the status
/// `0` in the trailers, and none in the headers. One that does not fit never is.
pub proof fn law_a_result_is_a_frame_with_status_zero(
    invocation: InvocationView,
    result: StreamView,
)
    ensures
        match reply_to(invocation, OutcomeView::Result(result)) {
            Ok(reply) => {
                &&& result.bytes.len() <= u32::MAX
                &&& framed(result.bytes) == Ok::<Seq<u8>, LogicErrorView>(reply.body.bytes)
                &&& reply.body.id == invocation.arguments.id
                &&& field_of(reply.headers, "grpc-status"@) is None
                &&& field_of(reply.trailers, "grpc-status"@) == Some("0"@)
            },
            Err(error) => result.bytes.len() > u32::MAX && error == LogicErrorView::Oversized,
        },
{
    lemma_fields_of_replies(FaultView { code: Seq::empty(), message: Seq::empty() });
}

/// Where the trailers of a reply hold a status, and a message or no need of
/// one, the headers decide nothing.
pub proof fn law_the_trailers_come_first(
    invocation: InvocationView,
    reply: ReplyView,
    headers: Seq<HeaderView>,
)
    requires
        field_of(reply.trailers, "grpc-status"@) is Some,
        field_of(reply.trailers, "grpc-status"@) == Some("0"@) || field_of(
            reply.trailers,
            "grpc-message"@,
        ) is Some,
    ensures
        outcome_of(invocation, ReplyView { headers, ..reply }) == outcome_of(invocation, reply),
{
    lemma_field_of_both(reply.trailers, reply.headers, "grpc-status"@);
    lemma_field_of_both(reply.trailers, reply.headers, "grpc-message"@);
    lemma_field_of_both(reply.trailers, headers, "grpc-status"@);
    lemma_field_of_both(reply.trailers, headers, "grpc-message"@);
}

/// A reply with one block of fields reads the same whether that block leads or
/// trails.
pub proof fn law_the_only_block_may_lead(
    invocation: InvocationView,
    block: Seq<HeaderView>,
    body: StreamView,
)
    ensures
        outcome_of(
            invocation,
            ReplyView { headers: block, body, trailers: Seq::empty() },
        ) == outcome_of(invocation, ReplyView { headers: Seq::empty(), body, trailers: block }),
{
    assert(Seq::<HeaderView>::empty() + block =~= block);
    assert(block + Seq::<HeaderView>::empty() =~= block);
}

/// A result reads back from its reply as the same bytes, whatever headers the
/// transport leaves or adds, under the identity of what the caller invoked.
pub proof fn law_a_result_reads_back(
    served: InvocationView,
    result: StreamView,
    invoked: InvocationView,
    reply: ReplyView,
)
    requires
        result.bytes.len() <= u32::MAX,
        reply.body.bytes == (reply_to(served, OutcomeView::Result(result))->Ok_0).body.bytes,
        reply.trailers == (reply_to(served, OutcomeView::Result(result))->Ok_0).trailers,
    ensures
        reply_to(served, OutcomeView::Result(result)) is Ok,
        outcome_of(invoked, reply) == Ok::<OutcomeView, LogicErrorView>(
            OutcomeView::Result(
                StreamView {
                    id: invoked.arguments.id,
                    bytes: result.bytes,
                    media_type: Some(crate::grpc::ARGUMENTS@),
                },
            ),
        ),
{
    law_a_result_is_a_frame_with_status_zero(served, result);
    law_frame_reads_back(result.bytes, Seq::empty());
    lemma_field_of_both(reply.trailers, reply.headers, "grpc-status"@);
}

/// A fault reads back from its reply as its status with its message, whatever
/// body and headers the transport leaves or adds.
pub proof fn law_a_fault_reads_back(
    served: InvocationView,
    fault: FaultView,
    invoked: InvocationView,
    reply: ReplyView,
)
    requires
        reply.trailers == (reply_to(served, OutcomeView::Fault(fault))->Ok_0).trailers,
    ensures
        reply_to(served, OutcomeView::Fault(fault)) is Ok,
        outcome_of(invoked, reply) == Ok::<OutcomeView, LogicErrorView>(
            OutcomeView::Fault(
                FaultView { code: status_of(fault.code), message: fault.message },
            ),
        ),
{
    law_a_fault_is_a_status_with_a_message(served, fault);
    lemma_field_of_both(reply.trailers, reply.headers, "grpc-status"@);
    lemma_field_of_both(reply.trailers, reply.headers, "grpc-message"@);
}

/// A fault whose code is a number of one byte other than zero, as one that was
/// read from a reply may be, is passed on unchanged: it reads back from its own
/// reply as the same fault.
pub proof fn law_a_numeric_fault_can_be_passed_on(
    served: InvocationView,
    fault: FaultView,
    invoked: InvocationView,
    reply: ReplyView,
)
    requires
        is_byte_numeral(fault.code),
        numeral_value(fault.code) != 0,
        reply.trailers == (reply_to(served, OutcomeView::Fault(fault))->Ok_0).trailers,
    ensures
        outcome_of(invoked, reply) == Ok::<OutcomeView, LogicErrorView>(OutcomeView::Fault(fault)),
{
    law_a_numeric_code_is_its_status(fault.code);
    law_a_fault_reads_back(served, fault, invoked, reply);
}

} // verus!
