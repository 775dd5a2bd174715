//! Fields of a header or trailer block: which of them are metadata, and what
//! the block says under a name.

use vstd::prelude::*;
use crate::call::{fields, Header, HeaderView};
use crate::text::{ascii_lower, ascii_lower_char, begins_with, same_ignoring_ascii_case};

verus! {

/// Whether a field of this name is metadata: the fields of HTTP/2 itself, which
/// begin with a colon, and those that gRPC writes for itself are not. Names are
/// the same whatever the case of their letters.
pub open spec fn is_metadata(name: Seq<char>) -> bool {
    let lower = ascii_lower(name);
    &&& !(lower.len() > 0 && lower[0] == ':')
    &&& lower != "content-type"@
    &&& lower != "te"@
    &&& lower != "grpc-status"@
    &&& lower != "grpc-message"@
}

/// Tells the metadata among fields.
pub open spec fn carries_metadata() -> spec_fn(HeaderView) -> bool {
    |field: HeaderView| is_metadata(field.name)
}

/// The fields of `block` that are metadata, in their order.
pub open spec fn metadata_of(block: Seq<HeaderView>) -> Seq<HeaderView> {
    block.filter(carries_metadata())
}

/// The value of the first field of `block` under `name`, whatever the case of
/// its letters.
pub open spec fn field_of(block: Seq<HeaderView>, name: Seq<char>) -> Option<Seq<char>>
    decreases block.len(),
{
    if block.len() == 0 {
        None
    } else if ascii_lower(block[0].name) == ascii_lower(name) {
        Some(block[0].value)
    } else {
        field_of(block.drop_first(), name)
    }
}

/// The names that gRPC writes for itself are in lower case.
pub proof fn lemma_reserved_names_are_lower()
    ensures
        ascii_lower("content-type"@) == "content-type"@,
        ascii_lower("te"@) == "te"@,
        ascii_lower("grpc-status"@) == "grpc-status"@,
        ascii_lower("grpc-message"@) == "grpc-message"@,
{
    reveal_strlit("content-type");
    reveal_strlit("te");
    reveal_strlit("grpc-status");
    reveal_strlit("grpc-message");
    assert(ascii_lower("content-type"@) =~= "content-type"@);
    assert(ascii_lower("te"@) =~= "te"@);
    assert(ascii_lower("grpc-status"@) =~= "grpc-status"@);
    assert(ascii_lower("grpc-message"@) =~= "grpc-message"@);
}

/// One field more is one more piece of metadata, or none.
pub proof fn lemma_metadata_push(block: Seq<HeaderView>, field: HeaderView)
    ensures
        metadata_of(block.push(field)) == if is_metadata(field.name) {
            metadata_of(block).push(field)
        } else {
            metadata_of(block)
        },
{
    block.lemma_filter_push(field, carries_metadata());
}

/// A field is looked for in the first of two blocks, and in the second only
/// where the first has none of that name.
pub proof fn lemma_field_of_both(first: Seq<HeaderView>, second: Seq<HeaderView>, name: Seq<char>)
    ensures
        field_of(first + second, name) == match field_of(first, name) {
            Some(value) => Some(value),
            None => field_of(second, name),
        },
    decreases first.len(),
{
    if first.len() == 0 {
        assert(first + second =~= second);
    } else {
        assert((first + second).drop_first() =~= first.drop_first() + second);
        lemma_field_of_both(first.drop_first(), second, name);
    }
}

/// Whether a field of this name is metadata.
fn names_metadata(name: &str) -> (is: bool)
    ensures
        is == is_metadata(name@),
{
    proof {
        lemma_reserved_names_are_lower();
        if name@.len() > 0 {
            assert(ascii_lower(name@)[0] == ascii_lower_char(name@[0]));
        }
    }
    !begins_with(name, ':') && !same_ignoring_ascii_case(name, "content-type")
        && !same_ignoring_ascii_case(name, "te") && !same_ignoring_ascii_case(name, "grpc-status")
        && !same_ignoring_ascii_case(name, "grpc-message")
}

/// The fields that are metadata, in their order.
pub fn metadata(headers: &[Header]) -> (kept: Vec<Header>)
    ensures
        fields(kept@) == metadata_of(fields(headers@)),
{
    let mut kept: Vec<Header> = Vec::new();
    let mut i: usize = 0;
    proof {
        reveal(Seq::filter);
        assert(fields(headers@).take(0) =~= Seq::<HeaderView>::empty());
        assert(fields(kept@) =~= Seq::<HeaderView>::empty());
    }
    while i < headers.len()
        invariant
            i <= headers@.len(),
            fields(kept@) == metadata_of(fields(headers@).take(i as int)),
        decreases headers@.len() - i,
    {
        let ghost before = kept@;
        let header = &headers[i];
        proof {
            assert(fields(headers@).take(i + 1) =~= fields(headers@).take(i as int).push(header@));
            lemma_metadata_push(fields(headers@).take(i as int), header@);
        }
        if names_metadata(header.name.as_str()) {
            kept.push(header.clone());
            assert(fields(kept@) =~= fields(before).push(header@));
        }
        i = i + 1;
    }
    assert(fields(headers@).take(i as int) =~= fields(headers@));
    kept
}

/// The value of the first field under `name`, whatever the case of its
/// letters.
pub fn field<'a>(headers: &'a [Header], name: &str) -> (value: Option<&'a str>)
    ensures
        match value {
            Some(value) => field_of(fields(headers@), name@) == Some(value@),
            None => field_of(fields(headers@), name@) is None,
        },
{
    let mut i: usize = 0;
    assert(fields(headers@).skip(0) =~= fields(headers@));
    while i < headers.len()
        invariant
            i <= headers@.len(),
            field_of(fields(headers@), name@) == field_of(fields(headers@).skip(i as int), name@),
        decreases headers@.len() - i,
    {
        let header = &headers[i];
        assert(fields(headers@).skip(i as int)[0] == header@);
        if same_ignoring_ascii_case(header.name.as_str(), name) {
            return Some(header.value.as_str());
        }
        assert(fields(headers@).skip(i as int).drop_first() =~= fields(headers@).skip(i + 1));
        i = i + 1;
    }
    None
}

} // verus!
