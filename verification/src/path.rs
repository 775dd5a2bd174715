//! The path `/package.Service/Method`, which names an operation.

use vstd::prelude::*;
use vstd::string::StrSliceExecFns;
use crate::call::{OperationName, OperationNameView};
use crate::error::{LogicError, LogicErrorView};
use crate::text::{
    before, characters, find, lemma_position_is_first, lemma_without_leading, position,
    without_leading,
};

verus! {

/// The operation that `target` names, if it names one: what stands before a
/// `?`, without the slashes in front, is a service and a method with one slash
/// between them, and neither is empty.
pub open spec fn operation_of(target: Seq<char>) -> Option<OperationNameView> {
    let path = without_leading(before(target, '?'), '/');
    let slash = position(path, '/') as int;
    let service = path.take(slash);
    let method = path.skip(slash + 1);
    if slash < path.len() && service.len() > 0 && method.len() > 0 && !method.contains('/') {
        Some(OperationNameView { service, name: method })
    } else {
        None
    }
}

/// The operation that `target` names, or the refusal of a target that names
/// none.
pub open spec fn named(target: Seq<char>) -> Result<OperationNameView, LogicErrorView> {
    match operation_of(target) {
        Some(operation) => Ok(operation),
        None => Err(LogicErrorView::NotAMethodPath { target }),
    }
}

/// The path to an operation.
pub open spec fn path_to(operation: OperationNameView) -> Seq<char> {
    seq!['/'] + operation.service + seq!['/'] + operation.name
}

/// Whether an operation can be named by a path: its two names are not empty,
/// and neither holds a `/` or a `?`.
pub open spec fn is_nameable(operation: OperationNameView) -> bool {
    &&& operation.service.len() > 0
    &&& operation.name.len() > 0
    &&& !operation.service.contains('/')
    &&& !operation.service.contains('?')
    &&& !operation.name.contains('/')
    &&& !operation.name.contains('?')
}

/// `/package.Service/Method` into its two names.
pub fn name_of(target: &str) -> (name: Result<OperationName, LogicError>)
    ensures
        match name {
            Ok(operation) => named(target@) == Ok::<OperationNameView, LogicErrorView>(operation@),
            Err(error) => named(target@) == Err::<OperationNameView, LogicErrorView>(error@),
        },
{
    let chars = characters(target);
    let end = find(&chars, 0, chars.len(), '?');
    let mut start: usize = 0;
    proof {
        assert(chars@.subrange(0, chars@.len() as int) =~= target@);
        lemma_position_is_first(target@, '?');
    }
    while start < end && chars[start] == '/'
        invariant
            start <= end <= chars@.len(),
            forall|i: int| 0 <= i < start ==> chars@[i] == '/',
        decreases end - start,
    {
        start = start + 1;
    }
    let ghost path = chars@.subrange(start as int, end as int);
    proof {
        lemma_without_leading(before(target@, '?'), '/', start as int);
        assert(before(target@, '?').skip(start as int) =~= path);
        lemma_position_is_first(path, '/');
    }
    let slash = find(&chars, start, end, '/');
    if start < slash && slash < end && slash + 1 < end {
        let ghost method = chars@.subrange(slash + 1, end as int);
        proof {
            assert(path.take(slash - start) =~= chars@.subrange(start as int, slash as int));
            assert(path.skip(slash - start + 1) =~= method);
            lemma_position_is_first(method, '/');
        }
        if find(&chars, slash + 1, end, '/') == end {
            let service = target.substring_char(start, slash);
            let method = target.substring_char(slash + 1, end);
            return Ok(OperationName::new(service, method));
        }
    }
    Err(LogicError::NotAMethodPath { target: target.to_string() })
}

} // verus!
