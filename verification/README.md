# logic_grpc

gRPC as a logic technology. A transport delivers a target, headers and a body;
this library says which operation they name and what its arguments are, and
turns the outcome back into headers, a body and trailers. It does the same in
the other direction: it writes the request for an invocation and reads the
outcome from the reply.

- The path `/package.Service/Method` names the operation.
- The body is one length-prefixed message: a byte that flags compression, four
  bytes of length, most significant first, and the message.
- A result goes back as one frame with `grpc-status` 0 in the trailers, a fault
  as a non-zero `grpc-status` and a `grpc-message`, in the trailers too. An
  outcome is read from the trailers first and then from the headers, since a
  reply without a body may have only one block of fields.
- Metadata travels as headers.

The library is written and proved in Verus. `src/call.rs` holds the parts of a
call, `src/frame.rs`, `src/path.rs`, `src/metadata.rs` and `src/status.rs` each
one piece of the format, `src/grpc.rs` the technology itself, and `src/laws.rs`
what holds of it as a whole. `app/` puts it behind the `Logic` trait.
