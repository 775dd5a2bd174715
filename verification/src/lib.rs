//! gRPC as a logic technology: what a gRPC call looks like on the wire, and
//! which operation, arguments and outcome it stands for.

pub mod call;
pub mod error;
pub mod frame;
pub mod grpc;
pub mod laws;
pub mod metadata;
pub mod path;
pub mod status;
pub mod text;
pub mod wire;

pub use crate::grpc::Grpc;
