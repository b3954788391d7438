use vstd::prelude::*;

pub mod abi_type;
pub mod decimal;
pub mod descriptor;
pub mod laws;
pub mod signature;

pub use abi_type::Type;
pub use descriptor::{parse, ParameterDescriptor};
pub use signature::{parse_signature, BaseType, Dim, ParseError};

verus! {

} // verus!
