//! Values and types of the contract ABI, and what is done with them: type
//! checks, reconciliation of widths, canonical signatures, and the encoding
//! and decoding of calls and logs.

pub mod codec;
pub mod convert;
pub mod descriptor;
pub mod error;
pub mod event_ext;
pub mod function_ext;
pub mod param;
pub mod signature;
pub mod text;
pub mod types;
pub mod value_ext;

pub use descriptor::{Event, EventParam, Function, Log, LogData, Param};
pub use error::{AbiError, ErrorKind};
pub use event_ext::{name_decoded, EventExt};
pub use function_ext::{fix_type_size, FunctionExt};
pub use param::DynSolParam;
pub use types::{Kind, SolType, SolValue};
pub use value_ext::DynSolValueExt;
