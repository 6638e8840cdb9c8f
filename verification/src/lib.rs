//! Values and types of the contract ABI: width reconciliation, canonical
//! signatures, and the decoding of calls and logs.

pub mod abi;
