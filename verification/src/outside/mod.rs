//! The functions of other crates that the library calls, each behind one item
//! whose contract is believed and not proved.
pub mod bits;
pub mod cipher;
pub mod digest;
pub mod encoding;
pub mod integer;
pub mod shell;
pub mod utf8;
