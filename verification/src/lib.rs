//! A codec for JVM class files: the structural model of a compiled class,
//! a decoder from the binary format and an encoder back to it, together with
//! the table of JVM TI error codes.
pub mod bytecode;
pub mod error;
