//! A one-shot loopback listener library.
//!
//! The library holds the verified core of a small server that binds a TCP
//! listener to an ephemeral loopback port, accepts exactly one connection,
//! reads the whole byte stream the peer sends, and reports it as text.
//! The surrounding program performs the socket calls and hands the library
//! plain values: the assigned port and the bytes that were read.
//!
//! [`text`] turns received bytes into text: a UTF-8 decoder proved against
//! vstd's UTF-8 specification, and a best-effort variant that yields the
//! empty string when the bytes are not valid UTF-8.
//! [`session`] tracks the single exchange through its phases
//! (created, bound, accepted, read, done) and proves that a session never
//! moves backwards, so at most one connection is ever accepted.

pub mod session;
pub mod text;
