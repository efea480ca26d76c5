//! A small content-addressed object store reader and revision resolver.
//!
//! Two independent halves share this crate:
//!
//! * the object codec ([`parser`]) inflates a stored record and splits it into a
//!   typed header and its payload;
//! * the revision resolver ([`rev_spec`], [`resolve`]) parses a revision
//!   expression and looks its base name up among the `HEAD` pointer, the loose
//!   objects, the branches and the tags, through read capabilities supplied by
//!   the caller.
//!
//! Every function carries a contract over the mathematical models defined next
//! to it. Two calls leave verified code: zlib decompression, in [`inflate`],
//! and the UTF-8 check of the standard library, in [`object`].
pub mod scan;
pub mod decimal;
pub mod inflate;
pub mod parser;
pub mod grammar;
pub mod object;
pub mod path;
pub mod rev_spec;
pub mod storage;
pub mod resolve;
pub mod repository;
