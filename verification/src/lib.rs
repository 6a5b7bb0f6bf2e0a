//! Pool-backed ownership primitives and a request-dispatch engine for a
//! constrained kernel-style execution environment.
//!
//! The library models the external allocation and device runtime as explicit
//! values (a [`pool::TaggedPool`] passed to every constructor), so that the
//! ownership primitives — exclusive owner, refcounted shared owner, growable
//! header-prefixed buffer, linked list — and the dispatch engine are ordinary
//! verified code over that model.

pub mod buffer;
pub mod device;
pub mod driver;
pub mod error;
pub mod list;
pub mod owned;
pub mod pool;
pub mod rb_tree;
pub mod request;
pub mod reg;
pub mod shared;
pub mod strings;
