//! The core of a multi-tenant database engine around one connection and one
//! document.
//!
//! - [`iam`] holds the capability of a connection: the level at which it is
//!   valid and the role it carries there.
//! - [`dbs`] holds the session of a connection, and gives a query run in the
//!   session the bindings it sees.
//! - [`ctx`] is the scope of named documents that those bindings go into.
//! - [`sql`] holds the documents, the paths into them, the patch operations,
//!   and the engine that applies a batch of operations to a document, all of
//!   them or none.
//!
//! Every function states what it returns over the mathematical value of its
//! arguments: the `Doc` that a `Value` denotes, the `Seq<Step>` of an
//! `Idiom`, the `Op` of an `Operation`, the `SessionState` of a `Session`.

pub mod ctx;
pub mod dbs;
pub mod iam;
pub mod sql;
