//! Symbol resolution for a language server that answers "go to definition"
//! queries over a code base of namespaced classes grouped into modules.
//!
//! A class is named by a namespace-qualified name ([`name`]). Modules claim
//! namespace prefixes and live in directories ([`registry`]); the longest
//! registered ancestor of a name decides in which file its class is expected
//! ([`resolver`]). Class files are parsed on demand into symbol tables
//! ([`symbols`]) and kept for good ([`index`]). A definition query names a
//! class or one of its members and is answered with at most one location
//! ([`dispatch`]). What the serving loop does about each message is decided
//! in [`session`].
//!
//! The library touches no file and no wire. Whoever drives it looks at class
//! files, extracts references from documents and talks to the client, and
//! hands the library what came of it.

pub mod dispatch;
pub mod index;
pub mod name;
pub mod registry;
pub mod resolver;
pub mod session;
pub mod symbols;
pub mod text;
pub mod textmap;
