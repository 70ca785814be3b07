//! The core of a web framework, with its logic verified.
//!
//! - [`model`]: a typed relational query builder. Record types describe their
//!   tables, chained calls describe a query, and the query compiles to
//!   parameterized SQL text together with the ordered list of values bound
//!   to it. Migrations are found, ordered and tracked here too.
//! - [`http`]: the paths of requests, their queries and the patterns of
//!   routes.
//! - [`view`]: templates.
//! - [`naming`]: the names that a record type gets from the name of its type.
//! - [`colors`]: colors for text that is written to a terminal.
//! - [`text`]: text as sequences of characters, which the rest builds on.
//!
//! Nothing here reads a file, a clock or a socket. What the database
//! answered and what the time is are handed in as plain values.
pub mod colors;
pub mod http;
pub mod model;
pub mod naming;
pub mod text;
pub mod view;
