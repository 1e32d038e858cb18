//! Protocol engine for a line-oriented ClientQuery-style text protocol:
//! response framing, status-line decoding and typed row decoding.
use vstd::prelude::*;

pub mod client;
pub mod error;
pub mod fields;
pub mod framing;
pub mod row;
pub mod text;
pub mod types;
pub mod wire;

pub use error::{ErrorKind, QueryError, QueryResult};
pub use row::FromQueryString;
pub use types::{NotifyTextMessage, QueryStatus, SchandlerId};

verus! {

} // verus!
