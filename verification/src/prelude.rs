//! The traits that users of grease should have in scope.
//!
//! ```ignore
//! use grease::prelude::*;
//! ```

pub use crate::{NonRequestSendable, RequestSendable};
