//! The handle the dashboard layer shares. The dashboard itself (HTTP
//! routing and the canned aggregation queries) is presentation glue over the
//! analytical store's query interface and lives outside this library; its
//! request handlers only need the path of the store, shared read-only.

use std::sync::Arc;
use vstd::prelude::*;

verus! {

/// Shared state of the dashboard's request handlers: the path of the
/// analytical store each handler opens a connection to.
#[derive(Clone)]
pub struct AppState {
    pub db_path: Arc<String>,
}

} // verus!
