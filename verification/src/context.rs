//! Process-wide configuration, as an explicit value.
//!
//! The engine never reads ambient global state: the boundary layer builds
//! one `AppContext` at startup and threads it to whatever needs it.

use vstd::prelude::*;

verus! {

/// Configuration chosen at startup.
#[derive(Debug, Clone)]
pub struct AppContext {
    /// Where to write an optional diagnostic page, if anywhere.
    pub html_output: Option<String>,
}

impl AppContext {
    pub fn new(html_output: Option<String>) -> (r: Self)
        ensures
            r.html_output == html_output,
    {
        AppContext { html_output }
    }
}

} // verus!
