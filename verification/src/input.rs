//! The answer an input source gives the host loop after polling for events.

use vstd::prelude::*;

verus! {

/// Outcome of one poll of the input source: an error, a handled event (or
/// nothing pending), or a request to shut the host loop down.
pub enum InputResponse {
    Error,
    Success,
    Terminate,
}

} // verus!
