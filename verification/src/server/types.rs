//! Request and response values.

use vstd::prelude::*;
use vstd::string::*;

verus! {

/// What the server tells about a stored model.
#[derive(Debug, Clone)]
pub struct ModelInfo {
    pub id: String,
    pub name: String,
    pub created_at: i64,
    pub stocks_count: usize,
    pub flows_count: usize,
}

/// The integrator used when a request names none.
pub fn default_integrator() -> (r: String)
    ensures
        r@ == "euler"@,
{
    String::from_str("euler")
}

/// Whether results are streamed when a request does not say.
pub fn default_stream() -> (r: bool)
    ensures
        r,
{
    true
}

/// Of the steps of a streamed run, every tenth is sent.
pub const STREAM_DECIMATION: usize = 10;

/// Whether the state after the step with the number `step` is sent, when
/// one step in `decimation` is: the number is a multiple of it.
pub fn sends_data(step: usize, decimation: usize) -> (r: bool)
    requires
        decimation > 0,
    ensures
        r == (step % decimation == 0),
{
    step % decimation == 0
}

} // verus!
