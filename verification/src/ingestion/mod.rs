//! Where events come from: the live stream, or a mock of it.

use vstd::prelude::*;

pub mod mock_stream;
pub mod sse_client;

verus! {

/// The source of events.
#[derive(Debug, Clone, Copy, PartialEq, Eq, Structural)]
pub enum StreamSource {
    /// The live stream of stream.wikimedia.org.
    Live,
    /// A synthetic stream with this many events per second.
    Mock(u64),
}

} // verus!
