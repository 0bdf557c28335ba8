use vstd::prelude::*;

verus! {

/// Every failure the station engine can report.
///
/// The transport- and HTTP-level failures are carried here as plain values
/// (the upstream error rendered to text, or the HTTP status code), so that
/// the engine's rules about which failures abort an advance and which are
/// recovered locally can be stated and checked.
#[derive(Debug, Clone)]
pub enum Error {
    /// A provider response body did not match the expected schema; carries
    /// the name of the expected shape.
    SoundcloudJsonParseError(String),
    /// The request to the provider could not be completed; carries the
    /// transport error rendered to text.
    SoundcloudRequestError(String),
    /// The provider answered with a non-success HTTP status code.
    SoundcloudResponseError(u16),
    /// The provider's response body could not be read as text.
    SoundcloudTextResponseError(String),
    /// Track metadata was present but no usable stream could be located;
    /// carries the track title.
    SoundcloudIncompleteTrack(String),
    /// No access credential could be extracted from the provider's pages.
    SoundcloudClientIdUpdateError(String),
    /// A failure on a listener's connection.
    WebSocketError(String),
}

} // verus!
