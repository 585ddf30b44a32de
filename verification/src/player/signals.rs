//! The flags by which the transport, the reader and the output callback
//! coordinate: the seek handshake, end of source, and stop.
use vstd::prelude::*;

verus! {

/// The flags of one playback session. Each has one writer per direction; a
/// thread works on the values as it last loaded them.
#[derive(Debug, Clone, Copy, PartialEq, Eq, Structural)]
pub struct TransportSignals {
    /// Frame asked for by the most recent seek. Set by the transport.
    pub seek_target: u64,
    /// A seek is wanted. Set by the transport, cleared by the reader once the
    /// source is repositioned.
    pub seek_pending: bool,
    /// The ring is to be emptied and the position moved. Set by the reader,
    /// cleared by the output callback.
    pub flush_request: bool,
    /// The source has ended. Written by the reader.
    pub eof_seen: bool,
    /// The last samples after the end of the source have been played. Set by the
    /// output callback.
    pub playback_complete: bool,
    /// Playback is to stop. Set by the transport.
    pub stop_request: bool,
}

impl TransportSignals {
    /// All flags down.
    pub fn new() -> (r: TransportSignals)
        ensures
            r == (TransportSignals {
                seek_target: 0,
                seek_pending: false,
                flush_request: false,
                eof_seen: false,
                playback_complete: false,
                stop_request: false,
            }),
    {
        TransportSignals {
            seek_target: 0,
            seek_pending: false,
            flush_request: false,
            eof_seen: false,
            playback_complete: false,
            stop_request: false,
        }
    }

    /// Asks for a seek to `frame`.
    pub fn request_seek(&mut self, frame: u64)
        ensures
            *final(self) == (TransportSignals {
                seek_target: frame,
                seek_pending: true,
                ..*old(self)
            }),
    {
        self.seek_target = frame;
        self.seek_pending = true;
    }
}

} // verus!
