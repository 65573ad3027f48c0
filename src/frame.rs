use vstd::prelude::*;

verus! {

/// Largest payload, in bytes, that a viewer may send towards the streamer.
pub const MAX_VIEWER_FRAME: usize = 1000;

/// The kind of a socket frame; the relay carries every kind but `Close`.
#[derive(Clone, Copy, Debug, PartialEq, Eq, Structural)]
pub enum FrameKind {
    Text,
    Binary,
    Ping,
    Pong,
    Close,
}

/// One socket frame, held as its kind and its raw payload bytes.
///
/// The payload of a `Text` frame is the UTF-8 encoding of its text.
#[derive(Debug, PartialEq, Eq)]
pub struct Frame {
    pub kind: FrameKind,
    pub payload: Vec<u8>,
}

/// What a frame is, mathematically: its kind and its payload bytes.
pub type FrameView = (FrameKind, Seq<u8>);

impl View for Frame {
    type V = FrameView;

    open spec fn view(&self) -> FrameView {
        (self.kind, self.payload@)
    }
}

/// Whether a frame that a viewer sends is small enough to be relayed.
pub open spec fn fits_viewer_limit(f: FrameView) -> bool {
    f.1.len() <= MAX_VIEWER_FRAME
}

impl Frame {
    /// Size of the frame's payload in bytes.
    pub fn len(&self) -> (r: usize)
        ensures
            r == self.payload@.len(),
    {
        self.payload.len()
    }

    /// Whether this frame closes the socket.
    pub fn is_close(&self) -> (r: bool)
        ensures
            r == (self.kind == FrameKind::Close),
    {
        self.kind == FrameKind::Close
    }

    /// A second frame with the same kind and payload.
    pub fn duplicate(&self) -> (r: Frame)
        ensures
            r@ == self@,
    {
        let payload = self.payload.clone();
        proof {
            assert(payload@ =~= self.payload@);
        }
        Frame { kind: self.kind, payload }
    }
}

} // verus!
