use std::sync::atomic::AtomicU32;
use std::sync::Arc;
use vstd::prelude::*;

verus! {

/// Registers the player systems with the game builder. Nothing is registered
/// yet, so the builder comes back as it went in.
pub fn init<G>(game: &mut G)
    ensures
        *final(game) == *old(game),
{
}

/// State shared by both ends of a [`ByteChannel`]: the index of the buffer
/// that is free for exchange, and the three buffers themselves.
pub struct Shared {
    buf_idx: AtomicU32,
    buffers: [Vec<u8>; 3],
}

impl Shared {
    /// The contents of the three exchange buffers.
    pub closed spec fn buffer_contents(&self) -> Seq<Seq<u8>> {
        seq![self.buffers[0]@, self.buffers[1]@, self.buffers[2]@]
    }
}

/// One end of a triple-buffered byte channel.
pub struct ByteChannel {
    shared: Arc<Shared>,
    buf_idx: u32,
    buf: Vec<u8>,
}

/// `Arc::clone`: a second handle to the same allocation, so it holds the
/// same value as the handle it was cloned from. Only that equal value is
/// stated: Verus sees an `Arc` as the value it points to and has no notion
/// of its allocation, so that both handles share one allocation is left
/// unsaid.
#[verifier::external_body]
fn arc_clone(a: &Arc<Shared>) -> (r: Arc<Shared>)
    ensures
        *r == **a,
{
    Arc::clone(a)
}

impl ByteChannel {
    /// The index of the buffer this end currently owns.
    pub closed spec fn index(&self) -> u32 {
        self.buf_idx
    }

    /// The bytes held locally by this end.
    pub closed spec fn local(&self) -> Seq<u8> {
        self.buf@
    }

    /// The state this end shares with its peer.
    pub closed spec fn shared_state(&self) -> Shared {
        *self.shared
    }

    /// Creates the two ends of a channel. They share one [`Shared`] state
    /// whose three buffers start empty; the first end owns buffer 0, the
    /// second buffer 1, and neither holds local bytes.
    pub fn new() -> (ends: (ByteChannel, ByteChannel))
        ensures
            ends.0.index() == 0,
            ends.1.index() == 1,
            ends.0.local() == Seq::<u8>::empty(),
            ends.1.local() == Seq::<u8>::empty(),
            ends.0.shared_state() == ends.1.shared_state(),
            ends.0.shared_state().buffer_contents() == seq![Seq::<u8>::empty(), Seq::<u8>::empty(), Seq::<u8>::empty()],
    {
        let shared = Arc::new(
            Shared { buf_idx: AtomicU32::new(0), buffers: [Vec::new(), Vec::new(), Vec::new()] },
        );
        (
            ByteChannel { shared: arc_clone(&shared), buf_idx: 0, buf: Vec::new() },
            ByteChannel { shared: shared, buf_idx: 1, buf: Vec::new() },
        )
    }

    /// The index of the buffer this end currently owns.
    pub fn buf_idx(&self) -> (r: u32)
        ensures
            r == self.index(),
    {
        self.buf_idx
    }

    /// The number of bytes held locally by this end.
    pub fn local_len(&self) -> (r: usize)
        ensures
            r == self.local().len(),
    {
        self.buf.len()
    }
}

} // verus!
