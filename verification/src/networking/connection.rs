use vstd::prelude::*;

verus! {

/// Bytes taken by the length prefix in front of every frame.
pub const FRAME_HEADER_LEN: usize = 2;

/// Size of the receive buffer of the chat stream.
pub const CHAT_RECV_BUFFER_LEN: usize = 512;

/// Size of the receive buffer of the entity-state stream.
pub const ENTITY_STATE_RECV_BUFFER_LEN: usize = 8192;

/// Size of the buffer a chat message is written into before it is sent.
pub const CHAT_SEND_BUFFER_LEN: usize = 512;

/// What a stream callback made of the bytes received so far.
#[derive(Clone, Copy, Debug, PartialEq, Eq, Structural)]
pub enum MessageStatus {
    /// A message was handled; this many bytes from the front were used.
    Consumed(usize),
    /// The bytes received so far do not hold a whole message yet.
    NotEnoughData,
    /// The bytes can never form a valid message.
    Malformed,
    /// The message could not be handed on; the stream is to be closed.
    Error,
}

/// A length-prefixed frame read from the front of a byte buffer.
#[derive(Debug)]
pub enum Frame {
    /// The buffer does not hold a whole frame yet.
    Incomplete,
    /// A whole frame: the number of bytes it takes, header included, and its payload.
    Complete { consumed: usize, payload: Vec<u8> },
}

/// The little-endian `u16` held by two bytes.
pub open spec fn u16_le(lo: u8, hi: u8) -> nat {
    (lo + 256 * hi) as nat
}

/// The frame at the front of `bytes`: a little-endian `u16` length `n`
/// followed by `n` payload bytes. `None` while the bytes do not hold it all.
/// Yields the number of bytes the frame takes and its payload.
pub open spec fn frame_at_front(bytes: Seq<u8>) -> Option<(int, Seq<u8>)> {
    if bytes.len() < 2 {
        None
    } else {
        let n = u16_le(bytes[0], bytes[1]) as int;
        if bytes.len() - 2 < n {
            None
        } else {
            Some((2 + n, bytes.subrange(2, 2 + n)))
        }
    }
}

/// The bytes of the frame that carries `payload`.
pub open spec fn encoded_frame(payload: Seq<u8>) -> Seq<u8> {
    seq![(payload.len() % 256) as u8, (payload.len() / 256) as u8] + payload
}

/// How the frame read from `bytes` is described by a [`Frame`].
pub open spec fn frame_matches(frame: Frame, bytes: Seq<u8>) -> bool {
    match frame {
        Frame::Incomplete => frame_at_front(bytes) is None,
        Frame::Complete { consumed, payload } => frame_at_front(bytes) == Some(
            (consumed as int, payload@),
        ),
    }
}

/// Reads the length-prefixed frame at the front of `bytes`, as both the
/// chat stream and the entity-state stream carry them.
pub fn read_frame(bytes: &[u8]) -> (frame: Frame)
    ensures
        frame_matches(frame, bytes@),
        (frame is Complete) <==> (bytes@.len() >= 2 && bytes@.len() - 2 >= bytes@[0] + 256
            * bytes@[1]),
        frame matches Frame::Complete { consumed, payload } ==> {
            &&& consumed == 2 + bytes@[0] + 256 * bytes@[1]
            &&& payload@ == bytes@.subrange(2, consumed as int)
        },
{
    if bytes.len() < FRAME_HEADER_LEN {
        return Frame::Incomplete;
    }
    let length: usize = bytes[0] as usize + (bytes[1] as usize) * 256;
    if bytes.len() - FRAME_HEADER_LEN < length {
        return Frame::Incomplete;
    }
    let mut payload: Vec<u8> = Vec::new();
    let mut i: usize = 0;
    while i < length
        invariant
            i <= length,
            FRAME_HEADER_LEN + length <= bytes.len(),
            payload@ == bytes@.subrange(2, 2 + i as int),
        decreases length - i,
    {
        payload.push(bytes[FRAME_HEADER_LEN + i]);
        i = i + 1;
        assert(payload@ =~= bytes@.subrange(2, 2 + i as int));
    }
    Frame::Complete { consumed: FRAME_HEADER_LEN + length, payload }
}

/// The status a stream callback reports for `frame`: a whole frame is
/// consumed when its payload was handed on (`delivered`), and ends the
/// stream with an error when it could not be.
pub fn frame_status(frame: &Frame, delivered: bool) -> (status: MessageStatus)
    ensures
        match *frame {
            Frame::Incomplete => status is NotEnoughData,
            Frame::Complete { consumed, .. } => if delivered {
                status == MessageStatus::Consumed(consumed)
            } else {
                status is Error
            },
        },
{
    match frame {
        Frame::Incomplete => MessageStatus::NotEnoughData,
        Frame::Complete { consumed, .. } => {
            if delivered {
                MessageStatus::Consumed(*consumed)
            } else {
                MessageStatus::Error
            }
        },
    }
}

/// Frames a chat message for sending: its length as a little-endian `u16`,
/// then its bytes. The message has to fit the send buffer with its header.
pub fn encode_chat_message(message: &[u8]) -> (out: Vec<u8>)
    requires
        message@.len() + FRAME_HEADER_LEN <= CHAT_SEND_BUFFER_LEN,
    ensures
        out@ == encoded_frame(message@),
        out@.len() == message@.len() + 2,
        out@[0] == message@.len() % 256,
        out@[1] == message@.len() / 256,
        out@.subrange(2, out@.len() as int) == message@,
{
    let len: usize = message.len();
    let mut out: Vec<u8> = Vec::new();
    out.push((len % 256) as u8);
    out.push((len / 256) as u8);
    let mut i: usize = 0;
    while i < len
        invariant
            len == message@.len(),
            i <= len,
            out@ == seq![(len % 256) as u8, (len / 256) as u8] + message@.subrange(0, i as int),
        decreases len - i,
    {
        out.push(message[i]);
        i = i + 1;
        assert(out@ =~= seq![(len % 256) as u8, (len / 256) as u8] + message@.subrange(0, i as int));
    }
    assert(message@.subrange(0, len as int) =~= message@);
    assert(out@.subrange(2, out@.len() as int) =~= message@);
    out
}

/// What a read from the stream gave.
#[derive(Debug)]
pub enum ReadOutcome {
    /// These bytes arrived.
    Received(Vec<u8>),
    /// The read gave no bytes: the stream has finished for now.
    NothingYet,
    /// The read failed.
    Failed,
}

/// What the receive loop does next.
#[derive(Clone, Copy, Debug, PartialEq, Eq, Structural)]
pub enum RecvAction {
    /// Hand the first `n` bytes of the buffer to the stream callback.
    Parse(usize),
    /// Read from the stream again.
    ReadAgain,
    /// The stream carried a malformed message: fail with an error.
    Malformed,
    /// Leave the loop and end the stream without an error.
    Stop,
}

/// The receive buffer of a stream: a fixed-size byte buffer whose first
/// `kept` bytes are left over from earlier reads.
pub struct RecvBuffer {
    data: Vec<u8>,
    offset: usize,
}

impl RecvBuffer {
    /// The buffer keeps no more bytes than it holds.
    pub closed spec fn wf(&self) -> bool {
        self.offset <= self.data@.len()
    }

    /// All bytes of the buffer.
    pub closed spec fn contents(&self) -> Seq<u8> {
        self.data@
    }

    /// How many bytes at the front are left over from earlier reads; the
    /// next read lands right after them.
    pub closed spec fn kept(&self) -> nat {
        self.offset as nat
    }

    /// A zeroed buffer of `size` bytes that keeps nothing.
    pub fn new(size: usize) -> (buf: RecvBuffer)
        ensures
            buf.wf(),
            buf.contents() == Seq::new(size as nat, |i: int| 0u8),
            buf.kept() == 0,
    {
        let mut data: Vec<u8> = Vec::new();
        let mut i: usize = 0;
        while i < size
            invariant
                i <= size,
                data@ == Seq::new(i as nat, |j: int| 0u8),
            decreases size - i,
        {
            data.push(0u8);
            i = i + 1;
            assert(data@ =~= Seq::new(i as nat, |j: int| 0u8));
        }
        RecvBuffer { data, offset: 0 }
    }

    /// How many bytes the next read may bring.
    pub fn free_space(&self) -> (n: usize)
        requires
            self.wf(),
        ensures
            n == self.contents().len() - self.kept(),
    {
        self.data.len() - self.offset
    }

    /// Takes in the result of a read. Received bytes are stored right after
    /// the kept ones, and the buffer up to their end is then to be parsed;
    /// a read without bytes leads to another read; a failed read ends the
    /// stream. Only received bytes change the buffer.
    pub fn receive(&mut self, outcome: ReadOutcome) -> (action: RecvAction)
        requires
            old(self).wf(),
            outcome matches ReadOutcome::Received(bytes) ==> old(self).kept() + bytes@.len()
                <= old(self).contents().len(),
        ensures
            final(self).wf(),
            final(self).kept() == old(self).kept(),
            match outcome {
                ReadOutcome::Received(bytes) => {
                    &&& final(self).contents() == old(self).contents().take(old(self).kept() as int)
                        + bytes@ + old(self).contents().skip((old(self).kept() + bytes@.len()) as int)
                    &&& action == RecvAction::Parse((old(self).kept() + bytes@.len()) as usize)
                },
                ReadOutcome::NothingYet => {
                    &&& final(self).contents() == old(self).contents()
                    &&& action is ReadAgain
                },
                ReadOutcome::Failed => {
                    &&& final(self).contents() == old(self).contents()
                    &&& action is Stop
                },
            },
    {
        match outcome {
            ReadOutcome::Received(bytes) => {
                let n: usize = bytes.len();
                let start: usize = self.offset;
                let ghost before = self.data@;
                let mut i: usize = 0;
                while i < n
                    invariant
                        n == bytes@.len(),
                        start == self.offset,
                        start + n <= before.len(),
                        before.len() == self.data.len(),
                        i <= n,
                        self.data@.len() == before.len(),
                        forall|j: int| 0 <= j < start ==> self.data@[j] == before[j],
                        forall|j: int| start <= j < start + i ==> self.data@[j] == bytes@[j - start],
                        forall|j: int| start + i <= j < before.len() ==> self.data@[j] == before[j],
                    decreases n - i,
                {
                    self.data.set(start + i, bytes[i]);
                    i = i + 1;
                }
                assert(self.data@ =~= before.take(start as int) + bytes@ + before.skip(start + n));
                RecvAction::Parse(start + n)
            },
            ReadOutcome::NothingYet => RecvAction::ReadAgain,
            ReadOutcome::Failed => RecvAction::Stop,
        }
    }

    /// The first `total` bytes of the buffer.
    pub fn received(&self, total: usize) -> (bytes: &[u8])
        requires
            total <= self.contents().len(),
        ensures
            bytes@ == self.contents().take(total as int),
    {
        let all: &[u8] = self.data.as_slice();
        &all[0..total]
    }

    /// Acts on what the stream callback made of the first `total` bytes.
    /// When it consumed `k` of them, the `total - k` unconsumed bytes move to
    /// the front and are kept (none are kept when it consumed them all);
    /// when there is not enough data yet the buffer stays as it is; a
    /// malformed message fails the stream and a callback error ends it.
    pub fn settle(&mut self, total: usize, status: &MessageStatus) -> (action: RecvAction)
        requires
            old(self).wf(),
            total <= old(self).contents().len(),
        ensures
            final(self).wf(),
            match *status {
                MessageStatus::Consumed(k) => {
                    &&& action is ReadAgain
                    &&& if k < total {
                        &&& final(self).kept() == total - k
                        &&& final(self).contents() == old(self).contents().subrange(k as int, total as int)
                            + old(self).contents().skip(total - k)
                    } else {
                        &&& final(self).kept() == 0
                        &&& final(self).contents() == old(self).contents()
                    }
                },
                MessageStatus::NotEnoughData => {
                    &&& action is ReadAgain
                    &&& final(self).kept() == old(self).kept()
                    &&& final(self).contents() == old(self).contents()
                },
                MessageStatus::Malformed => {
                    &&& action is Malformed
                    &&& final(self).kept() == old(self).kept()
                    &&& final(self).contents() == old(self).contents()
                },
                MessageStatus::Error => {
                    &&& action is Stop
                    &&& final(self).kept() == old(self).kept()
                    &&& final(self).contents() == old(self).contents()
                },
            },
    {
        match status {
            MessageStatus::Consumed(k) => {
                let k: usize = *k;
                if k < total {
                    let remaining: usize = total - k;
                    let ghost before = self.data@;
                    let mut i: usize = 0;
                    while i < remaining
                        invariant
                            remaining == total - k,
                            k < total,
                            total <= before.len(),
                            i <= remaining,
                            self.data@.len() == before.len(),
                            forall|j: int| 0 <= j < i ==> self.data@[j] == before[k + j],
                            forall|j: int| i <= j < before.len() ==> self.data@[j] == before[j],
                        decreases remaining - i,
                    {
                        let b: u8 = self.data[k + i];
                        self.data.set(i, b);
                        i = i + 1;
                    }
                    assert(self.data@ =~= before.subrange(k as int, total as int) + before.skip(
                        total - k,
                    ));
                    self.offset = remaining;
                } else {
                    self.offset = 0;
                }
                RecvAction::ReadAgain
            },
            MessageStatus::NotEnoughData => RecvAction::ReadAgain,
            MessageStatus::Malformed => RecvAction::Malformed,
            MessageStatus::Error => RecvAction::Stop,
        }
    }
}

/// The frame at the front of a buffer, spelled out: there is one exactly
/// when the buffer holds the two length bytes and at least as many payload
/// bytes as they announce (little-endian), and it then takes those
/// `2 + n` bytes and carries the `n` bytes right after the header.
pub proof fn lemma_frame_at_front_exact(bytes: Seq<u8>)
    ensures
        (frame_at_front(bytes) is Some) <==> (bytes.len() >= 2 && bytes.len() - 2 >= bytes[0] + 256
            * bytes[1]),
        bytes.len() >= 2 && bytes.len() - 2 >= bytes[0] + 256 * bytes[1] ==> frame_at_front(bytes)
            == Some((2 + bytes[0] + 256 * bytes[1], bytes.subrange(2, 2 + bytes[0] + 256 * bytes[1]))),
{
}

/// An encoded frame, spelled out: two bytes more than its payload, the
/// payload length in little-endian order, then the payload unchanged.
pub proof fn lemma_encoded_frame_exact(payload: Seq<u8>)
    requires
        payload.len() <= 0xffff,
    ensures
        encoded_frame(payload).len() == payload.len() + 2,
        encoded_frame(payload)[0] + 256 * encoded_frame(payload)[1] == payload.len(),
        encoded_frame(payload).subrange(2, payload.len() + 2int) == payload,
{
    assert(encoded_frame(payload).subrange(2, payload.len() + 2int) =~= payload);
}

/// Bytes that start with a little-endian length `n` and then hold at least
/// `n` more bytes read as one frame of exactly those `n` bytes, however
/// many bytes follow it.
pub proof fn lemma_frame_of_header_and_payload(lo: u8, hi: u8, payload: Seq<u8>, rest: Seq<u8>)
    requires
        payload.len() == lo + 256 * hi,
    ensures
        frame_at_front(seq![lo, hi] + payload + rest) == Some((2 + payload.len() as int, payload)),
{
    let bytes = seq![lo, hi] + payload + rest;
    assert(bytes[0] == lo && bytes[1] == hi);
    assert(bytes.subrange(2, 2 + payload.len() as int) =~= payload);
}

/// Reading a frame gives back the payload it was encoded from, and takes
/// exactly the frame's bytes, whatever follows it in the buffer.
pub proof fn lemma_frame_roundtrip(payload: Seq<u8>, rest: Seq<u8>)
    requires
        payload.len() <= 0xffff,
    ensures
        frame_at_front(encoded_frame(payload) + rest) == Some(
            (FRAME_HEADER_LEN + payload.len(), payload),
        ),
{
    let bytes = encoded_frame(payload) + rest;
    let n = payload.len() as int;
    assert(u16_le(bytes[0], bytes[1]) == n);
    assert(bytes.subrange(2, 2 + n) =~= payload);
}

/// A frame cut short is reported as incomplete: no proper prefix of an
/// encoded frame reads as a frame.
pub proof fn lemma_frame_prefix_incomplete(payload: Seq<u8>, cut: int)
    requires
        payload.len() <= 0xffff,
        0 <= cut < encoded_frame(payload).len(),
    ensures
        frame_at_front(encoded_frame(payload).take(cut)) is None,
{
    let bytes = encoded_frame(payload).take(cut);
    if cut >= 2 {
        assert(bytes[0] == encoded_frame(payload)[0]);
        assert(bytes[1] == encoded_frame(payload)[1]);
        assert(u16_le(bytes[0], bytes[1]) == payload.len());
    }
}

} // verus!
