//! The virtual wire: two in-memory queues standing in for the cable between
//! the guest and one simulated host.
//!
//! The driving loop injects the guest's frames into `incoming`; the host's
//! network stack receives them from there and sends its own frames into
//! `outgoing`, from which the driving loop drains them.

use std::collections::VecDeque;

use vstd::prelude::*;

verus! {

/// A wire made of two frame queues.
#[derive(Debug, Default)]
pub struct VirtualWireDevice {
    pub incoming: VecDeque<Vec<u8>>,
    pub outgoing: VecDeque<Vec<u8>>,
    pub mtu: usize,
}

/// The contents of a wire: both queues, oldest frame first, and the MTU.
pub struct WireView {
    pub incoming: Seq<Vec<u8>>,
    pub outgoing: Seq<Vec<u8>>,
    pub mtu: usize,
}

impl View for VirtualWireDevice {
    type V = WireView;

    open spec fn view(&self) -> WireView {
        WireView { incoming: self.incoming@, outgoing: self.outgoing@, mtu: self.mtu }
    }
}

/// A frame received from the wire, ready to be read once.
pub struct WireRxToken {
    buffer: Vec<u8>,
}

/// The right to send one frame onto the wire's outgoing queue.
pub struct WireTxToken<'a> {
    pub queue: &'a mut VecDeque<Vec<u8>>,
}

impl VirtualWireDevice {
    /// An empty wire with the given MTU.
    pub fn new(mtu: usize) -> (d: Self)
        ensures
            d@.incoming == Seq::<Vec<u8>>::empty(),
            d@.outgoing == Seq::<Vec<u8>>::empty(),
            d@.mtu == mtu,
    {
        VirtualWireDevice { incoming: VecDeque::new(), outgoing: VecDeque::new(), mtu }
    }

    /// The maximum transmission unit.
    pub fn mtu(&self) -> (m: usize)
        ensures
            m == self@.mtu,
    {
        self.mtu
    }

    /// Puts a frame from the guest at the back of the incoming queue.
    pub fn inject(&mut self, frame: Vec<u8>)
        ensures
            final(self)@.incoming == old(self)@.incoming.push(frame),
            final(self)@.outgoing == old(self)@.outgoing,
            final(self)@.mtu == old(self)@.mtu,
    {
        self.incoming.push_back(frame);
    }

    /// Takes every frame sent so far, oldest first, leaving the outgoing
    /// queue empty.
    pub fn drain(&mut self) -> (frames: Vec<Vec<u8>>)
        ensures
            frames@ == old(self)@.outgoing,
            final(self)@.outgoing == Seq::<Vec<u8>>::empty(),
            final(self)@.incoming == old(self)@.incoming,
            final(self)@.mtu == old(self)@.mtu,
    {
        let mut frames: Vec<Vec<u8>> = Vec::new();
        while self.outgoing.len() > 0
            invariant
                frames@ + self.outgoing@ == old(self)@.outgoing,
                self.incoming@ == old(self)@.incoming,
                self.mtu == old(self).mtu,
            decreases self.outgoing@.len(),
        {
            let ghost before = self.outgoing@;
            match self.outgoing.pop_front() {
                Some(f) => {
                    frames.push(f);
                    assert(frames@ + self.outgoing@ =~= old(self)@.outgoing) by {
                        assert(before == seq![f] + self.outgoing@);
                    }
                },
                None => {},
            }
        }
        assert(frames@ =~= old(self)@.outgoing);
        frames
    }

    /// Takes the oldest incoming frame, together with the right to answer it
    /// on the outgoing queue; `None` when nothing is waiting.
    pub fn receive(&mut self) -> (r: Option<(WireRxToken, WireTxToken<'_>)>)
        ensures
            old(self)@.incoming.len() == 0 ==> r is None && final(self)@ == old(self)@,
            old(self)@.incoming.len() > 0 ==> r is Some,
            r matches Some((rx, tx)) ==> {
                &&& rx.bytes() == old(self)@.incoming[0]@
                &&& (*tx.queue)@ == old(self)@.outgoing &&& final(self)@.outgoing == (*final(tx.queue))@
                &&& final(self)@.incoming == old(self)@.incoming.drop_first()
                &&& final(self)@.mtu == old(self)@.mtu
            },
    {
        match self.incoming.pop_front() {
            Some(buffer) => {
                let rx = WireRxToken { buffer };
                let tx = WireTxToken { queue: &mut self.outgoing };
                Some((rx, tx))
            },
            None => None,
        }
    }

    /// The right to send one frame on the outgoing queue; always granted.
    pub fn transmit(&mut self) -> (t: Option<WireTxToken<'_>>)
        ensures
            t matches Some(tx) && (*tx.queue)@ == old(self)@.outgoing && final(self)@.outgoing == (*final(tx.queue))@,
            final(self)@.incoming == old(self)@.incoming,
            final(self)@.mtu == old(self)@.mtu,
    {
        Some(WireTxToken { queue: &mut self.outgoing })
    }
}

impl WireRxToken {
    /// The bytes of the received frame.
    pub closed spec fn bytes(&self) -> Seq<u8> {
        self.buffer@
    }

    /// The received frame.
    pub fn frame(&self) -> (f: &[u8])
        ensures
            f@ == self.bytes(),
    {
        self.buffer.as_slice()
    }
}

impl<'a> WireTxToken<'a> {
    /// A zero-filled buffer of `len` bytes for the frame to be sent.
    pub fn frame_buffer(len: usize) -> (buf: Vec<u8>)
        ensures
            buf@ == Seq::new(len as nat, |i: int| 0u8),
    {
        let mut buf: Vec<u8> = Vec::new();
        let mut i: usize = 0;
        while i < len
            invariant
                i <= len,
                buf@ == Seq::new(i as nat, |k: int| 0u8),
            decreases len - i,
        {
            buf.push(0);
            i = i + 1;
            assert(buf@ =~= Seq::new(i as nat, |k: int| 0u8));
        }
        buf
    }

    /// Puts a finished frame at the back of the outgoing queue.
    pub fn send(self, frame: Vec<u8>)
        ensures
            final(self.queue)@ == old(self.queue)@.push(frame),
    {
        self.queue.push_back(frame);
    }
}

} // verus!
