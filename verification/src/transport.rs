//! Packet links: every channel message is one complete frame. A frame that
//! finds the link's bounded buffer full is dropped and counted rather than
//! growing memory or tearing the interface down; a frame sent to a closed
//! link ends the link.

use vstd::prelude::*;
use futures_channel::mpsc::Sender;

verus! {

#[verifier::external_type_specification]
#[verifier::external_body]
#[verifier::reject_recursive_types(T)]
pub struct ExSender<T>(Sender<T>);

/// The link has closed.
#[derive(Clone, Copy, PartialEq, Eq, Debug, Structural)]
pub struct LinkClosed;

/// What became of one frame handed to a bounded channel.
#[derive(Clone, Copy, PartialEq, Eq, Debug, Structural)]
pub enum Delivery {
    /// Queued for the receiver.
    Sent,
    /// The channel's buffer was full; the frame was not queued.
    Full,
    /// The receiver is gone; the frame was not queued.
    Disconnected,
}

/// Hands `frame` to `Sender::try_send` (futures-channel) and tells its
/// outcome apart: queued, refused because the buffer is full
/// (`TrySendError::is_full`), or refused because the receiver is gone.
/// Which of these happens depends on the channel's state, so nothing is
/// claimed of it.
#[verifier::external_body]
pub(crate) fn try_deliver(inbox: &mut Sender<Vec<u8>>, frame: Vec<u8>) -> Delivery {
    match inbox.try_send(frame) {
        Ok(()) => Delivery::Sent,
        Err(e) if e.is_full() => Delivery::Full,
        Err(_) => Delivery::Disconnected,
    }
}

/// The drop counter after one more dropped frame (it sticks at its maximum).
pub open spec fn bumped(drops: u32) -> u32 {
    if drops == u32::MAX {
        drops
    } else {
        (drops + 1) as u32
    }
}

/// A counter after one more event (it sticks at its maximum).
pub open spec fn bumped64(n: u64) -> u64 {
    if n == u64::MAX {
        n
    } else {
        (n + 1) as u64
    }
}

/// A counter after `k` more events (it sticks at its maximum).
pub open spec fn bumped64_by(n: u64, k: nat) -> u64 {
    if n + k > u64::MAX {
        u64::MAX
    } else {
        (n + k) as u64
    }
}

/// How many frames were offered to inboxes, over all of them. Only
/// `Inbox::offer` counts an offer.
pub struct OfferTally {
    count: u64,
}

impl OfferTally {
    pub closed spec fn count(&self) -> u64 {
        self.count
    }

    pub fn new() -> (t: Self)
        ensures
            t.count() == 0,
    {
        OfferTally { count: 0 }
    }
}

/// The inbox of one member of a shared bus, with the number of frames that
/// have been offered to it. Only `offer` hands it a frame, and every offer
/// is counted.
pub struct Inbox {
    tx: Sender<Vec<u8>>,
    offered: u64,
}

impl Inbox {
    /// The channel this inbox is fed through.
    pub closed spec fn sender(&self) -> Sender<Vec<u8>> {
        self.tx
    }

    /// How many frames have been offered to this inbox.
    pub closed spec fn offered(&self) -> u64 {
        self.offered
    }

    /// An inbox fed through `tx`, offered nothing yet.
    pub fn new(tx: Sender<Vec<u8>>) -> (i: Self)
        ensures
            i.sender() == tx,
            i.offered() == 0,
    {
        Inbox { tx, offered: 0 }
    }

    /// Hand a copy of `data` to this inbox's channel and count the offer,
    /// here and in `tally`. The answer is what the channel did with it.
    pub fn offer(&mut self, data: &[u8], tally: &mut OfferTally) -> (d: Delivery)
        ensures
            final(self).offered() == bumped64(old(self).offered()),
            final(tally).count() == bumped64(old(tally).count()),
    {
        let d = try_deliver(&mut self.tx, vstd::slice::slice_to_vec(data));
        self.offered = self.offered.saturating_add(1);
        tally.count = tally.count.saturating_add(1);
        d
    }
}

/// How a send ends for each outcome, and the drop counter after it.
pub open spec fn send_result(d: Delivery, drops: u32) -> (Result<(), LinkClosed>, u32) {
    match d {
        Delivery::Sent => (Ok(()), drops),
        Delivery::Full => (Ok(()), bumped(drops)),
        Delivery::Disconnected => (Err(LinkClosed), drops),
    }
}

/// The end of a packet-link decision: what `send` returns for a given
/// outcome of the channel.
pub fn settle_send(d: Delivery, drops: &mut u32) -> (r: Result<(), LinkClosed>)
    ensures
        (r, *final(drops)) == send_result(d, *old(drops)),
{
    match d {
        Delivery::Sent => Ok(()),
        Delivery::Full => {
            *drops = drops.saturating_add(1);
            Ok(())
        },
        Delivery::Disconnected => Err(LinkClosed),
    }
}

/// The sending half of one direction of a packet link.
pub struct ChannelTx {
    tx: Sender<Vec<u8>>,
}

impl ChannelTx {
    /// The channel this half sends into.
    pub closed spec fn sender(&self) -> Sender<Vec<u8>> {
        self.tx
    }

    /// The sending half that sends into `tx`.
    pub fn new(tx: Sender<Vec<u8>>) -> (c: Self)
        ensures
            c.sender() == tx,
    {
        ChannelTx { tx }
    }

    /// Queue one frame. Whatever the channel does with it, the result and
    /// the drop counter are those `send_result` gives for one of its
    /// outcomes: a full buffer counts a drop and still succeeds.
    pub fn send(&mut self, data: &[u8], overflow_drops: &mut u32) -> (r: Result<(), LinkClosed>)
        ensures
            exists|d: Delivery| (r, *final(overflow_drops)) == #[trigger] send_result(d, *old(overflow_drops)),
    {
        let frame = vstd::slice::slice_to_vec(data);
        let d = try_deliver(&mut self.tx, frame);
        settle_send(d, overflow_drops)
    }
}

/// A received frame is handed on when it fits the receive buffer of
/// `room` bytes; a closed link, an ended channel or an oversized frame all
/// end the link.
pub open spec fn accepted(next: Option<Seq<u8>>, room: nat) -> Option<Seq<u8>> {
    match next {
        Some(f) => if f.len() <= room {
            Some(f)
        } else {
            None
        },
        None => None,
    }
}

pub fn accept_frame(next: Option<Vec<u8>>, room: usize) -> (r: Result<Vec<u8>, LinkClosed>)
    ensures
        match accepted(
            match next {
                Some(f) => Some(f@),
                None => None,
            },
            room as nat,
        ) {
            Some(f) => r matches Ok(g) && g@ == f,
            None => r == Err::<Vec<u8>, LinkClosed>(LinkClosed),
        },
{
    match next {
        Some(f) => if f.len() <= room {
            Ok(f)
        } else {
            Err(LinkClosed)
        },
        None => Err(LinkClosed),
    }
}

} // verus!
