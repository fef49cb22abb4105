//! Virtual network interface: two FIFO packet queues between the OS
//! tunnel and the user-space stack, plus the buffer-filling helper of
//! the native-callable surface (which returns the required length when
//! the caller's buffer is too small).

use vstd::prelude::*;

use std::collections::VecDeque;

use crate::text::subvec;

verus! {

/// The tunnel device: inbound packets queue up in `rx_queue` until the
/// stack polls them; outbound packets queue up in `tx_queue` until the
/// host drains them.  Enqueue and dequeue are the only mutations.
pub struct TunDevice {
    pub rx_queue: VecDeque<Vec<u8>>,
    pub tx_queue: VecDeque<Vec<u8>>,
    pub mtu: usize,
}

impl TunDevice {
    pub fn new(mtu: usize) -> (d: TunDevice)
        ensures
            d.rx_queue@.len() == 0,
            d.tx_queue@.len() == 0,
            d.mtu == mtu,
    {
        TunDevice { rx_queue: VecDeque::new(), tx_queue: VecDeque::new(), mtu }
    }

    /// Queue an inbound packet from the host.
    pub fn receive_packet(&mut self, data: &[u8])
        ensures
            final(self).rx_queue@.len() == old(self).rx_queue@.len() + 1,
            forall|i: int|
                0 <= i < old(self).rx_queue@.len() ==> final(self).rx_queue@[i] == old(
                    self,
                ).rx_queue@[i],
            final(self).rx_queue@.last()@ == data@,
            final(self).tx_queue@ == old(self).tx_queue@,
            final(self).mtu == old(self).mtu,
    {
        let packet = subvec(data, 0, data.len());
        proof {
            assert(packet@ =~= data@);
        }
        self.rx_queue.push_back(packet);
    }

    /// The next inbound packet for the stack to process, oldest first.
    pub fn next_rx_packet(&mut self) -> (r: Option<Vec<u8>>)
        ensures
            old(self).rx_queue@.len() == 0 ==> r is None
                && final(self).rx_queue@ == old(self).rx_queue@,
            old(self).rx_queue@.len() > 0 ==> r == Some(old(self).rx_queue@[0])
                && final(self).rx_queue@ == old(self).rx_queue@.skip(1),
            final(self).tx_queue@ == old(self).tx_queue@,
            final(self).mtu == old(self).mtu,
    {
        let r = self.rx_queue.pop_front();
        proof {
            if old(self).rx_queue@.len() > 0 {
                assert(self.rx_queue@ =~= old(self).rx_queue@.skip(1));
            }
        }
        r
    }

    /// Queue an outbound packet produced by the stack.
    pub fn send_packet(&mut self, packet: Vec<u8>)
        ensures
            final(self).tx_queue@ == old(self).tx_queue@.push(packet),
            final(self).rx_queue@ == old(self).rx_queue@,
            final(self).mtu == old(self).mtu,
    {
        self.tx_queue.push_back(packet);
    }

    /// The next outbound packet for the host to write out, oldest
    /// first.
    pub fn get_tx_packet(&mut self) -> (r: Option<Vec<u8>>)
        ensures
            old(self).tx_queue@.len() == 0 ==> r is None
                && final(self).tx_queue@ == old(self).tx_queue@,
            old(self).tx_queue@.len() > 0 ==> r == Some(old(self).tx_queue@[0])
                && final(self).tx_queue@ == old(self).tx_queue@.skip(1),
            final(self).rx_queue@ == old(self).rx_queue@,
            final(self).mtu == old(self).mtu,
    {
        let r = self.tx_queue.pop_front();
        proof {
            if old(self).tx_queue@.len() > 0 {
                assert(self.tx_queue@ =~= old(self).tx_queue@.skip(1));
            }
        }
        r
    }

    /// The inbound queue, for inspection.
    pub fn rx_queue(&self) -> (r: &VecDeque<Vec<u8>>)
        ensures
            r@ == self.rx_queue@,
    {
        &self.rx_queue
    }

    /// The outbound queue, for inspection.
    pub fn tx_queue(&self) -> (r: &VecDeque<Vec<u8>>)
        ensures
            r@ == self.tx_queue@,
    {
        &self.tx_queue
    }
}

/// Copy a packet into a caller-supplied buffer without growing it.
/// Returns the packet length in every case, so a call with a too-small
/// buffer serves as a probe for the required size and changes nothing.
pub fn copy_packet_into(buffer: &mut Vec<u8>, packet: &[u8]) -> (r: usize)
    ensures
        r == packet@.len(),
        packet@.len() <= old(buffer)@.len() ==> final(buffer)@ == packet@ + old(buffer)@.skip(
            packet@.len() as int,
        ),
        packet@.len() > old(buffer)@.len() ==> final(buffer)@ == old(buffer)@,
{
    if packet.len() > buffer.len() {
        return packet.len();
    }
    let mut i: usize = 0;
    while i < packet.len()
        invariant
            0 <= i <= packet@.len() <= buffer@.len(),
            buffer@.len() == old(buffer)@.len(),
            forall|j: int| 0 <= j < i ==> buffer@[j] == packet@[j],
            forall|j: int| i <= j < buffer@.len() ==> buffer@[j] == old(buffer)@[j],
        decreases packet@.len() - i,
    {
        buffer[i] = packet[i];
        i = i + 1;
    }
    proof {
        assert(buffer@ =~= packet@ + old(buffer)@.skip(packet@.len() as int));
    }
    packet.len()
}

} // verus!
