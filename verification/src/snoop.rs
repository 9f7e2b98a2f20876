//! Looking at received Ethernet frames for the first SYN of a TCP
//! connection to a listened port.
use vstd::prelude::*;
use smoltcp::wire::{EthernetFrame, Ipv4Packet, TcpPacket};
use crate::listen_table::{accepts, ListenEndpoint, ListenTable, LISTEN_QUEUE_SIZE};

verus! {

/// A big-endian 16-bit field at `at`.
pub open spec fn be_u16(b: Seq<u8>, at: int) -> int {
    b[at] * 256 + b[at + 1]
}

/// The payload of `frame` read as an Ethernet frame: everything after the
/// 14-byte header; `None` when the frame is shorter than the header.
pub open spec fn ethernet_payload(frame: Seq<u8>) -> Option<Seq<u8>> {
    if frame.len() < 14 {
        None
    } else {
        Some(frame.subrange(14, frame.len() as int))
    }
}

/// The destination address (bytes 16 to 19, big-endian), the protocol
/// number (byte 9) and the payload (from the header length to the total
/// length) of `packet` read as an IPv4 packet. `None` when it is shorter
/// than 20 bytes or the header length (the low four bits of byte 0, in
/// words of four bytes) exceeds the total length (bytes 2 and 3) or the
/// total length exceeds the packet.
pub open spec fn ipv4_fields(packet: Seq<u8>) -> Option<(u32, u8, Seq<u8>)> {
    if packet.len() < 20 {
        None
    } else {
        let header_len = (packet[0] % 16) * 4;
        let total_len = be_u16(packet, 2);
        if packet.len() < header_len || header_len > total_len || packet.len() < total_len {
            None
        } else {
            let dst = packet[16] * 0x100_0000 + packet[17] * 0x1_0000 + packet[18] * 0x100
                + packet[19];
            Some((dst as u32, packet[9], packet.subrange(header_len, total_len)))
        }
    }
}

/// The destination port (bytes 2 and 3), the SYN flag (bit 1 of byte 13)
/// and the ACK flag (bit 4 of byte 13) of `segment` read as a TCP segment.
/// `None` when it is shorter than 20 bytes or its header length (the high
/// four bits of byte 12, in words of four bytes) is below 20 or beyond the
/// segment.
pub open spec fn tcp_fields(segment: Seq<u8>) -> Option<(u16, bool, bool)> {
    if segment.len() < 20 {
        None
    } else {
        let header_len = (segment[12] / 16) * 4;
        if segment.len() < header_len || header_len < 20 {
            None
        } else {
            Some(
                (
                    be_u16(segment, 2) as u16,
                    (segment[13] / 2) % 2 == 1,
                    (segment[13] / 16) % 2 == 1,
                ),
            )
        }
    }
}

/// The IP protocol number of TCP.
pub const IP_PROTOCOL_TCP: u8 = 6;

/// `EthernetFrame::new_checked` and `payload` of smoltcp.
#[verifier::external_body]
fn parse_ethernet(buf: &[u8]) -> (r: Option<&[u8]>)
    ensures
        match r {
            Some(p) => ethernet_payload(buf@) == Some(p@),
            None => ethernet_payload(buf@) is None,
        },
{
    match EthernetFrame::new_checked(buf) {
        Ok(frame) => Some(frame.payload()),
        Err(_) => None,
    }
}

/// `Ipv4Packet::new_checked` of smoltcp, then the packet's `dst_addr`
/// (its four bytes read big-endian), `next_header` (as its number) and
/// `payload`.
#[verifier::external_body]
fn parse_ipv4(buf: &[u8]) -> (r: Option<(u32, u8, &[u8])>)
    ensures
        match r {
            Some((dst, proto, p)) => ipv4_fields(buf@) == Some((dst, proto, p@)),
            None => ipv4_fields(buf@) is None,
        },
{
    match Ipv4Packet::new_checked(buf) {
        Ok(packet) => Some(
            (u32::from_be_bytes(packet.dst_addr().0), u8::from(packet.next_header()), packet.payload()),
        ),
        Err(_) => None,
    }
}

/// `TcpPacket::new_checked` of smoltcp, then the segment's `dst_port`,
/// `syn` and `ack`.
#[verifier::external_body]
fn parse_tcp(buf: &[u8]) -> (r: Option<(u16, bool, bool)>)
    ensures
        r == tcp_fields(buf@),
{
    match TcpPacket::new_checked(buf) {
        Ok(segment) => Some((segment.dst_port(), segment.syn(), segment.ack())),
        Err(_) => None,
    }
}

/// What the table answers to a TCP segment to `dst_addr` with header fields
/// `tcp`: for a first SYN (SYN without ACK) to a port listened on for that
/// address whose queue has room, the port and the endpoint a new socket must
/// listen on.
pub open spec fn first_syn_target(
    slots: Seq<Option<crate::listen_table::EntryView>>,
    dst_addr: u32,
    tcp: (u16, bool, bool),
) -> Option<(u16, ListenEndpoint)> {
    let (port, syn, ack) = tcp;
    if syn && !ack {
        match slots[port as int] {
            Some(e) => if accepts(e.endpoint, dst_addr) && e.syn_queue.len() < LISTEN_QUEUE_SIZE {
                Some((port, e.endpoint))
            } else {
                None
            },
            None => None,
        }
    } else {
        None
    }
}

/// What snooping `frame` gives: `Err` when a header does not parse, no
/// target for a packet that is not TCP, else the target of the segment.
pub open spec fn snoop_spec(
    slots: Seq<Option<crate::listen_table::EntryView>>,
    frame: Seq<u8>,
) -> Result<Option<(u16, ListenEndpoint)>, ()> {
    match ethernet_payload(frame) {
        None => Err(()),
        Some(packet) => match ipv4_fields(packet) {
            None => Err(()),
            Some((dst, proto, segment)) => if proto != IP_PROTOCOL_TCP {
                Ok(None)
            } else {
                match tcp_fields(segment) {
                    None => Err(()),
                    Some(tcp) => Ok(first_syn_target(slots, dst, tcp)),
                }
            },
        },
    }
}

/// Decides on a parsed TCP segment to `dst_addr` with header fields `tcp`
/// (destination port, SYN, ACK).
pub fn classify_segment(table: &ListenTable, dst_addr: u32, tcp: (u16, bool, bool)) -> (r: Option<(u16, ListenEndpoint)>)
    requires
        table.wf(),
    ensures
        r == first_syn_target(table.slots(), dst_addr, tcp),
{
    let (port, syn, ack) = tcp;
    if syn && !ack {
        match table.incoming_tcp_packet(dst_addr, port) {
            Some(ep) => Some((port, ep)),
            None => None,
        }
    } else {
        None
    }
}

/// Looks at a received frame: for the first SYN of a connection to a port
/// listened on for its destination address, with room in the port's queue,
/// returns the port and the endpoint a new listening socket must take
/// (the caller then queues it with [`ListenTable::push_syn`]). A frame whose
/// Ethernet, IPv4 or TCP header does not parse is refused.
pub fn snoop_tcp_packet(table: &ListenTable, buf: &[u8]) -> (r: Result<Option<(u16, ListenEndpoint)>, ()>)
    requires
        table.wf(),
    ensures
        r == snoop_spec(table.slots(), buf@),
{
    let packet = match parse_ethernet(buf) {
        Some(p) => p,
        None => return Err(()),
    };
    let (dst, proto, segment) = match parse_ipv4(packet) {
        Some(f) => f,
        None => return Err(()),
    };
    if proto != IP_PROTOCOL_TCP {
        return Ok(None);
    }
    match parse_tcp(segment) {
        Some(tcp) => Ok(classify_segment(table, dst, tcp)),
        None => Err(()),
    }
}

/// Only the first SYN of a connection (SYN set, ACK clear) is ever taken
/// for a new connection: a segment without SYN, or with ACK, yields no
/// target, and so does a frame carrying one. A target is the segment's own
/// port, listened on for its destination address with room in its queue.
pub proof fn law_only_first_syn(
    slots: Seq<Option<crate::listen_table::EntryView>>,
    dst: u32,
    port: u16,
    syn: bool,
    ack: bool,
    frame: Seq<u8>,
)
    ensures
        !syn ==> first_syn_target(slots, dst, (port, syn, ack)) is None,
        ack ==> first_syn_target(slots, dst, (port, syn, ack)) is None,
        first_syn_target(slots, dst, (port, syn, ack)) matches Some((p, ep)) ==> {
            &&& syn && !ack
            &&& p == port
            &&& slots[port as int] is Some
            &&& slots[port as int].unwrap().endpoint == ep
            &&& accepts(ep, dst)
            &&& slots[port as int].unwrap().syn_queue.len() < LISTEN_QUEUE_SIZE
        },
        ({
            &&& ethernet_payload(frame) is Some
            &&& ipv4_fields(ethernet_payload(frame).unwrap()) matches Some((d, proto, seg))
            &&& proto == IP_PROTOCOL_TCP
            &&& tcp_fields(seg) matches Some((q, sy, ak))
            &&& !(sy && !ak)
        }) ==> snoop_spec(slots, frame) == Ok::<Option<(u16, ListenEndpoint)>, ()>(None),
{
}

} // verus!
