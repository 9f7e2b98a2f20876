use ats_task::listen_table::{ListenEndpoint, ListenTable};
use ats_task::snoop::{classify_segment, snoop_tcp_packet};

/// An Ethernet frame carrying an IPv4 packet to `dst` with protocol `proto`
/// and a 20-byte TCP header to `port` with the given flags.
fn frame(dst: [u8; 4], proto: u8, port: u16, flags: u8) -> Vec<u8> {
    let mut f = vec![0u8; 14];
    f[12] = 0x08; // IPv4
    let mut ip = vec![0u8; 20];
    ip[0] = 0x45;
    ip[2] = 0;
    ip[3] = 40;
    ip[8] = 64;
    ip[9] = proto;
    ip[12..16].copy_from_slice(&[10, 0, 2, 2]);
    ip[16..20].copy_from_slice(&dst);
    let mut tcp = vec![0u8; 20];
    tcp[0..2].copy_from_slice(&4321u16.to_be_bytes());
    tcp[2..4].copy_from_slice(&port.to_be_bytes());
    tcp[12] = 5 << 4;
    tcp[13] = flags;
    f.extend(ip);
    f.extend(tcp);
    f
}

const SYN: u8 = 0x02;
const ACK: u8 = 0x10;

fn table_on_80() -> (ListenTable, ListenEndpoint) {
    let mut t = ListenTable::new();
    let ep = ListenEndpoint { addr: None, port: 80 };
    t.listen(ep).unwrap();
    (t, ep)
}

#[test]
fn snoop_first_syn_to_listened_port() {
    let (t, ep) = table_on_80();
    let r = snoop_tcp_packet(&t, &frame([10, 0, 2, 15], 6, 80, SYN));
    assert_eq!(r, Ok(Some((80, ep))));
}

#[test]
fn snoop_ignores_syn_ack_and_other_ports() {
    let (t, _) = table_on_80();
    assert_eq!(snoop_tcp_packet(&t, &frame([10, 0, 2, 15], 6, 80, SYN | ACK)), Ok(None));
    assert_eq!(snoop_tcp_packet(&t, &frame([10, 0, 2, 15], 6, 81, SYN)), Ok(None));
    assert_eq!(snoop_tcp_packet(&t, &frame([10, 0, 2, 15], 17, 80, SYN)), Ok(None));
}

#[test]
fn snoop_refuses_short_frames() {
    let (t, _) = table_on_80();
    assert_eq!(snoop_tcp_packet(&t, &[0u8; 10]), Err(()));
    let f = frame([10, 0, 2, 15], 6, 80, SYN);
    assert_eq!(snoop_tcp_packet(&t, &f[..30]), Err(()));
    // IPv4 packet whole, TCP header cut short by the total length.
    let mut g = f.clone();
    g[17] = 30;
    assert_eq!(snoop_tcp_packet(&t, &g), Err(()));
}

#[test]
fn snoop_respects_listen_address() {
    let mut t = ListenTable::new();
    let ep = ListenEndpoint { addr: Some(u32::from_be_bytes([10, 0, 2, 15])), port: 80 };
    t.listen(ep).unwrap();
    assert_eq!(snoop_tcp_packet(&t, &frame([10, 0, 2, 15], 6, 80, SYN)), Ok(Some((80, ep))));
    assert_eq!(snoop_tcp_packet(&t, &frame([10, 0, 2, 16], 6, 80, SYN)), Ok(None));
    assert_eq!(classify_segment(&t, u32::from_be_bytes([10, 0, 2, 15]), (80, true, false)), Some((80, ep)));
}
