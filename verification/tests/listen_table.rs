use ats_task::listen_table::{ListenEndpoint, ListenTable, NetError, LISTEN_QUEUE_SIZE};

fn ep(addr: Option<u32>, port: u16) -> ListenEndpoint {
    ListenEndpoint { addr, port }
}

#[test]
fn listen_and_unlisten() {
    let mut t = ListenTable::new();
    assert!(t.can_listen(80));
    assert_eq!(t.listen(ep(None, 80)), Ok(()));
    assert!(!t.can_listen(80));
    assert_eq!(t.listen(ep(Some(1), 80)), Err(NetError::AddrInUse));
    assert!(t.can_listen(81));
    assert_eq!(t.unlisten(80), Vec::<usize>::new());
    assert!(t.can_listen(80));
    assert_eq!(t.unlisten(80), Vec::<usize>::new());
}

#[test]
fn not_listening_is_invalid_input() {
    let mut t = ListenTable::new();
    assert_eq!(t.can_accept(22, &[]), Err(NetError::InvalidInput));
    assert_eq!(t.accept(22, &[]), Err(NetError::InvalidInput));
    assert_eq!(t.incoming_tcp_packet(0x0a00_0002, 22), None);
}

#[test]
fn incoming_connections_filtered_by_address() {
    let mut t = ListenTable::new();
    t.listen(ep(Some(0x0a00_0002), 5555)).unwrap();
    assert_eq!(t.incoming_tcp_packet(0x0a00_0003, 5555), None);
    assert_eq!(t.incoming_tcp_packet(0x0a00_0002, 5555), Some(ep(Some(0x0a00_0002), 5555)));
    t.listen(ep(None, 6000)).unwrap();
    assert_eq!(t.incoming_tcp_packet(0x0102_0304, 6000), Some(ep(None, 6000)));
}

#[test]
fn accept_takes_first_established_and_swaps_front() {
    let mut t = ListenTable::new();
    t.listen(ep(None, 5555)).unwrap();
    for h in [10usize, 11, 12, 13] {
        t.push_syn(5555, h);
    }
    assert_eq!(t.can_accept(5555, &[false, false, false, false]), Ok(false));
    assert_eq!(t.accept(5555, &[false, false, false, false]), Err(NetError::WouldBlock));
    assert_eq!(t.can_accept(5555, &[false, false, true, false]), Ok(true));
    // 12 leaves; the front (10) takes its place: [11, 10, 13]
    assert_eq!(t.accept(5555, &[false, false, true, true]), Ok(12));
    assert_eq!(t.accept(5555, &[true, false, false]), Ok(11));
    // now [10, 13]
    assert_eq!(t.accept(5555, &[false, true]), Ok(13));
    assert_eq!(t.unlisten(5555), vec![10]);
}

#[test]
fn syn_queue_is_bounded() {
    let mut t = ListenTable::new();
    t.listen(ep(None, 7)).unwrap();
    for h in 0..LISTEN_QUEUE_SIZE {
        assert!(t.incoming_tcp_packet(1, 7).is_some());
        t.push_syn(7, h);
    }
    assert_eq!(t.incoming_tcp_packet(1, 7), None);
    assert_eq!(t.unlisten(7).len(), LISTEN_QUEUE_SIZE);
}

#[test]
fn syn_queue_contents() {
    let mut t = ListenTable::new();
    assert_eq!(t.syn_queue(9), None);
    t.listen(ep(None, 9)).unwrap();
    assert_eq!(t.syn_queue(9), Some(vec![]));
    t.push_syn(9, 3);
    t.push_syn(9, 4);
    assert_eq!(t.syn_queue(9), Some(vec![3, 4]));
}
