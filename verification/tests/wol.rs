use nasmirror::engine::wol::{
    guess_host_from_share, magic_packet, parse_mac, WakeAction, WakeReport, Waker, WolError,
};

#[test]
fn parse_mac_formats() {
    let expected = [0xAA, 0xBB, 0xCC, 0xDD, 0xEE, 0xFF];
    assert_eq!(parse_mac("AA:BB:CC:DD:EE:FF").unwrap(), expected);
    assert_eq!(parse_mac("aa-bb-cc-dd-ee-ff").unwrap(), expected);
    assert_eq!(parse_mac("aabbccddeeff").unwrap(), expected);
    assert!(parse_mac("AA:BB:CC").is_err());
    assert!(parse_mac("").is_err());
}

#[test]
fn magic_packet_layout() {
    let mac = [1, 2, 3, 4, 5, 6];
    let pkt = magic_packet(mac);
    assert_eq!(&pkt[..6], &[0xFF; 6]);
    for i in 0..16 {
        assert_eq!(&pkt[6 + i * 6..12 + i * 6], &mac);
    }
}

#[test]
fn host_from_share() {
    assert_eq!(guess_host_from_share(r"\\nas\backup").as_deref(), Some("nas"));
    assert_eq!(guess_host_from_share(r"C:\data"), None);
    assert_eq!(guess_host_from_share(r"\\"), None);
}

#[test]
fn invalid_mac_is_named() {
    match parse_mac("AA:BB:CC") {
        Err(e @ WolError::InvalidMac(_)) => assert_eq!(e.message(), "invalid MAC address: AA:BB:CC"),
        _ => panic!("expected InvalidMac"),
    }
    assert_eq!(
        WolError::Timeout("nas".into()).message(),
        "the destination (nas) did not respond after Wake-on-LAN (timed out)"
    );
}

#[test]
fn awake_host_needs_no_packet() {
    let (mut w, a) = Waker::start("aabbccddeeff", "nas".to_string());
    assert!(matches!(a, WakeAction::Probe));
    assert!(matches!(w.step(WakeReport::Probed(true)), WakeAction::Done(Ok(()))));
}

#[test]
fn named_host_is_polled_until_it_answers_or_time_runs_out() {
    let (mut w, _) = Waker::start("aabbccddeeff", "nas".to_string());
    assert!(matches!(w.step(WakeReport::Probed(false)), WakeAction::Send));
    assert!(matches!(w.step(WakeReport::Sent), WakeAction::Check { first: true }));
    assert!(matches!(
        w.step(WakeReport::Checked { cancelled: false, in_time: true }),
        WakeAction::Sleep { secs: 3 }
    ));
    assert!(matches!(w.step(WakeReport::Slept), WakeAction::Send));
    assert!(matches!(w.step(WakeReport::Sent), WakeAction::Probe));
    assert!(matches!(w.step(WakeReport::Probed(false)), WakeAction::Check { first: false }));
    match w.step(WakeReport::Checked { cancelled: false, in_time: false }) {
        WakeAction::Done(Err(WolError::Timeout(h))) => assert_eq!(h, "nas"),
        _ => panic!("expected a timeout"),
    }
}

#[test]
fn without_host_the_packet_goes_five_times_then_a_grace_period() {
    let (mut w, a) = Waker::start("aabbccddeeff", String::new());
    assert!(matches!(a, WakeAction::Send));
    assert!(matches!(w.step(WakeReport::Sent), WakeAction::Check { first: true }));
    let mut sends = 1;
    loop {
        match w.step(WakeReport::Checked { cancelled: false, in_time: false }) {
            WakeAction::Sleep { secs: 2 } => {}
            _ => panic!("expected a 2 s pause"),
        }
        assert!(matches!(w.step(WakeReport::Slept), WakeAction::Send));
        sends += 1;
        match w.step(WakeReport::Sent) {
            WakeAction::Check { first: false } => {}
            WakeAction::Sleep { secs: 4 } => break,
            _ => panic!("unexpected step"),
        }
    }
    assert_eq!(sends, 5);
    assert!(matches!(w.step(WakeReport::Slept), WakeAction::Done(Ok(()))));
}

#[test]
fn cancelling_stops_the_wait() {
    let (mut w, _) = Waker::start("aabbccddeeff", String::new());
    w.step(WakeReport::Sent);
    assert!(matches!(
        w.step(WakeReport::Checked { cancelled: true, in_time: true }),
        WakeAction::Done(Err(WolError::Cancelled))
    ));
}

#[test]
fn bad_mac_ends_at_once() {
    let (_, a) = Waker::start("xyz", "nas".to_string());
    assert!(matches!(a, WakeAction::Done(Err(WolError::InvalidMac(_)))));
}
