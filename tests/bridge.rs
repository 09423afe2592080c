use eth_wifi_bridge::{Bridge, Credential, Idle, PollStep, SetupStep, SniffError};

fn frame_with_source(src: [u8; 6]) -> Vec<u8> {
    let mut f = vec![0xffu8; 6];
    f.extend_from_slice(&src);
    f.extend_from_slice(&[0x08, 0x00, 0x45, 0x00]);
    f
}

fn creds() -> Vec<Credential> {
    vec![
        Credential { ssid: None, password: None },
        Credential { ssid: Some("net".to_string()), password: Some("secret".to_string()) },
    ]
}

#[test]
fn idle_listens_then_starts_the_wired_port() {
    let b = Bridge::<Idle>::new();
    assert_eq!(b.setup_steps(), vec![SetupStep::SniffDownstream, SetupStep::StartDownstream]);
    assert_eq!(b.identity(), None);
}

#[test]
fn no_promiscuous_phase_without_capture() {
    let b = Bridge::<Idle>::new();
    let b = match b.into_eth_ready() {
        Ok(_) => panic!("left the capture phase without an address"),
        Err(b) => b,
    };
    assert_eq!(b.identity(), None);
}

#[test]
fn short_first_frame_is_fatal_input() {
    let mut b = Bridge::<Idle>::new();
    assert_eq!(b.sniff(&[0u8; 10]), Err(SniffError::FrameTooShort));
    assert_eq!(b.identity(), None);
}

#[test]
fn identity_flows_to_upstream_before_its_first_start() {
    let mut b = Bridge::<Idle>::new();
    assert_eq!(b.sniff(&frame_with_source([0x02, 0xaa, 0xbb, 0xcc, 0x12, 0x34])), Ok(true));
    assert_eq!(b.sniff(&frame_with_source([0x02, 0, 0, 0, 0, 9])), Ok(false));
    let mut steps = b.setup_steps();

    let b = b.into_eth_ready().ok().expect("address captured");
    assert_eq!(b.client_mac(), [0x02, 0xaa, 0xbb, 0xcc, 0x12, 0x34]);
    assert_eq!(
        b.setup_steps(),
        vec![SetupStep::ClearDownstreamReceive, SetupStep::EnableDownstreamPromiscuous]
    );
    steps.extend(b.setup_steps());

    let b = b.into_wifi_ready();
    assert_eq!(
        b.setup_steps(),
        vec![SetupStep::SetUpstreamIdentity([0x02, 0xaa, 0xbb, 0xcc, 0x12, 0x34])]
    );
    steps.extend(b.setup_steps());

    let mut b = b.into_running(creds());
    assert_eq!(b.client_mac(), [0x02, 0xaa, 0xbb, 0xcc, 0x12, 0x34]);
    steps.extend(b.setup_steps());
    let i = b.next_attempt().expect("one usable entry");
    assert_eq!(i, 1);
    steps.extend(b.attempt_steps(i));

    let id = steps
        .iter()
        .position(|s| *s == SetupStep::SetUpstreamIdentity([0x02, 0xaa, 0xbb, 0xcc, 0x12, 0x34]))
        .unwrap();
    let start = steps.iter().position(|s| *s == SetupStep::StartUpstream).unwrap();
    assert!(id < start);
    let sniff_end = steps.iter().position(|s| *s == SetupStep::ClearDownstreamReceive).unwrap();
    let promisc = steps
        .iter()
        .position(|s| *s == SetupStep::EnableDownstreamPromiscuous)
        .unwrap();
    assert!(sniff_end < promisc);
}

#[test]
fn running_tries_networks_and_links() {
    let mut b = Bridge::<Idle>::new();
    b.sniff(&frame_with_source([1, 2, 3, 4, 5, 6])).unwrap();
    let b = b.into_eth_ready().ok().unwrap().into_wifi_ready();
    let mut b = b.into_running(creds());
    assert_eq!(b.setup_steps(), vec![SetupStep::InstallRelay, SetupStep::StartDownstream]);
    let i = b.next_attempt().unwrap();
    assert_eq!(
        b.attempt_steps(i),
        vec![SetupStep::ConfigureUpstream(1), SetupStep::StartUpstream, SetupStep::ConnectUpstream]
    );
    assert_eq!(b.credential(i).ssid.as_deref(), Some("net"));
    assert_eq!(b.poll(false), PollStep::Wait);
    assert_eq!(b.poll(true), PollStep::Connected);
    assert!(b.is_linked());
}

#[test]
fn running_exhausts_after_each_usable_entry_fails_once() {
    let mut b = Bridge::<Idle>::new();
    b.sniff(&frame_with_source([1, 2, 3, 4, 5, 6])).unwrap();
    let b = b.into_eth_ready().ok().unwrap().into_wifi_ready();
    let mut b = b.into_running(creds());
    let mut attempts = 0;
    while let Some(_) = b.next_attempt() {
        attempts += 1;
        while b.poll(false) != PollStep::TimedOut {}
        assert_eq!(b.abandon_steps(), vec![SetupStep::StopUpstream]);
    }
    assert_eq!(attempts, 1);
    assert!(!b.is_linked());
}
