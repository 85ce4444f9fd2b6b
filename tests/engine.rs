use ctap_types::authenticator::Request;
use ctap_types::ctap2::Error as AuthenticatorError;
use ctap_types::ctap2::Request as Ctap2Request;
use ctaphid_dispatch::channel::{ChannelTable, BROADCAST_CHANNEL};
use ctaphid_dispatch::command::{classify, Command};
use ctaphid_dispatch::engine::{
    Action, CtapHid, CAPABILITIES, ERR_CHANNEL_BUSY, ERR_INVALID_CHANNEL, ERR_INVALID_CMD,
    ERR_INVALID_PAR, ERR_INVALID_SEQ, PROTOCOL_VERSION,
};
use ctaphid_dispatch::framing::fragment;

fn send(hid: &mut CtapHid, channel: u32, command: u8, data: &[u8]) -> Action {
    let reports = fragment(channel, command, data);
    let mut last = Action::Idle;
    for r in &reports {
        last = hid.on_report(r);
    }
    last
}

fn open_channel(hid: &mut CtapHid) -> u32 {
    let nonce = [1u8, 2, 3, 4, 5, 6, 7, 8];
    match send(hid, BROADCAST_CHANNEL, 0x06, &nonce) {
        Action::Reply { channel, command, payload } => {
            assert_eq!(channel, BROADCAST_CHANNEL);
            assert_eq!(command, 0x06);
            assert_eq!(payload.len(), 17);
            assert_eq!(&payload[..8], &nonce);
            assert_eq!(&payload[12..], &[PROTOCOL_VERSION, 0, 0, 0, CAPABILITIES]);
            u32::from_be_bytes([payload[8], payload[9], payload[10], payload[11]])
        }
        other => panic!("expected an INIT answer, got {:?}", other),
    }
}

#[test]
fn init_allocates_fresh_channels() {
    let mut hid = CtapHid::new();
    assert_eq!(open_channel(&mut hid), 1);
    assert_eq!(open_channel(&mut hid), 2);
}

#[test]
fn cbor_request_is_dispatched_once_at_a_time() {
    let mut hid = CtapHid::new();
    let a = open_channel(&mut hid);
    let b = open_channel(&mut hid);
    match send(&mut hid, a, 0x10, &[0x04]) {
        Action::Dispatch { channel, request } => {
            assert_eq!(channel, a);
            assert_eq!(request, Request::Ctap2(Ctap2Request::GetInfo));
        }
        other => panic!("expected a dispatch, got {:?}", other),
    }
    assert!(matches!(
        send(&mut hid, b, 0x10, &[0x07]),
        Action::Error { channel, code: ERR_CHANNEL_BUSY } if channel == b
    ));
    assert!(matches!(
        send(&mut hid, a, 0x10, &[0x07]),
        Action::Error { code: ERR_CHANNEL_BUSY, .. }
    ));
    match hid.on_tick() {
        Action::Reply { channel, command, payload } => {
            assert_eq!(channel, a);
            assert_eq!(command, 0x3B);
            assert_eq!(payload, vec![1]);
        }
        other => panic!("expected a keepalive, got {:?}", other),
    }
    assert!(matches!(hid.on_response(b, vec![0]), Action::Idle));
    match hid.on_response(a, vec![0, 0xA0]) {
        Action::Reply { channel, command, payload } => {
            assert_eq!((channel, command), (a, 0x10));
            assert_eq!(payload, vec![0, 0xA0]);
        }
        other => panic!("expected the response, got {:?}", other),
    }
    assert!(matches!(hid.on_tick(), Action::Idle));
    assert!(matches!(send(&mut hid, b, 0x10, &[0x07]), Action::Dispatch { .. }));
}

#[test]
fn cbor_decode_error_is_reported_as_status() {
    let mut hid = CtapHid::new();
    let a = open_channel(&mut hid);
    assert!(matches!(
        send(&mut hid, a, 0x10, &[0x03]),
        Action::Status { error: AuthenticatorError::InvalidCommand, .. }
    ));
    assert!(matches!(
        send(&mut hid, a, 0x10, &[0x06, 0xA1, 0x01, 0x01]),
        Action::Status { error: AuthenticatorError::MissingParameter, .. }
    ));
    assert!(matches!(hid.on_tick(), Action::Idle));
}

#[test]
fn cbor_on_unallocated_channel_is_refused() {
    let mut hid = CtapHid::new();
    assert!(matches!(
        send(&mut hid, 0x1234, 0x10, &[0x04]),
        Action::Error { channel: 0x1234, code: ERR_INVALID_CHANNEL }
    ));
}

#[test]
fn cancel_aborts_the_dispatch() {
    let mut hid = CtapHid::new();
    let a = open_channel(&mut hid);
    assert!(matches!(send(&mut hid, a, 0x10, &[0x04]), Action::Dispatch { .. }));
    assert!(matches!(
        send(&mut hid, a, 0x11, &[]),
        Action::Status { error: AuthenticatorError::KeepaliveCancel, .. }
    ));
    assert!(matches!(send(&mut hid, a, 0x11, &[]), Action::Idle));
    assert!(matches!(hid.on_response(a, vec![0]), Action::Idle));
}

#[test]
fn ping_echoes_and_wink_answers_empty() {
    let mut hid = CtapHid::new();
    let a = open_channel(&mut hid);
    let data: Vec<u8> = (0..300u32).map(|i| i as u8).collect();
    match send(&mut hid, a, 0x01, &data) {
        Action::Reply { command: 0x01, payload, .. } => assert_eq!(payload, data),
        other => panic!("expected a ping answer, got {:?}", other),
    }
    match send(&mut hid, a, 0x08, &[]) {
        Action::Reply { command: 0x08, payload, .. } => assert!(payload.is_empty()),
        other => panic!("expected a wink answer, got {:?}", other),
    }
}

#[test]
fn unsupported_commands_are_invalid() {
    let mut hid = CtapHid::new();
    let a = open_channel(&mut hid);
    for cmd in [0x03u8, 0x3B, 0x3F, 0x50, 0x00, 0x22] {
        assert!(matches!(
            send(&mut hid, a, cmd, &[1]),
            Action::Error { code: ERR_INVALID_CMD, .. }
        ));
    }
}

#[test]
fn framing_errors_become_error_frames() {
    let mut hid = CtapHid::new();
    let mut reports = fragment(3, 0x01, &[0u8; 100]);
    reports[1][4] = 9;
    assert!(matches!(hid.on_report(&reports[0]), Action::Idle));
    assert!(matches!(
        hid.on_report(&reports[1]),
        Action::Error { channel: 3, code: ERR_INVALID_SEQ }
    ));
}

#[test]
fn classify_known_codes() {
    assert_eq!(classify(0x01), Some(Command::Ping));
    assert_eq!(classify(0x03), Some(Command::Msg));
    assert_eq!(classify(0x04), Some(Command::Lock));
    assert_eq!(classify(0x06), Some(Command::Init));
    assert_eq!(classify(0x08), Some(Command::Wink));
    assert_eq!(classify(0x10), Some(Command::Cbor));
    assert_eq!(classify(0x11), Some(Command::Cancel));
    assert_eq!(classify(0x3B), Some(Command::KeepAlive));
    assert_eq!(classify(0x3F), Some(Command::Error));
    assert_eq!(classify(0x40), Some(Command::Vendor(0x40)));
    assert_eq!(classify(0x7F), Some(Command::Vendor(0x7F)));
    assert_eq!(classify(0x00), None);
    assert_eq!(classify(0x02), None);
    assert_eq!(classify(0x80), None);
    for code in 0u8..=255 {
        if let Some(c) = classify(code) {
            assert_eq!(c.code(), code);
        }
    }
}

#[test]
fn channel_table_allocation_and_dispatch() {
    let mut t = ChannelTable::new();
    assert_eq!(t.allocate(), Some(1));
    assert!(t.is_allocated(1));
    assert!(!t.is_allocated(2));
    assert!(!t.begin_dispatch(2));
    assert!(t.begin_dispatch(1));
    assert!(t.is_busy(1));
    assert!(!t.begin_dispatch(1));
    assert!(!t.end_dispatch(2));
    assert!(t.end_dispatch(1));
    assert!(!t.is_busy(1));
    let mut full = ChannelTable { next_id: BROADCAST_CHANNEL - 1, dispatching: None, locked: None };
    assert_eq!(full.allocate(), Some(BROADCAST_CHANNEL - 1));
    assert_eq!(full.allocate(), None);
}

#[test]
fn lock_shuts_out_other_channels_until_it_runs_down() {
    let mut hid = CtapHid::new();
    let a = open_channel(&mut hid);
    let b = open_channel(&mut hid);
    match send(&mut hid, a, 0x04, &[1]) {
        Action::Reply { channel, command: 0x04, payload } => {
            assert_eq!(channel, a);
            assert!(payload.is_empty());
        }
        other => panic!("expected a lock answer, got {:?}", other),
    }
    assert!(matches!(
        send(&mut hid, b, 0x01, &[9]),
        Action::Error { channel, code: ERR_CHANNEL_BUSY } if channel == b
    ));
    assert!(matches!(send(&mut hid, a, 0x01, &[9]), Action::Reply { command: 0x01, .. }));
    for _ in 0..9 {
        assert!(matches!(hid.on_tick(), Action::Idle));
    }
    assert!(matches!(send(&mut hid, b, 0x01, &[9]), Action::Error { code: ERR_CHANNEL_BUSY, .. }));
    hid.on_tick();
    assert!(matches!(send(&mut hid, b, 0x01, &[9]), Action::Reply { command: 0x01, .. }));
}

#[test]
fn lock_parameters_are_checked_and_zero_releases() {
    let mut hid = CtapHid::new();
    let a = open_channel(&mut hid);
    let b = open_channel(&mut hid);
    assert!(matches!(send(&mut hid, a, 0x04, &[11]), Action::Error { code: ERR_INVALID_PAR, .. }));
    assert!(matches!(send(&mut hid, a, 0x04, &[1, 2]), Action::Error { code: ERR_INVALID_PAR, .. }));
    assert!(matches!(
        send(&mut hid, 0x99, 0x04, &[1]),
        Action::Error { code: ERR_INVALID_CHANNEL, .. }
    ));
    assert!(matches!(send(&mut hid, a, 0x04, &[10]), Action::Reply { command: 0x04, .. }));
    assert!(matches!(send(&mut hid, b, 0x08, &[]), Action::Error { code: ERR_CHANNEL_BUSY, .. }));
    assert!(matches!(send(&mut hid, a, 0x04, &[0]), Action::Reply { command: 0x04, .. }));
    assert!(matches!(send(&mut hid, b, 0x08, &[]), Action::Reply { command: 0x08, .. }));
}
