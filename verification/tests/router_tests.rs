use relay_core::router::{decode_remote, route, RemoteCommand};
use relay_core::relay::{RelayAction, RelayCommand};

#[test]
fn decodes_compact_payload() {
    let cmd = decode_remote(b"{\"id\":1,\"state\":true}");
    assert_eq!(cmd, Some(RemoteCommand { id: 1, state: true }));
}

#[test]
fn decodes_payload_with_whitespace() {
    let cmd = decode_remote(b" {\n\t\"id\" : 12 ,\r\n \"state\" : false } ");
    assert_eq!(cmd, Some(RemoteCommand { id: 12, state: false }));
}

#[test]
fn raised_state_routes_to_status() {
    let cmd = route(b"{\"id\":0,\"state\":true}");
    assert_eq!(
        cmd,
        Some(RelayCommand { id: 0, action: RelayAction::Status })
    );
}

#[test]
fn lowered_state_routes_to_toggle() {
    let cmd = route(b"{\"id\":3,\"state\":false}");
    assert_eq!(
        cmd,
        Some(RelayCommand { id: 3, action: RelayAction::Toggle })
    );
}

#[test]
fn malformed_payloads_yield_no_command() {
    let malformed: &[&[u8]] = &[
        b"",
        b" ",
        b"hello",
        b"{}",
        b"{\"id\":1}",
        b"{\"state\":true}",
        b"{\"state\":true,\"id\":1}",
        b"{\"id\":-1,\"state\":true}",
        b"{\"id\":01,\"state\":true}",
        b"{\"id\":1.5,\"state\":true}",
        b"{\"id\":1,\"state\":maybe}",
        b"{\"id\":1,\"state\":true",
        b"{\"id\":1,\"state\":true}}",
        b"{\"id\":1,\"state\":true} x",
        b"[1,true]",
        b"{\"id\":\"1\",\"state\":true}",
        b"\xff\xfe",
    ];
    for payload in malformed {
        assert_eq!(route(payload), None);
        assert_eq!(decode_remote(payload), None);
    }
}

#[test]
fn oversized_id_is_rejected() {
    // Far beyond what any index type holds.
    let cmd = decode_remote(b"{\"id\":99999999999999999999999999999999,\"state\":true}");
    assert_eq!(cmd, None);
}

#[test]
fn largest_id_is_accepted() {
    let payload = format!("{{\"id\":{},\"state\":false}}", usize::MAX);
    let cmd = decode_remote(payload.as_bytes());
    assert_eq!(cmd, Some(RemoteCommand { id: usize::MAX, state: false }));
    let payload = format!("{{\"id\":{},\"state\":false}}", u128::from(usize::MAX as u64) + 1);
    assert_eq!(decode_remote(payload.as_bytes()), None);
}

#[test]
fn zero_id_is_accepted() {
    let cmd = decode_remote(b"{\"id\":0,\"state\":true}");
    assert_eq!(cmd, Some(RemoteCommand { id: 0, state: true }));
}
