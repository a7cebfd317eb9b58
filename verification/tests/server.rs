use schengen_server::config::{ClientConfig, ClientMap, Position};
use schengen_server::server::{
    CaptureSwitch, Event, Server, ServerNotice, ServerStep, DEFAULT_PORT,
};

fn one_client() -> ClientMap {
    let mut map = ClientMap::new();
    assert!(map.add(ClientConfig {
        name: "laptop".to_string(),
        position: Position::LeftOf,
        reference: "self".to_string(),
    }));
    map
}

#[test]
fn server_listens_on_the_default_port() {
    let server = Server::new(one_client());
    assert_eq!(DEFAULT_PORT, 24801);
    assert_eq!(server.port, 24801);
    assert!(server.client_configs.contains_key("laptop"));
}

#[test]
fn portal_is_attached_to_the_server_as_it_is() {
    let mut server = Server::new(one_client());
    server.set_port(1234);
    let server = server.with_portal("portal");
    assert_eq!(server.port, 1234);
    assert_eq!(server.client_configs.len(), 1);
    assert_eq!(server.state, "portal");
}

fn gone(client_name: &str, left: usize) -> ServerNotice {
    ServerNotice::Disconnected { client_name: client_name.to_string(), left }
}

/// What goes out because of a notice, if all can be sent.
fn react(switch: &mut CaptureSwitch, notice: ServerNotice) -> Vec<String> {
    let mut out = vec![];
    let request = match switch.step(notice) {
        ServerStep::Ask { request } => Some(request),
        ServerStep::Tell { notice: Event::ClientDisconnected { client_name }, request } => {
            out.push(client_name);
            request
        }
        ServerStep::Tell { notice, .. } => panic!("{:?}", notice),
        ServerStep::Fail => panic!("the server failed"),
        ServerStep::Nothing => None,
    };
    if let Some(request) = request {
        switch.request_done(&request, true);
        out.push(format!("{:?}", request));
    }
    out
}

#[test]
fn first_client_enables_the_portal() {
    let mut switch = CaptureSwitch::new();
    let request = match switch.step(ServerNotice::Connected) {
        ServerStep::Ask { request } => request,
        _ => panic!("another step"),
    };
    assert!(matches!(request, Event::EnableCapture));
    switch.request_done(&request, false);
    assert!(!switch.portal_enabled);
    assert!(matches!(switch.step(ServerNotice::Connected), ServerStep::Ask { .. }));
    switch.request_done(&request, true);
    assert!(switch.portal_enabled);
    assert!(matches!(switch.step(ServerNotice::Connected), ServerStep::Nothing));
}

#[test]
fn last_client_disables_the_portal() {
    let mut switch = CaptureSwitch { portal_enabled: true };
    assert!(matches!(switch.step(gone("a", 1)), ServerStep::Tell { request: None, .. }));
    let request = match switch.step(gone("b", 0)) {
        ServerStep::Tell {
            notice: Event::ClientDisconnected { client_name },
            request: Some(request),
        } => {
            assert_eq!(client_name, "b");
            request
        }
        _ => panic!("another step"),
    };
    assert!(matches!(request, Event::DisableCapture));
    switch.request_done(&request, false);
    assert!(switch.portal_enabled);
    switch.request_done(&request, true);
    assert!(!switch.portal_enabled);
    assert!(matches!(switch.step(gone("b", 0)), ServerStep::Tell { request: None, .. }));
}

#[test]
fn failure_ends_the_run() {
    for portal_enabled in [true, false] {
        let switch = CaptureSwitch { portal_enabled };
        assert!(matches!(switch.step(ServerNotice::Failed), ServerStep::Fail));
        assert!(matches!(switch.step(ServerNotice::Other), ServerStep::Nothing));
    }
}

#[test]
fn requests_alternate_over_a_run() {
    let mut switch = CaptureSwitch::new();
    let mut out = vec![];
    for notice in [
        gone("x", 0),
        ServerNotice::Connected,
        ServerNotice::Connected,
        ServerNotice::Other,
        gone("a", 1),
        gone("b", 0),
        ServerNotice::Connected,
    ] {
        out.extend(react(&mut switch, notice));
    }
    assert_eq!(out, vec!["x", "EnableCapture", "a", "b", "DisableCapture", "EnableCapture"]);
}

#[test]
fn other_requests_do_not_switch() {
    let mut switch = CaptureSwitch { portal_enabled: true };
    switch.request_done(&Event::ReleaseCapture { activation_id: None, cursor: None }, true);
    assert!(switch.portal_enabled);
}
