use frame_host::supervisor::{on_event, HostEvent};
use frame_host::web::{site_dir, WebSocket, WsFrame, WsReply};

#[test]
fn pages_are_served_from_app() {
    assert_eq!(site_dir("/srv/host"), "/srv/host/app");
}

#[test]
fn websocket_echoes() {
    let mut ws = WebSocket;
    assert_eq!(ws.handle(WsFrame::Ping(vec![1, 2])), Some(WsReply::Pong(vec![1, 2])));
    assert_eq!(
        ws.handle(WsFrame::Text("hi".to_string())),
        Some(WsReply::Text("hi".to_string()))
    );
    assert_eq!(ws.handle(WsFrame::Binary(vec![9])), Some(WsReply::Binary(vec![9])));
    assert_eq!(ws.handle(WsFrame::Other), None);
}

#[test]
fn tick_keeps_running() {
    let step = on_event(HostEvent::Tick);
    assert_eq!(step.message, "Working!");
    assert!(!step.stop_server);
    assert!(!step.exit);
}

#[test]
fn interrupt_stops_and_exits() {
    let step = on_event(HostEvent::Interrupt);
    assert_eq!(step.message, "Stopping Factorio Server.");
    assert!(step.stop_server);
    assert!(step.exit);
}
