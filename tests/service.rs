use rpccaps::service::{serve_step, ServeAction, ServeEvent};

fn name(a: ServeAction<u32, u32>) -> String {
    match a {
        ServeAction::Receive => "receive".to_string(),
        ServeAction::Handle(r) => format!("handle {}", r),
        ServeAction::Send(r) => format!("send {}", r),
        ServeAction::Stop => "stop".to_string(),
    }
}

#[test]
fn serve_loop_decisions() {
    assert_eq!(name(serve_step(true, ServeEvent::Started)), "receive");
    assert_eq!(name(serve_step(false, ServeEvent::Started)), "stop");
    assert_eq!(name(serve_step(true, ServeEvent::Received(Some(13)))), "handle 13");
    assert_eq!(name(serve_step(true, ServeEvent::Received(None))), "stop");
    assert_eq!(name(serve_step(true, ServeEvent::Handled(Some(12)))), "send 12");
    assert_eq!(name(serve_step(true, ServeEvent::Handled(None))), "receive");
    assert_eq!(name(serve_step(false, ServeEvent::Handled(None))), "stop");
    assert_eq!(name(serve_step(true, ServeEvent::Sent(true))), "receive");
    assert_eq!(name(serve_step(true, ServeEvent::Sent(false))), "stop");
}
