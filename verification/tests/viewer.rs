use convosniffer::{AppState, Viewer, ViewerAction, ViewerEvent, WebNotif};

fn letters() -> Vec<String> {
    "abcdefghijklmnop".chars().map(|c| c.to_string()).collect()
}

fn active_store() -> AppState {
    let mut state = AppState::new();
    state.update_keybinds("a;b;c;d;e;f;g;h;i;j;k;l;m;n;o;p").unwrap();
    state.update_replies("1\n\n3\ncasual\ngreeting\nhi\nHello there").unwrap();
    state
}

#[test]
fn a_viewer_of_an_active_conversation_is_sent_keybinds_start_replies() {
    let mut state = active_store();
    let replies = state.convo.as_ref().unwrap().replies.to_vec();
    let (mut viewer, first) = Viewer::attach(&state);
    let later = state.queue_reply("3").unwrap();

    assert_eq!(first, ViewerAction::Send(WebNotif::SetKeybinds { keybinds: letters() }));
    assert_eq!(
        viewer.step(ViewerEvent::Delivered),
        ViewerAction::Send(WebNotif::Conversation { start: true })
    );
    assert_eq!(
        viewer.step(ViewerEvent::Delivered),
        ViewerAction::Send(WebNotif::UpdateReplies { replies })
    );
    assert_eq!(viewer.step(ViewerEvent::Delivered), ViewerAction::Receive);
    assert_eq!(viewer, Viewer::Listening);
    assert_eq!(
        viewer.step(ViewerEvent::Received(later)),
        ViewerAction::Send(WebNotif::QueueReply { index: 3 })
    );
    assert_eq!(viewer, Viewer::Forwarding);
    assert_eq!(viewer.step(ViewerEvent::Delivered), ViewerAction::Receive);
    assert!(!viewer.is_closed());
}

#[test]
fn a_viewer_without_a_conversation_is_sent_the_keybinds_alone() {
    let state = AppState::new();
    let (mut viewer, first) = Viewer::attach(&state);
    assert_eq!(first, ViewerAction::Send(WebNotif::SetKeybinds { keybinds: vec![String::new(); 16] }));
    assert_eq!(viewer, Viewer::Replaying { pending: vec![] });
    assert_eq!(viewer.step(ViewerEvent::Delivered), ViewerAction::Receive);
    assert_eq!(viewer.step(ViewerEvent::Lagged), ViewerAction::Receive);
    assert_eq!(viewer, Viewer::Listening);
    assert_eq!(
        viewer.step(ViewerEvent::Received(WebNotif::Conversation { start: true })),
        ViewerAction::Send(WebNotif::Conversation { start: true })
    );
}

#[test]
fn a_failed_delivery_during_the_replay_ends_the_session() {
    let state = active_store();
    let (mut viewer, _first) = Viewer::attach(&state);
    assert_eq!(viewer.step(ViewerEvent::DeliveryFailed), ViewerAction::Stop);
    assert!(viewer.is_closed());
    assert_eq!(viewer.step(ViewerEvent::Delivered), ViewerAction::Stop);
    assert_eq!(viewer, Viewer::Closed);

    let (mut viewer, _first) = Viewer::attach(&state);
    viewer.step(ViewerEvent::Delivered);
    viewer.step(ViewerEvent::Delivered);
    assert_eq!(viewer.step(ViewerEvent::DeliveryFailed), ViewerAction::Stop);
    assert!(viewer.is_closed());
}

#[test]
fn a_failed_delivery_while_forwarding_ends_the_session() {
    let state = AppState::new();
    let (mut viewer, _first) = Viewer::attach(&state);
    viewer.step(ViewerEvent::Delivered);
    viewer.step(ViewerEvent::Received(WebNotif::QueueReply { index: 1 }));
    assert_eq!(viewer.step(ViewerEvent::DeliveryFailed), ViewerAction::Stop);
    assert!(viewer.is_closed());
    assert_eq!(viewer.step(ViewerEvent::Received(WebNotif::QueueReply { index: 2 })), ViewerAction::Stop);
}

#[test]
fn a_closed_bus_ends_the_session() {
    let state = AppState::new();
    let (mut viewer, _first) = Viewer::attach(&state);
    viewer.step(ViewerEvent::Delivered);
    assert_eq!(viewer.step(ViewerEvent::BusClosed), ViewerAction::Stop);
    assert!(viewer.is_closed());
}

#[test]
fn an_event_that_answers_no_action_ends_the_session() {
    let state = active_store();
    let (mut viewer, _first) = Viewer::attach(&state);
    assert_eq!(
        viewer.step(ViewerEvent::Received(WebNotif::Conversation { start: false })),
        ViewerAction::Stop
    );
    assert!(viewer.is_closed());

    let (mut viewer, _first) = Viewer::attach(&state);
    assert_eq!(viewer.step(ViewerEvent::Lagged), ViewerAction::Stop);

    let (mut viewer, _first) = Viewer::attach(&AppState::new());
    viewer.step(ViewerEvent::Delivered);
    assert_eq!(viewer.step(ViewerEvent::Delivered), ViewerAction::Stop);
    assert!(viewer.is_closed());
}

#[test]
fn live_notifications_are_forwarded_in_the_order_received() {
    let mut state = AppState::new();
    let (mut viewer, _first) = Viewer::attach(&state);
    assert_eq!(viewer.step(ViewerEvent::Delivered), ViewerAction::Receive);
    let mut published = vec![state.start_conversation()];
    published.extend(state.update_replies("1\n\n0\na\nb\nc\nd").unwrap());
    published.push(state.queue_reply("0").unwrap());
    published.push(state.update_keybinds("a;b;c;d;e;f;g;h;i;j;k;l;m;n;o;p").unwrap());
    published.push(state.end_conversation());
    let mut sent = Vec::new();
    for notif in published.iter() {
        match viewer.step(ViewerEvent::Received(notif.clone())) {
            ViewerAction::Send(notif) => sent.push(notif),
            other => panic!("unexpected action {:?}", other),
        }
        assert_eq!(viewer.step(ViewerEvent::Delivered), ViewerAction::Receive);
    }
    assert_eq!(sent, published);
}
