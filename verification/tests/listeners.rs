use mini_http::listener::{endpoint, Listener, ListenerCommand, ListenerEvent};

#[test]
fn binds_then_accepts() {
    assert_eq!(Listener::new(), Listener::Binding);
    assert_eq!(
        Listener::Binding.step(ListenerEvent::Bound),
        (Listener::Listening, ListenerCommand::Accept)
    );
}

#[test]
fn terminates_when_the_endpoint_cannot_be_bound() {
    assert_eq!(
        Listener::Binding.step(ListenerEvent::BindFailed),
        (Listener::Stopped, ListenerCommand::Terminate)
    );
}

#[test]
fn goes_on_listening_after_every_accept() {
    let mut state = Listener::Listening;
    let events = [
        ListenerEvent::Connected,
        ListenerEvent::AcceptFailed,
        ListenerEvent::AcceptFailed,
        ListenerEvent::Connected,
    ];
    let commands = [
        ListenerCommand::Dispatch,
        ListenerCommand::Report,
        ListenerCommand::Report,
        ListenerCommand::Dispatch,
    ];
    for i in 0..events.len() {
        let (next, command) = state.step(events[i]);
        assert_eq!(next, Listener::Listening);
        assert_eq!(command, commands[i]);
        state = next;
    }
}

#[test]
fn stops_on_an_event_it_does_not_wait_for() {
    let stopped = (Listener::Stopped, ListenerCommand::Terminate);
    assert_eq!(Listener::Binding.step(ListenerEvent::Connected), stopped);
    assert_eq!(Listener::Binding.step(ListenerEvent::AcceptFailed), stopped);
    assert_eq!(Listener::Listening.step(ListenerEvent::Bound), stopped);
    assert_eq!(Listener::Listening.step(ListenerEvent::BindFailed), stopped);
    assert_eq!(Listener::Stopped.step(ListenerEvent::Bound), stopped);
    assert_eq!(Listener::Stopped.step(ListenerEvent::Connected), stopped);
}

#[test]
fn joins_host_and_port_with_a_colon() {
    assert_eq!(endpoint("127.0.0.1", "8080"), "127.0.0.1:8080");
    assert_eq!(endpoint("localhost", ""), "localhost:");
    assert_eq!(endpoint("", ""), ":");
}
