use fleet_tail::Msg;
use fleet_tail::aggregate::AggregateStep;
use fleet_tail::aggregate::aggregate_step;
use fleet_tail::aggregate::drain;
use fleet_tail::aggregate::render_label;
use fleet_tail::errors::FleetError;
use fleet_tail::stream::ChannelEvent;
use fleet_tail::stream::ConnectOutcome;
use fleet_tail::stream::Unit;
use fleet_tail::stream::connect_decision;
use fleet_tail::stream::drain_events;

fn msg(id: &str, data: &[u8]) -> Msg {
    Msg::Message((id.to_string(), data.to_vec()))
}

#[test]
fn unit_tags_chunks_with_its_own_identity() {
    let mut unit = Unit::new("alice@h1".to_string());
    let emitted = unit.on_event(&ChannelEvent::Data(b"hello".to_vec()));
    assert_eq!(emitted, Some(msg("alice@h1", b"hello")));
}

#[test]
fn unit_records_exit_status_without_emitting() {
    let mut unit = Unit::new("alice@h1".to_string());
    assert_eq!(unit.on_event(&ChannelEvent::ExitStatus(0)), None);
    assert_eq!(unit.finish(), Ok(0));
}

#[test]
fn unit_ignores_other_events() {
    let mut unit = Unit::new("alice@h1".to_string());
    assert_eq!(unit.on_event(&ChannelEvent::Other), None);
    assert_eq!(unit.finish(), Err(FleetError::IncompleteExecution));
}

#[test]
fn stream_without_exit_status_is_incomplete_execution() {
    let events = vec![ChannelEvent::Data(b"only data".to_vec()), ChannelEvent::Other];
    let (msgs, outcome) = drain_events(&"h".to_string(), &events);
    assert_eq!(msgs.len(), 1);
    assert_eq!(outcome, Err(FleetError::IncompleteExecution));
}

#[test]
fn chunks_keep_their_order_within_one_host() {
    let events = vec![
        ChannelEvent::Data(b"c1".to_vec()),
        ChannelEvent::Data(b"c2".to_vec()),
        ChannelEvent::Data(b"c3".to_vec()),
        ChannelEvent::ExitStatus(0),
    ];
    let (msgs, outcome) = drain_events(&"h".to_string(), &events);
    assert_eq!(
        msgs,
        vec![msg("h", b"c1"), msg("h", b"c2"), msg("h", b"c3")]
    );
    assert_eq!(outcome, Ok(0));
}

#[test]
fn data_after_exit_status_is_still_drained() {
    let events = vec![
        ChannelEvent::Data(b"before".to_vec()),
        ChannelEvent::ExitStatus(0),
        ChannelEvent::Data(b"after".to_vec()),
    ];
    let (msgs, outcome) = drain_events(&"h".to_string(), &events);
    assert_eq!(msgs, vec![msg("h", b"before"), msg("h", b"after")]);
    assert_eq!(outcome, Ok(0));
}

#[test]
fn last_exit_status_wins() {
    let events = vec![ChannelEvent::ExitStatus(1), ChannelEvent::ExitStatus(0)];
    let (msgs, outcome) = drain_events(&"h".to_string(), &events);
    assert_eq!(msgs.len(), 0);
    assert_eq!(outcome, Ok(0));
}

#[test]
fn connect_decision_classifies_failures() {
    assert_eq!(connect_decision(&ConnectOutcome::Connected), None);
    assert_eq!(
        connect_decision(&ConnectOutcome::TransportFailed),
        Some(FleetError::Connection)
    );
    assert_eq!(
        connect_decision(&ConnectOutcome::AuthenticationRejected),
        Some(FleetError::Authentication)
    );
}

#[test]
fn error_labels_are_operator_readable() {
    assert_eq!(FleetError::CredentialResolution.label(), "no identity file found");
    assert_eq!(FleetError::Connection.label(), "connection failed");
    assert_eq!(FleetError::Authentication.label(), "authentication failed");
    assert_eq!(
        FleetError::IncompleteExecution.label(),
        "program did not exit cleanly"
    );
    assert_eq!(FleetError::ChannelSend.label(), "delivery channel closed early");
    assert!(FleetError::CredentialResolution.is_fatal());
    assert!(!FleetError::Authentication.is_fatal());
}

#[test]
fn aggregate_step_renders_tagged_messages() {
    let step = aggregate_step(Some(msg("h1", b"line")));
    assert_eq!(step, AggregateStep::Render("h1".to_string(), b"line".to_vec()));
}

#[test]
fn aggregate_step_stops_on_closed_channel() {
    assert_eq!(aggregate_step(None), AggregateStep::Stop);
}

#[test]
fn aggregate_step_stops_on_exit_marker() {
    assert_eq!(aggregate_step(Some(Msg::Exit)), AggregateStep::Stop);
}

#[test]
fn drain_renders_everything_when_no_stop_marker() {
    let msgs = vec![msg("h1", b"a"), msg("h2", b"b"), msg("h1", b"c")];
    let lines = drain(&msgs);
    assert_eq!(
        lines,
        vec![
            ("h1".to_string(), b"a".to_vec()),
            ("h2".to_string(), b"b".to_vec()),
            ("h1".to_string(), b"c".to_vec()),
        ]
    );
}

#[test]
fn drain_stops_at_the_stop_marker_and_not_before() {
    let msgs = vec![msg("h1", b"a"), Msg::Exit, msg("h1", b"b")];
    let lines = drain(&msgs);
    assert_eq!(lines, vec![("h1".to_string(), b"a".to_vec())]);
}

#[test]
fn render_label_wraps_the_identity() {
    assert_eq!(render_label("alice@h1"), "[alice@h1] --> ");
    assert_eq!(render_label(""), "[] --> ");
}

// A fleet of two: h1 connects, streams three chunks and exits cleanly; h2's
// credential is rejected. The three h1 lines are rendered with h1's identity,
// h2 contributes one isolated error, and the consumer keeps running.
#[test]
fn two_hosts_one_failing_authentication() {
    let h1 = "alice@h1".to_string();
    let h1_events = vec![
        ChannelEvent::Data(b"one\n".to_vec()),
        ChannelEvent::Data(b"two\n".to_vec()),
        ChannelEvent::Data(b"three\n".to_vec()),
        ChannelEvent::ExitStatus(0),
    ];
    let (h1_msgs, h1_outcome) = drain_events(&h1, &h1_events);
    assert_eq!(h1_outcome, Ok(0));

    let h2_error = connect_decision(&ConnectOutcome::AuthenticationRejected);
    assert_eq!(h2_error, Some(FleetError::Authentication));

    // h2 never sends: the channel carries h1's messages alone.
    let lines = drain(&h1_msgs);
    assert_eq!(lines.len(), 3);
    for (id, _) in &lines {
        assert_eq!(id, "alice@h1");
    }
    assert_eq!(lines[0].1, b"one\n".to_vec());
    assert_eq!(lines[1].1, b"two\n".to_vec());
    assert_eq!(lines[2].1, b"three\n".to_vec());
}

// A single host whose connection reports an exit status and then one further
// data event before closing: the trailing chunk still reaches the consumer.
#[test]
fn trailing_chunk_after_exit_is_rendered() {
    let events = vec![
        ChannelEvent::ExitStatus(0),
        ChannelEvent::Data(b"flushed late".to_vec()),
    ];
    let (msgs, outcome) = drain_events(&"h".to_string(), &events);
    assert_eq!(outcome, Ok(0));
    let lines = drain(&msgs);
    assert_eq!(lines, vec![("h".to_string(), b"flushed late".to_vec())]);
}
