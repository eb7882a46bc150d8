use sht20_node::mqtt::{after_subscribe, SubscribeStep, control_topic, status_topic, switch_command, MqttEvent, SwitchCommand};

fn received(data: &[u8]) -> MqttEvent {
    MqttEvent::Received { topic: Some("control/x".to_string()), data: data.to_vec() }
}

#[test]
fn one_switches_on() {
    assert_eq!(switch_command(&received(b"1")), Some(SwitchCommand::On));
}

#[test]
fn anything_else_switches_off() {
    for d in [&b"0"[..], b"", b"11", b" 1", b"\xff", b"on"].iter() {
        assert_eq!(switch_command(&received(d)), Some(SwitchCommand::Off));
    }
    let no_topic = MqttEvent::Received { topic: None, data: b"1".to_vec() };
    assert_eq!(switch_command(&no_topic), Some(SwitchCommand::On));
}

#[test]
fn other_events_carry_no_command() {
    for e in [MqttEvent::BeforeConnect, MqttEvent::Connected, MqttEvent::Disconnected,
              MqttEvent::Subscribed, MqttEvent::Unsubscribed, MqttEvent::Published,
              MqttEvent::Deleted, MqttEvent::Error].iter() {
        assert_eq!(switch_command(e), None);
    }
}

#[test]
fn command_outputs() {
    assert_eq!(SwitchCommand::On.stored_value(), 1);
    assert_eq!(SwitchCommand::Off.stored_value(), 0);
    assert!(SwitchCommand::On.led_high());
    assert!(!SwitchCommand::Off.led_high());
}

#[test]
fn topics_carry_the_id() {
    assert_eq!(control_topic("node7"), "control/node7");
    assert_eq!(status_topic("node7"), "status/node7");
    assert_eq!(control_topic(""), "control/");
}

#[test]
fn subscription_pauses_half_a_second_either_way() {
    assert_eq!(after_subscribe(false), SubscribeStep::RetryAfter { delay_ms: 500 });
    assert_eq!(after_subscribe(true), SubscribeStep::ReportAfter { delay_ms: 500 });
}
