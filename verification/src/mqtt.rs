use vstd::prelude::*;

verus! {

/// What the broker connection reports, reduced to what the node reads.
pub enum MqttEvent {
    BeforeConnect,
    Connected,
    Disconnected,
    Subscribed,
    Unsubscribed,
    Published,
    /// A message arrived on a subscribed topic.
    Received { topic: Option<String>, data: Vec<u8> },
    Deleted,
    Error,
}

/// A command for the switch (the LED output and its stored state).
#[derive(Debug, Clone, Copy, PartialEq, Eq, Structural)]
pub enum SwitchCommand {
    On,
    Off,
}

/// The command a control message carries: exactly the text `1` switches on,
/// anything else (other text, or bytes that are not UTF-8) switches off.
pub open spec fn command_for(data: Seq<u8>) -> SwitchCommand {
    if data == seq![0x31u8] {
        SwitchCommand::On
    } else {
        SwitchCommand::Off
    }
}

/// The switch command an event carries: every received message is one;
/// other events carry none.
pub fn switch_command(event: &MqttEvent) -> (cmd: Option<SwitchCommand>)
    ensures
        cmd == (match event {
            MqttEvent::Received { data, .. } => Some(command_for(data@)),
            _ => None,
        }),
{
    match event {
        MqttEvent::Received { data, .. } => {
            if data.len() == 1 && data[0] == 0x31u8 {
                assert(data@ =~= seq![0x31u8]);
                Some(SwitchCommand::On)
            } else {
                assert(data@ != seq![0x31u8]) by {
                    if data@ == seq![0x31u8] {
                        assert(data@[0] == 0x31u8);
                    }
                }
                Some(SwitchCommand::Off)
            }
        },
        _ => None,
    }
}

impl SwitchCommand {
    /// The value stored under the switch key: 1 for on, 0 for off.
    pub fn stored_value(&self) -> (v: u8)
        ensures
            v == (if *self == SwitchCommand::On { 1u8 } else { 0u8 }),
    {
        match self {
            SwitchCommand::On => 1,
            SwitchCommand::Off => 0,
        }
    }

    /// Whether the LED output is driven high.
    pub fn led_high(&self) -> (high: bool)
        ensures
            high == (*self == SwitchCommand::On),
    {
        match self {
            SwitchCommand::On => true,
            SwitchCommand::Off => false,
        }
    }
}

/// What to do after asking the broker for the control topic.
#[derive(Debug, Clone, Copy, PartialEq, Eq, Structural)]
pub enum SubscribeStep {
    /// The request failed: pause, then ask again.
    RetryAfter { delay_ms: u32 },
    /// Subscribed: pause, then start reporting.
    ReportAfter { delay_ms: u32 },
}

/// The pause after a subscription request, whether it failed or succeeded.
pub const SUBSCRIBE_PAUSE_MS: u32 = 500;

/// The step after a subscription request: retry after a pause when it
/// failed, start reporting after a pause when it succeeded.
pub fn after_subscribe(subscribed: bool) -> (step: SubscribeStep)
    ensures
        step == (if subscribed {
            SubscribeStep::ReportAfter { delay_ms: SUBSCRIBE_PAUSE_MS }
        } else {
            SubscribeStep::RetryAfter { delay_ms: SUBSCRIBE_PAUSE_MS }
        }),
{
    if subscribed {
        SubscribeStep::ReportAfter { delay_ms: SUBSCRIBE_PAUSE_MS }
    } else {
        SubscribeStep::RetryAfter { delay_ms: SUBSCRIBE_PAUSE_MS }
    }
}

/// The topic the node takes commands from: `control/<id>`.
pub fn control_topic(id: &str) -> (topic: String)
    ensures
        topic@ == "control/"@ + id@,
{
    let mut topic = "control/".to_owned();
    topic.append(id);
    topic
}

/// The topic the node publishes its status to: `status/<id>`.
pub fn status_topic(id: &str) -> (topic: String)
    ensures
        topic@ == "status/"@ + id@,
{
    let mut topic = "status/".to_owned();
    topic.append(id);
    topic
}

/// Law: a control message switches on exactly when it is the single byte
/// `1`; every other message switches off.
pub proof fn lemma_command_for(data: Seq<u8>)
    ensures
        command_for(data) == SwitchCommand::On <==> (data.len() == 1 && data[0] == 0x31u8),
        command_for(data) == SwitchCommand::Off <==> !(data.len() == 1 && data[0] == 0x31u8),
{
    if data.len() == 1 && data[0] == 0x31u8 {
        assert(data =~= seq![0x31u8]);
    }
}

} // verus!
