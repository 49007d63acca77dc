//! Messages into the reducer, and the commands it hands back.

use crate::list::ListNavEvent;
use crate::model::{Connections, Log, ProxySnapshot, Rule, Traffic, Version};
use vstd::prelude::*;

verus! {

/// A key press, as the dashboard reads it.
#[derive(Clone, Debug)]
pub enum InputEvent {
    /// Go to the page with this number, counted from 1.
    TabGoto(u8),
    ToggleDebug,
    ToggleHold,
    List(ListNavEvent),
    TestLatency,
    Esc,
    Sort,
    Other(String),
}

/// Fresh data from the daemon.
#[derive(Clone, Debug)]
pub enum UpdateEvent {
    Connection(Connections),
    Version(Version),
    Traffic(Traffic),
    Proxies(ProxySnapshot),
    Log(Log),
    Rules(Vec<Rule>),
    ProxyTestLatencyDone,
}

#[derive(Clone, Debug)]
pub enum Event {
    Quit,
    Input(InputEvent),
    Update(UpdateEvent),
}

/// A command for the daemon.
#[derive(Clone, Debug)]
pub enum Action {
    /// Test the latency of these proxies.
    TestLatency { proxies: Vec<String> },
}

/// The line that the debug log shows for an event.
pub open spec fn event_label(e: Event) -> Seq<char> {
    match e {
        Event::Quit => "Quit"@,
        Event::Input(i) => match i {
            InputEvent::TabGoto(_) => "Input: TabGoto"@,
            InputEvent::ToggleDebug => "Input: ToggleDebug"@,
            InputEvent::ToggleHold => "Input: ToggleHold"@,
            InputEvent::List(_) => "Input: List"@,
            InputEvent::TestLatency => "Input: TestLatency"@,
            InputEvent::Esc => "Input: Esc"@,
            InputEvent::Sort => "Input: Sort"@,
            InputEvent::Other(_) => "Input: Other"@,
        },
        Event::Update(u) => match u {
            UpdateEvent::Connection(_) => "Update: Connection"@,
            UpdateEvent::Version(_) => "Update: Version"@,
            UpdateEvent::Traffic(_) => "Update: Traffic"@,
            UpdateEvent::Proxies(_) => "Update: Proxies"@,
            UpdateEvent::Log(_) => "Update: Log"@,
            UpdateEvent::Rules(_) => "Update: Rules"@,
            UpdateEvent::ProxyTestLatencyDone => "Update: ProxyTestLatencyDone"@,
        },
    }
}

impl Event {
    /// The line that the debug log shows for this event.
    pub fn label(&self) -> (r: String)
        ensures
            r@ == event_label(*self),
    {
        let s: &str = match self {
            Event::Quit => "Quit",
            Event::Input(i) => match i {
                InputEvent::TabGoto(_) => "Input: TabGoto",
                InputEvent::ToggleDebug => "Input: ToggleDebug",
                InputEvent::ToggleHold => "Input: ToggleHold",
                InputEvent::List(_) => "Input: List",
                InputEvent::TestLatency => "Input: TestLatency",
                InputEvent::Esc => "Input: Esc",
                InputEvent::Sort => "Input: Sort",
                InputEvent::Other(_) => "Input: Other",
            },
            Event::Update(u) => match u {
                UpdateEvent::Connection(_) => "Update: Connection",
                UpdateEvent::Version(_) => "Update: Version",
                UpdateEvent::Traffic(_) => "Update: Traffic",
                UpdateEvent::Proxies(_) => "Update: Proxies",
                UpdateEvent::Log(_) => "Update: Log",
                UpdateEvent::Rules(_) => "Update: Rules",
                UpdateEvent::ProxyTestLatencyDone => "Update: ProxyTestLatencyDone",
            },
        };
        String::from_str(s)
    }
}

} // verus!
