use clashctl::config::{ConfigError, Flags, Server};
use clashctl::event::{Action, Event, InputEvent, UpdateEvent};
use clashctl::model::{Connection, Connections, Log, Metadata, ProxyEntry, ProxySnapshot, Rule, RuleType, Traffic};
use clashctl::proxy::{ProxyType, TestingState};
use clashctl::pulse::Poller;
use clashctl::state::TuiStates;

fn goto(n: u8) -> Event {
    Event::Input(InputEvent::TabGoto(n))
}

#[test]
fn counter_counts_every_event() {
    let mut st = TuiStates::new(0);
    let events = vec![Event::Quit, goto(2), Event::Update(UpdateEvent::ProxyTestLatencyDone), goto(9)];
    let out = st.handle_all(events);
    assert_eq!(out.len(), 4);
    assert_eq!(st.all_events_recv, 4);
    assert!(st.should_quit);
}

#[test]
fn debug_log_drops_oldest_hundred_when_full() {
    let mut st = TuiStates::new(0);
    for _ in 0..300 {
        st.handle(Event::Input(InputEvent::Sort));
    }
    assert_eq!(st.events.len(), 300);
    st.handle(Event::Quit);
    assert_eq!(st.events.len(), 201);
    assert_eq!(st.events[200], "Quit");
    assert_eq!(st.all_events_recv, 301);
}

#[test]
fn tab_goto_out_of_range_is_ignored() {
    let mut st = TuiStates::new(0);
    st.handle(goto(3));
    assert_eq!(st.page_index, 2);
    assert_eq!(st.title(), "Rules");
    st.handle(goto(0));
    assert_eq!(st.page_index, 2);
    st.handle(goto(7));
    assert_eq!(st.page_index, 2);
    st.handle(goto(6));
    assert_eq!(st.page_index, 5);
}

#[test]
fn toggle_debug_moves_to_and_off_the_debug_page() {
    let mut st = TuiStates::new(0);
    st.handle(Event::Input(InputEvent::ToggleDebug));
    assert!(st.show_debug);
    assert_eq!(st.page_index, 6);
    assert_eq!(st.page_len(), 7);
    st.handle(Event::Input(InputEvent::ToggleDebug));
    assert!(!st.show_debug);
    assert_eq!(st.page_index, 5);
}

fn proxies() -> ProxySnapshot {
    let e = |name: &str, t: ProxyType, all: &[&str]| ProxyEntry {
        name: name.to_string(),
        proxy_type: t,
        all: all.iter().map(|s| s.to_string()).collect(),
        latency: None,
    };
    ProxySnapshot {
        proxies: vec![
            e("GLOBAL", ProxyType::Selector, &["DIRECT", "hk", "auto", "jp"]),
            e("DIRECT", ProxyType::Direct, &[]),
            e("auto", ProxyType::URLTest, &["hk"]),
            e("hk", ProxyType::Trojan, &[]),
            e("jp", ProxyType::Socks5, &[]),
        ],
    }
}

#[test]
fn test_latency_only_when_idle_on_proxies_page() {
    let mut st = TuiStates::new(0);
    st.handle(Event::Update(UpdateEvent::Proxies(proxies())));
    assert!(st.handle(Event::Input(InputEvent::TestLatency)).is_none());
    st.handle(goto(2));
    match st.handle(Event::Input(InputEvent::TestLatency)) {
        Some(Action::TestLatency { proxies }) => assert_eq!(proxies, vec!["hk".to_string(), "jp".to_string()]),
        None => panic!("expected a latency test"),
    }
    assert_eq!(st.proxy_tree.testing, TestingState::Testing);
    assert!(st.handle(Event::Input(InputEvent::TestLatency)).is_none());
    assert_eq!(st.proxy_tree.testing, TestingState::Testing);
    st.handle(Event::Update(UpdateEvent::Proxies(proxies())));
    assert_eq!(st.proxy_tree.testing, TestingState::Testing);
    st.handle(Event::Update(UpdateEvent::ProxyTestLatencyDone));
    assert_eq!(st.proxy_tree.testing, TestingState::Idle);
}

#[test]
fn updates_fill_the_state() {
    let mut st = TuiStates::new(0);
    st.handle(Event::Update(UpdateEvent::Traffic(Traffic { up: 5, down: 1 })));
    st.handle(Event::Update(UpdateEvent::Traffic(Traffic { up: 2, down: 9 })));
    assert_eq!(st.max_traffic, Traffic { up: 5, down: 9 });
    assert_eq!(st.traffics.len(), 2);
    st.handle(Event::Update(UpdateEvent::Log(Log { log_type: "info".to_string(), payload: "started".to_string() })));
    assert_eq!(st.log_state.len(), 1);
    st.handle(Event::Update(UpdateEvent::Rules(vec![Rule {
        rule_type: RuleType::Match,
        payload: "".to_string(),
        proxy: "hk".to_string(),
    }])));
    assert_eq!(st.rule_freq, vec![("hk".to_string(), 1)]);
    assert_eq!(st.rule_state.len(), 1);
    let meta = Metadata {
        connection_type: "HTTP".to_string(),
        source_ip: "127.0.0.1".to_string(),
        source_port: "5000".to_string(),
        destination_ip: "1.1.1.1".to_string(),
        destination_port: "443".to_string(),
        host: "example.com".to_string(),
        network: "tcp".to_string(),
    };
    let con = Connection {
        id: "1".to_string(),
        upload: 100,
        download: 300,
        metadata: meta,
        rule: RuleType::Domain,
        rule_payload: "example.com".to_string(),
        start: 1000,
        chains: vec!["hk".to_string()],
    };
    assert_eq!(con.up_speed_at(1010), Some(10));
    assert_eq!(con.down_speed_at(1000), None);
    st.handle(Event::Update(UpdateEvent::Connection(Connections {
        connections: vec![con],
        download_total: 7,
        upload_total: 3,
    })));
    assert_eq!(st.con_size, (3, 7));
    assert_eq!(st.con_state.len(), 1);
}

#[test]
fn poller_paces_requests() {
    let mut p = Poller::new();
    let mut counts = (0, 0, 0);
    for _ in 0..400 {
        let r = p.tick();
        counts.0 += r.version as u32;
        counts.1 += r.connections as u32;
        counts.2 += r.proxies as u32;
    }
    assert_eq!(counts, (2, 40, 10));
}

#[test]
fn config_path_prefers_flag_then_home() {
    let mut flags = Flags::default();
    assert_eq!(flags.timeout, 2000);
    assert_eq!(flags.config_path(Some("/home/u".to_string())).ok(), Some("/home/u/.config/clashctl/config.ron".to_string()));
    assert_eq!(flags.config_path(Some("/root/".to_string())).ok(), Some("/root/.config/clashctl/config.ron".to_string()));
    assert!(matches!(flags.config_path(None), Err(ConfigError::ConfigFileOpenError)));
    flags.config = Some("/etc/c.ron".to_string());
    assert_eq!(flags.get_config_path().ok(), Some("/etc/c.ron".to_string()));
}

#[test]
fn server_choice_needs_a_selected_server() {
    let flags = Flags { verbose: 0, timeout: 500, config: None };
    assert!(matches!(flags.connect_server_from_config(None), Err(ConfigError::ServerNotFound)));
    let c = flags
        .connect_server_from_config(Some(Server { url: "http://127.0.0.1:9090".to_string(), secret: None }))
        .ok()
        .unwrap();
    assert_eq!(c.timeout_ms, 500);
    assert_eq!(c.server.url, "http://127.0.0.1:9090");
}

#[test]
fn speed_is_unknown_before_the_connection_starts() {
    let meta = Metadata {
        connection_type: String::new(),
        source_ip: String::new(),
        source_port: String::new(),
        destination_ip: String::new(),
        destination_port: String::new(),
        host: String::new(),
        network: String::new(),
    };
    let con = Connection {
        id: "x".to_string(),
        upload: 10,
        download: 10,
        metadata: meta,
        rule: RuleType::Match,
        rule_payload: String::new(),
        start: i64::MAX,
        chains: vec![],
    };
    assert_eq!(con.up_speed(), None);
    assert_eq!(con.down_speed(), None);
}

#[test]
fn default_config_path_lies_under_home() {
    let flags = Flags::default();
    match flags.get_config_path() {
        Ok(p) => assert!(p.ends_with("/.config/clashctl/config.ron")),
        Err(e) => assert!(matches!(e, ConfigError::ConfigFileOpenError)),
    }
}

#[test]
fn test_latency_while_testing_changes_nothing() {
    let mut st = TuiStates::new(0);
    st.handle(Event::Update(UpdateEvent::Proxies(proxies())));
    st.handle(goto(2));
    st.handle(Event::Input(InputEvent::TestLatency));
    let page = st.page_index;
    let cursor = st.proxy_tree.cursor;
    let groups = st.proxy_tree.groups.len();
    assert!(st.handle(Event::Input(InputEvent::TestLatency)).is_none());
    assert_eq!(st.page_index, page);
    assert_eq!(st.proxy_tree.cursor, cursor);
    assert_eq!(st.proxy_tree.groups.len(), groups);
    assert_eq!(st.proxy_tree.testing, TestingState::Testing);
}

#[test]
fn keys_reach_the_list_of_the_shown_page() {
    let mut st = TuiStates::new(0);
    st.handle(goto(5));
    st.handle(Event::Update(UpdateEvent::Log(Log { log_type: "info".to_string(), payload: "a".to_string() })));
    st.handle(Event::Update(UpdateEvent::Log(Log { log_type: "warn".to_string(), payload: "b".to_string() })));
    st.handle(Event::Input(InputEvent::ToggleHold));
    assert!(st.log_state.offset.hold);
    st.handle(Event::Input(InputEvent::List(clashctl::list::ListNavEvent::Up)));
    assert_eq!(st.log_state.offset.y, 1);
    assert!(!st.rule_state.offset.hold);
    st.handle(Event::Input(InputEvent::Esc));
    assert_eq!(st.log_state.offset, clashctl::list::Coord { x: 0, y: 0, hold: false });
    match &st.log_state.items[1] {
        clashctl::list::MovableListItem::Raw(s) => assert_eq!(s, "warn: b"),
        _ => panic!("expected a raw row"),
    }
}

#[test]
fn debug_log_records_event_labels() {
    let mut st = TuiStates::new(0);
    st.handle(goto(1));
    st.handle(Event::Update(UpdateEvent::Traffic(Traffic { up: 1, down: 1 })));
    assert_eq!(st.events, vec!["Input: TabGoto".to_string(), "Update: Traffic".to_string()]);
    assert_eq!(st.debug_state.len(), 2);
    assert_eq!(Event::Quit.label(), "Quit");
}
