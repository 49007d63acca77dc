//! The application state and the reducer, its only writer.

use crate::event::{event_label, Action, Event, InputEvent, UpdateEvent};
use crate::list::{max_cols, nav_offset, Coord, RowView, ListNavEvent, MovableListItem, MovableListState};
use crate::model::{
    builds_group, connection_row, connections_list, group_entries, log_row, rule_frequency, rule_row,
    rules_list, Traffic, Version,
};
use crate::proxy::{freq_view, normal_names, sorted_group, tree_nav, ProxyGroup, ProxySort, ProxyTree, TestingState};
use vstd::prelude::*;

verus! {

/// Most entries the debug log holds.
pub const EVENT_LOG_CAP: usize = 300;

/// Entries dropped at once when the debug log is full.
pub const EVENT_LOG_DROP: usize = 100;

/// Pages in order; the debug page, shown only on demand, is last.
#[derive(Clone, Copy, Debug, PartialEq, Eq, Structural)]
pub enum Page {
    Status,
    Proxies,
    Rules,
    Conns,
    Logs,
    Configs,
    Debug,
}

pub open spec fn page_at(index: int) -> Page {
    if index == 0 {
        Page::Status
    } else if index == 1 {
        Page::Proxies
    } else if index == 2 {
        Page::Rules
    } else if index == 3 {
        Page::Conns
    } else if index == 4 {
        Page::Logs
    } else if index == 5 {
        Page::Configs
    } else {
        Page::Debug
    }
}

pub open spec fn page_count(show_debug: bool) -> int {
    if show_debug {
        7
    } else {
        6
    }
}

/// The debug log after one more event: when full, its oldest hundred
/// entries go first, as one batch.
pub open spec fn logged(log: Seq<Seq<char>>, label: Seq<char>) -> Seq<Seq<char>> {
    if log.len() >= EVENT_LOG_CAP {
        log.skip(EVENT_LOG_DROP as int).push(label)
    } else {
        log.push(label)
    }
}

/// The debug log never grows past its cap; an event that finds it full
/// first drops exactly its oldest hundred entries, then is appended.
pub proof fn lemma_event_log_bounded(log: Seq<Seq<char>>, label: Seq<char>)
    requires
        log.len() <= EVENT_LOG_CAP,
    ensures
        logged(log, label).len() <= EVENT_LOG_CAP,
        log.len() < EVENT_LOG_CAP ==> logged(log, label) == log.push(label),
        log.len() == EVENT_LOG_CAP ==> logged(log, label).len() == EVENT_LOG_CAP - EVENT_LOG_DROP + 1
            && logged(log, label) == log.subrange(EVENT_LOG_DROP as int, EVENT_LOG_CAP as int).push(label),
{
    if log.len() == EVENT_LOG_CAP {
        assert(log.skip(EVENT_LOG_DROP as int) =~= log.subrange(EVENT_LOG_DROP as int, EVENT_LOG_CAP as int));
    }
}

/// Everything the dashboard shows.
#[derive(Debug)]
pub struct TuiStates {
    pub should_quit: bool,
    /// When the dashboard started, in seconds since the Unix epoch.
    pub start_time: i64,
    pub version: Option<Version>,
    pub traffics: Vec<Traffic>,
    /// Largest rate seen in each direction.
    pub max_traffic: Traffic,
    /// The latest events, as lines, oldest first.
    pub events: Vec<String>,
    pub all_events_recv: usize,
    pub page_index: u8,
    pub show_debug: bool,
    pub proxy_tree: ProxyTree,
    pub proxy_sort: ProxySort,
    pub debug_state: MovableListState,
    pub log_state: MovableListState,
    pub con_state: MovableListState,
    pub rule_state: MovableListState,
    /// For each proxy, how many rules send traffic to it.
    pub rule_freq: Vec<(String, usize)>,
    /// Bytes moved by all connections: (upload, download).
    pub con_size: (u64, u64),
}

impl TuiStates {
    pub open spec fn events_view(&self) -> Seq<Seq<char>> {
        self.events@.map_values(|s: String| s@)
    }

    pub open spec fn wf(&self) -> bool {
        &&& (self.page_index as int) < page_count(self.show_debug)
        &&& self.events@.len() <= EVENT_LOG_CAP
        &&& self.proxy_tree.wf()
    }

    pub open spec fn page(&self) -> Page {
        page_at(self.page_index as int)
    }

    /// Same state but for the event counter and the debug log and list.
    pub open spec fn same_but_log(&self, other: &TuiStates) -> bool {
        &&& self.should_quit == other.should_quit
        &&& self.start_time == other.start_time
        &&& self.version == other.version
        &&& self.traffics == other.traffics
        &&& self.max_traffic == other.max_traffic
        &&& self.page_index == other.page_index
        &&& self.show_debug == other.show_debug
        &&& self.proxy_tree == other.proxy_tree
        &&& self.proxy_sort == other.proxy_sort
        &&& self.log_state == other.log_state
        &&& self.con_state == other.con_state
        &&& self.rule_state == other.rule_state
        &&& self.rule_freq == other.rule_freq
        &&& self.con_size == other.con_size
    }

    /// A fresh state started at `start_time`, on the first page.
    pub fn new(start_time: i64) -> (r: TuiStates)
        ensures
            r.wf(),
            r.start_time == start_time,
            !r.should_quit,
            r.all_events_recv == 0,
            r.events@.len() == 0,
            r.page_index == 0,
            !r.show_debug,
            r.proxy_tree.groups@.len() == 0,
            r.proxy_tree.testing == TestingState::Idle,
            r.traffics@.len() == 0,
            r.max_traffic == (Traffic { up: 0, down: 0 }),
    {
        TuiStates {
            should_quit: false,
            start_time,
            version: None,
            traffics: Vec::new(),
            max_traffic: Traffic { up: 0, down: 0 },
            events: Vec::new(),
            all_events_recv: 0,
            page_index: 0,
            show_debug: false,
            proxy_tree: ProxyTree::new(Vec::new()),
            proxy_sort: ProxySort::Declared,
            debug_state: MovableListState::new(),
            log_state: MovableListState::new(),
            con_state: MovableListState::new(),
            rule_state: MovableListState::new(),
            rule_freq: Vec::new(),
            con_size: (0, 0),
        }
    }

    /// Number of pages shown: the debug page counts only when visible.
    pub fn page_len(&self) -> (r: usize)
        ensures
            r == page_count(self.show_debug),
    {
        if self.show_debug {
            7
        } else {
            6
        }
    }

    /// Index of the debug page.
    pub fn debug_page_index(&self) -> (r: u8)
        ensures
            r == 6,
            page_at(r as int) == Page::Debug,
    {
        6
    }

    /// The page being shown.
    pub fn active_page(&self) -> (r: Page)
        ensures
            r == self.page(),
    {
        match self.page_index {
            0 => Page::Status,
            1 => Page::Proxies,
            2 => Page::Rules,
            3 => Page::Conns,
            4 => Page::Logs,
            5 => Page::Configs,
            _ => Page::Debug,
        }
    }

    /// Title of the page being shown.
    pub fn title(&self) -> (r: &'static str)
        ensures
            r@ == page_title(self.page()),
    {
        match self.active_page() {
            Page::Status => "Status",
            Page::Proxies => "Proxies",
            Page::Rules => "Rules",
            Page::Conns => "Conns",
            Page::Logs => "Logs",
            Page::Configs => "Configs",
            Page::Debug => "Debug",
        }
    }

    /// The list shown on the current page, if the page shows one.
    pub fn active_list_state(&mut self) -> (r: Option<&mut MovableListState>)
        ensures
            r is None <==> !(old(self).page() == Page::Logs || old(self).page() == Page::Debug
                || old(self).page() == Page::Rules || old(self).page() == Page::Conns),
            old(self).page() == Page::Logs ==> (r matches Some(s) && *s == old(self).log_state),
            old(self).page() == Page::Debug ==> (r matches Some(s) && *s == old(self).debug_state),
            old(self).page() == Page::Rules ==> (r matches Some(s) && *s == old(self).rule_state),
            old(self).page() == Page::Conns ==> (r matches Some(s) && *s == old(self).con_state),
    {
        match self.active_page() {
            Page::Logs => Some(&mut self.log_state),
            Page::Debug => Some(&mut self.debug_state),
            Page::Rules => Some(&mut self.rule_state),
            Page::Conns => Some(&mut self.con_state),
            _ => None,
        }
    }

    fn log_event(&mut self, label: String)
        requires
            old(self).wf(),
        ensures
            final(self).wf(),
            final(self).same_but_log(old(self)),
            final(self).all_events_recv == old(self).all_events_recv,
            final(self).events_view() == logged(old(self).events_view(), label@),
            final(self).debug_state.offset == old(self).debug_state.offset,
            final(self).debug_state.items@ == old(self).debug_state.items@.push(MovableListItem::Raw(label)),
    {
        if self.events.len() >= EVENT_LOG_CAP {
            let mut kept: Vec<String> = Vec::new();
            let mut i: usize = EVENT_LOG_DROP;
            while i < self.events.len()
                invariant
                    EVENT_LOG_DROP <= i <= self.events@.len(),
                    kept@.len() == i - EVENT_LOG_DROP,
                    forall|k: int| 0 <= k < kept@.len() ==> #[trigger] kept@[k] == self.events@[k + EVENT_LOG_DROP],
                decreases self.events@.len() - i,
            {
                kept.push(self.events[i].clone());
                i = i + 1;
            }
            proof {
                assert(kept@.map_values(|s: String| s@) =~= self.events_view().skip(EVENT_LOG_DROP as int));
            }
            self.events = kept;
        }
        let ghost mid = self.events_view();
        let row = label.clone();
        self.events.push(label);
        proof {
            assert(self.events_view() =~= mid.push(label@));
        }
        self.debug_state.push(MovableListItem::Raw(row));
    }

    /// Takes one event: counts it, records it in the debug log, and applies
    /// it. Returns the command the event calls for, if any.
    pub fn handle(&mut self, event: Event) -> (r: Option<Action>)
        requires
            old(self).wf(),
            old(self).all_events_recv < usize::MAX,
        ensures
            final(self).wf(),
            final(self).all_events_recv == old(self).all_events_recv + 1,
            final(self).events_view() == logged(old(self).events_view(), event_label(event)),
            final(self).debug_state.items@.len() == old(self).debug_state.items@.len() + 1,
            final(self).debug_state.items@.drop_last() == old(self).debug_state.items@,
            final(self).debug_state.items@.last()@ == RowView::Raw(event_label(event)),
            match event {
                Event::Quit => r is None && final(self).same_but_log(&TuiStates { should_quit: true, ..*old(self) }),
                Event::Input(i) => input_effect(*old(self), *final(self), i, r),
                Event::Update(u) => update_effect(*old(self), *final(self), u) && r is None,
            },
    {
        let label = event.label();
        self.all_events_recv = self.all_events_recv + 1;
        self.log_event(label);
        proof {
            assert(self.debug_state.items@.drop_last() =~= old(self).debug_state.items@);
        }
        match event {
            Event::Quit => {
                self.should_quit = true;
                None
            },
            Event::Input(i) => self.handle_input(i),
            Event::Update(u) => {
                self.handle_update(u);
                None
            },
        }
    }

    /// Feeds `events` to the reducer in order; returns what each call returned.
    pub fn handle_all(&mut self, events: Vec<Event>) -> (r: Vec<Option<Action>>)
        requires
            old(self).wf(),
            old(self).all_events_recv + events@.len() <= usize::MAX,
        ensures
            final(self).wf(),
            final(self).all_events_recv == old(self).all_events_recv + events@.len(),
            r@.len() == events@.len(),
    {
        let mut out: Vec<Option<Action>> = Vec::new();
        let mut i: usize = 0;
        let ghost start = self.all_events_recv;
        while i < events.len()
            invariant
                self.wf(),
                i <= events@.len(),
                self.all_events_recv == start + i,
                start + events@.len() <= usize::MAX,
                out@.len() == i,
            decreases events@.len() - i,
        {
            let e = events[i].clone();
            let a = self.handle(e);
            out.push(a);
            i = i + 1;
        }
        out
    }

    fn handle_update(&mut self, update: UpdateEvent)
        requires
            old(self).wf(),
        ensures
            final(self).wf(),
            update_effect(*old(self), *final(self), update),
            final(self).debug_state == old(self).debug_state,
            final(self).all_events_recv == old(self).all_events_recv,
            final(self).events == old(self).events,
    {
        match update {
            UpdateEvent::Connection(c) => {
                self.con_size = (c.upload_total, c.download_total);
                let fresh = connections_list(&c);
                self.con_state.merge(fresh);
            },
            UpdateEvent::Version(v) => {
                self.version = Some(v);
            },
            UpdateEvent::Traffic(t) => {
                if t.up > self.max_traffic.up {
                    self.max_traffic.up = t.up;
                }
                if t.down > self.max_traffic.down {
                    self.max_traffic.down = t.down;
                }
                self.traffics.push(t);
            },
            UpdateEvent::Proxies(s) => {
                let mut fresh = s.to_tree();
                fresh.set_sort(self.proxy_tree.sort_mode);
                let ghost built = fresh.groups@;
                fresh.sort_with_frequency(&self.rule_freq);
                let ghost sorted = fresh.groups@;
                let ghost mode = self.proxy_tree.sort_mode;
                self.proxy_tree.replace_with(fresh);
                proof {
                    assert forall|g: int| 0 <= g < self.proxy_tree.groups@.len() implies shown_group(
                        s.proxies@,
                        g,
                        #[trigger] self.proxy_tree.groups@[g],
                        mode,
                        freq_view(self.rule_freq@),
                    ) by {
                        assert(self.proxy_tree.groups@[g] == sorted[g]);
                        assert(builds_group(s.proxies@, group_entries(s.proxies@)[g], built[g]));
                        assert(sorted_group(built[g], sorted[g], mode, freq_view(self.rule_freq@)));
                    }
                }
            },
            UpdateEvent::Log(l) => {
                let row = l.row();
                self.log_state.push(row);
                proof {
                    assert(self.log_state.items@.drop_last() =~= old(self).log_state.items@);
                }
            },
            UpdateEvent::Rules(rules) => {
                self.rule_freq = rule_frequency(&rules);
                let fresh = rules_list(&rules);
                self.rule_state.merge(fresh);
            },
            UpdateEvent::ProxyTestLatencyDone => {
                self.proxy_tree.end_testing();
            },
        }
    }

    fn handle_input(&mut self, event: InputEvent) -> (r: Option<Action>)
        requires
            old(self).wf(),
        ensures
            final(self).wf(),
            input_effect(*old(self), *final(self), event, r),
            final(self).debug_state.items == old(self).debug_state.items,
            final(self).all_events_recv == old(self).all_events_recv,
            final(self).events == old(self).events,
    {
        match event {
            InputEvent::TabGoto(index) => {
                if index >= 1 && (index as usize) <= self.page_len() {
                    self.page_index = index - 1;
                }
                None
            },
            InputEvent::ToggleDebug => {
                self.show_debug = !self.show_debug;
                if self.page_index == self.debug_page_index() {
                    self.page_index = self.page_index - 1;
                } else if self.show_debug {
                    self.page_index = self.debug_page_index();
                }
                None
            },
            InputEvent::ToggleHold => {
                match self.active_page() {
                    Page::Logs => self.log_state.toggle(),
                    Page::Debug => self.debug_state.toggle(),
                    Page::Rules => self.rule_state.toggle(),
                    Page::Conns => self.con_state.toggle(),
                    Page::Proxies => self.proxy_tree.toggle(),
                    _ => {},
                }
                None
            },
            InputEvent::List(nav) => {
                match self.active_page() {
                    Page::Logs => self.log_state.handle(nav),
                    Page::Debug => self.debug_state.handle(nav),
                    Page::Rules => self.rule_state.handle(nav),
                    Page::Conns => self.con_state.handle(nav),
                    Page::Proxies => self.proxy_tree.handle(nav),
                    _ => {},
                }
                None
            },
            InputEvent::TestLatency => {
                if self.active_page() == Page::Proxies && !self.proxy_tree.is_testing() {
                    self.proxy_tree.start_testing();
                    let proxies = self.proxy_tree.normal_proxy_names();
                    Some(Action::TestLatency { proxies })
                } else {
                    None
                }
            },
            InputEvent::Esc => {
                match self.active_page() {
                    Page::Logs => self.log_state.end(),
                    Page::Debug => self.debug_state.end(),
                    Page::Rules => self.rule_state.end(),
                    Page::Conns => self.con_state.end(),
                    Page::Proxies => self.proxy_tree.end(),
                    _ => {},
                }
                None
            },
            InputEvent::Sort => None,
            InputEvent::Other(_) => None,
        }
    }
}

pub open spec fn page_title(p: Page) -> Seq<char> {
    match p {
        Page::Status => "Status"@,
        Page::Proxies => "Proxies"@,
        Page::Rules => "Rules"@,
        Page::Conns => "Conns"@,
        Page::Logs => "Logs"@,
        Page::Configs => "Configs"@,
        Page::Debug => "Debug"@,
    }
}

/// What an update does to the state.
pub open spec fn update_effect(s: TuiStates, t: TuiStates, u: UpdateEvent) -> bool {
    match u {
        UpdateEvent::Connection(c) => {
            &&& t.same_but_log(&TuiStates { con_size: (c.upload_total, c.download_total), con_state: t.con_state, ..s })
            &&& t.con_state.offset == s.con_state.offset
            &&& t.con_state.items@.len() == c.connections@.len()
            &&& forall|k: int| 0 <= k < c.connections@.len() ==> (#[trigger] t.con_state.items@[k])@
                == RowView::Raw(connection_row(c.connections@[k]))
        },
        UpdateEvent::Version(v) => t.same_but_log(&TuiStates { version: Some(v), ..s }),
        UpdateEvent::Traffic(x) => {
            &&& t.same_but_log(&TuiStates {
                traffics: t.traffics,
                max_traffic: Traffic {
                    up: if x.up > s.max_traffic.up { x.up } else { s.max_traffic.up },
                    down: if x.down > s.max_traffic.down { x.down } else { s.max_traffic.down },
                },
                ..s
            })
            &&& t.traffics@ == s.traffics@.push(x)
        },
        UpdateEvent::Proxies(snap) => {
            &&& t.same_but_log(&TuiStates { proxy_tree: t.proxy_tree, ..s })
            &&& t.proxy_tree.wf()
            &&& t.proxy_tree.groups@.len() == group_entries(snap.proxies@).len()
            &&& forall|g: int| 0 <= g < t.proxy_tree.groups@.len() ==> shown_group(
                snap.proxies@,
                g,
                #[trigger] t.proxy_tree.groups@[g],
                s.proxy_tree.sort_mode,
                freq_view(s.rule_freq@),
            )
            &&& t.proxy_tree.testing == s.proxy_tree.testing
            &&& t.proxy_tree.sort_mode == s.proxy_tree.sort_mode
            &&& t.proxy_tree.hold == s.proxy_tree.hold
        },
        UpdateEvent::Log(l) => {
            &&& t.same_but_log(&TuiStates { log_state: t.log_state, ..s })
            &&& t.log_state.offset == s.log_state.offset
            &&& t.log_state.items@.len() == s.log_state.items@.len() + 1
            &&& t.log_state.items@.drop_last() == s.log_state.items@
            &&& t.log_state.items@.last()@ == RowView::Raw(log_row(l))
        },
        UpdateEvent::Rules(rules) => {
            &&& t.same_but_log(&TuiStates { rule_freq: t.rule_freq, rule_state: t.rule_state, ..s })
            &&& forall|name: Seq<char>| #[trigger] crate::proxy::freq_of(freq_view(t.rule_freq@), name)
                == crate::model::rule_count(rules@, name)
            &&& t.rule_state.offset == s.rule_state.offset
            &&& t.rule_state.items@.len() == rules@.len()
            &&& forall|k: int| 0 <= k < rules@.len() ==> (#[trigger] t.rule_state.items@[k])@
                == RowView::Raw(rule_row(rules@[k]))
        },
        UpdateEvent::ProxyTestLatencyDone => t.same_but_log(&TuiStates {
            proxy_tree: ProxyTree { testing: TestingState::Idle, ..s.proxy_tree },
            ..s
        }),
    }
}

/// `b`, the group at index `g` of the tree, is the `g`-th group entry of a
/// snapshot, built from its entries and then sorted under `mode`.
pub open spec fn shown_group(
    entries: Seq<crate::model::ProxyEntry>,
    g: int,
    b: ProxyGroup,
    mode: ProxySort,
    freq: Seq<(Seq<char>, usize)>,
) -> bool {
    exists|a: ProxyGroup| builds_group(entries, group_entries(entries)[g], a) && sorted_group(a, b, mode, freq)
}

/// What a key press does to the state and returns.
pub open spec fn input_effect(s: TuiStates, t: TuiStates, i: InputEvent, r: Option<Action>) -> bool {
    match i {
        InputEvent::TabGoto(n) => {
            &&& r is None
            &&& t.same_but_log(&(if 1 <= n <= page_count(s.show_debug) {
                TuiStates { page_index: (n - 1) as u8, ..s }
            } else {
                s
            }))
        },
        InputEvent::ToggleDebug => {
            &&& r is None
            &&& t.same_but_log(&TuiStates {
                show_debug: !s.show_debug,
                page_index: if s.page_index == 6 {
                    5
                } else if !s.show_debug {
                    6
                } else {
                    s.page_index
                },
                ..s
            })
        },
        InputEvent::TestLatency => {
            if s.page() == Page::Proxies && s.proxy_tree.testing == TestingState::Idle {
                &&& t.same_but_log(&TuiStates {
                    proxy_tree: ProxyTree { testing: TestingState::Testing, ..s.proxy_tree },
                    ..s
                })
                &&& r matches Some(Action::TestLatency { proxies })
                    && proxies@.map_values(|x: String| x@) == normal_names(s.proxy_tree.shown_members())
            } else {
                r is None && t.same_but_log(&s)
            }
        },
        InputEvent::Sort | InputEvent::Other(_) => r is None && t.same_but_log(&s),
        InputEvent::ToggleHold => r is None && routed(s, t, ListOp::Toggle),
        InputEvent::Esc => r is None && routed(s, t, ListOp::End),
        InputEvent::List(nav) => r is None && routed(s, t, ListOp::Nav(nav)),
    }
}

/// What a key does to the list or tree it reaches.
#[derive(Clone, Copy, Debug, PartialEq, Eq, Structural)]
pub enum ListOp {
    Toggle,
    End,
    Nav(ListNavEvent),
}

pub open spec fn list_after(l: MovableListState, op: ListOp) -> MovableListState {
    match op {
        ListOp::Toggle => MovableListState { offset: Coord { hold: !l.offset.hold, ..l.offset }, ..l },
        ListOp::End => MovableListState { offset: Coord { x: 0, y: 0, hold: false }, ..l },
        ListOp::Nav(nav) => MovableListState {
            offset: nav_offset(l.offset, l.items@.len() as int, max_cols(l.rows()), nav),
            ..l
        },
    }
}

pub open spec fn tree_after(s: ProxyTree, t: ProxyTree, op: ListOp) -> bool {
    match op {
        ListOp::Toggle => t == ProxyTree { hold: !s.hold, ..s },
        ListOp::End => t == ProxyTree { hold: false, cursor: 0, ..s },
        ListOp::Nav(nav) => tree_nav(s, t, nav),
    }
}

/// A key meant for the list on the shown page reaches that list, or the
/// tree on the proxies page; elsewhere it changes nothing. Nothing else
/// changes either. The debug list already holds the key's own row when the
/// key reaches it.
pub open spec fn routed(s: TuiStates, t: TuiStates, op: ListOp) -> bool {
    let p = s.page();
    &&& t.should_quit == s.should_quit
    &&& t.start_time == s.start_time
    &&& t.version == s.version
    &&& t.traffics == s.traffics
    &&& t.max_traffic == s.max_traffic
    &&& t.page_index == s.page_index
    &&& t.show_debug == s.show_debug
    &&& t.proxy_sort == s.proxy_sort
    &&& t.rule_freq == s.rule_freq
    &&& t.con_size == s.con_size
    &&& t.log_state == if p == Page::Logs { list_after(s.log_state, op) } else { s.log_state }
    &&& t.rule_state == if p == Page::Rules { list_after(s.rule_state, op) } else { s.rule_state }
    &&& t.con_state == if p == Page::Conns { list_after(s.con_state, op) } else { s.con_state }
    &&& (p == Page::Debug ==> t.debug_state.offset == list_after(
        MovableListState { items: t.debug_state.items, ..s.debug_state },
        op,
    ).offset)
    &&& (p != Page::Debug ==> t.debug_state.offset == s.debug_state.offset)
    &&& if p == Page::Proxies { tree_after(s.proxy_tree, t.proxy_tree, op) } else { t.proxy_tree == s.proxy_tree }
}

} // verus!
