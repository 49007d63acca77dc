//! Records that the daemon reports: traffic, version, connections, rules,
//! log lines and proxies.

use crate::list::{MovableListItem, MovableListState};
use crate::proxy::{freq_of, freq_view, ProxyGroup, ProxyItem, ProxyTree, ProxyType};
use vstd::prelude::*;

verus! {

/// Bytes per second up and down at one moment.
#[derive(Clone, Copy, Debug, PartialEq, Eq, Structural)]
pub struct Traffic {
    pub up: u64,
    pub down: u64,
}

#[derive(Clone, Debug)]
pub struct Version {
    pub version: String,
}

/// Where a connection goes and where it comes from.
#[derive(Clone, Debug)]
pub struct Metadata {
    pub connection_type: String,
    pub source_ip: String,
    pub source_port: String,
    pub destination_ip: String,
    pub destination_port: String,
    pub host: String,
    pub network: String,
}

/// Kind of a routing rule.
#[derive(Clone, Copy, Debug, PartialEq, Eq, Structural)]
pub enum RuleType {
    Domain,
    DomainSuffix,
    DomainKeyword,
    GeoIP,
    IPCIDR,
    SrcIPCIDR,
    SrcPort,
    DstPort,
    Process,
    Match,
    Direct,
    Reject,
    Unknown,
}

/// One open connection; `start` is in seconds since the Unix epoch.
#[derive(Clone, Debug)]
pub struct Connection {
    pub id: String,
    pub upload: u64,
    pub download: u64,
    pub metadata: Metadata,
    pub rule: RuleType,
    pub rule_payload: String,
    pub start: i64,
    pub chains: Vec<String>,
}

/// All open connections and the bytes moved so far.
#[derive(Clone, Debug)]
pub struct Connections {
    pub connections: Vec<Connection>,
    pub download_total: u64,
    pub upload_total: u64,
}

/// A routing rule: traffic matching `payload` goes to `proxy`.
#[derive(Clone, Debug)]
pub struct Rule {
    pub rule_type: RuleType,
    pub payload: String,
    pub proxy: String,
}

/// A log line of the daemon.
#[derive(Clone, Debug)]
pub struct Log {
    pub log_type: String,
    pub payload: String,
}

/// A proxy or group as the daemon reports it; `all` names a group's members.
#[derive(Clone, Debug)]
pub struct ProxyEntry {
    pub name: String,
    pub proxy_type: ProxyType,
    pub all: Vec<String>,
    pub latency: Option<u64>,
}

/// Every proxy and group the daemon knows, in its order.
#[derive(Clone, Debug)]
pub struct ProxySnapshot {
    pub proxies: Vec<ProxyEntry>,
}

/// Relies on `chrono::Utc::now` and `DateTime::timestamp`: the time now, in
/// seconds since the Unix epoch. Nothing is known of its value.
#[verifier::external_body]
fn now_seconds() -> (r: i64) {
    chrono::Utc::now().timestamp()
}

/// Average rate of `bytes` moved since `start`, at time `now`; none before
/// a second has passed.
pub open spec fn rate(bytes: u64, start: i64, now: i64) -> Option<u64> {
    if now - start <= 0 {
        None
    } else {
        Some((bytes as int / (now - start)) as u64)
    }
}

pub fn rate_at(bytes: u64, start: i64, now: i64) -> (r: Option<u64>)
    ensures
        r == rate(bytes, start, now),
{
    let elapsed: i128 = now as i128 - start as i128;
    if elapsed <= 0 {
        None
    } else {
        let q: u128 = bytes as u128 / elapsed as u128;
        Some(q as u64)
    }
}

impl Connection {
    /// Upload rate of the connection at time `now`.
    pub fn up_speed_at(&self, now: i64) -> (r: Option<u64>)
        ensures
            r == rate(self.upload, self.start, now),
    {
        rate_at(self.upload, self.start, now)
    }

    /// Download rate of the connection at time `now`.
    pub fn down_speed_at(&self, now: i64) -> (r: Option<u64>)
        ensures
            r == rate(self.download, self.start, now),
    {
        rate_at(self.download, self.start, now)
    }

    /// Upload rate of the connection now.
    pub fn up_speed(&self) -> (r: Option<u64>)
        ensures
            exists|now: i64| r == rate(self.upload, self.start, now),
    {
        let now = now_seconds();
        self.up_speed_at(now)
    }

    /// Download rate of the connection now.
    pub fn down_speed(&self) -> (r: Option<u64>)
        ensures
            exists|now: i64| r == rate(self.download, self.start, now),
    {
        let now = now_seconds();
        self.down_speed_at(now)
    }
}

/// `a`, then `sep`, then `b`.
pub fn joined(a: &String, sep: &str, b: &String) -> (r: String)
    ensures
        r@ == a@ + sep@ + b@,
{
    let mut r = a.clone();
    r.append(sep);
    r.append(b.as_str());
    r
}

pub open spec fn rule_row(r: Rule) -> Seq<char> {
    r.payload@ + " => "@ + r.proxy@
}

pub open spec fn connection_row(c: Connection) -> Seq<char> {
    c.metadata.host@ + " => "@ + c.rule_payload@
}

pub open spec fn log_row(l: Log) -> Seq<char> {
    l.log_type@ + ": "@ + l.payload@
}

impl Log {
    /// The row a log line shows as.
    pub fn row(&self) -> (r: MovableListItem)
        ensures
            r is Raw && r->Raw_0@ == log_row(*self),
    {
        MovableListItem::Raw(joined(&self.log_type, ": ", &self.payload))
    }
}

/// A list of rules, one row each, held at the newest row.
pub fn rules_list(rules: &Vec<Rule>) -> (r: MovableListState)
    ensures
        r.items@.len() == rules@.len(),
        forall|k: int| 0 <= k < rules@.len() ==> (#[trigger] r.items@[k]) is Raw && r.items@[k]->Raw_0@ == rule_row(rules@[k]),
{
    let mut st = MovableListState::new();
    let mut i: usize = 0;
    while i < rules.len()
        invariant
            i <= rules@.len(),
            st.items@.len() == i,
            forall|k: int| 0 <= k < i ==> (#[trigger] st.items@[k]) is Raw && st.items@[k]->Raw_0@ == rule_row(rules@[k]),
        decreases rules@.len() - i,
    {
        let row = joined(&rules[i].payload, " => ", &rules[i].proxy);
        st.push(MovableListItem::Raw(row));
        i = i + 1;
    }
    st
}

/// A list of connections, one row each, held at the newest row.
pub fn connections_list(cons: &Connections) -> (r: MovableListState)
    ensures
        r.items@.len() == cons.connections@.len(),
        forall|k: int| 0 <= k < cons.connections@.len() ==> (#[trigger] r.items@[k]) is Raw
            && r.items@[k]->Raw_0@ == connection_row(cons.connections@[k]),
{
    let mut st = MovableListState::new();
    let mut i: usize = 0;
    while i < cons.connections.len()
        invariant
            i <= cons.connections@.len(),
            st.items@.len() == i,
            forall|k: int| 0 <= k < i ==> (#[trigger] st.items@[k]) is Raw
                && st.items@[k]->Raw_0@ == connection_row(cons.connections@[k]),
        decreases cons.connections@.len() - i,
    {
        let c = &cons.connections[i];
        let row = joined(&c.metadata.host, " => ", &c.rule_payload);
        st.push(MovableListItem::Raw(row));
        i = i + 1;
    }
    st
}

/// How many rules send traffic to `name`.
pub open spec fn rule_count(rules: Seq<Rule>, name: Seq<char>) -> int
    decreases rules.len(),
{
    if rules.len() == 0 {
        0
    } else {
        rule_count(rules.drop_last(), name) + if rules.last().proxy@ == name { 1int } else { 0int }
    }
}

proof fn lemma_freq_update(f: Seq<(Seq<char>, usize)>, k: int, name: Seq<char>, v: usize, other: Seq<char>)
    requires
        0 <= k < f.len(),
        f[k].0 == name,
        forall|j: int| 0 <= j < k ==> (#[trigger] f[j]).0 != name,
    ensures
        freq_of(f.update(k, (name, v)), other) == if other == name { v as int } else { freq_of(f, other) },
        freq_of(f, name) == f[k].1,
    decreases f.len(),
{
    let g = f.update(k, (name, v));
    if k > 0 {
        assert(f[0].0 != name);
        lemma_freq_update(f.drop_first(), k - 1, name, v, other);
        assert(g.drop_first() =~= f.drop_first().update(k - 1, (name, v)));
        assert(g[0] == f[0]);
        assert(f.drop_first()[k - 1] == f[k]);
    } else {
        assert(g.drop_first() =~= f.drop_first());
        assert(g[0] == (name, v));
    }
}

proof fn lemma_freq_push(f: Seq<(Seq<char>, usize)>, name: Seq<char>, other: Seq<char>)
    requires
        forall|j: int| 0 <= j < f.len() ==> (#[trigger] f[j]).0 != name,
    ensures
        freq_of(f.push((name, 1)), other) == if other == name { 1 } else { freq_of(f, other) },
        freq_of(f, name) == 0,
    decreases f.len(),
{
    let g = f.push((name, 1usize));
    if f.len() > 0 {
        assert(f[0].0 != name);
        lemma_freq_push(f.drop_first(), name, other);
        assert(g.drop_first() =~= f.drop_first().push((name, 1usize)));
        assert(g[0] == f[0]);
    } else {
        assert(g.drop_first() =~= Seq::<(Seq<char>, usize)>::empty());
        assert(g[0] == (name, 1usize));
        assert(freq_of(g.drop_first(), other) == 0);
        assert(freq_of(f, other) == 0);
    }
}

/// For each proxy, how many of `rules` send traffic to it.
pub fn rule_frequency(rules: &Vec<Rule>) -> (r: Vec<(String, usize)>)
    ensures
        forall|name: Seq<char>| #[trigger] freq_of(freq_view(r@), name) == rule_count(rules@, name),
{
    let mut out: Vec<(String, usize)> = Vec::new();
    let mut i: usize = 0;
    while i < rules.len()
        invariant
            i <= rules@.len(),
            forall|name: Seq<char>| #[trigger] freq_of(freq_view(out@), name) == rule_count(rules@.take(i as int), name),
            forall|k: int| 0 <= k < out@.len() ==> (#[trigger] out@[k]).1 <= i,
        decreases rules@.len() - i,
    {
        let proxy = &rules[i].proxy;
        let ghost before = freq_view(out@);
        proof {
            assert(rules@.take(i + 1).drop_last() =~= rules@.take(i as int));
            assert(rules@.take(i + 1).last() == rules@[i as int]);
        }
        let mut k: usize = 0;
        while k < out.len() && !(out[k].0 == *proxy)
            invariant
                k <= out@.len(),
                before == freq_view(out@),
                forall|j: int| 0 <= j < k ==> (#[trigger] before[j]).0 != proxy@,
            decreases out@.len() - k,
        {
            k = k + 1;
        }
        if k < out.len() {
            let c = out[k].1;
            proof {
                assert(before[k as int].0 == proxy@);
                assert forall|name: Seq<char>| #[trigger] freq_of(before.update(k as int, (proxy@, (c + 1) as usize)), name)
                    == rule_count(rules@.take(i + 1), name) by {
                    assert(freq_of(freq_view(out@), name) == rule_count(rules@.take(i as int), name));
                    assert(rule_count(rules@.take(i + 1), name) == rule_count(rules@.take(i as int), name) + if proxy@ == name { 1int } else { 0int });
                    lemma_freq_update(before, k as int, proxy@, (c + 1) as usize, name);
                }
            }
            out.set(k, (proxy.clone(), c + 1));
            proof {
                assert(freq_view(out@) =~= before.update(k as int, (proxy@, (c + 1) as usize)));
            }
        } else {
            proof {
                assert forall|name: Seq<char>| #[trigger] freq_of(before.push((proxy@, 1usize)), name)
                    == rule_count(rules@.take(i + 1), name) by {
                    assert(freq_of(freq_view(out@), name) == rule_count(rules@.take(i as int), name));
                    assert(rule_count(rules@.take(i + 1), name) == rule_count(rules@.take(i as int), name) + if proxy@ == name { 1int } else { 0int });
                    lemma_freq_push(before, proxy@, name);
                }
            }
            out.push((proxy.clone(), 1));
            proof {
                assert(freq_view(out@) =~= before.push((proxy@, 1usize)));
            }
        }
        i = i + 1;
    }
    proof {
        assert(rules@.take(rules@.len() as int) =~= rules@);
    }
    out
}

/// The entries that are groups, in order.
pub open spec fn group_entries(entries: Seq<ProxyEntry>) -> Seq<ProxyEntry>
    decreases entries.len(),
{
    if entries.len() == 0 {
        Seq::empty()
    } else {
        let rest = group_entries(entries.drop_last());
        if entries.last().proxy_type.spec_is_group() {
            rest.push(entries.last())
        } else {
            rest
        }
    }
}

/// `item` is the member named `name`: its kind and latency come from the
/// first entry of that name, or it is of unknown kind and untested.
pub open spec fn resolves(entries: Seq<ProxyEntry>, name: Seq<char>, item: ProxyItem) -> bool {
    &&& item.name@ == name
    &&& if exists|j: int| 0 <= j < entries.len() && (#[trigger] entries[j]).name@ == name {
        let j = choose|j: int| 0 <= j < entries.len() && (#[trigger] entries[j]).name@ == name
            && forall|i: int| 0 <= i < j ==> (#[trigger] entries[i]).name@ != name;
        item.proxy_type == entries[j].proxy_type && item.latency == entries[j].latency
    } else {
        item.proxy_type == ProxyType::Unknown && item.latency is None
    }
}

/// The group `g` built from `entry`.
pub open spec fn builds_group(entries: Seq<ProxyEntry>, entry: ProxyEntry, g: ProxyGroup) -> bool {
    &&& g.name@ == entry.name@
    &&& g.group_type == entry.proxy_type
    &&& g.members@.len() == entry.all@.len()
    &&& forall|k: int| 0 <= k < entry.all@.len() ==> resolves(entries, entry.all@[k]@, #[trigger] g.members@[k])
}

fn resolve(entries: &Vec<ProxyEntry>, name: &String) -> (r: ProxyItem)
    ensures
        resolves(entries@, name@, r),
{
    let mut i: usize = 0;
    while i < entries.len()
        invariant
            i <= entries@.len(),
            forall|j: int| 0 <= j < i ==> (#[trigger] entries@[j]).name@ != name@,
        decreases entries@.len() - i,
    {
        if entries[i].name == *name {
            let r = ProxyItem { name: name.clone(), proxy_type: entries[i].proxy_type, latency: entries[i].latency };
            proof {
                let s = entries@;
                assert(0 <= i < s.len() && s[i as int].name@ == name@);
                let j = choose|j: int| 0 <= j < s.len() && (#[trigger] s[j]).name@ == name@
                    && forall|q: int| 0 <= q < j ==> (#[trigger] s[q]).name@ != name@;
                if j < i { assert(s[j].name@ != name@); }
                if i < j { assert(s[i as int].name@ != name@); }
                assert(j == i);
            }
            return r;
        }
        i = i + 1;
    }
    ProxyItem { name: name.clone(), proxy_type: ProxyType::Unknown, latency: None }
}

impl ProxySnapshot {
    /// A fresh tree with one group per group entry, in order; each member
    /// takes its kind and latency from the entry of its name.
    pub fn to_tree(&self) -> (r: ProxyTree)
        ensures
            r.wf(),
            r.groups@.len() == group_entries(self.proxies@).len(),
            forall|g: int| 0 <= g < r.groups@.len() ==> builds_group(self.proxies@, group_entries(self.proxies@)[g], #[trigger] r.groups@[g]),
            r.current == 0,
            r.cursor == 0,
            r.trail@.len() == 0,
            !r.hold,
            r.sort_mode == crate::proxy::ProxySort::Declared,
            r.testing == crate::proxy::TestingState::Idle,
    {
        let entries = &self.proxies;
        let mut groups: Vec<ProxyGroup> = Vec::new();
        let mut i: usize = 0;
        while i < entries.len()
            invariant
                i <= entries@.len(),
                groups@.len() == group_entries(entries@.take(i as int)).len(),
                forall|g: int| 0 <= g < groups@.len() ==> builds_group(entries@, group_entries(entries@.take(i as int))[g], #[trigger] groups@[g]),
            decreases entries@.len() - i,
        {
            proof {
                assert(entries@.take(i + 1).drop_last() =~= entries@.take(i as int));
                assert(entries@.take(i + 1).last() == entries@[i as int]);
            }
            let e = &entries[i];
            if e.proxy_type.is_group() {
                let mut members: Vec<ProxyItem> = Vec::new();
                let mut k: usize = 0;
                while k < e.all.len()
                    invariant
                        k <= e.all@.len(),
                        members@.len() == k,
                        forall|q: int| 0 <= q < k ==> resolves(entries@, e.all@[q]@, #[trigger] members@[q]),
                    decreases e.all@.len() - k,
                {
                    members.push(resolve(entries, &e.all[k]));
                    k = k + 1;
                }
                groups.push(ProxyGroup { name: e.name.clone(), group_type: e.proxy_type, members });
            }
            i = i + 1;
        }
        proof {
            assert(entries@.take(entries@.len() as int) =~= entries@);
        }
        ProxyTree::new(groups)
    }
}

} // verus!
