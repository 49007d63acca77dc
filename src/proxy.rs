//! Proxy groups as a tree that can be walked, sorted and tested.

use crate::list::{sat_sub, ListNavEvent};
use vstd::prelude::*;

verus! {

/// Kind of a proxy or proxy group, as the daemon reports it.
#[derive(Clone, Copy, Debug, PartialEq, Eq, Structural)]
pub enum ProxyType {
    Direct,
    Reject,
    Selector,
    URLTest,
    Fallback,
    LoadBalance,
    Relay,
    Shadowsocks,
    ShadowsocksR,
    Snell,
    Socks5,
    Http,
    Vmess,
    Trojan,
    Unknown,
}

impl ProxyType {
    pub open spec fn spec_is_normal(self) -> bool {
        matches!(self, ProxyType::Shadowsocks | ProxyType::ShadowsocksR | ProxyType::Snell | ProxyType::Socks5 | ProxyType::Http | ProxyType::Vmess | ProxyType::Trojan)
    }

    pub open spec fn spec_is_group(self) -> bool {
        matches!(self, ProxyType::Selector | ProxyType::URLTest | ProxyType::Fallback | ProxyType::LoadBalance | ProxyType::Relay)
    }

    /// A proxy that carries traffic itself: neither a group nor a built-in.
    #[verifier::when_used_as_spec(spec_is_normal)]
    pub fn is_normal(self) -> (r: bool)
        ensures
            r == self.spec_is_normal(),
    {
        match self {
            ProxyType::Shadowsocks | ProxyType::ShadowsocksR | ProxyType::Snell | ProxyType::Socks5
            | ProxyType::Http | ProxyType::Vmess | ProxyType::Trojan => true,
            _ => false,
        }
    }

    /// A group that holds other proxies.
    #[verifier::when_used_as_spec(spec_is_group)]
    pub fn is_group(self) -> (r: bool)
        ensures
            r == self.spec_is_group(),
    {
        match self {
            ProxyType::Selector | ProxyType::URLTest | ProxyType::Fallback | ProxyType::LoadBalance
            | ProxyType::Relay => true,
            _ => false,
        }
    }
}

/// One member of a group; `latency` is `None` until a test measured it.
#[derive(Clone, Debug)]
pub struct ProxyItem {
    pub name: String,
    pub proxy_type: ProxyType,
    pub latency: Option<u64>,
}

/// A named group and its members, in the order shown.
#[derive(Clone, Debug)]
pub struct ProxyGroup {
    pub name: String,
    pub group_type: ProxyType,
    pub members: Vec<ProxyItem>,
}

/// Order in which members of a group are shown.
#[derive(Clone, Copy, Debug, PartialEq, Eq, Structural)]
pub enum ProxySort {
    /// As the daemon declared them.
    Declared,
    /// By name.
    Name,
    /// Fastest first; untested last.
    Latency,
    /// Most matched by routing rules first.
    Frequency,
}

/// Whether a latency test is in flight.
#[derive(Clone, Copy, Debug, PartialEq, Eq, Structural)]
pub enum TestingState {
    Idle,
    Testing,
}

/// `a` comes strictly before `b` in lexicographic order of characters.
pub open spec fn lex_lt(a: Seq<char>, b: Seq<char>) -> bool
    decreases a.len(),
{
    if b.len() == 0 {
        false
    } else if a.len() == 0 {
        true
    } else if a[0] != b[0] {
        a[0] < b[0]
    } else {
        lex_lt(a.drop_first(), b.drop_first())
    }
}

pub proof fn lemma_lex_trans(a: Seq<char>, b: Seq<char>, c: Seq<char>)
    requires
        lex_lt(a, b),
        lex_lt(b, c),
    ensures
        lex_lt(a, c),
    decreases a.len(),
{
    if a.len() > 0 && b.len() > 0 && c.len() > 0 && a[0] == b[0] && b[0] == c[0] {
        lemma_lex_trans(a.drop_first(), b.drop_first(), c.drop_first());
    }
}

pub proof fn lemma_lex_total(a: Seq<char>, b: Seq<char>)
    requires
        !lex_lt(a, b),
        !lex_lt(b, a),
    ensures
        a == b,
    decreases a.len(),
{
    if a.len() > 0 && b.len() > 0 {
        assert(a[0] == b[0]);
        lemma_lex_total(a.drop_first(), b.drop_first());
        assert(a =~= seq![a[0]] + a.drop_first());
        assert(b =~= seq![b[0]] + b.drop_first());
    } else {
        assert(a =~= b);
    }
}

pub proof fn lemma_lex_irrefl(a: Seq<char>)
    ensures
        !lex_lt(a, a),
    decreases a.len(),
{
    if a.len() > 0 {
        lemma_lex_irrefl(a.drop_first());
    }
}

proof fn lemma_before_irrefl(mode: ProxySort, a: ProxyItem, freq: Seq<(Seq<char>, usize)>)
    ensures
        !before(mode, a, a, freq),
{
    lemma_lex_irrefl(a.name@);
}

/// Rule-match count of `name` in a frequency table (first entry wins; 0 when absent).
pub open spec fn freq_of(f: Seq<(Seq<char>, usize)>, name: Seq<char>) -> int
    decreases f.len(),
{
    if f.len() == 0 {
        0
    } else if f[0].0 == name {
        f[0].1 as int
    } else {
        freq_of(f.drop_first(), name)
    }
}

pub open spec fn freq_view(f: Seq<(String, usize)>) -> Seq<(Seq<char>, usize)> {
    f.map_values(|e: (String, usize)| (e.0@, e.1))
}

/// Rank of a member under an order given by an integer key.
pub open spec fn rank(mode: ProxySort, item: ProxyItem, freq: Seq<(Seq<char>, usize)>) -> int {
    match mode {
        ProxySort::Latency => match item.latency {
            Some(l) => l as int,
            None => u64::MAX as int + 1,
        },
        ProxySort::Frequency => -freq_of(freq, item.name@),
        _ => 0,
    }
}

/// `a` is shown strictly before `b` under `mode`.
pub open spec fn before(
    mode: ProxySort,
    a: ProxyItem,
    b: ProxyItem,
    freq: Seq<(Seq<char>, usize)>,
) -> bool {
    match mode {
        ProxySort::Name => lex_lt(a.name@, b.name@),
        _ => rank(mode, a, freq) < rank(mode, b, freq),
    }
}

/// Neither of `a` and `b` goes before the other.
pub open spec fn tied(mode: ProxySort, a: ProxyItem, b: ProxyItem, freq: Seq<(Seq<char>, usize)>) -> bool {
    !before(mode, a, b, freq) && !before(mode, b, a, freq)
}

proof fn lemma_before_trans(mode: ProxySort, a: ProxyItem, b: ProxyItem, c: ProxyItem, freq: Seq<(Seq<char>, usize)>)
    requires
        before(mode, a, b, freq),
        before(mode, b, c, freq),
    ensures
        before(mode, a, c, freq),
{
    if mode == ProxySort::Name {
        lemma_lex_trans(a.name@, b.name@, c.name@);
    }
}

/// Members that are tied go before the same members.
proof fn lemma_tied_subst(mode: ProxySort, a: ProxyItem, b: ProxyItem, r: ProxyItem, freq: Seq<(Seq<char>, usize)>)
    requires
        tied(mode, a, b, freq),
    ensures
        before(mode, r, a, freq) == before(mode, r, b, freq),
        before(mode, a, r, freq) == before(mode, b, r, freq),
{
    if mode == ProxySort::Name {
        lemma_lex_total(a.name@, b.name@);
    }
}

/// `order` lists the positions of `items` once each, so that no member is
/// shown after one it goes before, and tied members keep their relative order.
pub open spec fn is_sort_order(
    items: Seq<ProxyItem>,
    mode: ProxySort,
    freq: Seq<(Seq<char>, usize)>,
    order: Seq<usize>,
) -> bool {
    &&& order.len() == items.len()
    &&& forall|p: int| 0 <= p < order.len() ==> #[trigger] order[p] < items.len()
    &&& forall|p: int, q: int| 0 <= p < q < order.len() ==> #[trigger] order[p] != #[trigger] order[q]
    &&& forall|p: int, q: int|
        0 <= p < q < order.len() ==> !before(mode, #[trigger] items[order[q] as int], #[trigger] items[order[p] as int], freq)
    &&& forall|p: int, q: int|
        0 <= p < q < order.len() && tied(mode, items[order[p] as int], items[order[q] as int], freq)
            ==> #[trigger] order[p] < #[trigger] order[q]
}

/// Compares two members under `mode`.
pub fn goes_before(mode: ProxySort, a: &ProxyItem, b: &ProxyItem, freq: &Vec<(String, usize)>) -> (r: bool)
    ensures
        r == before(mode, *a, *b, freq_view(freq@)),
{
    match mode {
        ProxySort::Name => name_lt(&a.name, &b.name),
        ProxySort::Latency => match (a.latency, b.latency) {
            (Some(x), Some(y)) => x < y,
            (Some(_), None) => true,
            _ => false,
        },
        ProxySort::Frequency => frequency(freq, &a.name) > frequency(freq, &b.name),
        ProxySort::Declared => false,
    }
}

/// Relies on `Ord for str`: byte order of UTF-8, which is the order of the
/// characters' code points, compared lexicographically.
#[verifier::external_body]
fn name_lt(a: &String, b: &String) -> (r: bool)
    ensures
        r == lex_lt(a@, b@),
{
    a.as_str() < b.as_str()
}

/// Rule-match count of `name`, 0 when the table has no entry for it.
pub fn frequency(freq: &Vec<(String, usize)>, name: &String) -> (r: usize)
    ensures
        r == freq_of(freq_view(freq@), name@),
{
    let ghost fv = freq_view(freq@);
    let mut i: usize = 0;
    proof {
        assert(fv.skip(0) =~= fv);
    }
    while i < freq.len()
        invariant
            i <= freq@.len(),
            fv == freq_view(freq@),
            freq_of(fv, name@) == freq_of(fv.skip(i as int), name@),
        decreases freq@.len() - i,
    {
        proof {
            assert(fv.skip(i as int).drop_first() =~= fv.skip(i + 1));
        }
        if freq[i].0 == *name {
            return freq[i].1;
        }
        i = i + 1;
    }
    0
}

/// Positions of `items` in the order `mode` shows them: a stable sort.
pub fn sort_order(items: &Vec<ProxyItem>, mode: ProxySort, freq: &Vec<(String, usize)>) -> (r: Vec<usize>)
    ensures
        is_sort_order(items@, mode, freq_view(freq@), r@),
{
    let ghost f = freq_view(freq@);
    let ghost s = items@;
    let n = items.len();
    let mut rest: Vec<usize> = Vec::new();
    let mut i: usize = 0;
    while i < n
        invariant
            i <= n,
            n == s.len(),
            rest@.len() == i,
            forall|k: int| 0 <= k < i ==> #[trigger] rest@[k] == k,
        decreases n - i,
    {
        rest.push(i);
        i = i + 1;
    }
    let mut out: Vec<usize> = Vec::new();
    while rest.len() > 0
        invariant
            n == s.len(),
            s == items@,
            f == freq_view(freq@),
            out@.len() + rest@.len() == n,
            forall|p: int| 0 <= p < rest@.len() ==> #[trigger] rest@[p] < n,
            forall|p: int| 0 <= p < out@.len() ==> #[trigger] out@[p] < n,
            forall|p: int, q: int| 0 <= p < q < rest@.len() ==> #[trigger] rest@[p] < #[trigger] rest@[q],
            forall|p: int, q: int| 0 <= p < q < out@.len() ==> #[trigger] out@[p] != #[trigger] out@[q],
            forall|p: int, q: int|
                0 <= p < out@.len() && 0 <= q < rest@.len() ==> #[trigger] out@[p] != #[trigger] rest@[q],
            forall|p: int, q: int|
                0 <= p < out@.len() && 0 <= q < rest@.len() ==> !before(mode, s[#[trigger] rest@[q] as int], s[#[trigger] out@[p] as int], f),
            forall|p: int, q: int|
                0 <= p < out@.len() && 0 <= q < rest@.len() && tied(mode, s[out@[p] as int], s[rest@[q] as int], f)
                    ==> #[trigger] out@[p] < #[trigger] rest@[q],
            forall|p: int, q: int|
                0 <= p < q < out@.len() ==> !before(mode, s[#[trigger] out@[q] as int], s[#[trigger] out@[p] as int], f),
            forall|p: int, q: int|
                0 <= p < q < out@.len() && tied(mode, s[out@[p] as int], s[out@[q] as int], f)
                    ==> #[trigger] out@[p] < #[trigger] out@[q],
        decreases rest@.len(),
    {
        // A member that nothing left goes before.
        let mut best: usize = 0;
        let mut j: usize = 1;
        proof {
            lemma_before_irrefl(mode, s[rest@[0] as int], f);
        }
        while j < rest.len()
            invariant
                n == s.len(),
                s == items@,
                f == freq_view(freq@),
                rest@.len() > 0,
                forall|p: int| 0 <= p < rest@.len() ==> #[trigger] rest@[p] < n,
                best < rest@.len(),
                1 <= j <= rest@.len(),
                forall|p: int| 0 <= p < j ==> !before(mode, s[#[trigger] rest@[p] as int], s[rest@[best as int] as int], f),
            decreases rest@.len() - j,
        {
            if goes_before(mode, &items[rest[j]], &items[rest[best]], freq) {
                proof {
                    assert forall|p: int| 0 <= p < j implies !before(mode, s[#[trigger] rest@[p] as int], s[rest@[j as int] as int], f) by {
                        if before(mode, s[rest@[p] as int], s[rest@[j as int] as int], f) {
                            lemma_before_trans(mode, s[rest@[p] as int], s[rest@[j as int] as int], s[rest@[best as int] as int], f);
                        }
                    }
                    lemma_before_irrefl(mode, s[rest@[j as int] as int], f);
                }
                best = j;
            }
            j = j + 1;
        }
        // The first member tied with it: also minimal, and the earliest such.
        let mut pos: usize = 0;
        while !(!goes_before(mode, &items[rest[pos]], &items[rest[best]], freq)
            && !goes_before(mode, &items[rest[best]], &items[rest[pos]], freq))
            invariant
                n == s.len(),
                s == items@,
                f == freq_view(freq@),
                forall|p: int| 0 <= p < rest@.len() ==> #[trigger] rest@[p] < n,
                best < rest@.len(),
                pos <= best,
                forall|p: int| 0 <= p < rest@.len() ==> !before(mode, s[#[trigger] rest@[p] as int], s[rest@[best as int] as int], f),
                forall|p: int| 0 <= p < pos ==> before(mode, s[rest@[best as int] as int], s[#[trigger] rest@[p] as int], f),
            decreases best - pos,
        {
            pos = pos + 1;
        }
        let ghost old_rest = rest@;
        let ghost old_out = out@;
        let e = rest.remove(pos);
        proof {
            let eb = s[old_rest[best as int] as int];
            lemma_tied_subst(mode, s[e as int], eb, s[e as int], f);
            assert forall|q: int| 0 <= q < old_rest.len() implies !before(mode, s[#[trigger] old_rest[q] as int], s[e as int], f) by {
                lemma_tied_subst(mode, s[e as int], eb, s[old_rest[q] as int], f);
            }
            assert forall|q: int| 0 <= q < rest@.len() && tied(mode, s[e as int], s[rest@[q] as int], f) implies e < #[trigger] rest@[q] by {
                if q < pos {
                    assert(rest@[q] == old_rest[q]);
                    lemma_tied_subst(mode, s[e as int], s[rest@[q] as int], eb, f);
                    lemma_tied_subst(mode, s[e as int], eb, s[rest@[q] as int], f);
                } else {
                    assert(rest@[q] == old_rest[q + 1]);
                }
            }
            assert forall|q: int| 0 <= q < rest@.len() implies (#[trigger] rest@[q] == old_rest[q] && q < pos) || (rest@[q] == old_rest[q + 1] && q >= pos) by {}
        }
        out.push(e);
        proof {
            assert forall|p: int, q: int| 0 <= p < out@.len() && 0 <= q < rest@.len() implies #[trigger] out@[p] != #[trigger] rest@[q] by {
                if p < old_out.len() {
                    if q < pos { assert(rest@[q] == old_rest[q]); } else { assert(rest@[q] == old_rest[q + 1]); }
                } else {
                    if q < pos { assert(rest@[q] == old_rest[q]); } else { assert(rest@[q] == old_rest[q + 1]); }
                }
            }
            assert forall|p: int, q: int| 0 <= p < out@.len() && 0 <= q < rest@.len() implies !before(mode, s[#[trigger] rest@[q] as int], s[#[trigger] out@[p] as int], f) by {
                if q < pos { assert(rest@[q] == old_rest[q]); } else { assert(rest@[q] == old_rest[q + 1]); }
                if p < old_out.len() { assert(out@[p] == old_out[p]); }
            }
            assert forall|p: int, q: int| 0 <= p < out@.len() && 0 <= q < rest@.len() && tied(mode, s[out@[p] as int], s[rest@[q] as int], f) implies #[trigger] out@[p] < #[trigger] rest@[q] by {
                if q < pos { assert(rest@[q] == old_rest[q]); } else { assert(rest@[q] == old_rest[q + 1]); }
                if p < old_out.len() { assert(out@[p] == old_out[p]); }
            }
            assert forall|p: int, q: int| 0 <= p < q < out@.len() implies !before(mode, s[#[trigger] out@[q] as int], s[#[trigger] out@[p] as int], f) by {
                if q < old_out.len() { assert(out@[q] == old_out[q]); } else {
                    assert(out@[q] == old_rest[pos as int]);
                }
                assert(out@[p] == old_out[p]);
            }
            assert forall|p: int, q: int| 0 <= p < q < out@.len() && tied(mode, s[out@[p] as int], s[out@[q] as int], f) implies #[trigger] out@[p] < #[trigger] out@[q] by {
                if q < old_out.len() { assert(out@[q] == old_out[q]); } else {
                    assert(out@[q] == old_rest[pos as int]);
                }
                assert(out@[p] == old_out[p]);
            }
        }
    }
    out
}

/// Under the latency order, untested members come after every measured one,
/// and members with the same latency keep their relative order.
pub proof fn lemma_latency_order(items: Seq<ProxyItem>, freq: Seq<(Seq<char>, usize)>, order: Seq<usize>)
    requires
        is_sort_order(items, ProxySort::Latency, freq, order),
    ensures
        forall|p: int, q: int|
            0 <= p < q < order.len() && (#[trigger] items[order[p] as int]).latency is None
                ==> (#[trigger] items[order[q] as int]).latency is None,
        forall|p: int, q: int|
            0 <= p < q < order.len() && (#[trigger] items[order[p] as int]).latency == (#[trigger] items[order[q] as int]).latency
                ==> order[p] < order[q],
{
    assert forall|p: int, q: int|
        0 <= p < q < order.len() && (#[trigger] items[order[p] as int]).latency is None
            implies (#[trigger] items[order[q] as int]).latency is None by {
        assert(!before(ProxySort::Latency, items[order[q] as int], items[order[p] as int], freq));
    }
    assert forall|p: int, q: int|
        0 <= p < q < order.len() && (#[trigger] items[order[p] as int]).latency == (#[trigger] items[order[q] as int]).latency
            implies order[p] < order[q] by {
        assert(tied(ProxySort::Latency, items[order[p] as int], items[order[q] as int], freq));
    }
}

/// `b` is the group `a` with its members shown in the order `mode` gives.
pub open spec fn sorted_group(a: ProxyGroup, b: ProxyGroup, mode: ProxySort, freq: Seq<(Seq<char>, usize)>) -> bool {
    &&& b.name == a.name
    &&& b.group_type == a.group_type
    &&& exists|order: Seq<usize>| is_sort_order(a.members@, mode, freq, order)
        && b.members@.len() == order.len()
        && forall|p: int| 0 <= p < order.len() ==> #[trigger] b.members@[p] == a.members@[order[p] as int]
}

/// A copy of a member.
pub fn copy_item(x: &ProxyItem) -> (r: ProxyItem)
    ensures
        r == *x,
{
    ProxyItem { name: x.name.clone(), proxy_type: x.proxy_type, latency: x.latency }
}

/// Groups, the group being shown, and the state of sorting and testing.
#[derive(Clone, Debug)]
pub struct ProxyTree {
    pub groups: Vec<ProxyGroup>,
    /// Index of the group being shown.
    pub current: usize,
    /// Index of the selected member of that group.
    pub cursor: usize,
    /// Groups drilled through to reach the current one, outermost first.
    pub trail: Vec<usize>,
    /// When set, the cursor does not move.
    pub hold: bool,
    pub sort_mode: ProxySort,
    pub testing: TestingState,
}

/// The names of the members that a latency test covers.
pub open spec fn normal_names(members: Seq<ProxyItem>) -> Seq<Seq<char>>
    decreases members.len(),
{
    if members.len() == 0 {
        Seq::empty()
    } else {
        let rest = normal_names(members.drop_last());
        if members.last().proxy_type.spec_is_normal() {
            rest.push(members.last().name@)
        } else {
            rest
        }
    }
}

/// The tree `t` after the navigation key `event` on `s`.
pub open spec fn tree_nav(s: ProxyTree, t: ProxyTree, event: ListNavEvent) -> bool {
    &&& (t.groups == s.groups)
    &&& (t.hold == s.hold)
    &&& (t.sort_mode == s.sort_mode)
    &&& (t.testing == s.testing)
    &&& (s.hold ==> t == s)
    &&& (!s.hold && event == ListNavEvent::Up ==> t.cursor == sat_sub(s.cursor as int, 1)
                && t.current == s.current && t.trail == s.trail)
    &&& (!s.hold && event == ListNavEvent::Down ==> t.current == s.current && t.trail == s.trail
                && t.cursor == (if s.cursor + 1 < s.shown_members().len() { s.cursor + 1 } else { s.cursor as int }))
    &&& (!s.hold && (event == ListNavEvent::Back || event == ListNavEvent::Left) ==> (
                if s.trail@.len() > 0 {
                    t.current == s.trail@.last() && t.trail@ == s.trail@.drop_last()
                        && t.cursor == 0
                } else {
                    t == s
                }))
    &&& (!s.hold && (event == ListNavEvent::Enter || event == ListNavEvent::Right) ==> (
                if s.cursor < s.shown_members().len() && exists|k: int| 0 <= k < s.groups@.len()
                    && (#[trigger] s.groups@[k]).name@ == s.shown_members()[s.cursor as int].name@ {
                    t.groups@[t.current as int].name@ == s.shown_members()[s.cursor as int].name@
                        && (forall|j: int| 0 <= j < t.current ==> (#[trigger] t.groups@[j]).name@ != s.shown_members()[s.cursor as int].name@)
                        && t.trail@ == s.trail@.push(s.current) && t.cursor == 0
                } else {
                    t == s
                }))
}

impl ProxyTree {
    pub open spec fn wf(&self) -> bool {
        &&& (self.groups@.len() == 0 ==> self.current == 0)
        &&& (self.groups@.len() > 0 ==> self.current < self.groups@.len())
        &&& forall|k: int| 0 <= k < self.trail@.len() ==> #[trigger] self.trail@[k] < self.groups@.len()
    }

    /// Members of the group being shown, none when there are no groups.
    pub open spec fn shown_members(&self) -> Seq<ProxyItem> {
        if self.current < self.groups@.len() {
            self.groups@[self.current as int].members@
        } else {
            Seq::empty()
        }
    }

    /// A tree over `groups`, showing the first, idle and in declared order.
    pub fn new(groups: Vec<ProxyGroup>) -> (r: ProxyTree)
        ensures
            r.wf(),
            r.groups@ == groups@,
            r.current == 0,
            r.cursor == 0,
            r.trail@.len() == 0,
            !r.hold,
            r.sort_mode == ProxySort::Declared,
            r.testing == TestingState::Idle,
    {
        ProxyTree {
            groups,
            current: 0,
            cursor: 0,
            trail: Vec::new(),
            hold: false,
            sort_mode: ProxySort::Declared,
            testing: TestingState::Idle,
        }
    }

    pub fn is_testing(&self) -> (r: bool)
        ensures
            r == (self.testing == TestingState::Testing),
    {
        self.testing == TestingState::Testing
    }

    /// Marks a test as in flight; nothing changes when one already is.
    pub fn start_testing(&mut self)
        ensures
            final(self).testing == TestingState::Testing,
            final(self).groups == old(self).groups,
            final(self).current == old(self).current,
            final(self).cursor == old(self).cursor,
            final(self).trail == old(self).trail,
            final(self).hold == old(self).hold,
            final(self).sort_mode == old(self).sort_mode,
    {
        self.testing = TestingState::Testing;
    }

    /// Marks the test in flight as done.
    pub fn end_testing(&mut self)
        ensures
            final(self).testing == TestingState::Idle,
            final(self).groups == old(self).groups,
            final(self).current == old(self).current,
            final(self).cursor == old(self).cursor,
            final(self).trail == old(self).trail,
            final(self).hold == old(self).hold,
            final(self).sort_mode == old(self).sort_mode,
    {
        self.testing = TestingState::Idle;
    }

    /// Flips the hold flag.
    pub fn toggle(&mut self)
        ensures
            *final(self) == (ProxyTree { hold: !old(self).hold, ..*old(self) }),
    {
        self.hold = !self.hold;
    }

    /// Releases the hold and selects the first member.
    pub fn end(&mut self)
        ensures
            *final(self) == (ProxyTree { hold: false, cursor: 0, ..*old(self) }),
    {
        self.hold = false;
        self.cursor = 0;
    }

    /// Sets the order in which members are shown; `sort_with_frequency` applies it.
    pub fn set_sort(&mut self, mode: ProxySort)
        ensures
            *final(self) == (ProxyTree { sort_mode: mode, ..*old(self) }),
    {
        self.sort_mode = mode;
    }

    /// Index of the group named `name`, if any.
    pub fn find_group(&self, name: &String) -> (r: Option<usize>)
        ensures
            match r {
                Some(k) => k < self.groups@.len() && self.groups@[k as int].name@ == name@
                    && forall|j: int| 0 <= j < k ==> (#[trigger] self.groups@[j]).name@ != name@,
                None => forall|j: int| 0 <= j < self.groups@.len() ==> (#[trigger] self.groups@[j]).name@ != name@,
            },
    {
        let mut i: usize = 0;
        while i < self.groups.len()
            invariant
                i <= self.groups@.len(),
                forall|j: int| 0 <= j < i ==> (#[trigger] self.groups@[j]).name@ != name@,
            decreases self.groups@.len() - i,
        {
            if self.groups[i].name == *name {
                return Some(i);
            }
            i = i + 1;
        }
        None
    }

    /// Moves through the tree: up and down among the members of the shown
    /// group, into the selected member when it is a group, and back out.
    /// Nothing moves while the tree is held.
    pub fn handle(&mut self, event: ListNavEvent)
        requires
            old(self).wf(),
        ensures
            final(self).wf(),
            tree_nav(*old(self), *final(self), event),
    {
        if self.hold {
            return;
        }
        match event {
            ListNavEvent::Up => {
                self.cursor = self.cursor.saturating_sub(1);
            },
            ListNavEvent::Down => {
                if self.current < self.groups.len() {
                    let n = self.groups[self.current].members.len();
                    if self.cursor < n && self.cursor + 1 < n {
                        self.cursor = self.cursor + 1;
                    }
                }
            },
            ListNavEvent::Back | ListNavEvent::Left => {
                if self.trail.len() > 0 {
                    let k = self.trail.pop().unwrap();
                    self.current = k;
                    self.cursor = 0;
                }
            },
            ListNavEvent::Enter | ListNavEvent::Right => {
                if self.current < self.groups.len() && self.cursor < self.groups[self.current].members.len() {
                    let name = self.groups[self.current].members[self.cursor].name.clone();
                    match self.find_group(&name) {
                        Some(k) => {
                            self.trail.push(self.current);
                            self.current = k;
                            self.cursor = 0;
                        },
                        None => {},
                    }
                }
            },
        }
    }

    /// Names of the normal proxies in the group being shown, in order.
    pub fn normal_proxy_names(&self) -> (r: Vec<String>)
        ensures
            r@.map_values(|s: String| s@) == normal_names(self.shown_members()),
    {
        let mut out: Vec<String> = Vec::new();
        if self.current < self.groups.len() {
            let members = &self.groups[self.current].members;
            let mut i: usize = 0;
            while i < members.len()
                invariant
                    i <= members@.len(),
                    members@ == self.shown_members(),
                    out@.map_values(|s: String| s@) == normal_names(members@.take(i as int)),
                decreases members@.len() - i,
            {
                proof {
                    assert(members@.take(i + 1).drop_last() =~= members@.take(i as int));
                }
                if members[i].proxy_type.is_normal() {
                    out.push(members[i].name.clone());
                    proof {
                        assert(out@.map_values(|s: String| s@) =~= normal_names(members@.take(i as int)).push(members@[i as int].name@));
                    }
                }
                i = i + 1;
            }
            proof {
                assert(members@.take(members@.len() as int) =~= members@);
            }
        } else {
            proof {
                assert(out@.map_values(|s: String| s@) =~= Seq::<Seq<char>>::empty());
            }
        }
        out
    }

    /// Shows the members of every group in the tree's sort order, counting
    /// rule matches in `freq`.
    pub fn sort_with_frequency(&mut self, freq: &Vec<(String, usize)>)
        requires
            old(self).wf(),
        ensures
            final(self).wf(),
            final(self).current == old(self).current,
            final(self).cursor == old(self).cursor,
            final(self).trail == old(self).trail,
            final(self).hold == old(self).hold,
            final(self).sort_mode == old(self).sort_mode,
            final(self).testing == old(self).testing,
            final(self).groups@.len() == old(self).groups@.len(),
            forall|g: int| 0 <= g < final(self).groups@.len() ==> sorted_group(
                #[trigger] old(self).groups@[g],
                final(self).groups@[g],
                old(self).sort_mode,
                freq_view(freq@),
            ),
    {
        let mode = self.sort_mode;
        let n = self.groups.len();
        let ghost old_groups = self.groups@;
        let mut sorted: Vec<ProxyGroup> = Vec::new();
        let mut g: usize = 0;
        while g < n
            invariant
                n == old_groups.len(),
                old_groups == self.groups@,
                mode == self.sort_mode,
                g <= n,
                sorted@.len() == g,
                forall|h: int| 0 <= h < g ==> {
                    let a = #[trigger] old_groups[h];
                    let b = sorted@[h];
                    &&& b.name == a.name
                    &&& b.group_type == a.group_type
                    &&& exists|order: Seq<usize>| is_sort_order(a.members@, mode, freq_view(freq@), order)
                        && b.members@.len() == order.len()
                        && forall|p: int| 0 <= p < order.len() ==> #[trigger] b.members@[p] == a.members@[order[p] as int]
                },
            decreases n - g,
        {
            let group = &self.groups[g];
            let order = sort_order(&group.members, mode, freq);
            let mut members: Vec<ProxyItem> = Vec::new();
            let mut p: usize = 0;
            while p < order.len()
                invariant
                    is_sort_order(group.members@, mode, freq_view(freq@), order@),
                    p <= order@.len(),
                    members@.len() == p,
                    forall|q: int| 0 <= q < p ==> #[trigger] members@[q] == group.members@[order@[q] as int],
                decreases order@.len() - p,
            {
                members.push(copy_item(&group.members[order[p]]));
                p = p + 1;
            }
            sorted.push(ProxyGroup { name: group.name.clone(), group_type: group.group_type, members });
            proof {
                assert(is_sort_order(old_groups[g as int].members@, mode, freq_view(freq@), order@));
            }
            g = g + 1;
        }
        self.groups = sorted;
    }

    /// Swaps in the groups of `fresh`, keeping this tree's sort order, test
    /// state and hold flag. The shown group and the trail are kept while their
    /// indices still name groups; otherwise the first group is shown.
    pub fn replace_with(&mut self, fresh: ProxyTree)
        requires
            old(self).wf(),
        ensures
            final(self).wf(),
            final(self).groups@ == fresh.groups@,
            final(self).sort_mode == old(self).sort_mode,
            final(self).testing == old(self).testing,
            final(self).hold == old(self).hold,
            (old(self).current < fresh.groups@.len() && forall|k: int| 0 <= k < old(self).trail@.len() ==> #[trigger] old(self).trail@[k] < fresh.groups@.len())
                ==> final(self).current == old(self).current && final(self).trail == old(self).trail && final(self).cursor == old(self).cursor,
            !(old(self).current < fresh.groups@.len() && forall|k: int| 0 <= k < old(self).trail@.len() ==> #[trigger] old(self).trail@[k] < fresh.groups@.len())
                ==> final(self).current == 0 && final(self).trail@.len() == 0 && final(self).cursor == 0,
    {
        let len = fresh.groups.len();
        let mut keep = self.current < len;
        let mut k: usize = 0;
        while k < self.trail.len()
            invariant
                k <= self.trail@.len(),
                keep ==> self.current < len,
                keep == (self.current < len && forall|j: int| 0 <= j < k ==> #[trigger] self.trail@[j] < len),
            decreases self.trail@.len() - k,
        {
            if self.trail[k] >= len {
                keep = false;
            }
            k = k + 1;
        }
        self.groups = fresh.groups;
        if !keep {
            self.current = 0;
            self.cursor = 0;
            self.trail = Vec::new();
        }
    }
}

} // verus!
