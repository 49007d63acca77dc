use clashctl::list::ListNavEvent;
use clashctl::model::{rule_frequency, ProxyEntry, ProxySnapshot, Rule, RuleType};
use clashctl::proxy::{sort_order, ProxyGroup, ProxyItem, ProxySort, ProxyTree, ProxyType, TestingState};

fn item(name: &str, latency: Option<u64>) -> ProxyItem {
    ProxyItem { name: name.to_string(), proxy_type: ProxyType::Vmess, latency }
}

fn names(items: &[ProxyItem], order: &[usize]) -> Vec<String> {
    order.iter().map(|&i| items[i].name.clone()).collect()
}

#[test]
fn latency_sort_puts_untested_last_and_is_stable() {
    let items = vec![
        item("a", None),
        item("b", Some(30)),
        item("c", Some(10)),
        item("d", None),
        item("e", Some(30)),
        item("f", Some(10)),
    ];
    let order = sort_order(&items, ProxySort::Latency, &vec![]);
    assert_eq!(names(&items, &order), vec!["c", "f", "b", "e", "a", "d"]);
}

#[test]
fn name_sort_orders_by_characters() {
    let items = vec![item("beta", None), item("Alpha", None), item("alpha", None), item("al", None)];
    let order = sort_order(&items, ProxySort::Name, &vec![]);
    assert_eq!(names(&items, &order), vec!["Alpha", "al", "alpha", "beta"]);
}

#[test]
fn frequency_sort_puts_most_matched_first() {
    let items = vec![item("x", None), item("y", None), item("z", None)];
    let freq = vec![("z".to_string(), 5), ("y".to_string(), 2)];
    let order = sort_order(&items, ProxySort::Frequency, &freq);
    assert_eq!(names(&items, &order), vec!["z", "y", "x"]);
    let order = sort_order(&items, ProxySort::Declared, &freq);
    assert_eq!(order, vec![0, 1, 2]);
}

fn rule(proxy: &str) -> Rule {
    Rule { rule_type: RuleType::Domain, payload: "example.com".to_string(), proxy: proxy.to_string() }
}

#[test]
fn rule_frequency_counts_each_proxy() {
    let rules = vec![rule("a"), rule("b"), rule("a"), rule("a")];
    let freq = rule_frequency(&rules);
    assert_eq!(freq, vec![("a".to_string(), 3), ("b".to_string(), 1)]);
}

fn entry(name: &str, t: ProxyType, all: &[&str], latency: Option<u64>) -> ProxyEntry {
    ProxyEntry { name: name.to_string(), proxy_type: t, all: all.iter().map(|s| s.to_string()).collect(), latency }
}

fn snapshot() -> ProxySnapshot {
    ProxySnapshot {
        proxies: vec![
            entry("GLOBAL", ProxyType::Selector, &["DIRECT", "auto", "hk"], None),
            entry("DIRECT", ProxyType::Direct, &[], None),
            entry("auto", ProxyType::URLTest, &["hk", "jp"], None),
            entry("hk", ProxyType::Shadowsocks, &[], Some(80)),
            entry("jp", ProxyType::Vmess, &[], None),
        ],
    }
}

#[test]
fn snapshot_builds_groups_with_resolved_members() {
    let tree = snapshot().to_tree();
    assert_eq!(tree.groups.len(), 2);
    assert_eq!(tree.groups[0].name, "GLOBAL");
    assert_eq!(tree.groups[1].name, "auto");
    let m = &tree.groups[0].members;
    assert_eq!(m[0].proxy_type, ProxyType::Direct);
    assert_eq!(m[2].latency, Some(80));
    assert_eq!(tree.normal_proxy_names(), vec!["hk".to_string()]);
}

#[test]
fn drilling_in_and_out_of_groups() {
    let mut tree = snapshot().to_tree();
    tree.handle(ListNavEvent::Down);
    assert_eq!(tree.cursor, 1);
    tree.handle(ListNavEvent::Enter);
    assert_eq!(tree.current, 1);
    assert_eq!(tree.cursor, 0);
    assert_eq!(tree.normal_proxy_names(), vec!["hk".to_string(), "jp".to_string()]);
    tree.handle(ListNavEvent::Back);
    assert_eq!(tree.current, 0);
    tree.toggle();
    tree.handle(ListNavEvent::Down);
    assert_eq!(tree.cursor, 0);
    tree.end();
    assert!(!tree.hold);
}

#[test]
fn testing_state_survives_replace() {
    let mut tree = snapshot().to_tree();
    tree.set_sort(ProxySort::Latency);
    tree.start_testing();
    tree.start_testing();
    assert!(tree.is_testing());
    tree.replace_with(ProxyTree::new(vec![ProxyGroup {
        name: "g".to_string(),
        group_type: ProxyType::Selector,
        members: vec![],
    }]));
    assert_eq!(tree.testing, TestingState::Testing);
    assert_eq!(tree.sort_mode, ProxySort::Latency);
    assert_eq!(tree.groups.len(), 1);
    tree.end_testing();
    assert!(!tree.is_testing());
}

#[test]
fn sort_with_frequency_sorts_every_group() {
    let mut tree = snapshot().to_tree();
    tree.set_sort(ProxySort::Latency);
    tree.sort_with_frequency(&vec![]);
    let m: Vec<String> = tree.groups[0].members.iter().map(|i| i.name.clone()).collect();
    assert_eq!(m, vec!["hk", "DIRECT", "auto"]);
}
