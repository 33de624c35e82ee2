use kiro_gateway::http_client::ProxyConfig;
use kiro_gateway::kiro::client_cache::{ClientCache, CLIENT_CACHE_CAP};
use kiro_gateway::kiro::error::CallError;
use kiro_gateway::kiro::proxy::{
    candidates_from, global_proxy_candidates, proxies_among, proxy_candidates_for, same_candidate,
    ProxyAction, ProxyEvent, ProxyStep, ProxyTries,
};

fn proxy(n: u32) -> ProxyConfig {
    ProxyConfig::new(&format!("http://p{}:1", n))
}

fn other(t: &str) -> CallError {
    CallError::Other(t.to_string())
}

#[test]
fn the_global_setting_is_split() {
    let setting = ProxyConfig::new("http://a:1, ftp://b, direct socks5://c:2").with_auth("u", "p");
    assert_eq!(
        global_proxy_candidates(Some(&setting)),
        vec![
            Some(ProxyConfig::new("http://a:1").with_auth("u", "p")),
            None,
            Some(ProxyConfig::new("socks5://c:2").with_auth("u", "p")),
        ]
    );
    assert_eq!(global_proxy_candidates(None), vec![None]);
    assert_eq!(global_proxy_candidates(Some(&ProxyConfig::new(" "))), vec![None]);
}

#[test]
fn a_direct_connection_is_the_last_resort() {
    let list = proxies_among(vec![Some(proxy(1)), None, Some(proxy(2)), Some(proxy(3))]);
    assert_eq!(list, vec![proxy(1), proxy(2), proxy(3)]);
    assert_eq!(
        candidates_from(list.clone(), 2),
        vec![Some(proxy(3)), Some(proxy(1)), Some(proxy(2)), None]
    );
    assert_eq!(
        proxy_candidates_for(list.clone(), true),
        vec![Some(proxy(1)), Some(proxy(2)), Some(proxy(3)), None]
    );
    assert_eq!(proxy_candidates_for(Vec::new(), false), vec![None]);
    let mut first: Vec<Option<ProxyConfig>> = Vec::new();
    for _ in 0..200 {
        let got = proxy_candidates_for(list.clone(), false);
        assert_eq!(got.len(), 4);
        assert_eq!(got[3], None);
        for p in &list {
            assert_eq!(got.iter().filter(|c| **c == Some(p.clone())).count(), 1);
        }
        if !first.contains(&got[0]) {
            first.push(got[0].clone());
        }
    }
    assert_eq!(first.len(), 3);
}

#[test]
fn failures_move_on_to_the_next_candidate() {
    let mut tries = ProxyTries::new(vec![Some(proxy(1)), Some(proxy(2)), None]).unwrap();
    assert_eq!(tries.current(), Some(&proxy(1)));
    assert_eq!(
        tries.step(ProxyEvent::Failed(other("x"))),
        ProxyStep { report: Some(false), action: ProxyAction::Next }
    );
    assert_eq!(
        tries.step(ProxyEvent::Answered { status: 407 }),
        ProxyStep { report: Some(false), action: ProxyAction::Next }
    );
    assert_eq!(tries.current(), None);
    assert_eq!(
        tries.step(ProxyEvent::Answered { status: 503 }),
        ProxyStep { report: None, action: ProxyAction::Accept }
    );
    assert_eq!(
        tries.step(ProxyEvent::Failed(other("y"))),
        ProxyStep { report: None, action: ProxyAction::Fail(other("y")) }
    );
}

#[test]
fn other_answers_stand() {
    let mut tries = ProxyTries::new(vec![Some(proxy(1)), None]).unwrap();
    assert_eq!(
        tries.step(ProxyEvent::Answered { status: 429 }),
        ProxyStep { report: Some(true), action: ProxyAction::Accept }
    );
    assert_eq!(
        tries.step(ProxyEvent::Aborted(other("z"))),
        ProxyStep { report: None, action: ProxyAction::Fail(other("z")) }
    );
    assert_eq!(ProxyTries::new(Vec::new()).unwrap_err(), "没有可用代理候选");
}

#[test]
fn the_oldest_client_gives_way() {
    let mut cache = ClientCache::new(Some(proxy(0)), 0u32, 2);
    cache.insert(Some(proxy(1)), 1);
    cache.insert(None, 2);
    assert_eq!(cache.get(&Some(proxy(1))), Some(&1));
    cache.insert(Some(proxy(3)), 3);
    assert_eq!(cache.get(&Some(proxy(1))), None);
    assert_eq!(cache.get(&None), Some(&2));
    assert_eq!(cache.get(&Some(proxy(3))), Some(&3));
    assert_eq!(cache.get(&Some(proxy(0))), Some(&0));
    cache.insert(None, 22);
    assert_eq!(cache.get(&None), Some(&22));
    cache.insert(Some(proxy(0)), 10);
    assert_eq!(cache.get(&Some(proxy(0))), Some(&10));
    assert_eq!(CLIENT_CACHE_CAP, 64);
}

#[test]
fn candidates_are_told_apart_by_address_and_account() {
    let plain = Some(proxy(1));
    let account = Some(proxy(1).with_auth("u", "p"));
    assert!(same_candidate(&plain, &Some(proxy(1))));
    assert!(!same_candidate(&plain, &account));
    assert!(!same_candidate(&plain, &None));
    assert!(same_candidate(&None, &None));
}
