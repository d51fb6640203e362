use fusion_executor::guard::{
    CheckStage, GuardAction, GuardClient, GuardError, GuardPing, GuardRule, GuardVerdict, RiskLevel, RpcError, RpcReply, RuleScope, RuleSet,
    RulesCache,
};
use fusion_executor::json::Json;

fn sample_ruleset(epoch: u64) -> RuleSet {
    RuleSet {
        epoch,
        rules: vec![GuardRule {
            name: "rm-rf".into(),
            pattern: r"rm\s+-rf?\s+(/|~|\*)".into(),
            stage: CheckStage::Regex,
            action: GuardAction::Block,
            risk_level: RiskLevel::L4,
            reason: "destructive rm -rf".into(),
            scope: RuleScope::Command,
        }],
    }
}

fn rule(name: &str, pattern: &str, action: GuardAction, level: RiskLevel, scope: RuleScope) -> GuardRule {
    GuardRule {
        name: name.to_string(),
        pattern: pattern.to_string(),
        stage: CheckStage::Regex,
        action,
        risk_level: level,
        reason: format!("because of {}", name),
        scope,
    }
}

#[test]
fn high_risk_judgment() {
    let mk = |action: GuardAction, rl: RiskLevel| GuardVerdict {
        action,
        risk_level: rl,
        reason: String::new(),
        stage: CheckStage::Regex,
        requires_approval: false,
        redacted_content: None,
        seatbelt_required: false,
        action_id: None,
        verdict_epoch: 0,
        verdict_ttl_secs: 0,
        inferred_category: String::new(),
        category_hint: None,
    };
    assert!(mk(GuardAction::Allow, RiskLevel::L4).high_risk());
    assert!(mk(GuardAction::Block, RiskLevel::L1).high_risk());
    assert!(mk(GuardAction::Preview, RiskLevel::L3).high_risk());
    assert!(!mk(GuardAction::Allow, RiskLevel::L1).high_risk());
    assert!(!mk(GuardAction::Preview, RiskLevel::L2).high_risk());
}

#[test]
fn rules_cache_refresh_and_epoch() {
    let mut cache = RulesCache::new("/tmp/rules.json".to_string(), None);
    assert_eq!(cache.epoch(), 0, "cold start epoch 0");
    assert!(cache.is_empty());
    cache.refresh(&sample_ruleset(42));
    assert_eq!(cache.epoch(), 42);
    assert!(!cache.is_empty());
    let cache2 = RulesCache::new("/tmp/rules.json".to_string(), Some(sample_ruleset(42)));
    assert_eq!(cache2.epoch(), 42, "disk reload epoch");
    assert!(!cache2.is_empty());
    assert_eq!(cache2.path(), "/tmp/rules.json");
}

#[test]
fn run_cached_rules_hit_block() {
    let mut cache = RulesCache::new("p".to_string(), None);
    cache.refresh(&sample_ruleset(1));
    let v = cache.run_cached_rules("rm -rf /").expect("destructive match");
    assert_eq!(v.action, GuardAction::Block);
    assert_eq!(v.risk_level, RiskLevel::L4);
    assert!(v.seatbelt_required);
}

#[test]
fn run_cached_rules_miss() {
    let mut cache = RulesCache::new("p".to_string(), None);
    cache.refresh(&sample_ruleset(1));
    assert!(cache.run_cached_rules("echo hello").is_none());
}

#[test]
fn run_cached_rules_empty_no_panic() {
    let cache = RulesCache::new("p".to_string(), None);
    assert!(cache.is_empty());
    assert!(cache.run_cached_rules("rm -rf /").is_none(), "empty cache no false block");
}

#[test]
fn map_error_codes() {
    let cases: [(i32, &str); 4] = [(-32001, "unauthorized"), (-32002, "rate"), (-32003, "stale"), (-32010, "engine")];
    for (code, label) in cases {
        let err = GuardClient::map_error(RpcError { code, message: label.into() });
        let ok = matches!(
            (code, &err),
            (-32001, GuardError::Unauthorized(_))
                | (-32002, GuardError::RateLimited)
                | (-32003, GuardError::StaleEpoch { .. })
                | (-32010, GuardError::Engine(_))
        );
        assert!(ok, "code {code} -> wrong variant {err:?}");
    }
}

#[test]
fn other_error_codes_are_bad_responses() {
    let err = GuardClient::map_error(RpcError { code: -7, message: "odd".into() });
    match err {
        GuardError::BadResponse(m) => assert_eq!(m, "code -7: odd"),
        other => panic!("{other:?}"),
    }
}

#[test]
fn levels_and_actions_are_ranked() {
    assert_eq!(RiskLevel::L1.rank(), 0);
    assert_eq!(RiskLevel::L4.rank(), 3);
    assert!(RiskLevel::L1 < RiskLevel::L2);
    assert!(RiskLevel::L3 < RiskLevel::L4);
    assert!(GuardAction::Allow.severity() < GuardAction::Block.severity());
    assert!(GuardAction::Block.is_block());
    assert!(!GuardAction::Preview.is_block());
}

#[test]
fn requests_are_numbered_and_carry_the_tenant() {
    let mut c = GuardClient::new("/run/guard.sock".to_string(), "acme".to_string());
    assert_eq!(c.sock(), "/run/guard.sock");
    assert_eq!(c.tenant(), "acme");
    let (first, line) = c.ping();
    assert_eq!(line.unwrap(), format!("{{\"jsonrpc\":\"2.0\",\"id\":{first},\"method\":\"guard.ping\",\"params\":[]}}\n"));
    let (second, line) = c.evaluate("ls \"a\"", 3, "agent", "execute", "command", None);
    assert_eq!(second, first + 1);
    assert_eq!(
        line.unwrap(),
        format!(
            "{{\"jsonrpc\":\"2.0\",\"id\":{second},\"method\":\"guard.evaluate\",\"params\":[\"ls \\\"a\\\"\",3,\"acme\",\"agent\",\"execute\",\"command\"]}}\n"
        )
    );
    let (third, line) = c.rules_dump(9);
    assert_eq!(line.unwrap(), format!("{{\"jsonrpc\":\"2.0\",\"id\":{third},\"method\":\"guard.rules.dump\",\"params\":[9]}}\n"));
}

#[test]
fn replies_are_matched_with_their_requests() {
    let ok = GuardClient::settle(5, RpcReply { id: Some(5), result: Some(Json::Bool(true)), error: None });
    assert!(matches!(ok, Ok(Json::Bool(true))));
    let other = GuardClient::settle(5, RpcReply { id: Some(6), result: Some(Json::Bool(true)), error: None });
    match other {
        Err(GuardError::BadResponse(m)) => assert_eq!(m, "id mismatch: sent 5, got 6"),
        _ => panic!("a reply to another request is refused"),
    }
    let none = GuardClient::settle(5, RpcReply { id: None, result: None, error: None });
    match none {
        Err(GuardError::BadResponse(m)) => assert_eq!(m, "missing result"),
        _ => panic!("a reply without a result is refused"),
    }
}

#[test]
fn ping_without_pong_is_refused() {
    let bad = GuardClient::ping_answer(GuardPing { pong: false, version: "1".into(), rules_epoch: 0 });
    assert!(matches!(bad, Err(GuardError::BadResponse(_))));
    let good = GuardClient::ping_answer(GuardPing { pong: true, version: "1".into(), rules_epoch: 4 });
    assert_eq!(good.unwrap().rules_epoch, 4);
}

#[test]
fn reply_lines_have_a_limit() {
    assert!(GuardClient::reply_line(Vec::new()).is_err());
    assert_eq!(GuardClient::reply_line(b"{}".to_vec()).unwrap(), b"{}".to_vec());
}

#[test]
fn rules_that_do_not_compile_are_passed_over() {
    let mut cache = RulesCache::new("p".to_string(), None);
    cache.refresh(&RuleSet {
        epoch: 2,
        rules: vec![
            rule("broken", "(", GuardAction::Block, RiskLevel::L4, RuleScope::Command),
            rule("curl", "curl", GuardAction::Block, RiskLevel::L3, RuleScope::Command),
        ],
    });
    let v = cache.run_cached_rules("curl http://x").unwrap();
    assert_eq!(v.action, GuardAction::Block);
    assert_eq!(v.risk_level, RiskLevel::L3);
    assert_eq!(v.verdict_epoch, 2);
    assert!(cache.run_cached_rules("ls").is_none());
}

#[test]
fn errors_have_sentences() {
    let e = GuardError::Unauthorized("who".to_string());
    assert!(e.sentence().contains("who"));
}

#[test]
fn guard_client_connect_fail_unavailable() {
    let c = GuardClient::new("/tmp/fe-guard-nope-0.sock".to_string(), "tenant".to_string());
    let rt = tokio::runtime::Builder::new_current_thread().enable_all().build().unwrap();
    let failed = rt.block_on(async { tokio::net::UnixStream::connect(c.sock()).await.map(|_| ()).map_err(|e| e.to_string()) });
    let err = GuardClient::unreachable("connect", &failed.unwrap_err());
    assert!(matches!(err, GuardError::Unavailable(_)), "connect fail → Unavailable, got {err:?}");
    assert!(err.sentence().starts_with("guard unreachable: connect: "));
}
