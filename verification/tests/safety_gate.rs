use phoenix_forge::safety::{can_write_to_disk, require_confirmation_token, SafetyContext, SafetyDecision};

#[test]
fn denies_without_force() {
    let ctx = SafetyContext {
        force_mode: false,
        confirmation_token: None,
    };
    assert!(matches!(
        can_write_to_disk(&ctx, false),
        SafetyDecision::Deny(_)
    ));
}

#[test]
fn denies_without_token() {
    let ctx = SafetyContext {
        force_mode: true,
        confirmation_token: None,
    };
    assert!(matches!(
        can_write_to_disk(&ctx, false),
        SafetyDecision::Deny(_)
    ));
}

#[test]
fn denies_invalid_token() {
    let ctx = SafetyContext {
        force_mode: true,
        confirmation_token: Some("BAD".to_string()),
    };
    assert!(matches!(
        can_write_to_disk(&ctx, false),
        SafetyDecision::Deny(_)
    ));
}

#[test]
fn allows_with_token() {
    let ctx = SafetyContext {
        force_mode: true,
        confirmation_token: Some("PHX-123".to_string()),
    };
    assert!(matches!(
        can_write_to_disk(&ctx, false),
        SafetyDecision::Allow
    ));
}

#[test]
fn gate_matrix() {
    let cases: Vec<(Option<&str>, bool, bool)> = vec![
        (None, false, false),
        (None, true, false),
        (Some("BAD"), true, false),
        (Some("PHX-x"), false, false),
        (Some("PHX-x"), true, true),
    ];
    for (token, force, expect_allow) in cases {
        let ctx = SafetyContext {
            force_mode: force,
            confirmation_token: token.map(str::to_string),
        };
        let allowed = matches!(can_write_to_disk(&ctx, false), SafetyDecision::Allow);
        assert_eq!(allowed, expect_allow, "token {:?} force {}", token, force);
    }
}

#[test]
fn deny_reasons_follow_rule_order() {
    let no_force = SafetyContext {
        force_mode: false,
        confirmation_token: Some("PHX-ok".to_string()),
    };
    match can_write_to_disk(&no_force, false) {
        SafetyDecision::Deny(reason) => {
            assert_eq!(reason, "Denied: destructive ops require force-mode")
        }
        SafetyDecision::Allow => panic!("expected deny"),
    }
    let no_token = SafetyContext {
        force_mode: true,
        confirmation_token: None,
    };
    match can_write_to_disk(&no_token, false) {
        SafetyDecision::Deny(reason) => assert_eq!(reason, "Denied: confirmation token missing"),
        SafetyDecision::Allow => panic!("expected deny"),
    }
    let bad_token = SafetyContext {
        force_mode: true,
        confirmation_token: Some("NOPE-1".to_string()),
    };
    match can_write_to_disk(&bad_token, false) {
        SafetyDecision::Deny(reason) => assert_eq!(reason, "Denied: invalid confirmation token"),
        SafetyDecision::Allow => panic!("expected deny"),
    }
}

#[test]
fn minted_tokens_satisfy_the_gate() {
    let token = require_confirmation_token();
    assert!(token.starts_with("PHX-"));
    assert_eq!(token.chars().count(), 40);
    let ctx = SafetyContext {
        force_mode: true,
        confirmation_token: Some(token),
    };
    assert!(matches!(can_write_to_disk(&ctx, false), SafetyDecision::Allow));
}
