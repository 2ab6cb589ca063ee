use tool_web::registry::ParticipantRegistry;

#[test]
fn first_claim_succeeds_later_claims_fail() {
    let mut reg = ParticipantRegistry::new();
    let n = String::from("alice");
    assert!(reg.try_claim(n.clone()));
    assert!(!reg.try_claim(n.clone()));
    assert!(!reg.try_claim(n.clone()));
    assert!(reg.is_claimed(&n));
}

#[test]
fn distinct_names_do_not_interfere() {
    let mut reg = ParticipantRegistry::new();
    assert!(reg.try_claim(String::from("alice")));
    assert!(reg.try_claim(String::from("bob")));
    assert!(!reg.try_claim(String::from("alice")));
    assert!(reg.is_claimed(&String::from("bob")));
}

#[test]
fn claim_succeeds_again_after_release() {
    let mut reg = ParticipantRegistry::new();
    let n = String::from("alice");
    assert!(reg.try_claim(n.clone()));
    reg.release(&n);
    assert!(!reg.is_claimed(&n));
    assert!(reg.try_claim(n.clone()));
}

#[test]
fn release_is_idempotent() {
    let mut reg = ParticipantRegistry::new();
    let n = String::from("carol");
    reg.release(&n);
    assert!(!reg.is_claimed(&n));
    assert!(reg.try_claim(n.clone()));
    reg.release(&n);
    reg.release(&n);
    assert!(!reg.is_claimed(&n));
    assert!(reg.try_claim(n));
}

#[test]
fn names_are_case_sensitive() {
    let mut reg = ParticipantRegistry::new();
    assert!(reg.try_claim(String::from("Alice")));
    assert!(reg.try_claim(String::from("alice")));
}
