use cavegen_bot::cooldown::{
    check_cooldown, cooldown_threshold, update_cooldown, Conversation, CooldownGate, CooldownKey,
    CAVEGEN_COOLDOWN_MS, DM_COOLDOWN_MS,
};

fn key(command: &str, channel: &str, user: &str) -> CooldownKey {
    CooldownKey::new(command, channel, user)
}

#[test]
fn simulated_clock_scenario() {
    let mut gate = CooldownGate::new();
    let mut now: u64 = 1_000;
    let k = key("cavegen", "chan1", "user1");
    assert!(check_cooldown(&gate, &k, Conversation::Shared, now));
    update_cooldown(&mut gate, key("cavegen", "chan1", "user1"), now);
    now += 5_000;
    assert!(!check_cooldown(&gate, &k, Conversation::Shared, now));
    now += 6_000;
    assert!(check_cooldown(&gate, &k, Conversation::Shared, now));
}

#[test]
fn window_closes_exactly_at_threshold() {
    let mut gate = CooldownGate::new();
    let k = key("cavesearch", "chan", "user");
    update_cooldown(&mut gate, key("cavesearch", "chan", "user"), 50_000);
    for conv in [Conversation::Private, Conversation::Shared] {
        let t = cooldown_threshold(conv);
        assert!(!check_cooldown(&gate, &k, conv, 50_000));
        assert!(!check_cooldown(&gate, &k, conv, 50_000 + t - 1));
        assert!(check_cooldown(&gate, &k, conv, 50_000 + t));
        assert!(check_cooldown(&gate, &k, conv, 50_000 + t + 12_345));
    }
}

#[test]
fn private_threshold_is_shorter() {
    assert_eq!(cooldown_threshold(Conversation::Private), DM_COOLDOWN_MS);
    assert_eq!(cooldown_threshold(Conversation::Shared), CAVEGEN_COOLDOWN_MS);
    assert!(DM_COOLDOWN_MS < CAVEGEN_COOLDOWN_MS);
    let mut gate = CooldownGate::new();
    let k = key("cavegen", "dm", "user");
    update_cooldown(&mut gate, key("cavegen", "dm", "user"), 0);
    assert!(check_cooldown(&gate, &k, Conversation::Private, DM_COOLDOWN_MS));
    assert!(!check_cooldown(&gate, &k, Conversation::Shared, DM_COOLDOWN_MS));
    assert!(check_cooldown(&gate, &k, Conversation::Shared, CAVEGEN_COOLDOWN_MS));
}

#[test]
fn keys_are_independent() {
    let mut gate = CooldownGate::new();
    update_cooldown(&mut gate, key("cavegen", "chan1", "user1"), 100);
    assert!(check_cooldown(&gate, &key("cavegen", "chan1", "user2"), Conversation::Shared, 100));
    assert!(check_cooldown(&gate, &key("cavegen", "chan2", "user1"), Conversation::Shared, 100));
    assert!(check_cooldown(&gate, &key("caveinfo", "chan1", "user1"), Conversation::Shared, 100));
    assert!(!check_cooldown(&gate, &key("cavegen", "chan1", "user1"), Conversation::Shared, 100));
}

#[test]
fn update_replaces_the_earlier_time() {
    let mut gate = CooldownGate::new();
    let k = key("cavegen", "c", "u");
    assert_eq!(gate.last_use(&k), None);
    update_cooldown(&mut gate, key("cavegen", "c", "u"), 10);
    update_cooldown(&mut gate, key("other", "c", "u"), 20);
    assert_eq!(gate.last_use(&k), Some(10));
    update_cooldown(&mut gate, key("cavegen", "c", "u"), 30_000);
    assert_eq!(gate.last_use(&k), Some(30_000));
    assert_eq!(gate.last_use(&key("other", "c", "u")), Some(20));
    assert!(!check_cooldown(&gate, &k, Conversation::Shared, 35_000));
}

#[test]
fn clock_behind_record_does_not_admit() {
    let mut gate = CooldownGate::new();
    let k = key("cavegen", "c", "u");
    update_cooldown(&mut gate, key("cavegen", "c", "u"), 100_000);
    assert!(!check_cooldown(&gate, &k, Conversation::Private, 0));
}
