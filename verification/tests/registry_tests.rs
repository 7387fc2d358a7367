use relay::registry::{Registry, Role};

#[test]
fn register_then_unregister_leaves_no_trace() {
    let mut r = Registry::new();
    let alice = "alice".to_string();
    r.register(&alice, 7);
    r.unregister(&alice);
    assert_eq!(r.lookup_sink(&alice), None);
    assert!(!r.contains_role(&alice, Role::Target));
    assert!(!r.contains_role(&alice, Role::Controller));
}

#[test]
fn register_overwrites_sink_on_collision() {
    let mut r = Registry::new();
    let alice = "alice".to_string();
    r.register(&alice, 7);
    r.register(&alice, 9);
    assert_eq!(r.lookup_sink(&alice), Some(9));
}

#[test]
fn lookup_absent_identity_is_none() {
    let r = Registry::new();
    assert_eq!(r.lookup_sink(&"nobody".to_string()), None);
}

#[test]
fn mark_role_requires_connection() {
    let mut r = Registry::new();
    let ghostid = "ghost".to_string();
    r.mark_role(&ghostid, Role::Target);
    assert!(!r.contains_role(&ghostid, Role::Target));
    assert!(r.snapshot_role(Role::Target).is_empty());
}

#[test]
fn mark_role_is_set_like() {
    let mut r = Registry::new();
    let bot = "bot1".to_string();
    r.register(&bot, 2);
    r.mark_role(&bot, Role::Target);
    r.mark_role(&bot, Role::Target);
    assert_eq!(r.snapshot_role(Role::Target), vec!["bot1".to_string()]);
}

#[test]
fn last_marking_wins() {
    let mut r = Registry::new();
    let bot = "bot1".to_string();
    r.register(&bot, 2);
    r.mark_role(&bot, Role::Target);
    r.mark_role(&bot, Role::Controller);
    assert!(!r.contains_role(&bot, Role::Target));
    assert!(r.contains_role(&bot, Role::Controller));
}

#[test]
fn unmark_role_is_idempotent() {
    let mut r = Registry::new();
    let bot = "bot1".to_string();
    r.register(&bot, 2);
    r.mark_role(&bot, Role::Target);
    r.unmark_role(&bot, Role::Target);
    assert!(!r.contains_role(&bot, Role::Target));
    r.unmark_role(&bot, Role::Target);
    assert!(!r.contains_role(&bot, Role::Target));
    assert_eq!(r.lookup_sink(&bot), Some(2));
}

#[test]
fn unregister_absent_identity_is_a_no_op() {
    let mut r = Registry::new();
    let bot = "bot1".to_string();
    r.register(&bot, 2);
    r.unregister(&"other".to_string());
    assert_eq!(r.lookup_sink(&bot), Some(2));
}

#[test]
fn snapshot_keeps_authentication_order() {
    let mut r = Registry::new();
    let a = "a".to_string();
    let b = "b".to_string();
    let c = "c".to_string();
    r.register(&a, 1);
    r.register(&b, 2);
    r.register(&c, 3);
    r.mark_role(&b, Role::Target);
    r.mark_role(&a, Role::Target);
    r.mark_role(&c, Role::Target);
    assert_eq!(
        r.snapshot_role(Role::Target),
        vec!["b".to_string(), "a".to_string(), "c".to_string()]
    );
}

#[test]
fn snapshot_is_a_copy_not_a_view() {
    let mut r = Registry::new();
    let a = "a".to_string();
    r.register(&a, 1);
    r.mark_role(&a, Role::Target);
    let snap = r.snapshot_role(Role::Target);
    r.unregister(&a);
    assert_eq!(snap, vec!["a".to_string()]);
    assert!(r.snapshot_role(Role::Target).is_empty());
}
