use relay::dispatcher::RequestsHandler;
use relay::protocol::Outbound;
use relay::registry::Role;

fn broker() -> RequestsHandler {
    RequestsHandler::new("client-secret".to_string(), "admin-secret".to_string())
}

fn auth(key: &str) -> String {
    format!("{{\"action\":\"auth_request\",\"data\":{{\"app_key\":\"{}\"}}}}", key)
}

#[test]
fn client_secret_marks_a_target() {
    let mut h = broker();
    let bot = "bot1".to_string();
    h.handle_new_socket_connection(&bot, 2);
    let d = h.handle_request(&auth("client-secret"), &bot);
    assert!(d.is_empty()); // no controller is connected yet
    assert!(h.registry().contains_role(&bot, Role::Target));
    assert!(!h.registry().contains_role(&bot, Role::Controller));
}

#[test]
fn admin_secret_marks_a_controller_silently() {
    let mut h = broker();
    let alice = "alice".to_string();
    h.handle_new_socket_connection(&alice, 1);
    let d = h.handle_request(&auth("admin-secret"), &alice);
    assert!(d.is_empty());
    assert!(h.registry().contains_role(&alice, Role::Controller));
}

#[test]
fn wrong_key_changes_nothing_and_answers_nothing() {
    let mut h = broker();
    let alice = "alice".to_string();
    h.handle_new_socket_connection(&alice, 1);
    let d = h.handle_request(&auth("wrong"), &alice);
    assert!(d.is_empty());
    assert!(!h.registry().contains_role(&alice, Role::Target));
    assert!(!h.registry().contains_role(&alice, Role::Controller));
}

#[test]
fn target_auth_announces_to_controllers() {
    let mut h = broker();
    let alice = "alice".to_string();
    let bot = "bot1".to_string();
    h.handle_new_socket_connection(&alice, 1);
    h.handle_new_socket_connection(&bot, 2);
    h.handle_request(&auth("admin-secret"), &alice);
    let d = h.handle_request(&auth("client-secret"), &bot);
    assert_eq!(d.len(), 1);
    assert_eq!(d[0].sink, 1);
    assert_eq!(
        d[0].message.to_json_string(),
        "{\"action\":\"clients_update\",\"data\":{\"connected_clients\":[\"bot1\"]}}"
    );
}

#[test]
fn a_target_cannot_list_clients() {
    let mut h = broker();
    let bot = "bot1".to_string();
    h.handle_new_socket_connection(&bot, 2);
    h.handle_request(&auth("client-secret"), &bot);
    let d = h.handle_request(&"{\"action\":\"get_clients_request\",\"data\":{}}".to_string(), &bot);
    assert!(d.is_empty());
}

#[test]
fn a_controller_gets_the_target_list_alone() {
    let mut h = broker();
    let alice = "alice".to_string();
    let bot = "bot1".to_string();
    h.handle_new_socket_connection(&alice, 1);
    h.handle_new_socket_connection(&bot, 2);
    h.handle_request(&auth("client-secret"), &bot);
    h.handle_request(&auth("admin-secret"), &alice);
    let d = h.handle_request(
        &"{\"action\":\"get_clients_request\",\"data\":{}}".to_string(),
        &alice,
    );
    assert_eq!(d.len(), 1);
    assert_eq!(d[0].sink, 1);
    assert_eq!(d[0].message.to_json_string(), "[\"bot1\"]");
}

#[test]
fn run_request_to_unknown_target_answers_the_sender() {
    let mut h = broker();
    let alice = "alice".to_string();
    h.handle_new_socket_connection(&alice, 1);
    let d = h.handle_request(
        &"{\"action\":\"run_request\",\"data\":{\"target\":\"bot9\",\"module\":\"exec\",\"params\":{}}}".to_string(),
        &alice,
    );
    assert_eq!(d.len(), 1);
    assert_eq!(d[0].sink, 1);
    assert_eq!(
        d[0].message.to_json_string(),
        "{\"action\":\"run\",\"data\":{\"error\":\"Target isn't a client\"}}"
    );
}

#[test]
fn run_request_to_unmarked_identity_is_an_error() {
    // connected but never authenticated as a target
    let mut h = broker();
    let alice = "alice".to_string();
    let bot = "bot1".to_string();
    h.handle_new_socket_connection(&alice, 1);
    h.handle_new_socket_connection(&bot, 2);
    let d = h.handle_request(
        &"{\"action\":\"run_request\",\"data\":{\"target\":\"bot1\",\"module\":\"exec\",\"params\":{}}}".to_string(),
        &alice,
    );
    assert_eq!(d.len(), 1);
    assert_eq!(d[0].sink, 1);
    assert!(matches!(&d[0].message, Outbound::RunError { .. }));
}

#[test]
fn run_request_to_a_target_delivers_exactly_one_run() {
    let mut h = broker();
    let alice = "alice".to_string();
    let bot = "bot1".to_string();
    h.handle_new_socket_connection(&alice, 1);
    h.handle_new_socket_connection(&bot, 2);
    h.handle_request(&auth("client-secret"), &bot);
    let d = h.handle_request(
        &"{\"action\":\"run_request\",\"data\":{\"target\":\"bot1\",\"module\":\"open_url\",\"params\":{\"url\":\"https://example.org\"}}}".to_string(),
        &alice,
    );
    assert_eq!(d.len(), 1);
    assert_eq!(d[0].sink, 2);
    assert_eq!(
        d[0].message.to_json_string(),
        "{\"action\":\"run\",\"data\":{\"module\":\"open_url\",\"params\":{\"url\":\"https://example.org\"}}}"
    );
}

#[test]
fn run_response_reaches_every_controller() {
    let mut h = broker();
    let a1 = "alice".to_string();
    let a2 = "amy".to_string();
    let bot = "bot1".to_string();
    h.handle_new_socket_connection(&a1, 1);
    h.handle_new_socket_connection(&a2, 3);
    h.handle_new_socket_connection(&bot, 2);
    h.handle_request(&auth("admin-secret"), &a1);
    h.handle_request(&auth("admin-secret"), &a2);
    let d = h.handle_request(
        &"{\"action\":\"run_response\",\"data\":{\"output\":\"ok\"}}".to_string(),
        &bot,
    );
    assert_eq!(d.len(), 2);
    assert_eq!(d[0].sink, 1);
    assert_eq!(d[1].sink, 3);
    assert_eq!(
        d[0].message.to_json_string(),
        "{\"action\":\"run_response\",\"data\":{\"output\":\"ok\"}}"
    );
}

#[test]
fn disconnecting_a_target_updates_every_controller() {
    let mut h = broker();
    let a1 = "alice".to_string();
    let a2 = "amy".to_string();
    let bot = "bot1".to_string();
    h.handle_new_socket_connection(&a1, 1);
    h.handle_new_socket_connection(&a2, 3);
    h.handle_new_socket_connection(&bot, 2);
    h.handle_request(&auth("admin-secret"), &a1);
    h.handle_request(&auth("admin-secret"), &a2);
    h.handle_request(&auth("client-secret"), &bot);
    let d = h.handle_disconnected_socket(&bot);
    assert_eq!(d.len(), 2);
    assert_eq!(d[0].sink, 1);
    assert_eq!(d[1].sink, 3);
    for delivery in &d {
        assert_eq!(
            delivery.message.to_json_string(),
            "{\"action\":\"clients_update\",\"data\":{\"connected_clients\":[]}}"
        );
    }
    assert_eq!(h.registry().lookup_sink(&bot), None);
}

#[test]
fn disconnecting_a_controller_is_silent() {
    let mut h = broker();
    let alice = "alice".to_string();
    h.handle_new_socket_connection(&alice, 1);
    h.handle_request(&auth("admin-secret"), &alice);
    let d = h.handle_disconnected_socket(&alice);
    assert!(d.is_empty());
}

#[test]
fn disconnecting_twice_sends_no_duplicate_broadcast() {
    let mut h = broker();
    let alice = "alice".to_string();
    let bot = "bot1".to_string();
    h.handle_new_socket_connection(&alice, 1);
    h.handle_new_socket_connection(&bot, 2);
    h.handle_request(&auth("admin-secret"), &alice);
    h.handle_request(&auth("client-secret"), &bot);
    let first = h.handle_disconnected_socket(&bot);
    assert_eq!(first.len(), 1);
    let second = h.handle_disconnected_socket(&bot);
    assert!(second.is_empty());
    assert_eq!(h.registry().lookup_sink(&bot), None);
}

#[test]
fn delivery_skips_recipients_that_went_away() {
    // two controllers authenticate, one identity is then overwritten away by
    // unregistering it: the broadcast reaches only the one still connected
    let mut h = broker();
    let a1 = "alice".to_string();
    let a2 = "amy".to_string();
    let bot = "bot1".to_string();
    h.handle_new_socket_connection(&a1, 1);
    h.handle_new_socket_connection(&a2, 3);
    h.handle_new_socket_connection(&bot, 2);
    h.handle_request(&auth("admin-secret"), &a1);
    h.handle_request(&auth("admin-secret"), &a2);
    h.handle_request(&auth("client-secret"), &bot);
    h.handle_disconnected_socket(&a2);
    let d = h.handle_request(
        &"{\"action\":\"run_response\",\"data\":\"x\"}".to_string(),
        &bot,
    );
    assert_eq!(d.len(), 1);
    assert_eq!(d[0].sink, 1);
}

#[test]
fn malformed_json_is_dropped() {
    let mut h = broker();
    let alice = "alice".to_string();
    h.handle_new_socket_connection(&alice, 1);
    let d = h.handle_request(&"{not json".to_string(), &alice);
    assert!(d.is_empty());
    assert_eq!(h.registry().lookup_sink(&alice), Some(1));
}

#[test]
fn unknown_action_is_dropped() {
    let mut h = broker();
    let alice = "alice".to_string();
    h.handle_new_socket_connection(&alice, 1);
    let d = h.handle_request(
        &"{\"action\":\"reboot\",\"data\":{}}".to_string(),
        &alice,
    );
    assert!(d.is_empty());
}

#[test]
fn envelope_without_data_is_dropped() {
    let mut h = broker();
    let alice = "alice".to_string();
    h.handle_new_socket_connection(&alice, 1);
    let d = h.handle_request(&"{\"action\":\"get_clients_request\"}".to_string(), &alice);
    assert!(d.is_empty());
}

#[test]
fn envelope_fields_may_come_in_any_order() {
    let mut h = broker();
    let bot = "bot1".to_string();
    h.handle_new_socket_connection(&bot, 2);
    let d = h.handle_request(
        &"{\"data\":{\"app_key\":\"client-secret\"},\"action\":\"auth_request\"}".to_string(),
        &bot,
    );
    assert!(d.is_empty());
    assert!(h.registry().contains_role(&bot, Role::Target));
}

#[test]
fn auth_with_malformed_body_is_dropped() {
    let mut h = broker();
    let bot = "bot1".to_string();
    h.handle_new_socket_connection(&bot, 2);
    let d = h.handle_request(
        &"{\"action\":\"auth_request\",\"data\":{\"app_key\":42}}".to_string(),
        &bot,
    );
    assert!(d.is_empty());
    assert!(!h.registry().contains_role(&bot, Role::Target));
}

#[test]
fn reconnect_overwrites_the_registered_sink() {
    let mut h = broker();
    let bot = "bot1".to_string();
    h.handle_new_socket_connection(&bot, 2);
    h.handle_request(&auth("client-secret"), &bot);
    h.handle_new_socket_connection(&bot, 5);
    assert_eq!(h.registry().lookup_sink(&bot), Some(5));
    // the role marking survives the overwrite
    assert!(h.registry().contains_role(&bot, Role::Target));
}
