//! The full exchange between one controller and one target, over raw wire
//! text in both directions.

use relay::dispatcher::RequestsHandler;

#[test]
fn controller_runs_a_module_on_a_target() {
    let mut h = RequestsHandler::new("client-secret".to_string(), "admin-secret".to_string());
    let alice = "alice".to_string();
    let bot1 = "bot1".to_string();

    // two connections come up
    h.handle_new_socket_connection(&alice, 10);
    h.handle_new_socket_connection(&bot1, 20);

    // alice authenticates as a controller: no reply, no broadcast
    let d = h.handle_request(
        &"{\"action\":\"auth_request\",\"data\":{\"app_key\":\"admin-secret\"}}".to_string(),
        &alice,
    );
    assert!(d.is_empty());

    // bot1 authenticates as a target: alice alone is told
    let d = h.handle_request(
        &"{\"action\":\"auth_request\",\"data\":{\"app_key\":\"client-secret\"}}".to_string(),
        &bot1,
    );
    assert_eq!(d.len(), 1);
    assert_eq!(d[0].sink, 10);
    assert_eq!(
        d[0].message.to_json_string(),
        "{\"action\":\"clients_update\",\"data\":{\"connected_clients\":[\"bot1\"]}}"
    );

    // alice asks bot1 to run a module: exactly one `run` envelope to bot1
    let d = h.handle_request(
        &"{\"action\":\"run_request\",\"data\":{\"target\":\"bot1\",\"module\":\"exec\",\"params\":{\"command\":\"dir\"}}}".to_string(),
        &alice,
    );
    assert_eq!(d.len(), 1);
    assert_eq!(d[0].sink, 20);
    assert_eq!(
        d[0].message.to_json_string(),
        "{\"action\":\"run\",\"data\":{\"module\":\"exec\",\"params\":{\"command\":\"dir\"}}}"
    );

    // bot1 reports the result: relayed verbatim to alice
    let d = h.handle_request(
        &"{\"action\":\"run_response\",\"data\":{\"output\":\"listing\"}}".to_string(),
        &bot1,
    );
    assert_eq!(d.len(), 1);
    assert_eq!(d[0].sink, 10);
    assert_eq!(
        d[0].message.to_json_string(),
        "{\"action\":\"run_response\",\"data\":{\"output\":\"listing\"}}"
    );

    // bot1 goes away: alice's view of the targets is refreshed
    let d = h.handle_disconnected_socket(&bot1);
    assert_eq!(d.len(), 1);
    assert_eq!(d[0].sink, 10);
    assert_eq!(
        d[0].message.to_json_string(),
        "{\"action\":\"clients_update\",\"data\":{\"connected_clients\":[]}}"
    );
}
