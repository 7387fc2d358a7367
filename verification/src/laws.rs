//! The laws of the broker, proved over the spec-level transitions: role
//! membership never outlives a connection, authentication gates the client
//! list, routing reaches exactly the addressed party, and teardown is
//! idempotent.

use vstd::prelude::*;
use crate::dispatcher::{deliveries_to, disconnect_spec, handle_spec, BrokerView};
use crate::protocol::{DeliveryView, InboundView, OutboundView};
use crate::registry::{
    distinct_ids, mark_role_spec, register_spec, remove_id, unmark_role_spec, unregister_spec,
    RegistryView, Role,
};

verus! {

proof fn lemma_remove_id_not_contains(s: Seq<Seq<char>>, id: Seq<char>)
    ensures
        !remove_id(s, id).contains(id),
    decreases s.len(),
{
    if s.len() > 0 {
        lemma_remove_id_not_contains(s.drop_last(), id);
    }
}

proof fn lemma_remove_id_contains(s: Seq<Seq<char>>, id: Seq<char>, x: Seq<char>)
    requires
        x != id,
    ensures
        remove_id(s, id).contains(x) <==> s.contains(x),
    decreases s.len(),
{
    if s.len() > 0 {
        lemma_remove_id_contains(s.drop_last(), id, x);
        let r0 = remove_id(s.drop_last(), id);
        if s.contains(x) {
            let i = choose|i: int| 0 <= i < s.len() && s[i] == x;
            if i < s.len() - 1 {
                assert(s.drop_last()[i] == x);
                assert(s.drop_last().contains(x));
                if s.last() != id {
                    let k = choose|k: int| 0 <= k < r0.len() && r0[k] == x;
                    assert(r0.push(s.last())[k] == x);
                }
            } else {
                assert(s.last() == x);
                assert(r0.push(s.last())[r0.len() as int] == x);
            }
            assert(remove_id(s, id).contains(x));
        }
        if remove_id(s, id).contains(x) {
            if s.last() == id {
                assert(s.drop_last().contains(x));
                let i = choose|i: int| 0 <= i < s.drop_last().len() && s.drop_last()[i] == x;
                assert(s[i] == x);
            } else {
                let k = choose|k: int|
                    0 <= k < remove_id(s, id).len() && remove_id(s, id)[k] == x;
                if k < r0.len() {
                    assert(r0[k] == x);
                    assert(r0.contains(x));
                    assert(s.drop_last().contains(x));
                    let i = choose|i: int| 0 <= i < s.drop_last().len() && s.drop_last()[i] == x;
                    assert(s[i] == x);
                } else {
                    assert(s.last() == x);
                    assert(s[s.len() - 1] == x);
                }
            }
            assert(s.contains(x));
        }
    }
}

/// A delivery list addressed to one recipient: one delivery when that
/// recipient is connected, none otherwise.
proof fn lemma_deliveries_to_singleton(conns: Map<Seq<char>, u64>, id: Seq<char>, msg: OutboundView)
    ensures
        deliveries_to(conns, seq![id], msg) == if conns.contains_key(id) {
            seq![DeliveryView { sink: conns[id], message: msg }]
        } else {
            Seq::<DeliveryView>::empty()
        },
{
    let s = seq![id];
    assert(s.last() == id);
    assert(s.drop_last() =~= Seq::<Seq<char>>::empty());
    assert(deliveries_to(conns, s.drop_last(), msg) == Seq::<DeliveryView>::empty());
    if conns.contains_key(id) {
        assert(deliveries_to(conns, s, msg) =~= seq![
            DeliveryView { sink: conns[id], message: msg },
        ]);
    }
}

proof fn lemma_remove_id_noop(s: Seq<Seq<char>>, id: Seq<char>)
    requires
        !s.contains(id),
    ensures
        remove_id(s, id) == s,
    decreases s.len(),
{
    if s.len() > 0 {
        assert(s[s.len() - 1] == s.last());
        assert(s.last() != id);
        assert(forall|i: int| 0 <= i < s.drop_last().len() ==> s.drop_last()[i] == s[i]);
        lemma_remove_id_noop(s.drop_last(), id);
        assert(remove_id(s, id) =~= s);
    }
}

proof fn lemma_remove_id_distinct(s: Seq<Seq<char>>, id: Seq<char>)
    requires
        distinct_ids(s),
    ensures
        distinct_ids(remove_id(s, id)),
        forall|x: Seq<char>| #[trigger] remove_id(s, id).contains(x) ==> s.contains(x) && x != id,
    decreases s.len(),
{
    lemma_remove_id_not_contains(s, id);
    if s.len() > 0 {
        assert(forall|i: int, j: int|
            0 <= i < j < s.drop_last().len() ==> s.drop_last()[i] != s.drop_last()[j]);
        lemma_remove_id_distinct(s.drop_last(), id);
        let r0 = remove_id(s.drop_last(), id);
        assert(forall|i: int| 0 <= i < s.drop_last().len() ==> s.drop_last()[i] == s[i]);
        if s.last() != id {
            let r = r0.push(s.last());
            assert(!s.drop_last().contains(s.last()));
            assert(!r0.contains(s.last()));
            assert forall|i: int, j: int| 0 <= i < j < r.len() implies r[i] != r[j] by {
                if j == r.len() - 1 {
                    assert(r0.contains(r[i]));
                }
            }
            assert forall|x: Seq<char>| #[trigger] r.contains(x) implies s.contains(x) && x != id by {
                let i = choose|i: int| 0 <= i < r.len() && r[i] == x;
                if i < r.len() - 1 {
                    assert(r0.contains(x));
                    let j = choose|j: int| 0 <= j < s.drop_last().len() && s.drop_last()[j] == x;
                    assert(s[j] == x);
                } else {
                    assert(s[s.len() - 1] == x);
                }
            }
        } else {
            assert forall|x: Seq<char>| #[trigger] r0.contains(x) implies s.contains(x) && x != id by {
                assert(s.drop_last().contains(x));
                let j = choose|j: int| 0 <= j < s.drop_last().len() && s.drop_last()[j] == x;
                assert(s[j] == x);
            }
        }
    }
}

/// One delivery per recipient, in order, when every recipient is connected.
proof fn lemma_deliveries_to_all_connected(
    conns: Map<Seq<char>, u64>,
    recipients: Seq<Seq<char>>,
    msg: OutboundView,
)
    requires
        forall|i: int| 0 <= i < recipients.len() ==> conns.contains_key(#[trigger] recipients[i]),
    ensures
        deliveries_to(conns, recipients, msg).len() == recipients.len(),
        forall|i: int|
            0 <= i < recipients.len() ==> deliveries_to(conns, recipients, msg)[i] == (DeliveryView {
                sink: conns[recipients[i]],
                message: msg,
            }),
    decreases recipients.len(),
{
    if recipients.len() > 0 {
        assert(forall|i: int|
            0 <= i < recipients.drop_last().len() ==> recipients.drop_last()[i] == recipients[i]);
        lemma_deliveries_to_all_connected(conns, recipients.drop_last(), msg);
        assert(conns.contains_key(recipients[recipients.len() - 1]));
    }
}

/// Registering a connection preserves the registry invariant.
pub proof fn lemma_register_preserves_inv(v: RegistryView, id: Seq<char>, sink: u64)
    requires
        v.inv(),
    ensures
        register_spec(v, id, sink).inv(),
{
}

/// Unregistering an identity preserves the registry invariant.
pub proof fn lemma_unregister_preserves_inv(v: RegistryView, id: Seq<char>)
    requires
        v.inv(),
    ensures
        unregister_spec(v, id).inv(),
{
    let v2 = unregister_spec(v, id);
    lemma_remove_id_distinct(v.targets, id);
    lemma_remove_id_distinct(v.controllers, id);
    assert forall|i: int| 0 <= i < v2.targets.len() implies v2.connections.contains_key(
        #[trigger] v2.targets[i],
    ) by {
        let x = v2.targets[i];
        assert(v2.targets.contains(x));
        assert(v.targets.contains(x) && x != id);
        let j = choose|j: int| 0 <= j < v.targets.len() && v.targets[j] == x;
        assert(v.connections.contains_key(v.targets[j]));
    }
    assert forall|i: int| 0 <= i < v2.controllers.len() implies v2.connections.contains_key(
        #[trigger] v2.controllers[i],
    ) by {
        let x = v2.controllers[i];
        assert(v2.controllers.contains(x));
        assert(v.controllers.contains(x) && x != id);
        let j = choose|j: int| 0 <= j < v.controllers.len() && v.controllers[j] == x;
        assert(v.connections.contains_key(v.controllers[j]));
    }
    assert forall|i: int| 0 <= i < v2.targets.len() implies !v2.controllers.contains(
        #[trigger] v2.targets[i],
    ) by {
        let x = v2.targets[i];
        assert(v2.targets.contains(x));
        assert(v.targets.contains(x) && x != id);
        let j = choose|j: int| 0 <= j < v.targets.len() && v.targets[j] == x;
        assert(!v.controllers.contains(v.targets[j]));
        lemma_remove_id_contains(v.controllers, id, x);
    }
}

/// Marking a connected identity into either role preserves the registry
/// invariant.
pub proof fn lemma_mark_role_preserves_inv(v: RegistryView, id: Seq<char>, role: Role)
    requires
        v.inv(),
    ensures
        mark_role_spec(v, id, role).inv(),
{
    if v.connections.contains_key(id) {
        let v2 = mark_role_spec(v, id, role);
        match role {
            Role::Target => {
                lemma_remove_id_distinct(v.controllers, id);
                lemma_remove_id_not_contains(v.controllers, id);
                // the target list stays distinct
                assert forall|i: int, j: int| 0 <= i < j < v2.targets.len() implies v2.targets[i]
                    != v2.targets[j] by {
                    if !v.targets.contains(id) && j == v2.targets.len() - 1 {
                        assert(v2.targets[j] == id);
                        assert(v2.targets[i] == v.targets[i]);
                    }
                }
                // every target is connected
                assert forall|i: int| 0 <= i < v2.targets.len() implies v2.connections.contains_key(
                    #[trigger] v2.targets[i],
                ) by {
                    if v.targets.contains(id) || i < v2.targets.len() - 1 {
                        assert(v2.targets[i] == v.targets[i]);
                    } else {
                        assert(v2.targets[i] == id);
                    }
                }
                // every controller is connected
                assert forall|i: int| 0 <= i < v2.controllers.len()
                    implies v2.connections.contains_key(#[trigger] v2.controllers[i]) by {
                    let x = v2.controllers[i];
                    assert(v2.controllers.contains(x));
                    assert(v.controllers.contains(x));
                    let j = choose|j: int| 0 <= j < v.controllers.len() && v.controllers[j] == x;
                    assert(v.connections.contains_key(v.controllers[j]));
                }
                // no target is a controller
                assert forall|i: int| 0 <= i < v2.targets.len() implies !v2.controllers.contains(
                    #[trigger] v2.targets[i],
                ) by {
                    let x = v2.targets[i];
                    if v.targets.contains(id) || i < v2.targets.len() - 1 {
                        assert(x == v.targets[i]);
                        assert(v.targets.contains(x));
                        assert(!v.controllers.contains(x));
                        if x != id {
                            lemma_remove_id_contains(v.controllers, id, x);
                        }
                    } else {
                        assert(x == id);
                    }
                }
            },
            Role::Controller => {
                lemma_remove_id_distinct(v.targets, id);
                lemma_remove_id_not_contains(v.targets, id);
                // the controller list stays distinct
                assert forall|i: int, j: int| 0 <= i < j < v2.controllers.len() implies v2
                    .controllers[i] != v2.controllers[j] by {
                    if !v.controllers.contains(id) && j == v2.controllers.len() - 1 {
                        assert(v2.controllers[j] == id);
                        assert(v2.controllers[i] == v.controllers[i]);
                    }
                }
                // every controller is connected
                assert forall|i: int| 0 <= i < v2.controllers.len()
                    implies v2.connections.contains_key(#[trigger] v2.controllers[i]) by {
                    if v.controllers.contains(id) || i < v2.controllers.len() - 1 {
                        assert(v2.controllers[i] == v.controllers[i]);
                    } else {
                        assert(v2.controllers[i] == id);
                    }
                }
                // every target is connected
                assert forall|i: int| 0 <= i < v2.targets.len() implies v2.connections.contains_key(
                    #[trigger] v2.targets[i],
                ) by {
                    let x = v2.targets[i];
                    assert(v2.targets.contains(x));
                    assert(v.targets.contains(x));
                    let j = choose|j: int| 0 <= j < v.targets.len() && v.targets[j] == x;
                    assert(v.connections.contains_key(v.targets[j]));
                }
                // no target is a controller
                assert forall|i: int| 0 <= i < v2.targets.len() implies !v2.controllers.contains(
                    #[trigger] v2.targets[i],
                ) by {
                    let x = v2.targets[i];
                    assert(v2.targets.contains(x));
                    assert(v.targets.contains(x) && x != id);
                    let j = choose|j: int| 0 <= j < v.targets.len() && v.targets[j] == x;
                    assert(!v.controllers.contains(v.targets[j]));
                    if v2.controllers.contains(x) {
                        if !v.controllers.contains(id) {
                            let k = choose|k: int|
                                0 <= k < v2.controllers.len() && v2.controllers[k] == x;
                            if k < v2.controllers.len() - 1 {
                                assert(v.controllers[k] == x);
                                assert(v.controllers.contains(x));
                            } else {
                                assert(x == id);
                            }
                        }
                    }
                }
            },
        }
    }
}

/// Unmarking a role preserves the registry invariant.
pub proof fn lemma_unmark_role_preserves_inv(v: RegistryView, id: Seq<char>, role: Role)
    requires
        v.inv(),
    ensures
        unmark_role_spec(v, id, role).inv(),
{
    let v2 = unmark_role_spec(v, id, role);
    match role {
        Role::Target => {
            lemma_remove_id_distinct(v.targets, id);
            assert forall|i: int| 0 <= i < v2.targets.len() implies v2.connections.contains_key(
                #[trigger] v2.targets[i],
            ) && !v2.controllers.contains(v2.targets[i]) by {
                let x = v2.targets[i];
                assert(v2.targets.contains(x));
                assert(v.targets.contains(x));
                let j = choose|j: int| 0 <= j < v.targets.len() && v.targets[j] == x;
                assert(v.connections.contains_key(v.targets[j]));
                assert(!v.controllers.contains(v.targets[j]));
            }
        },
        Role::Controller => {
            lemma_remove_id_distinct(v.controllers, id);
            assert forall|i: int| 0 <= i < v2.controllers.len() implies v2.connections.contains_key(
                #[trigger] v2.controllers[i],
            ) by {
                let x = v2.controllers[i];
                assert(v2.controllers.contains(x));
                assert(v.controllers.contains(x));
                let j = choose|j: int| 0 <= j < v.controllers.len() && v.controllers[j] == x;
                assert(v.connections.contains_key(v.controllers[j]));
            }
            assert forall|i: int| 0 <= i < v2.targets.len() implies !v2.controllers.contains(
                #[trigger] v2.targets[i],
            ) by {
                let x = v2.targets[i];
                if v2.controllers.contains(x) {
                    let k = choose|k: int| 0 <= k < v2.controllers.len() && v2.controllers[k] == x;
                    assert(v2.controllers.contains(x));
                    assert(v.controllers.contains(x));
                    assert(v.targets.contains(x));
                    let j = choose|j: int| 0 <= j < v.targets.len() && v.targets[j] == x;
                    assert(!v.controllers.contains(v.targets[j]));
                }
            }
        },
    }
}

/// Handling any message preserves the registry invariant: no reader ever
/// observes a role set naming an identity that is not connected.
pub proof fn lemma_handle_preserves_inv(b: BrokerView, msg: InboundView, sender: Seq<char>)
    requires
        b.registry.inv(),
    ensures
        handle_spec(b, msg, sender).0.inv(),
{
    match msg {
        InboundView::AuthRequest { app_key } => {
            if app_key == b.client_key {
                lemma_mark_role_preserves_inv(b.registry, sender, Role::Target);
            } else if app_key == b.admin_key {
                lemma_mark_role_preserves_inv(b.registry, sender, Role::Controller);
            }
        },
        _ => {},
    }
}

/// Tearing a connection down preserves the registry invariant.
pub proof fn lemma_disconnect_preserves_inv(v: RegistryView, id: Seq<char>)
    requires
        v.inv(),
    ensures
        disconnect_spec(v, id).0.inv(),
{
    lemma_unregister_preserves_inv(v, id);
}

/// Registering an identity and immediately unregistering it leaves no trace:
/// no sink is found for it, and it is in neither role set.
pub proof fn lemma_register_then_unregister(v: RegistryView, id: Seq<char>, sink: u64)
    ensures
        ({
            let v2 = unregister_spec(register_spec(v, id, sink), id);
            &&& !v2.connections.contains_key(id)
            &&& !v2.targets.contains(id)
            &&& !v2.controllers.contains(id)
        }),
{
    lemma_remove_id_not_contains(register_spec(v, id, sink).targets, id);
    lemma_remove_id_not_contains(register_spec(v, id, sink).controllers, id);
}

/// Authenticating with the client secret makes the sender a target, never a
/// controller: a `get_clients_request` sent right after is rejected — no
/// state change and no reply.
pub proof fn lemma_target_auth_cannot_list_clients(b: BrokerView, sender: Seq<char>)
    requires
        b.registry.inv(),
    ensures
        ({
            let r1 = handle_spec(
                b,
                InboundView::AuthRequest { app_key: b.client_key },
                sender,
            ).0;
            let b1 = BrokerView { registry: r1, client_key: b.client_key, admin_key: b.admin_key };
            handle_spec(b1, InboundView::GetClientsRequest, sender) == (
                r1,
                Seq::<DeliveryView>::empty(),
            )
        }),
{
    let r1 = handle_spec(b, InboundView::AuthRequest { app_key: b.client_key }, sender).0;
    if b.registry.connections.contains_key(sender) {
        lemma_remove_id_not_contains(b.registry.controllers, sender);
    } else {
        if r1.controllers.contains(sender) {
            let j = choose|j: int| 0 <= j < r1.controllers.len() && r1.controllers[j] == sender;
            assert(b.registry.connections.contains_key(b.registry.controllers[j]));
        }
    }
    assert(!r1.controllers.contains(sender));
}

/// Authenticating with the admin secret (distinct from the client secret)
/// makes a connected sender a controller, silently; a `get_clients_request`
/// sent right after is answered with the current target list, to the
/// requester alone.
pub proof fn lemma_admin_auth_lists_targets(b: BrokerView, sender: Seq<char>)
    requires
        b.registry.inv(),
        b.registry.connections.contains_key(sender),
        b.admin_key != b.client_key,
    ensures
        ({
            let (r1, d1) = handle_spec(b, InboundView::AuthRequest { app_key: b.admin_key }, sender);
            let b1 = BrokerView { registry: r1, client_key: b.client_key, admin_key: b.admin_key };
            let (r2, d2) = handle_spec(b1, InboundView::GetClientsRequest, sender);
            &&& d1 == Seq::<DeliveryView>::empty()
            &&& r1.connections == b.registry.connections
            &&& r2 == r1
            &&& d2 == seq![
                DeliveryView {
                    sink: b.registry.connections[sender],
                    message: OutboundView::ClientList { clients: r1.targets },
                },
            ]
        }),
{
    let (r1, d1) = handle_spec(b, InboundView::AuthRequest { app_key: b.admin_key }, sender);
    if !b.registry.controllers.contains(sender) {
        assert(r1.controllers[r1.controllers.len() - 1] == sender);
        assert(r1.controllers.contains(sender));
    }
    lemma_deliveries_to_singleton(
        r1.connections,
        sender,
        OutboundView::ClientList { clients: r1.targets },
    );
}

/// A run request addressed to an identity that is not a marked target is
/// answered with exactly one `run` error envelope to the sender, nothing to
/// anyone else, and no state change.
pub proof fn lemma_run_request_unknown_target(
    b: BrokerView,
    sender: Seq<char>,
    target: Seq<char>,
    module: Seq<char>,
    params: Seq<char>,
)
    requires
        !b.registry.targets.contains(target),
        b.registry.connections.contains_key(sender),
    ensures
        handle_spec(b, InboundView::RunRequest { target, module, params }, sender) == (
            b.registry,
            seq![
                DeliveryView {
                    sink: b.registry.connections[sender],
                    message: OutboundView::RunError { error: "Target isn't a client"@ },
                },
            ],
        ),
{
    lemma_deliveries_to_singleton(
        b.registry.connections,
        sender,
        OutboundView::RunError { error: "Target isn't a client"@ },
    );
}

/// A run request addressed to a marked target delivers exactly one `run`
/// envelope carrying the module and params to that target's sink, nothing to
/// anyone else, and no state change.
pub proof fn lemma_run_request_valid_target(
    b: BrokerView,
    sender: Seq<char>,
    target: Seq<char>,
    module: Seq<char>,
    params: Seq<char>,
)
    requires
        b.registry.inv(),
        b.registry.targets.contains(target),
    ensures
        handle_spec(b, InboundView::RunRequest { target, module, params }, sender) == (
            b.registry,
            seq![
                DeliveryView {
                    sink: b.registry.connections[target],
                    message: OutboundView::Run { module, params },
                },
            ],
        ),
{
    let j = choose|j: int| 0 <= j < b.registry.targets.len() && b.registry.targets[j] == target;
    assert(b.registry.connections.contains_key(b.registry.targets[j]));
    lemma_deliveries_to_singleton(
        b.registry.connections,
        target,
        OutboundView::Run { module, params },
    );
}

/// Disconnecting a marked target sends exactly one presence update to every
/// controller (each still connected), in order, and each update carries a
/// target list that no longer includes the disconnected identity.
pub proof fn lemma_disconnect_target_updates_controllers(v: RegistryView, id: Seq<char>)
    requires
        v.inv(),
        v.targets.contains(id),
    ensures
        ({
            let (v2, d) = disconnect_spec(v, id);
            &&& v2.controllers == v.controllers
            &&& !v2.targets.contains(id)
            &&& d.len() == v.controllers.len()
            &&& forall|i: int|
                0 <= i < d.len() ==> d[i] == (DeliveryView {
                    sink: v.connections[v.controllers[i]],
                    message: OutboundView::ClientsUpdate { connected_clients: v2.targets },
                })
        }),
{
    let (v2, d) = disconnect_spec(v, id);
    let j = choose|j: int| 0 <= j < v.targets.len() && v.targets[j] == id;
    assert(!v.controllers.contains(v.targets[j]));
    lemma_remove_id_noop(v.controllers, id);
    lemma_remove_id_not_contains(v.targets, id);
    assert forall|i: int| 0 <= i < v2.controllers.len() implies v2.connections.contains_key(
        #[trigger] v2.controllers[i],
    ) by {
        assert(v.connections.contains_key(v.controllers[i]));
        assert(v.controllers[i] != id);
    }
    lemma_deliveries_to_all_connected(
        v2.connections,
        v2.controllers,
        OutboundView::ClientsUpdate { connected_clients: v2.targets },
    );
    assert forall|i: int| 0 <= i < d.len() implies d[i] == (DeliveryView {
        sink: v.connections[v.controllers[i]],
        message: OutboundView::ClientsUpdate { connected_clients: v2.targets },
    }) by {
        assert(v2.connections[v2.controllers[i]] == v.connections[v.controllers[i]]);
    }
}

/// Tearing down the same identity twice is harmless: the second call changes
/// nothing and sends nothing, so no duplicate broadcast can arise.
pub proof fn lemma_disconnect_idempotent(v: RegistryView, id: Seq<char>)
    ensures
        ({
            let (v1, d1) = disconnect_spec(v, id);
            let (v2, d2) = disconnect_spec(v1, id);
            &&& v2 == v1
            &&& d2 == Seq::<DeliveryView>::empty()
        }),
{
    let (v1, d1) = disconnect_spec(v, id);
    let (v2, d2) = disconnect_spec(v1, id);
    lemma_remove_id_not_contains(v.targets, id);
    lemma_remove_id_not_contains(v.controllers, id);
    lemma_remove_id_noop(v1.targets, id);
    lemma_remove_id_noop(v1.controllers, id);
    assert(v2.connections =~= v1.connections);
    assert(v2 =~= v1);
}

} // verus!

