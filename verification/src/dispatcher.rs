//! The broker itself: it owns the presence registry and the two shared
//! secrets, classifies each inbound envelope, and answers with the registry
//! mutation plus the exact deliveries to make.
//!
//! Delivery is best-effort by design: a recipient that is no longer in the
//! connection map is skipped, never reported as an error; its own
//! supervisor tears it down.  The caller performs the sink writes.

use vstd::prelude::*;
use crate::codec::{envelope_of, parse_envelope};
use crate::protocol::{classify, classify_spec, Delivery, DeliveryView, Inbound, InboundView, Outbound, OutboundView};
use crate::registry::{mark_role_spec, unregister_spec, Registry, RegistryView, Role};

verus! {

/// The model of a [`RequestsHandler`]: the registry model plus the two
/// configured secrets.
#[verifier::ext_equal]
pub ghost struct BrokerView {
    pub registry: RegistryView,
    pub client_key: Seq<char>,
    pub admin_key: Seq<char>,
}

/// One delivery per connected recipient, in recipient order: recipients
/// absent from the connection map are skipped (best-effort delivery), the
/// rest get `msg` addressed to their sink.
pub open spec fn deliveries_to(
    conns: Map<Seq<char>, u64>,
    recipients: Seq<Seq<char>>,
    msg: OutboundView,
) -> Seq<DeliveryView>
    decreases recipients.len(),
{
    if recipients.len() == 0 {
        Seq::empty()
    } else {
        let rest = deliveries_to(conns, recipients.drop_last(), msg);
        let last = recipients.last();
        if conns.contains_key(last) {
            rest.push(DeliveryView { sink: conns[last], message: msg })
        } else {
            rest
        }
    }
}

/// What handling one classified message does: the registry afterwards, and
/// the deliveries to make.
///
/// - `AuthRequest`: a key equal to the client secret (checked first) marks
///   the sender as a target and announces the new target list to every
///   controller; the admin secret marks the sender as a controller, silently;
///   any other key changes nothing.  Marking itself is a no-op when the
///   sender is not connected, but the client-key announcement is sent either
///   way.
/// - `GetClientsRequest`: honored only for a controller, which alone
///   receives the bare target list.
/// - `RunRequest`: to a marked target, one `run` envelope to that target;
///   otherwise one `run` error envelope back to the sender.  The sender's
///   own role is deliberately not checked, mirroring the relay's permissive
///   routing.
/// - `RunResponse`: relayed verbatim to every controller, again with no
///   sender-role check.
/// - `Invalid`: dropped.
pub open spec fn handle_spec(b: BrokerView, msg: InboundView, sender: Seq<char>) -> (
    RegistryView,
    Seq<DeliveryView>,
) {
    match msg {
        InboundView::AuthRequest { app_key } => {
            if app_key == b.client_key {
                let r = mark_role_spec(b.registry, sender, Role::Target);
                (
                    r,
                    deliveries_to(
                        r.connections,
                        r.controllers,
                        OutboundView::ClientsUpdate { connected_clients: r.targets },
                    ),
                )
            } else if app_key == b.admin_key {
                (mark_role_spec(b.registry, sender, Role::Controller), Seq::empty())
            } else {
                (b.registry, Seq::empty())
            }
        },
        InboundView::GetClientsRequest => {
            if b.registry.controllers.contains(sender) {
                (
                    b.registry,
                    deliveries_to(
                        b.registry.connections,
                        seq![sender],
                        OutboundView::ClientList { clients: b.registry.targets },
                    ),
                )
            } else {
                (b.registry, Seq::empty())
            }
        },
        InboundView::RunRequest { target, module, params } => {
            if b.registry.targets.contains(target) {
                (
                    b.registry,
                    deliveries_to(
                        b.registry.connections,
                        seq![target],
                        OutboundView::Run { module, params },
                    ),
                )
            } else {
                (
                    b.registry,
                    deliveries_to(
                        b.registry.connections,
                        seq![sender],
                        OutboundView::RunError { error: "Target isn't a client"@ },
                    ),
                )
            }
        },
        InboundView::RunResponse { data } => {
            (
                b.registry,
                deliveries_to(
                    b.registry.connections,
                    b.registry.controllers,
                    OutboundView::RunResponse { data },
                ),
            )
        },
        InboundView::Invalid => (b.registry, Seq::empty()),
    }
}

/// What a disconnect does: the identity leaves the whole registry, and, when
/// it was a marked target, the shrunken target list is announced to every
/// remaining controller.
pub open spec fn disconnect_spec(v: RegistryView, id: Seq<char>) -> (
    RegistryView,
    Seq<DeliveryView>,
) {
    let v2 = unregister_spec(v, id);
    if v.targets.contains(id) {
        (
            v2,
            deliveries_to(
                v2.connections,
                v2.controllers,
                OutboundView::ClientsUpdate { connected_clients: v2.targets },
            ),
        )
    } else {
        (v2, Seq::empty())
    }
}

/// What handling raw wire text does: nothing at all when it does not decode
/// as an envelope, otherwise [`handle_spec`] of its classification.
pub open spec fn handle_request_spec(b: BrokerView, raw: Seq<char>, sender: Seq<char>) -> (
    RegistryView,
    Seq<DeliveryView>,
) {
    match envelope_of(raw) {
        Some(env) => handle_spec(b, classify_spec(env.0, env.1), sender),
        None => (b.registry, Seq::empty()),
    }
}

/// One delivery of `message` to each connected identity of `usernames`, in
/// order, skipping the rest.
fn send_messages(registry: &Registry, usernames: &Vec<String>, message: &Outbound) -> (d: Vec<
    Delivery,
>)
    ensures
        d.deep_view() == deliveries_to(registry@.connections, usernames.deep_view(), message@),
{
    let ghost all = usernames.deep_view();
    let mut d: Vec<Delivery> = Vec::new();
    let mut i: usize = 0;
    while i < usernames.len()
        invariant
            i <= usernames.len(),
            all == usernames.deep_view(),
            d.deep_view() == deliveries_to(registry@.connections, all.take(i as int), message@),
        decreases usernames.len() - i,
    {
        let ghost prefix = all.take(i as int);
        let ghost next = all.take(i + 1);
        proof {
            assert(next.drop_last() =~= prefix);
            assert(next.last() == all[i as int]);
        }
        match registry.lookup_sink(&usernames[i]) {
            Some(sink) => {
                let ghost before = d.deep_view();
                d.push(Delivery { sink, message: message.duplicate() });
                proof {
                    assert(d.deep_view() =~= before.push(
                        DeliveryView { sink, message: message@ },
                    ));
                }
            },
            None => {},
        }
        i += 1;
    }
    proof {
        assert(all.take(usernames.len() as int) =~= all);
    }
    d
}

/// The connection-and-routing broker.
pub struct RequestsHandler {
    registry: Registry,
    client_key: String,
    admin_key: String,
}

impl View for RequestsHandler {
    type V = BrokerView;

    closed spec fn view(&self) -> BrokerView {
        BrokerView {
            registry: self.registry@,
            client_key: self.client_key@,
            admin_key: self.admin_key@,
        }
    }
}

/// The two configured secrets are never touched by any operation.
pub open spec fn same_keys(a: BrokerView, b: BrokerView) -> bool {
    a.client_key == b.client_key && b.admin_key == a.admin_key
}

impl RequestsHandler {
    /// A broker with an empty registry and the two given shared secrets:
    /// the client key marks targets, the admin key marks controllers.
    pub fn new(client_key: String, admin_key: String) -> (r: RequestsHandler)
        ensures
            r@.registry == RegistryView::empty(),
            r@.client_key == client_key@,
            r@.admin_key == admin_key@,
    {
        RequestsHandler { registry: Registry::new(), client_key, admin_key }
    }

    /// Read access to the registry, for callers that track presence.
    pub fn registry(&self) -> (r: &Registry)
        ensures
            r@ == self@.registry,
    {
        &self.registry
    }

    /// A new connection claiming `username`: its sink is recorded,
    /// overwriting any sink a previous connection registered under the same
    /// identity.
    pub fn handle_new_socket_connection(&mut self, username: &String, sink: u64)
        ensures
            final(self)@.registry == crate::registry::register_spec(
                old(self)@.registry,
                username@,
                sink,
            ),
            same_keys(old(self)@, final(self)@),
    {
        self.registry.register(username, sink);
    }

    /// A connection for `username` ended: every trace of the identity leaves
    /// the registry, and controllers are told when a target went away.
    /// Idempotent: a second call returns no deliveries and changes nothing.
    pub fn handle_disconnected_socket(&mut self, username: &String) -> (d: Vec<Delivery>)
        ensures
            final(self)@.registry == disconnect_spec(old(self)@.registry, username@).0,
            d.deep_view() == disconnect_spec(old(self)@.registry, username@).1,
            same_keys(old(self)@, final(self)@),
    {
        let was_target = self.registry.contains_role(username, Role::Target);
        self.registry.unregister(username);
        if was_target {
            self.send_clients_updates()
        } else {
            Vec::new()
        }
    }

    /// One raw inbound frame from `username`: decoded, classified and
    /// handled.  Text that is not an envelope is dropped without effect;
    /// the effect of everything else is [`handle_request_spec`].
    pub fn handle_request(&mut self, raw: &String, username: &String) -> (d: Vec<Delivery>)
        ensures
            final(self)@.registry == handle_request_spec(old(self)@, raw@, username@).0,
            d.deep_view() == handle_request_spec(old(self)@, raw@, username@).1,
            same_keys(old(self)@, final(self)@),
    {
        match parse_envelope(raw.as_str()) {
            Some((action, data)) => {
                let message = classify(&action, &data);
                self.handle_inbound(message, username)
            },
            None => Vec::new(),
        }
    }

    /// One classified message from `sender`; the effect is [`handle_spec`].
    pub fn handle_inbound(&mut self, message: Inbound, sender: &String) -> (d: Vec<Delivery>)
        ensures
            final(self)@.registry == handle_spec(old(self)@, message@, sender@).0,
            d.deep_view() == handle_spec(old(self)@, message@, sender@).1,
            same_keys(old(self)@, final(self)@),
    {
        match message {
            Inbound::AuthRequest { app_key } => self.handle_auth_request(&app_key, sender),
            Inbound::GetClientsRequest => self.handle_get_clients_request(sender),
            Inbound::RunRequest { target, module, params } => self.handle_run_request(
                target,
                module,
                params,
                sender,
            ),
            Inbound::RunResponse { data } => self.handle_run_response(data),
            Inbound::Invalid => Vec::new(),
        }
    }

    /// The current target list, announced to every controller.
    fn send_clients_updates(&self) -> (d: Vec<Delivery>)
        ensures
            d.deep_view() == deliveries_to(
                self@.registry.connections,
                self@.registry.controllers,
                OutboundView::ClientsUpdate { connected_clients: self@.registry.targets },
            ),
    {
        let controllers = self.registry.snapshot_role(Role::Controller);
        let clients = self.registry.snapshot_role(Role::Target);
        let message = Outbound::ClientsUpdate { connected_clients: clients };
        send_messages(&self.registry, &controllers, &message)
    }

    /// An auth attempt: the client secret marks `sender` a target and
    /// announces the new target list; the admin secret marks it a
    /// controller; a wrong key changes nothing and is not answered.
    fn handle_auth_request(&mut self, app_key: &String, sender: &String) -> (d: Vec<Delivery>)
        ensures
            final(self)@.registry == handle_spec(
                old(self)@,
                InboundView::AuthRequest { app_key: app_key@ },
                sender@,
            ).0,
            d.deep_view() == handle_spec(
                old(self)@,
                InboundView::AuthRequest { app_key: app_key@ },
                sender@,
            ).1,
            same_keys(old(self)@, final(self)@),
    {
        if *app_key == self.client_key {
            self.registry.mark_role(sender, Role::Target);
            self.send_clients_updates()
        } else if *app_key == self.admin_key {
            self.registry.mark_role(sender, Role::Controller);
            Vec::new()
        } else {
            Vec::new()
        }
    }

    /// The target list, sent back to `sender` alone, and only when `sender`
    /// is a controller; anyone else is ignored.
    fn handle_get_clients_request(&self, sender: &String) -> (d: Vec<Delivery>)
        ensures
            d.deep_view() == handle_spec(self@, InboundView::GetClientsRequest, sender@).1,
    {
        if !self.registry.contains_role(sender, Role::Controller) {
            return Vec::new();
        }
        let clients = self.registry.snapshot_role(Role::Target);
        let message = Outbound::ClientList { clients };
        let mut recipients: Vec<String> = Vec::new();
        recipients.push(sender.clone());
        let d = send_messages(&self.registry, &recipients, &message);
        proof {
            assert(recipients.deep_view() =~= seq![sender@]);
        }
        d
    }

    /// A run request: forwarded to `target` when it is a marked target,
    /// otherwise answered to `sender` with the error envelope.  The sender's
    /// role is not checked.
    fn handle_run_request(
        &self,
        target: String,
        module: String,
        params: String,
        sender: &String,
    ) -> (d: Vec<Delivery>)
        ensures
            d.deep_view() == handle_spec(
                self@,
                InboundView::RunRequest { target: target@, module: module@, params: params@ },
                sender@,
            ).1,
    {
        let ghost target_view = target@;
        if self.registry.contains_role(&target, Role::Target) {
            let message = Outbound::Run { module, params };
            let mut recipients: Vec<String> = Vec::new();
            recipients.push(target);
            let d = send_messages(&self.registry, &recipients, &message);
            proof {
                assert(recipients.deep_view() =~= seq![target_view]);
            }
            d
        } else {
            let message = Outbound::RunError { error: "Target isn't a client".to_owned() };
            let mut recipients: Vec<String> = Vec::new();
            recipients.push(sender.clone());
            let d = send_messages(&self.registry, &recipients, &message);
            proof {
                assert(recipients.deep_view() =~= seq![sender@]);
            }
            d
        }
    }

    /// A run response: relayed verbatim to every controller.  The sender's
    /// role is not checked.
    fn handle_run_response(&self, data: String) -> (d: Vec<Delivery>)
        ensures
            d.deep_view() == deliveries_to(
                self@.registry.connections,
                self@.registry.controllers,
                OutboundView::RunResponse { data: data@ },
            ),
    {
        let controllers = self.registry.snapshot_role(Role::Controller);
        let message = Outbound::RunResponse { data };
        send_messages(&self.registry, &controllers, &message)
    }
}

} // verus!
