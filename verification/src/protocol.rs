//! The wire protocol: the fixed action vocabulary, classified inbound
//! messages, outbound messages with their exact wire encoding, and
//! deliveries (an outbound message addressed to a sink).

use vstd::prelude::*;
use vstd::string::StringExecFns;
use crate::codec::{auth_key_of, json_str, json_string, parse_auth_key, parse_run_body, run_body_of};

verus! {

/// An inbound envelope after classification over the fixed action
/// vocabulary.  `Invalid` covers an unknown action as well as a known action
/// whose data does not have the required shape; both are dropped without
/// any effect.
pub enum Inbound {
    /// `auth_request`: a role assignment attempt with the shared secret.
    AuthRequest { app_key: String },
    /// `get_clients_request`: a controller asks for the current target list.
    GetClientsRequest,
    /// `run_request`: run `module` with `params` (JSON text) on `target`.
    RunRequest { target: String, module: String, params: String },
    /// `run_response`: a result (JSON text) to relay to all controllers.
    RunResponse { data: String },
    /// Anything else; dropped.
    Invalid,
}

/// The model of an [`Inbound`] message.
#[verifier::ext_equal]
pub ghost enum InboundView {
    AuthRequest { app_key: Seq<char> },
    GetClientsRequest,
    RunRequest { target: Seq<char>, module: Seq<char>, params: Seq<char> },
    RunResponse { data: Seq<char> },
    Invalid,
}

impl View for Inbound {
    type V = InboundView;

    open spec fn view(&self) -> InboundView {
        match self {
            Inbound::AuthRequest { app_key } => InboundView::AuthRequest { app_key: app_key@ },
            Inbound::GetClientsRequest => InboundView::GetClientsRequest,
            Inbound::RunRequest { target, module, params } => InboundView::RunRequest {
                target: target@,
                module: module@,
                params: params@,
            },
            Inbound::RunResponse { data } => InboundView::RunResponse { data: data@ },
            Inbound::Invalid => InboundView::Invalid,
        }
    }
}

/// A message the broker sends.  `params` and `data` fields carry JSON text
/// relayed verbatim; everything else is encoded by [`Outbound::to_json_string`].
pub enum Outbound {
    /// `run`, to the addressed target.
    Run { module: String, params: String },
    /// `run` with an error body, back to the requester.
    RunError { error: String },
    /// `run_response`, relayed to every controller.
    RunResponse { data: String },
    /// `clients_update`, the current target list, to every controller.
    ClientsUpdate { connected_clients: Vec<String> },
    /// The bare target list, to the controller that asked for it.
    ClientList { clients: Vec<String> },
}

/// The model of an [`Outbound`] message.
#[verifier::ext_equal]
pub ghost enum OutboundView {
    Run { module: Seq<char>, params: Seq<char> },
    RunError { error: Seq<char> },
    RunResponse { data: Seq<char> },
    ClientsUpdate { connected_clients: Seq<Seq<char>> },
    ClientList { clients: Seq<Seq<char>> },
}

impl View for Outbound {
    type V = OutboundView;

    open spec fn view(&self) -> OutboundView {
        match self {
            Outbound::Run { module, params } => OutboundView::Run {
                module: module@,
                params: params@,
            },
            Outbound::RunError { error } => OutboundView::RunError { error: error@ },
            Outbound::RunResponse { data } => OutboundView::RunResponse { data: data@ },
            Outbound::ClientsUpdate { connected_clients } => OutboundView::ClientsUpdate {
                connected_clients: connected_clients.deep_view(),
            },
            Outbound::ClientList { clients } => OutboundView::ClientList {
                clients: clients.deep_view(),
            },
        }
    }
}

/// An outbound message addressed to a sink token.
pub struct Delivery {
    pub sink: u64,
    pub message: Outbound,
}

/// The model of a [`Delivery`].
#[verifier::ext_equal]
pub ghost struct DeliveryView {
    pub sink: u64,
    pub message: OutboundView,
}

impl View for Delivery {
    type V = DeliveryView;

    open spec fn view(&self) -> DeliveryView {
        DeliveryView { sink: self.sink, message: self.message@ }
    }
}

impl DeepView for Delivery {
    type V = DeliveryView;

    open spec fn deep_view(&self) -> DeliveryView {
        self.view()
    }
}

/// How an envelope with the given action and data text classifies.
pub open spec fn classify_spec(action: Seq<char>, data: Seq<char>) -> InboundView {
    if action == "auth_request"@ {
        match auth_key_of(data) {
            Some(k) => InboundView::AuthRequest { app_key: k },
            None => InboundView::Invalid,
        }
    } else if action == "get_clients_request"@ {
        InboundView::GetClientsRequest
    } else if action == "run_request"@ {
        match run_body_of(data) {
            Some(b) => InboundView::RunRequest { target: b.0, module: b.1, params: b.2 },
            None => InboundView::Invalid,
        }
    } else if action == "run_response"@ {
        InboundView::RunResponse { data }
    } else {
        InboundView::Invalid
    }
}

/// Classifies a decoded envelope over the fixed, case-sensitive action
/// vocabulary, decoding the action-specific data shape.
pub fn classify(action: &String, data: &String) -> (r: Inbound)
    ensures
        r@ == classify_spec(action@, data@),
{
    let auth = "auth_request".to_owned();
    let get_clients = "get_clients_request".to_owned();
    let run_request = "run_request".to_owned();
    let run_response = "run_response".to_owned();
    if *action == auth {
        match parse_auth_key(data.as_str()) {
            Some(app_key) => Inbound::AuthRequest { app_key },
            None => Inbound::Invalid,
        }
    } else if *action == get_clients {
        Inbound::GetClientsRequest
    } else if *action == run_request {
        match parse_run_body(data.as_str()) {
            Some((target, module, params)) => Inbound::RunRequest { target, module, params },
            None => Inbound::Invalid,
        }
    } else if *action == run_response {
        Inbound::RunResponse { data: data.clone() }
    } else {
        Inbound::Invalid
    }
}

/// The items of a JSON array of strings, comma-separated.
pub open spec fn json_str_list(items: Seq<Seq<char>>) -> Seq<char>
    decreases items.len(),
{
    if items.len() == 0 {
        Seq::empty()
    } else if items.len() == 1 {
        json_str(items[0])
    } else {
        json_str_list(items.drop_last()) + ","@ + json_str(items.last())
    }
}

/// The JSON array of the given strings.
pub open spec fn json_str_array(items: Seq<Seq<char>>) -> Seq<char> {
    "["@ + json_str_list(items) + "]"@
}

/// The exact wire text of an outbound message.
pub open spec fn wire_of(m: OutboundView) -> Seq<char> {
    match m {
        OutboundView::Run { module, params } => "{\"action\":\"run\",\"data\":{\"module\":"@
            + json_str(module) + ",\"params\":"@ + params + "}}"@,
        OutboundView::RunError { error } => "{\"action\":\"run\",\"data\":{\"error\":"@ + json_str(
            error,
        ) + "}}"@,
        OutboundView::RunResponse { data } => "{\"action\":\"run_response\",\"data\":"@ + data
            + "}"@,
        OutboundView::ClientsUpdate { connected_clients } =>
            "{\"action\":\"clients_update\",\"data\":{\"connected_clients\":"@ + json_str_array(
            connected_clients,
        ) + "}}"@,
        OutboundView::ClientList { clients } => json_str_array(clients),
    }
}

/// Builds the JSON array of the given strings.
fn json_string_array(items: &Vec<String>) -> (r: String)
    ensures
        r@ == json_str_array(items.deep_view()),
{
    let ghost all = items.deep_view();
    let mut s = String::new();
    s.append("[");
    let mut i: usize = 0;
    while i < items.len()
        invariant
            i <= items.len(),
            all == items.deep_view(),
            s@ == "["@ + json_str_list(all.take(i as int)),
        decreases items.len() - i,
    {
        let ghost prefix = all.take(i as int);
        let ghost next = all.take(i + 1);
        proof {
            assert(next.drop_last() =~= prefix);
            assert(next.last() == all[i as int]);
        }
        if i > 0 {
            s.append(",");
        }
        let encoded = json_string(items[i].as_str());
        s.append(encoded.as_str());
        proof {
            if i == 0 {
                assert(json_str_list(next) == json_str(all[0]));
                assert(s@ =~= "["@ + json_str_list(next));
            } else {
                assert(json_str_list(next) == json_str_list(prefix) + ","@ + json_str(
                    all[i as int],
                ));
                assert(s@ =~= "["@ + json_str_list(next));
            }
        }
        i += 1;
    }
    s.append("]");
    proof {
        assert(all.take(items.len() as int) =~= all);
        assert(s@ =~= json_str_array(items.deep_view()));
    }
    s
}

impl Outbound {
    /// A copy with the same model.
    pub fn duplicate(&self) -> (r: Outbound)
        ensures
            r@ == self@,
    {
        match self {
            Outbound::Run { module, params } => Outbound::Run {
                module: module.clone(),
                params: params.clone(),
            },
            Outbound::RunError { error } => Outbound::RunError { error: error.clone() },
            Outbound::RunResponse { data } => Outbound::RunResponse { data: data.clone() },
            Outbound::ClientsUpdate { connected_clients } => Outbound::ClientsUpdate {
                connected_clients: crate::registry::clone_string_vec(connected_clients),
            },
            Outbound::ClientList { clients } => Outbound::ClientList {
                clients: crate::registry::clone_string_vec(clients),
            },
        }
    }

    /// The wire text of this message: the `{action, data}` envelope for the
    /// enveloped kinds, the bare JSON array for the client list.
    pub fn to_json_string(&self) -> (r: String)
        ensures
            r@ == wire_of(self@),
    {
        match self {
            Outbound::Run { module, params } => {
                let mut s = String::new();
                s.append("{\"action\":\"run\",\"data\":{\"module\":");
                let m = json_string(module.as_str());
                s.append(m.as_str());
                s.append(",\"params\":");
                s.append(params.as_str());
                s.append("}}");
                proof {
                    assert(s@ =~= wire_of(self@));
                }
                s
            },
            Outbound::RunError { error } => {
                let mut s = String::new();
                s.append("{\"action\":\"run\",\"data\":{\"error\":");
                let e = json_string(error.as_str());
                s.append(e.as_str());
                s.append("}}");
                proof {
                    assert(s@ =~= wire_of(self@));
                }
                s
            },
            Outbound::RunResponse { data } => {
                let mut s = String::new();
                s.append("{\"action\":\"run_response\",\"data\":");
                s.append(data.as_str());
                s.append("}");
                proof {
                    assert(s@ =~= wire_of(self@));
                }
                s
            },
            Outbound::ClientsUpdate { connected_clients } => {
                let mut s = String::new();
                s.append("{\"action\":\"clients_update\",\"data\":{\"connected_clients\":");
                let a = json_string_array(connected_clients);
                s.append(a.as_str());
                s.append("}}");
                proof {
                    assert(s@ =~= wire_of(self@));
                }
                s
            },
            Outbound::ClientList { clients } => {
                let a = json_string_array(clients);
                proof {
                    assert(a@ =~= wire_of(self@));
                }
                a
            },
        }
    }
}

} // verus!
