//! The client: connection status machine, stream-sense and timer decisions,
//! frame dispatch into the subscription registry, and the public entry
//! points around them.

use vstd::prelude::*;

use crate::client_listener::ClientListener;
use crate::connection_details::ConnectionDetails;
use crate::connection_options::ConnectionOptions;
use crate::item_update::{first_index_from, first_index_of};
use crate::message::{is_terminal, Message, MessageOutcome, MessageState, MessageView};
use crate::subscription::{update_accepted, CommandAction, SubEvent, Subscription, SubscriptionMode, SubscriptionView};
use crate::util::{clone_strings, lower_seq, parse_args_spec, parse_arguments, parse_usize, str_eq, str_eq_lower};
use crate::{IllegalArgumentException, IllegalStateException};

verus! {

/// The transport, or family of transports, the client is forced to use.
/// `Ws` and `Http` leave stream-sense enabled but restrict it to one
/// protocol; the four full combinations disable stream-sense altogether.
#[derive(Clone, Copy, Debug, PartialEq, Eq, Structural)]
pub enum Transport {
    /// WebSocket transports only, streaming or polling.
    Ws,
    /// HTTP transports only, streaming or polling.
    Http,
    /// Streaming over WebSocket only.
    WsStreaming,
    /// Streaming over HTTP only.
    HttpStreaming,
    /// Polling over WebSocket only.
    WsPolling,
    /// Polling over HTTP only.
    HttpPolling,
}

/// The connection status of a client: one of the ten documented states.
#[derive(Clone, Copy, Debug, PartialEq, Eq, Structural)]
pub enum ClientStatus {
    /// No connection, and none will be attempted until `connect`.
    Disconnected,
    /// The connection dropped; a new attempt will be made.
    DisconnectedWillRetry,
    /// The connection dropped; the client tries to recover the session.
    DisconnectedTryingRecovery,
    /// A connection attempt is in progress.
    Connecting,
    /// A first answer arrived; the client probes for a usable stream.
    ConnectedStreamSensing,
    /// A streaming connection over WebSocket is established.
    ConnectedWsStreaming,
    /// A streaming connection over HTTP is established.
    ConnectedHttpStreaming,
    /// A polling connection over WebSocket is established.
    ConnectedWsPolling,
    /// A polling connection over HTTP is established.
    ConnectedHttpPolling,
    /// A streaming connection fell silent past the stalled timeout.
    Stalled,
}

/// The exact string each status reports through `on_status_change`.
pub open spec fn status_string(s: ClientStatus) -> Seq<char> {
    match s {
        ClientStatus::Disconnected => "DISCONNECTED"@,
        ClientStatus::DisconnectedWillRetry => "DISCONNECTED:WILL-RETRY"@,
        ClientStatus::DisconnectedTryingRecovery => "DISCONNECTED:TRYING-RECOVERY"@,
        ClientStatus::Connecting => "CONNECTING"@,
        ClientStatus::ConnectedStreamSensing => "CONNECTED:STREAM-SENSING"@,
        ClientStatus::ConnectedWsStreaming => "CONNECTED:WS-STREAMING"@,
        ClientStatus::ConnectedHttpStreaming => "CONNECTED:HTTP-STREAMING"@,
        ClientStatus::ConnectedWsPolling => "CONNECTED:WS-POLLING"@,
        ClientStatus::ConnectedHttpPolling => "CONNECTED:HTTP-POLLING"@,
        ClientStatus::Stalled => "STALLED"@,
    }
}

/// Status validity, first half: every status string is one of the ten
/// enumerated values.
pub proof fn lemma_status_string_valid(s: ClientStatus)
    ensures
        status_string(s) == "DISCONNECTED"@ || status_string(s) == "DISCONNECTED:WILL-RETRY"@
            || status_string(s) == "DISCONNECTED:TRYING-RECOVERY"@ || status_string(s)
            == "CONNECTING"@ || status_string(s) == "CONNECTED:STREAM-SENSING"@ || status_string(s)
            == "CONNECTED:WS-STREAMING"@ || status_string(s) == "CONNECTED:HTTP-STREAMING"@
            || status_string(s) == "CONNECTED:WS-POLLING"@ || status_string(s)
            == "CONNECTED:HTTP-POLLING"@ || status_string(s) == "STALLED"@,
{
}

/// Whether a status is one of the six connected states.
pub open spec fn is_connected(s: ClientStatus) -> bool {
    match s {
        ClientStatus::ConnectedStreamSensing => true,
        ClientStatus::ConnectedWsStreaming => true,
        ClientStatus::ConnectedHttpStreaming => true,
        ClientStatus::ConnectedWsPolling => true,
        ClientStatus::ConnectedHttpPolling => true,
        ClientStatus::Stalled => true,
        _ => false,
    }
}

/// Whether a status is one of the two streaming states.
pub open spec fn is_streaming(s: ClientStatus) -> bool {
    s == ClientStatus::ConnectedWsStreaming || s == ClientStatus::ConnectedHttpStreaming
}

/// The legal edges of the status machine.  Besides the canonical table —
/// connect, first answer, stream-sense outcome, stalling and its two exits,
/// recovery and its failure, slowing, server refusal and user disconnect —
/// a drop may take any state to a retry, and a rebind or a failed poll takes
/// a connected state back through `CONNECTING`.
pub open spec fn legal_edge(from: ClientStatus, to: ClientStatus) -> bool {
    ||| ((from == ClientStatus::Disconnected || from == ClientStatus::DisconnectedWillRetry) && to
        == ClientStatus::Connecting)
    ||| (from == ClientStatus::Connecting && to == ClientStatus::ConnectedStreamSensing)
    ||| (from == ClientStatus::ConnectedStreamSensing && (is_connected(to) && to
        != ClientStatus::Stalled && to != ClientStatus::ConnectedStreamSensing))
    ||| (is_streaming(from) && to == ClientStatus::Stalled)
    ||| (from == ClientStatus::Stalled && is_streaming(to))
    ||| (from == ClientStatus::Stalled && to == ClientStatus::DisconnectedTryingRecovery)
    ||| (from == ClientStatus::DisconnectedTryingRecovery && is_connected(to) && to
        != ClientStatus::Stalled)
    ||| (from == ClientStatus::DisconnectedTryingRecovery && to
        == ClientStatus::DisconnectedWillRetry)
    ||| (from == ClientStatus::ConnectedWsStreaming && to == ClientStatus::ConnectedWsPolling)
    ||| (from == ClientStatus::ConnectedHttpStreaming && to == ClientStatus::ConnectedHttpPolling)
    ||| (is_connected(from) && to == ClientStatus::Connecting)
    ||| (to == ClientStatus::Disconnected && from != ClientStatus::Disconnected)
    ||| (to == ClientStatus::DisconnectedWillRetry && from != ClientStatus::DisconnectedWillRetry
        && from != ClientStatus::Disconnected)
}

/// The connected status a concluded stream-sense lands in; the bare `Ws` and
/// `Http` families conclude in their streaming form.
pub open spec fn sensed_status(t: Transport) -> ClientStatus {
    match t {
        Transport::Ws => ClientStatus::ConnectedWsStreaming,
        Transport::Http => ClientStatus::ConnectedHttpStreaming,
        Transport::WsStreaming => ClientStatus::ConnectedWsStreaming,
        Transport::HttpStreaming => ClientStatus::ConnectedHttpStreaming,
        Transport::WsPolling => ClientStatus::ConnectedWsPolling,
        Transport::HttpPolling => ClientStatus::ConnectedHttpPolling,
    }
}

/// The 1-based slot of the first field of this name in a field list, as the
/// engine derives the key and command positions of a COMMAND subscription
/// built on a field list.
pub open spec fn named_position(fields: Seq<Seq<char>>, name: Seq<char>) -> Option<usize> {
    match first_index_of(fields, name) {
        Some(i) => Some((i + 1) as usize),
        None => None,
    }
}

/// The key and command positions a subscription answer establishes: the ones
/// the `SUBCMD` frame announces or, for a COMMAND subscription built on a
/// field list, the slots of its `key` and `command` fields.
pub open spec fn announced_position(
    is_subcmd: bool,
    frame_pos: Option<int>,
    s: SubscriptionView,
    name: Seq<char>,
) -> Option<usize> {
    if is_subcmd {
        if frame_pos is Some {
            Some(frame_pos.unwrap() as usize)
        } else {
            None
        }
    } else if s.mode == SubscriptionMode::Command && s.fields is Some {
        named_position(s.fields.unwrap(), name)
    } else {
        None
    }
}

/// One event reported to the client listeners, in dispatch order.
pub enum ClientEvent {
    /// `on_status_change` fired with this status.
    StatusEv(ClientStatus),
    /// `on_server_error` fired with this code and message.
    ServerErrorEv(i32, Seq<char>),
}

/// A client: the endpoint configuration, the policy knobs, the registered
/// subscriptions (their 1-based index is their subscription id), the client
/// listeners, and the connection status machine the session engine drives.
pub struct LightstreamerClient {
    /// The endpoint configuration of this client.
    pub connection_details: ConnectionDetails,
    /// The policy knobs of this client.
    pub connection_options: ConnectionOptions,
    subscriptions: Vec<Subscription>,
    listeners: Vec<Box<dyn ClientListener>>,
    status: ClientStatus,
    prev_streaming: ClientStatus,
    snapshot_done: Vec<(usize, usize)>,
    children: Vec<(usize, String, usize)>,
    messages: Vec<Message>,
    events: Ghost<Seq<ClientEvent>>,
}

impl LightstreamerClient {
    /// The current status.
    pub closed spec fn spec_status(&self) -> ClientStatus {
        self.status
    }

    /// The streaming status a stalled connection would return to.
    pub closed spec fn spec_prev_streaming(&self) -> ClientStatus {
        self.prev_streaming
    }

    /// The registered subscriptions, in registration order.
    pub closed spec fn spec_subscriptions(&self) -> Seq<Subscription> {
        self.subscriptions@
    }

    /// The registered client listeners, in registration order.
    pub closed spec fn spec_listeners(&self) -> Seq<Box<dyn ClientListener>> {
        self.listeners@
    }

    /// The policy knobs, as their mathematical content.
    pub closed spec fn spec_options(&self) -> crate::connection_options::ConnectionOptionsView {
        self.connection_options@
    }

    /// The events reported to the client listeners so far, in dispatch
    /// order.
    pub closed spec fn spec_events(&self) -> Seq<ClientEvent> {
        self.events@
    }

    /// The messages handed to `send_message`, in order; the 1-based index of
    /// a message is the number it carries on the wire.
    pub closed spec fn spec_messages(&self) -> Seq<Message> {
        self.messages@
    }

    /// Validity: every subscription is valid and the remembered pre-stall
    /// state is a streaming state.
    pub closed spec fn wf(&self) -> bool {
        &&& forall|i: int|
            0 <= i < self.subscriptions@.len() ==> (#[trigger] self.subscriptions@[i]).wf()
        &&& is_streaming(self.prev_streaming)
    }

    /// Creates a client for the given server address and adapter set, with
    /// optional credentials.  The address must carry the `http://` or
    /// `https://` scheme.
    pub fn new(
        server_address: Option<&str>,
        adapter_set: Option<&str>,
        user: Option<&str>,
        password: Option<&str>,
    ) -> (r: Result<LightstreamerClient, IllegalArgumentException>)
        ensures
            r is Ok <==> (server_address is Some
                ==> crate::connection_details::has_http_scheme(server_address.unwrap()@)),
            r is Ok ==> {
                let c = r.unwrap();
                &&& c.wf()
                &&& c.spec_status() == ClientStatus::Disconnected
                &&& c.spec_subscriptions().len() == 0
            },
    {
        let connection_details = match ConnectionDetails::new(
            server_address,
            adapter_set,
            user,
            password,
        ) {
            Ok(d) => d,
            Err(e) => {
                return Err(e);
            },
        };
        Ok(
            LightstreamerClient {
                connection_details,
                connection_options: ConnectionOptions::new(),
                subscriptions: Vec::new(),
                listeners: Vec::new(),
                status: ClientStatus::Disconnected,
                prev_streaming: ClientStatus::ConnectedWsStreaming,
                snapshot_done: Vec::new(),
                children: Vec::new(),
                messages: Vec::new(),
                events: Ghost(Seq::empty()),
            },
        )
    }

    /// The current status of the connection.
    pub fn get_status(&self) -> (r: ClientStatus)
        ensures
            r == self.spec_status(),
    {
        self.status
    }

    /// The current status as its documented string, always one of the ten
    /// enumerated values.
    pub fn status_name(&self) -> (r: String)
        ensures
            r@ == status_string(self.spec_status()),
    {
        match self.status {
            ClientStatus::Disconnected => "DISCONNECTED".to_owned(),
            ClientStatus::DisconnectedWillRetry => "DISCONNECTED:WILL-RETRY".to_owned(),
            ClientStatus::DisconnectedTryingRecovery => "DISCONNECTED:TRYING-RECOVERY".to_owned(),
            ClientStatus::Connecting => "CONNECTING".to_owned(),
            ClientStatus::ConnectedStreamSensing => "CONNECTED:STREAM-SENSING".to_owned(),
            ClientStatus::ConnectedWsStreaming => "CONNECTED:WS-STREAMING".to_owned(),
            ClientStatus::ConnectedHttpStreaming => "CONNECTED:HTTP-STREAMING".to_owned(),
            ClientStatus::ConnectedWsPolling => "CONNECTED:WS-POLLING".to_owned(),
            ClientStatus::ConnectedHttpPolling => "CONNECTED:HTTP-POLLING".to_owned(),
            ClientStatus::Stalled => "STALLED".to_owned(),
        }
    }

    /// Moves to a new status and reports it, as its documented string, to
    /// every client listener.
    fn set_status(&mut self, to: ClientStatus)
        requires
            legal_edge(old(self).spec_status(), to) || to == old(self).spec_status(),
        ensures
            final(self).spec_status() == to,
            final(self).spec_prev_streaming() == old(self).spec_prev_streaming(),
            final(self).spec_subscriptions() == old(self).spec_subscriptions(),
            final(self).spec_messages() == old(self).spec_messages(),
            final(self).spec_events() == old(self).spec_events().push(ClientEvent::StatusEv(to)),
            old(self).wf() ==> final(self).wf(),
            legal_edge(old(self).spec_status(), to) || to == old(self).spec_status(),
    {
        self.status = to;
        self.events = Ghost(self.events@.push(ClientEvent::StatusEv(to)));
        let name = self.status_name();
        let mut i: usize = 0;
        while i < self.listeners.len()
            decreases self.listeners.len() - i,
        {
            self.listeners[i].on_status_change(name.as_str());
            i = i + 1;
        }
    }

    /// Reports a server error to every client listener, and records the
    /// report.
    fn notify_server_error(&mut self, code: i32, message: &str)
        ensures
            final(self).spec_events() == old(self).spec_events().push(
                ClientEvent::ServerErrorEv(code, message@),
            ),
            final(self).spec_status() == old(self).spec_status(),
            final(self).spec_prev_streaming() == old(self).spec_prev_streaming(),
            final(self).spec_subscriptions() == old(self).spec_subscriptions(),
            old(self).wf() ==> final(self).wf(),
    {
        self.events = Ghost(self.events@.push(ClientEvent::ServerErrorEv(code, message@)));
        let mut i: usize = 0;
        while i < self.listeners.len()
            decreases self.listeners.len() - i,
        {
            self.listeners[i].on_server_error(code, message);
            i = i + 1;
        }
    }

    /// Adds a listener for client events; `on_listen_start` fires on it at
    /// once, as its first event.
    pub fn add_listener(&mut self, listener: Box<dyn ClientListener>)
        ensures
            final(self).spec_listeners() == old(self).spec_listeners().push(listener),
            final(self).spec_status() == old(self).spec_status(),
            final(self).spec_subscriptions() == old(self).spec_subscriptions(),
            old(self).wf() ==> final(self).wf(),
    {
        listener.on_listen_start();
        self.listeners.push(listener);
    }

    /// Removes the listener at the given registration position, firing
    /// `on_listen_end` on it as its last event, and hands it back.
    pub fn remove_listener(&mut self, index: usize) -> (r: Option<Box<dyn ClientListener>>)
        ensures
            r is Some <==> index < old(self).spec_listeners().len(),
            final(self).spec_status() == old(self).spec_status(),
            final(self).spec_subscriptions() == old(self).spec_subscriptions(),
            old(self).wf() ==> final(self).wf(),
    {
        if index < self.listeners.len() {
            let listener = self.listeners.remove(index);
            listener.on_listen_end();
            Some(listener)
        } else {
            None
        }
    }

    /// Registers a subscription and marks it active.  The 1-based
    /// subscription id it will carry on the wire is handed back.  A
    /// subscription that is already active is refused.
    pub fn subscribe(&mut self, subscription: Subscription) -> (r: Result<
        usize,
        IllegalStateException,
    >)
        requires
            old(self).wf(),
            subscription.wf(),
        ensures
            final(self).wf(),
            final(self).spec_status() == old(self).spec_status(),
            r is Ok <==> !subscription@.is_active,
            r is Ok ==> {
                &&& final(self).spec_subscriptions().len() == old(self).spec_subscriptions().len()
                    + 1
                &&& r.unwrap() == final(self).spec_subscriptions().len()
                // the registered subscription is the given one, now active
                &&& final(self).spec_subscriptions().last()@ == (SubscriptionView {
                    is_active: true,
                    ..subscription@
                })
                &&& forall|j: int|
                    0 <= j < old(self).spec_subscriptions().len() ==> final(self).spec_subscriptions()[j] == old(self).spec_subscriptions()[j]
            },
            r is Err ==> final(self).spec_subscriptions() == old(self).spec_subscriptions(),
    {
        let mut subscription = subscription;
        match subscription.activate() {
            Ok(()) => {},
            Err(e) => {
                return Err(e);
            },
        }
        self.subscriptions.push(subscription);
        proof {
            assert(forall|i: int|
                0 <= i < old(self).subscriptions@.len() ==> self.subscriptions@[i] == old(self).subscriptions@[i]);
        }
        Ok(self.subscriptions.len())
    }

    /// Closes a subscription: an established one leaves the server and its
    /// listeners see `on_unsubscription`; a merely active one goes back to
    /// inactive silently.  An unknown id is refused.
    pub fn unsubscribe(&mut self, sub_id: usize) -> (r: Result<(), IllegalStateException>)
        requires
            old(self).wf(),
        ensures
            final(self).wf(),
            final(self).spec_status() == old(self).spec_status(),
            r is Ok <==> (1 <= sub_id <= old(self).spec_subscriptions().len()),
            r is Err ==> final(self).spec_subscriptions() == old(self).spec_subscriptions(),
            r is Ok ==> {
                let before = old(self).spec_subscriptions()[sub_id - 1]@;
                let after = final(self).spec_subscriptions()[sub_id - 1]@;
                &&& final(self).spec_subscriptions().len() == old(self).spec_subscriptions().len()
                &&& forall|j: int|
                    0 <= j < old(self).spec_subscriptions().len() && j != sub_id - 1 ==> final(self).spec_subscriptions()[j] == old(self).spec_subscriptions()[j]
                // an established subscription leaves the server: flags drop,
                // caches empty, its listeners see the unsubscription
                &&& (before.is_subscribed ==> after == (SubscriptionView {
                    is_subscribed: false,
                    is_active: false,
                    values: Map::<(usize, usize), Seq<char>>::empty(),
                    command_values: Map::<(usize, usize, Seq<char>), Seq<char>>::empty(),
                    listeners: after.listeners,
                    history: before.history.push(SubEvent::Unsubscribed),
                    ..before
                }))
                // a merely active one goes back to inactive silently
                &&& (!before.is_subscribed ==> after == (SubscriptionView {
                    is_active: false,
                    ..before
                }))
            },
    {
        if sub_id == 0 || sub_id > self.subscriptions.len() {
            return Err(IllegalStateException::new("No subscription carries this id"));
        }
        let idx = sub_id - 1;
        if self.subscriptions[idx].is_subscribed() {
            self.subscriptions[idx].on_unsubscribed();
        } else {
            self.subscriptions[idx].deactivate();
        }
        proof {
            assert(forall|i: int|
                0 <= i < self.subscriptions@.len() && i != idx ==> self.subscriptions@[i] == old(self).subscriptions@[i]);
        }
        Ok(())
    }

    /// The subscription carrying the given 1-based id, for inquiry.
    pub fn get_subscription(&self, sub_id: usize) -> (r: Option<&Subscription>)
        ensures
            r is Some <==> 1 <= sub_id <= self.spec_subscriptions().len(),
            r is Some ==> *r.unwrap() == self.spec_subscriptions()[sub_id - 1],
    {
        if sub_id == 0 || sub_id > self.subscriptions.len() {
            return None;
        }
        Some(&self.subscriptions[sub_id - 1])
    }

    /// Starts a connection attempt: from the disconnected states the status
    /// moves to `CONNECTING`; a connected client keeps its session, so the
    /// call changes nothing.  A client without a server address is refused.
    pub fn connect(&mut self) -> (r: Result<(), IllegalStateException>)
        requires
            old(self).wf(),
        ensures
            final(self).wf(),
            r is Err ==> final(self).spec_status() == old(self).spec_status(),
            r is Ok ==> final(self).spec_status() == (if old(self).spec_status()
                == ClientStatus::Disconnected || old(self).spec_status()
                == ClientStatus::DisconnectedWillRetry {
                ClientStatus::Connecting
            } else {
                old(self).spec_status()
            }),
            r is Ok ==> final(self).spec_events() == (if old(self).spec_status()
                == ClientStatus::Disconnected || old(self).spec_status()
                == ClientStatus::DisconnectedWillRetry {
                old(self).spec_events().push(ClientEvent::StatusEv(ClientStatus::Connecting))
            } else {
                old(self).spec_events()
            }),
            legal_edge(old(self).spec_status(), final(self).spec_status()) || final(self).spec_status() == old(self).spec_status(),
    {
        if self.connection_details.get_server_address().is_none() {
            return Err(
                IllegalStateException::new("No server address was configured for this client"),
            );
        }
        if matches!(self.status, ClientStatus::Disconnected)
            || matches!(self.status, ClientStatus::DisconnectedWillRetry) {
            self.set_status(ClientStatus::Connecting);
        }
        Ok(())
    }

    /// Closes the session: the status drops to `DISCONNECTED` and every
    /// established subscription leaves with its `on_unsubscription`.  A
    /// disconnected client is left as it stands.
    pub fn disconnect(&mut self)
        requires
            old(self).wf(),
        ensures
            final(self).wf(),
            final(self).spec_status() == ClientStatus::Disconnected,
            legal_edge(old(self).spec_status(), final(self).spec_status()) || final(self).spec_status() == old(self).spec_status(),
            final(self).spec_subscriptions().len() == old(self).spec_subscriptions().len(),
            // every established subscription leaves: flags drop, caches
            // empty, its listeners see the unsubscription as the round's
            // last event
            forall|j: int|
                0 <= j < old(self).spec_subscriptions().len() && old(self).spec_subscriptions()[j]@.is_subscribed ==> (
                #[trigger] final(self).spec_subscriptions()[j])@ == (SubscriptionView {
                    is_subscribed: false,
                    is_active: false,
                    values: Map::<(usize, usize), Seq<char>>::empty(),
                    command_values: Map::<(usize, usize, Seq<char>), Seq<char>>::empty(),
                    listeners: final(self).spec_subscriptions()[j]@.listeners,
                    history: old(self).spec_subscriptions()[j]@.history.push(
                        SubEvent::Unsubscribed,
                    ),
                    ..old(self).spec_subscriptions()[j]@
                }),
            forall|j: int|
                0 <= j < old(self).spec_subscriptions().len() && !old(self).spec_subscriptions()[j]@.is_subscribed ==> (#[trigger] final(self).spec_subscriptions()[j]) == old(self).spec_subscriptions()[j],
            // every live message is aborted, with whether its bytes had gone
            // out; settled messages are left alone
            final(self).spec_messages().len() == old(self).spec_messages().len(),
            forall|j: int|
                0 <= j < old(self).spec_messages().len() && !is_terminal(
                    old(self).spec_messages()[j]@.state,
                ) ==> (#[trigger] final(self).spec_messages()[j])@ == (MessageView {
                    state: MessageState::Aborted,
                    outcomes: old(self).spec_messages()[j]@.outcomes.push(
                        MessageOutcome::AbortedEv(
                            old(self).spec_messages()[j]@.state == MessageState::OnNetwork,
                        ),
                    ),
                    ..old(self).spec_messages()[j]@
                }),
            forall|j: int|
                0 <= j < old(self).spec_messages().len() && is_terminal(
                    old(self).spec_messages()[j]@.state,
                ) ==> (#[trigger] final(self).spec_messages()[j]) == old(self).spec_messages()[j],
    {
        let m = self.messages.len();
        let mut k: usize = 0;
        while k < m
            invariant
                m == self.messages@.len(),
                m == old(self).messages@.len(),
                0 <= k <= m,
                self.spec_status() == old(self).spec_status(),
                self.spec_prev_streaming() == old(self).spec_prev_streaming(),
                self.spec_subscriptions() == old(self).spec_subscriptions(),
                is_streaming(self.spec_prev_streaming()) || !old(self).wf(),
                old(self).wf() ==> self.wf(),
                forall|j: int|
                    k <= j < m ==> (#[trigger] self.messages@[j]) == old(self).messages@[j],
                forall|j: int|
                    0 <= j < k && !is_terminal(old(self).messages@[j]@.state) ==> (
                    #[trigger] self.messages@[j])@ == (MessageView {
                        state: MessageState::Aborted,
                        outcomes: old(self).messages@[j]@.outcomes.push(
                            MessageOutcome::AbortedEv(
                                old(self).messages@[j]@.state == MessageState::OnNetwork,
                            ),
                        ),
                        ..old(self).messages@[j]@
                    }),
                forall|j: int|
                    0 <= j < k && is_terminal(old(self).messages@[j]@.state) ==> (
                    #[trigger] self.messages@[j]) == old(self).messages@[j],
            decreases m - k,
        {
            let live = matches!(self.messages[k].get_state(), MessageState::Pending) || matches!(
                self.messages[k].get_state(),
                MessageState::OnNetwork,
            );
            if live {
                self.messages[k].complete_aborted();
            }
            k = k + 1;
        }
        let ghost msgs_after = self.messages@;
        let n = self.subscriptions.len();
        let mut i: usize = 0;
        while i < n
            invariant
                n == self.subscriptions@.len(),
                n == old(self).subscriptions@.len(),
                0 <= i <= n,
                self.messages@ == msgs_after,
                is_streaming(self.spec_prev_streaming()),
                self.spec_status() == old(self).spec_status(),
                forall|j: int|
                    0 <= j < self.subscriptions@.len() ==> (
                    #[trigger] self.subscriptions@[j]).wf(),
                forall|j: int|
                    i <= j < n ==> (#[trigger] self.subscriptions@[j]) == old(self).subscriptions@[j],
                forall|j: int|
                    0 <= j < i && old(self).subscriptions@[j]@.is_subscribed ==> (
                    #[trigger] self.subscriptions@[j])@ == (SubscriptionView {
                        is_subscribed: false,
                        is_active: false,
                        values: Map::<(usize, usize), Seq<char>>::empty(),
                        command_values: Map::<(usize, usize, Seq<char>), Seq<char>>::empty(),
                        listeners: self.subscriptions@[j]@.listeners,
                        history: old(self).subscriptions@[j]@.history.push(
                            SubEvent::Unsubscribed,
                        ),
                        ..old(self).subscriptions@[j]@
                    }),
                forall|j: int|
                    0 <= j < i && !old(self).subscriptions@[j]@.is_subscribed ==> (
                    #[trigger] self.subscriptions@[j]) == old(self).subscriptions@[j],
            decreases n - i,
        {
            if self.subscriptions[i].is_subscribed() {
                self.subscriptions[i].on_unsubscribed();
            }
            proof {
                assert(forall|j: int|
                    0 <= j < self.subscriptions@.len() ==> (
                    #[trigger] self.subscriptions@[j]).wf());
            }
            i = i + 1;
        }
        if !matches!(self.status, ClientStatus::Disconnected) {
            self.set_status(ClientStatus::Disconnected);
        }
    }

    /// Concludes the stream-sense probe: from `CONNECTED:STREAM-SENSING` the
    /// status moves to the connected state of the sensed transport; in any
    /// other state the probe is stale and changes nothing.
    pub fn on_stream_sense_concluded(&mut self, transport: Transport)
        requires
            old(self).wf(),
        ensures
            final(self).wf(),
            old(self).spec_status() == ClientStatus::ConnectedStreamSensing ==> final(self).spec_status() == sensed_status(transport) && final(self).spec_events() == old(self).spec_events().push(ClientEvent::StatusEv(sensed_status(transport))),
            old(self).spec_status() != ClientStatus::ConnectedStreamSensing ==> final(self).spec_status() == old(self).spec_status() && final(self).spec_events() == old(self).spec_events(),
            legal_edge(old(self).spec_status(), final(self).spec_status()) || final(self).spec_status() == old(self).spec_status(),
    {
        if !matches!(self.status, ClientStatus::ConnectedStreamSensing) {
            return ;
        }
        let to = match transport {
            Transport::Ws => ClientStatus::ConnectedWsStreaming,
            Transport::Http => ClientStatus::ConnectedHttpStreaming,
            Transport::WsStreaming => ClientStatus::ConnectedWsStreaming,
            Transport::HttpStreaming => ClientStatus::ConnectedHttpStreaming,
            Transport::WsPolling => ClientStatus::ConnectedWsPolling,
            Transport::HttpPolling => ClientStatus::ConnectedHttpPolling,
        };
        if matches!(to, ClientStatus::ConnectedWsStreaming) || matches!(
            to,
            ClientStatus::ConnectedHttpStreaming,
        ) {
            self.prev_streaming = to;
        }
        self.set_status(to);
    }

    /// Acts on silence on a streaming connection: `elapsed_ms` milliseconds
    /// have passed since the last byte arrived.  Past the expected keepalive
    /// plus the stalled timeout, the status moves to `STALLED`; past the
    /// expected keepalive plus the reconnect timeout, the stalled connection
    /// is given up and session recovery starts.
    pub fn on_silence(&mut self, elapsed_ms: u64)
        requires
            old(self).wf(),
        ensures
            final(self).wf(),
            legal_edge(old(self).spec_status(), final(self).spec_status()) || final(self).spec_status() == old(self).spec_status(),
            final(self).spec_subscriptions() == old(self).spec_subscriptions(),
            ({
                let k = old(self).spec_options().keepalive_interval;
                let st = old(self).spec_options().stalled_timeout;
                let rc = old(self).spec_options().reconnect_timeout;
                &&& (is_streaming(old(self).spec_status()) && elapsed_ms >= k + st ==> final(self).spec_status() == ClientStatus::Stalled && final(self).spec_prev_streaming()
                    == old(self).spec_status() && final(self).spec_events() == old(self).spec_events().push(ClientEvent::StatusEv(ClientStatus::Stalled)))
                &&& (is_streaming(old(self).spec_status()) && elapsed_ms < k + st ==> final(self).spec_status() == old(self).spec_status() && final(self).spec_prev_streaming()
                    == old(self).spec_prev_streaming())
                &&& (old(self).spec_status() == ClientStatus::Stalled && elapsed_ms >= k + rc
                    ==> final(self).spec_status() == ClientStatus::DisconnectedTryingRecovery
                    && final(self).spec_events() == old(self).spec_events().push(
                    ClientEvent::StatusEv(ClientStatus::DisconnectedTryingRecovery),
                ))
                &&& (old(self).spec_status() == ClientStatus::Stalled && elapsed_ms < k + rc
                    ==> final(self).spec_status() == ClientStatus::Stalled)
                &&& (!is_streaming(old(self).spec_status()) && old(self).spec_status()
                    != ClientStatus::Stalled ==> final(self).spec_status() == old(self).spec_status() && final(self).spec_prev_streaming() == old(self).spec_prev_streaming())
            }),
    {
        let keepalive = self.connection_options.get_keepalive_interval();
        let stalled = self.connection_options.get_stalled_timeout();
        let reconnect = self.connection_options.get_reconnect_timeout();
        let is_streaming_now = matches!(self.status, ClientStatus::ConnectedWsStreaming)
            || matches!(self.status, ClientStatus::ConnectedHttpStreaming);
        if is_streaming_now && elapsed_ms as u128 >= keepalive as u128 + stalled as u128 {
            self.prev_streaming = self.status;
            self.set_status(ClientStatus::Stalled);
        } else if matches!(self.status, ClientStatus::Stalled) && elapsed_ms as u128
            >= keepalive as u128 + reconnect as u128 {
            self.set_status(ClientStatus::DisconnectedTryingRecovery);
        }
    }

    /// Acts on elapsed recovery time: past the session recovery timeout the
    /// recovery attempt is abandoned for a fresh retry.
    pub fn on_recovery_elapsed(&mut self, elapsed_ms: u64)
        requires
            old(self).wf(),
        ensures
            final(self).wf(),
            legal_edge(old(self).spec_status(), final(self).spec_status()) || final(self).spec_status() == old(self).spec_status(),
            final(self).spec_subscriptions() == old(self).spec_subscriptions(),
            final(self).spec_prev_streaming() == old(self).spec_prev_streaming(),
            (old(self).spec_status() == ClientStatus::DisconnectedTryingRecovery && elapsed_ms
                >= old(self).spec_options().session_recovery_timeout) ==> final(self).spec_status() == ClientStatus::DisconnectedWillRetry,
            !(old(self).spec_status() == ClientStatus::DisconnectedTryingRecovery && elapsed_ms
                >= old(self).spec_options().session_recovery_timeout) ==> final(self).spec_status() == old(self).spec_status(),
    {
        let timeout = self.connection_options.get_session_recovery_timeout();
        if matches!(self.status, ClientStatus::DisconnectedTryingRecovery) && elapsed_ms
            >= timeout {
            self.set_status(ClientStatus::DisconnectedWillRetry);
        }
    }

    /// Acts on a dropped transport: any live state falls back to a retry.
    pub fn on_connection_lost(&mut self)
        requires
            old(self).wf(),
        ensures
            final(self).wf(),
            legal_edge(old(self).spec_status(), final(self).spec_status()) || final(self).spec_status() == old(self).spec_status(),
            final(self).spec_subscriptions() == old(self).spec_subscriptions(),
            final(self).spec_prev_streaming() == old(self).spec_prev_streaming(),
            (old(self).spec_status() != ClientStatus::Disconnected && old(self).spec_status()
                != ClientStatus::DisconnectedWillRetry) ==> final(self).spec_status()
                == ClientStatus::DisconnectedWillRetry,
            (old(self).spec_status() == ClientStatus::Disconnected || old(self).spec_status()
                == ClientStatus::DisconnectedWillRetry) ==> final(self).spec_status() == old(self).spec_status(),
    {
        if !matches!(self.status, ClientStatus::Disconnected) && !matches!(
            self.status,
            ClientStatus::DisconnectedWillRetry,
        ) {
            self.set_status(ClientStatus::DisconnectedWillRetry);
        }
    }

    /// Accepts a message for sending and assigns it the 1-based number it
    /// carries on the wire (`message_request` takes it as `msg_num`).  The
    /// transport reports the bytes out through `mark_message_sent`, and the
    /// server's answer arrives as a `MSGDONE` or `MSGFAIL` frame; a session
    /// close aborts every live message.
    pub fn send_message(&mut self, message: Message) -> (r: usize)
        requires
            old(self).wf(),
        ensures
            final(self).wf(),
            final(self).spec_status() == old(self).spec_status(),
            final(self).spec_subscriptions() == old(self).spec_subscriptions(),
            final(self).spec_messages() == old(self).spec_messages().push(message),
            r == final(self).spec_messages().len(),
    {
        self.messages.push(message);
        self.messages.len()
    }

    /// Records that the bytes of a message went out; stale or unknown
    /// numbers change nothing.
    pub fn mark_message_sent(&mut self, msg_num: usize)
        requires
            old(self).wf(),
        ensures
            final(self).wf(),
            final(self).spec_status() == old(self).spec_status(),
            final(self).spec_subscriptions() == old(self).spec_subscriptions(),
            final(self).spec_messages().len() == old(self).spec_messages().len(),
            forall|j: int|
                0 <= j < old(self).spec_messages().len() && j != msg_num - 1 ==> final(self).spec_messages()[j] == old(self).spec_messages()[j],
            (1 <= msg_num <= old(self).spec_messages().len() && old(self).spec_messages()[msg_num
                - 1]@.state == MessageState::Pending) ==> final(self).spec_messages()[msg_num
                - 1]@ == (MessageView {
                state: MessageState::OnNetwork,
                ..old(self).spec_messages()[msg_num - 1]@
            }),
            !(1 <= msg_num <= old(self).spec_messages().len() && old(self).spec_messages()[msg_num
                - 1]@.state == MessageState::Pending) ==> final(self).spec_messages() == old(self).spec_messages(),
    {
        if msg_num == 0 || msg_num > self.messages.len() {
            return ;
        }
        let idx = msg_num - 1;
        if matches!(self.messages[idx].get_state(), MessageState::Pending) {
            self.messages[idx].mark_on_network();
            proof {
                assert(forall|j: int|
                    0 <= j < self.messages@.len() && j != idx ==> self.messages@[j] == old(self).messages@[j]);
            }
        }
    }

    /// The message carrying the given 1-based number, for inquiry.
    pub fn get_message(&self, msg_num: usize) -> (r: Option<&Message>)
        ensures
            r is Some <==> 1 <= msg_num <= self.spec_messages().len(),
            r is Some ==> *r.unwrap() == self.spec_messages()[msg_num - 1],
    {
        if msg_num == 0 || msg_num > self.messages.len() {
            return None;
        }
        Some(&self.messages[msg_num - 1])
    }

    /// The id of the second-level subscription spawned for a key of a
    /// two-level COMMAND subscription, if one is live.
    fn find_child(&self, parent_id: usize, key: &str) -> (r: Option<usize>)
        ensures
            true,
    {
        let mut i: usize = 0;
        while i < self.children.len()
            decreases self.children@.len() - i,
        {
            let e = &self.children[i];
            if e.0 == parent_id && str_eq(e.1.as_str(), key) {
                return Some(e.2);
            }
            i = i + 1;
        }
        None
    }

    /// Drops the child record of a key, once the second-level subscription
    /// left.
    fn forget_child(&mut self, parent_id: usize, key: &str)
        ensures
            final(self).spec_status() == old(self).spec_status(),
            final(self).spec_subscriptions() == old(self).spec_subscriptions(),
            old(self).wf() ==> final(self).wf(),
    {
        let mut i: usize = 0;
        while i < self.children.len()
            invariant
                self.spec_status() == old(self).spec_status(),
                self.spec_prev_streaming() == old(self).spec_prev_streaming(),
                self.spec_subscriptions() == old(self).spec_subscriptions(),
                old(self).wf() ==> self.wf(),
            decreases self.children@.len() - i,
        {
            let e = &self.children[i];
            if e.0 == parent_id && str_eq(e.1.as_str(), key) {
                self.children.remove(i);
                return ;
            }
            i = i + 1;
        }
    }

    /// Acts on the COMMAND routed by an update of a two-level subscription:
    /// an ADD spawns a second-level MERGE subscription on the key, a DELETE
    /// closes it.
    fn route_second_level(&mut self, parent_id: usize, action: &CommandAction)
        requires
            old(self).wf(),
            1 <= parent_id <= old(self).spec_subscriptions().len(),
        ensures
            final(self).wf(),
            final(self).spec_status() == old(self).spec_status(),
            final(self).spec_subscriptions().len() >= old(self).spec_subscriptions().len(),
            final(self).spec_subscriptions()[parent_id - 1] == old(self).spec_subscriptions()[parent_id - 1],
    {
        let idx = parent_id - 1;
        let second_fields: Option<Vec<String>> = match self.subscriptions[idx]
            .get_command_second_level_fields() {
            Some(fields) => Some(clone_strings(fields)),
            None => None,
        };
        let second_adapter: Option<String> = match self.subscriptions[idx]
            .get_command_second_level_data_adapter() {
            Some(adapter) => Some(adapter.clone()),
            None => None,
        };
        match action {
            CommandAction::Add(key) => {
                let fields = match second_fields {
                    Some(f) => f,
                    None => {
                        return ;
                    },
                };
                if self.find_child(parent_id, key.as_str()).is_some() {
                    return ;
                }
                let child = Subscription::new(
                    SubscriptionMode::Merge,
                    Some(vec![key.clone()]),
                    Some(fields),
                );
                let mut child = match child {
                    Ok(c) => c,
                    Err(_) => {
                        return ;
                    },
                };
                match child.set_data_adapter(second_adapter) {
                    Ok(()) => {},
                    Err(_) => {},
                }
                match child.activate() {
                    Ok(()) => {},
                    Err(_) => {},
                }
                self.subscriptions.push(child);
                proof {
                    assert(forall|i: int|
                        0 <= i < old(self).subscriptions@.len() ==> self.subscriptions@[i] == old(self).subscriptions@[i]);
                }
                let child_id = self.subscriptions.len();
                self.children.push((parent_id, key.clone(), child_id));
            },
            CommandAction::Delete(key) => {
                let child_id = match self.find_child(parent_id, key.as_str()) {
                    Some(id) => id,
                    None => {
                        return ;
                    },
                };
                if 1 <= child_id && child_id <= self.subscriptions.len() && child_id != parent_id {
                    let cidx = child_id - 1;
                    if self.subscriptions[cidx].is_subscribed() {
                        self.subscriptions[cidx].on_unsubscribed();
                    } else {
                        self.subscriptions[cidx].deactivate();
                    }
                    proof {
                        assert(forall|i: int|
                            0 <= i < self.subscriptions@.len() && i != cidx
                                ==> self.subscriptions@[i] == old(self).subscriptions@[i]);
                    }
                }
                self.forget_child(parent_id, key.as_str());
            },
            CommandAction::Update(_) => {},
        }
    }

    /// Whether the next update of this item still belongs to its snapshot,
    /// and the bookkeeping for it.
    fn snapshot_flag(&mut self, sub_idx: usize, item_pos: usize) -> (r: bool)
        requires
            old(self).wf(),
            sub_idx < old(self).spec_subscriptions().len(),
        ensures
            final(self).wf(),
            final(self).spec_status() == old(self).spec_status(),
            final(self).spec_subscriptions() == old(self).spec_subscriptions(),
    {
        let snap_requested = match self.subscriptions[sub_idx].get_requested_snapshot() {
            Some(crate::subscription::Snapshot::Yes) => true,
            Some(crate::subscription::Snapshot::Number(_)) => true,
            _ => false,
        };
        if !snap_requested {
            return false;
        }
        if matches!(
            self.subscriptions[sub_idx].get_mode(),
            crate::subscription::SubscriptionMode::Raw,
        ) {
            return false;
        }
        let n = self.subscriptions.len();
        let sub_id = sub_idx + 1;
        let mut seen = false;
        let mut i: usize = 0;
        while i < self.snapshot_done.len()
            decreases self.snapshot_done@.len() - i,
        {
            let e = &self.snapshot_done[i];
            if e.0 == sub_id && e.1 == item_pos {
                seen = true;
            }
            i = i + 1;
        }
        if seen {
            return false;
        }
        // a MERGE snapshot is the single first event of the item
        if matches!(
            self.subscriptions[sub_idx].get_mode(),
            crate::subscription::SubscriptionMode::Merge,
        ) {
            self.snapshot_done.push((sub_id, item_pos));
        }
        true
    }

    /// Dispatches one frame of the update stream.  The comma-separated
    /// arguments are read with `{...}` groups kept whole; the tag is matched
    /// case-insensitively.  Session answers drive the status machine and the
    /// endpoint fields; subscription answers and updates are routed to the
    /// subscription their id names.  An unknown tag is ignored without
    /// disturbing any state; a recognised tag with malformed arguments is
    /// refused.
    pub fn process_line(&mut self, line: &str) -> (r: Result<(), IllegalArgumentException>)
        requires
            old(self).wf(),
        ensures
            final(self).wf(),
            legal_edge(old(self).spec_status(), final(self).spec_status()) || final(self).spec_status() == old(self).spec_status(),
    {
        let args = parse_arguments(line);
        if args.len() == 0 {
            return Ok(());
        }
        let tag = args[0];
        if str_eq_lower(tag, "conok") {
            if args.len() < 2 {
                return Err(IllegalArgumentException::new("CONOK carries no session id"));
            }
            self.connection_details.note_session_id(Some(args[1].to_owned()));
            // the server may impose its own keepalive interval
            if args.len() >= 4 {
                if let Some(keepalive) = parse_usize(args[3]) {
                    if keepalive <= 0xffff_ffff_ffff_ffffu64 as usize {
                        self.connection_options.note_keepalive_interval(keepalive as u64);
                    }
                }
            }
            if matches!(self.status, ClientStatus::Connecting) {
                self.set_status(ClientStatus::ConnectedStreamSensing);
            } else if matches!(self.status, ClientStatus::DisconnectedTryingRecovery) {
                // the recovery bind answered: the session goes on where the
                // stall interrupted it
                let back_to = self.prev_streaming;
                proof {
                    assert(is_streaming(back_to));
                }
                self.set_status(back_to);
            }
            return Ok(());
        }
        if str_eq_lower(tag, "conerr") || str_eq_lower(tag, "end") {
            if args.len() < 2 {
                return Err(IllegalArgumentException::new("The refusal carries no code"));
            }
            let code = match parse_usize(args[1]) {
                Some(c) => c,
                None => {
                    return Err(IllegalArgumentException::new("The refusal code is not a number"));
                },
            };
            let message = if args.len() >= 3 {
                args[2]
            } else {
                ""
            };
            if !matches!(self.status, ClientStatus::Disconnected) {
                self.set_status(ClientStatus::Disconnected);
            }
            let code_i32: i32 = if code > 0x7fff_ffff {
                0x7fff_ffff
            } else {
                code as i32
            };
            self.notify_server_error(code_i32, message);
            return Ok(());
        }
        if str_eq_lower(tag, "clientip") {
            if args.len() >= 2 {
                self.connection_details.note_client_ip(Some(args[1].to_owned()));
            }
            return Ok(());
        }
        if str_eq_lower(tag, "servname") {
            if args.len() >= 2 {
                self.connection_details.note_server_socket_name(Some(args[1].to_owned()));
            }
            return Ok(());
        }
        if str_eq_lower(tag, "probe") || str_eq_lower(tag, "noop") || str_eq_lower(tag, "sync")
            || str_eq_lower(tag, "cons") || str_eq_lower(tag, "conf") || str_eq_lower(
            tag,
            "servertime",
        ) {
            if matches!(self.status, ClientStatus::Stalled) {
                // data arrived within the reconnect window
                let back_to = self.prev_streaming;
                proof {
                    assert(is_streaming(back_to));
                }
                self.set_status(back_to);
            }
            return Ok(());
        }
        if str_eq_lower(tag, "loop") {
            // the server asks for a rebind
            if matches!(self.status, ClientStatus::Disconnected) || matches!(
                self.status,
                ClientStatus::DisconnectedWillRetry,
            ) || matches!(self.status, ClientStatus::Connecting) {
                return Ok(());
            }
            if matches!(self.status, ClientStatus::DisconnectedTryingRecovery) {
                return Ok(());
            }
            self.set_status(ClientStatus::Connecting);
            return Ok(());
        }
        if str_eq_lower(tag, "subok") || str_eq_lower(tag, "subcmd") {
            let is_subcmd = str_eq_lower(tag, "subcmd");
            if args.len() < 4 || (is_subcmd && args.len() < 6) {
                return Err(IllegalArgumentException::new("The subscription answer is malformed"));
            }
            let sub_id = match parse_usize(args[1]) {
                Some(v) => v,
                None => {
                    return Err(IllegalArgumentException::new("The subscription id is not a number"));
                },
            };
            let nfields = match parse_usize(args[3]) {
                Some(v) => v,
                None => {
                    return Err(IllegalArgumentException::new("The field count is not a number"));
                },
            };
            if sub_id == 0 || sub_id > self.subscriptions.len() {
                return Err(IllegalArgumentException::new("No subscription carries this id"));
            }
            let idx = sub_id - 1;
            if self.subscriptions[idx].is_subscribed() {
                return Err(IllegalArgumentException::new("The subscription is already established"));
            }
            let mut key_pos: Option<usize> = None;
            let mut cmd_pos: Option<usize> = None;
            if is_subcmd {
                key_pos = match parse_usize(args[4]) {
                    Some(v) => Some(v),
                    None => {
                        return Err(
                            IllegalArgumentException::new("The key position is not a number"),
                        );
                    },
                };
                cmd_pos = match parse_usize(args[5]) {
                    Some(v) => Some(v),
                    None => {
                        return Err(
                            IllegalArgumentException::new("The command position is not a number"),
                        );
                    },
                };
            } else {
                // a COMMAND subscription built on a field list finds the key
                // and command fields by their names
                if matches!(
                    self.subscriptions[idx].get_mode(),
                    crate::subscription::SubscriptionMode::Command,
                ) {
                    if let Some(fields) = self.subscriptions[idx].get_fields() {
                        let mut f: usize = 0;
                        let n = fields.len();
                        let mut kp: Option<usize> = None;
                        let mut cp: Option<usize> = None;
                        while f < n
                            invariant
                                n == fields.deep_view().len(),
                                0 <= f <= n,
                                kp is None ==> first_index_of(fields.deep_view(), "key"@)
                                    == first_index_from(fields.deep_view(), "key"@, f as int),
                                kp is Some ==> first_index_of(fields.deep_view(), "key"@) == Some(
                                    kp.unwrap() - 1,
                                ) && 1 <= kp.unwrap() <= n,
                                cp is None ==> first_index_of(fields.deep_view(), "command"@)
                                    == first_index_from(fields.deep_view(), "command"@, f as int),
                                cp is Some ==> first_index_of(fields.deep_view(), "command"@)
                                    == Some(cp.unwrap() - 1) && 1 <= cp.unwrap() <= n,
                            decreases n - f,
                        {
                            proof {
                                assert(fields.deep_view()[f as int] == fields@[f as int]@);
                            }
                            if str_eq(fields[f].as_str(), "key") && kp.is_none() {
                                kp = Some(f + 1);
                            }
                            if str_eq(fields[f].as_str(), "command") && cp.is_none() {
                                cp = Some(f + 1);
                            }
                            f = f + 1;
                        }
                        proof {
                            assert(kp == named_position(fields.deep_view(), "key"@));
                            assert(cp == named_position(fields.deep_view(), "command"@));
                        }
                        key_pos = kp;
                        cmd_pos = cp;
                    }
                }
            }
            self.subscriptions[idx].on_subscribed(nfields, key_pos, cmd_pos);
            proof {
                assert(forall|i: int|
                    0 <= i < self.subscriptions@.len() && i != idx ==> self.subscriptions@[i]
                        == old(self).subscriptions@[i]);
            }
            return Ok(());
        }
        if str_eq_lower(tag, "unsub") {
            if args.len() < 2 {
                return Err(IllegalArgumentException::new("UNSUB carries no subscription id"));
            }
            let sub_id = match parse_usize(args[1]) {
                Some(v) => v,
                None => {
                    return Err(IllegalArgumentException::new("The subscription id is not a number"));
                },
            };
            if sub_id == 0 || sub_id > self.subscriptions.len() {
                return Err(IllegalArgumentException::new("No subscription carries this id"));
            }
            let idx = sub_id - 1;
            if self.subscriptions[idx].is_subscribed() {
                self.subscriptions[idx].on_unsubscribed();
            }
            proof {
                assert(forall|i: int|
                    0 <= i < self.subscriptions@.len() && i != idx ==> self.subscriptions@[i]
                        == old(self).subscriptions@[i]);
            }
            return Ok(());
        }
        if str_eq_lower(tag, "u") {
            if args.len() != 4 {
                return Err(IllegalArgumentException::new("The update frame is malformed"));
            }
            let sub_id = match parse_usize(args[1]) {
                Some(v) => v,
                None => {
                    return Err(IllegalArgumentException::new("The subscription id is not a number"));
                },
            };
            let item_pos = match parse_usize(args[2]) {
                Some(v) => v,
                None => {
                    return Err(IllegalArgumentException::new("The item position is not a number"));
                },
            };
            if sub_id == 0 || sub_id > self.subscriptions.len() {
                return Err(IllegalArgumentException::new("No subscription carries this id"));
            }
            if item_pos == 0 {
                return Err(IllegalArgumentException::new("Item positions are 1-based"));
            }
            let idx = sub_id - 1;
            if !self.subscriptions[idx].is_subscribed() {
                return Err(IllegalArgumentException::new("The subscription is not established"));
            }
            // the item list, when one is set, names the item of the update
            let item_name: Option<String> = match self.subscriptions[idx].get_items() {
                Some(items) => if item_pos <= items.len() {
                    Some(items[item_pos - 1].clone())
                } else {
                    None
                },
                None => None,
            };
            let is_snapshot = self.snapshot_flag(idx, item_pos);
            let payload = args[3];
            let applied = match self.subscriptions[idx].apply_update(
                item_name,
                item_pos,
                payload,
                is_snapshot,
            ) {
                Ok(a) => a,
                Err(e) => {
                    return Err(e);
                },
            };
            proof {
                assert(forall|i: int|
                    0 <= i < self.subscriptions@.len() && i != idx ==> self.subscriptions@[i]
                        == old(self).subscriptions@[i]);
            }
            if let Some(action) = &applied.command {
                self.route_second_level(sub_id, action);
            }
            return Ok(());
        }
        if str_eq_lower(tag, "eos") {
            if args.len() < 3 {
                return Err(IllegalArgumentException::new("EOS is malformed"));
            }
            let sub_id = match parse_usize(args[1]) {
                Some(v) => v,
                None => {
                    return Err(IllegalArgumentException::new("The subscription id is not a number"));
                },
            };
            let item_pos = match parse_usize(args[2]) {
                Some(v) => v,
                None => {
                    return Err(IllegalArgumentException::new("The item position is not a number"));
                },
            };
            if sub_id == 0 || sub_id > self.subscriptions.len() {
                return Err(IllegalArgumentException::new("No subscription carries this id"));
            }
            let idx = sub_id - 1;
            if self.subscriptions[idx].is_subscribed() {
                self.subscriptions[idx].on_end_of_snapshot(None, item_pos);
            }
            self.snapshot_done.push((sub_id, item_pos));
            proof {
                assert(forall|i: int|
                    0 <= i < self.subscriptions@.len() && i != idx ==> self.subscriptions@[i]
                        == old(self).subscriptions@[i]);
            }
            return Ok(());
        }
        if str_eq_lower(tag, "cs") {
            if args.len() < 3 {
                return Err(IllegalArgumentException::new("CS is malformed"));
            }
            let sub_id = match parse_usize(args[1]) {
                Some(v) => v,
                None => {
                    return Err(IllegalArgumentException::new("The subscription id is not a number"));
                },
            };
            let item_pos = match parse_usize(args[2]) {
                Some(v) => v,
                None => {
                    return Err(IllegalArgumentException::new("The item position is not a number"));
                },
            };
            if sub_id == 0 || sub_id > self.subscriptions.len() {
                return Err(IllegalArgumentException::new("No subscription carries this id"));
            }
            let idx = sub_id - 1;
            if self.subscriptions[idx].is_subscribed() {
                self.subscriptions[idx].on_clear_snapshot(None, item_pos);
            }
            proof {
                assert(forall|i: int|
                    0 <= i < self.subscriptions@.len() && i != idx ==> self.subscriptions@[i]
                        == old(self).subscriptions@[i]);
            }
            return Ok(());
        }
        if str_eq_lower(tag, "ov") {
            if args.len() < 4 {
                return Err(IllegalArgumentException::new("OV is malformed"));
            }
            let sub_id = match parse_usize(args[1]) {
                Some(v) => v,
                None => {
                    return Err(IllegalArgumentException::new("The subscription id is not a number"));
                },
            };
            let item_pos = match parse_usize(args[2]) {
                Some(v) => v,
                None => {
                    return Err(IllegalArgumentException::new("The item position is not a number"));
                },
            };
            let lost = match parse_usize(args[3]) {
                Some(v) => v,
                None => {
                    return Err(IllegalArgumentException::new("The loss count is not a number"));
                },
            };
            if lost > 0xffff_ffff {
                return Err(IllegalArgumentException::new("The loss count is out of range"));
            }
            if sub_id == 0 || sub_id > self.subscriptions.len() {
                return Err(IllegalArgumentException::new("No subscription carries this id"));
            }
            let idx = sub_id - 1;
            if self.subscriptions[idx].is_subscribed() {
                self.subscriptions[idx].on_item_lost_updates(None, item_pos, lost as u32);
            }
            proof {
                assert(forall|i: int|
                    0 <= i < self.subscriptions@.len() && i != idx ==> self.subscriptions@[i]
                        == old(self).subscriptions@[i]);
            }
            return Ok(());
        }
        if str_eq_lower(tag, "msgdone") {
            if args.len() < 3 {
                return Err(IllegalArgumentException::new("MSGDONE is malformed"));
            }
            let msg_num = match parse_usize(args[2]) {
                Some(v) => v,
                None => {
                    return Err(IllegalArgumentException::new("The message number is not a number"));
                },
            };
            if msg_num == 0 || msg_num > self.messages.len() {
                return Err(IllegalArgumentException::new("No message carries this number"));
            }
            let idx = msg_num - 1;
            let live = matches!(self.messages[idx].get_state(), MessageState::Pending) || matches!(
                self.messages[idx].get_state(),
                MessageState::OnNetwork,
            );
            if live {
                let response: Option<&str> = if args.len() >= 4 {
                    Some(args[3])
                } else {
                    None
                };
                self.messages[idx].complete_processed(response);
                proof {
                    assert(forall|j: int|
                        0 <= j < self.messages@.len() && j != idx ==> self.messages@[j] == old(self).messages@[j]);
                }
            }
            return Ok(());
        }
        if str_eq_lower(tag, "msgfail") {
            if args.len() < 4 {
                return Err(IllegalArgumentException::new("MSGFAIL is malformed"));
            }
            let msg_num = match parse_usize(args[2]) {
                Some(v) => v,
                None => {
                    return Err(IllegalArgumentException::new("The message number is not a number"));
                },
            };
            let code = match parse_usize(args[3]) {
                Some(v) => v,
                None => {
                    return Err(IllegalArgumentException::new("The failure code is not a number"));
                },
            };
            if msg_num == 0 || msg_num > self.messages.len() {
                return Err(IllegalArgumentException::new("No message carries this number"));
            }
            let idx = msg_num - 1;
            let live = matches!(self.messages[idx].get_state(), MessageState::Pending) || matches!(
                self.messages[idx].get_state(),
                MessageState::OnNetwork,
            );
            if live {
                // codes 38 and 39 report a discarded message; everything
                // else is a denial with the adapter's code
                if code == 38 || code == 39 {
                    self.messages[idx].complete_discarded();
                } else {
                    let error = if args.len() >= 5 {
                        args[4]
                    } else {
                        ""
                    };
                    let clamped: i32 = if code > 0x7fff_ffff {
                        0x7fff_ffff
                    } else {
                        code as i32
                    };
                    self.messages[idx].complete_denied(clamped, error);
                }
                proof {
                    assert(forall|j: int|
                        0 <= j < self.messages@.len() && j != idx ==> self.messages@[j] == old(self).messages@[j]);
                }
            }
            return Ok(());
        }
        // REQOK, REQERR, ERROR and unknown tags leave the client state as it
        // stands
        Ok(())
    }
}

} // verus!
