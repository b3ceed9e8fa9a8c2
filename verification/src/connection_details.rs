//! Endpoint configuration of a client session: server address, adapter set,
//! credentials, and the read-only fields the server fills in after a session
//! is established.

use vstd::prelude::*;

use crate::client_listener::ClientListener;
use crate::IllegalArgumentException;

verus! {

/// The characters of `http://`.
pub open spec fn http_prefix() -> Seq<char> {
    seq!['h', 't', 't', 'p', ':', '/', '/']
}

/// The characters of `https://`.
pub open spec fn https_prefix() -> Seq<char> {
    seq!['h', 't', 't', 'p', 's', ':', '/', '/']
}

/// Whether `p` is a prefix of `s`.
pub open spec fn starts_with_chars(s: Seq<char>, p: Seq<char>) -> bool {
    p.len() <= s.len() && forall|i: int| 0 <= i < p.len() ==> s[i] == p[i]
}

/// A server address is admitted exactly when it begins with `http://` or
/// `https://`; the scheme is mapped to `ws`/`wss` when WebSockets are used.
pub open spec fn has_http_scheme(s: Seq<char>) -> bool {
    starts_with_chars(s, http_prefix()) || starts_with_chars(s, https_prefix())
}

/// Checks a candidate server address for the `http://` or `https://` scheme.
pub fn has_http_scheme_exec(s: &str) -> (r: bool)
    ensures
        r == has_http_scheme(s@),
{
    let n: usize = s.unicode_len();
    if n < 7 {
        return false;
    }
    if !(s.get_char(0) == 'h' && s.get_char(1) == 't' && s.get_char(2) == 't' && s.get_char(3)
        == 'p') {
        return false;
    }
    if s.get_char(4) == ':' && s.get_char(5) == '/' && s.get_char(6) == '/' {
        return true;
    }
    if n >= 8 && s.get_char(4) == 's' && s.get_char(5) == ':' && s.get_char(6) == '/'
        && s.get_char(7) == '/' {
        return true;
    }
    false
}

/// Configuration settings needed to connect to the server, together with the
/// session coordinates the server reports back.  Setters notify the
/// registered `ClientListener`s with the name of the changed property; the
/// read-only fields (`client_ip`, `server_instance_address`,
/// `server_socket_name`, `session_id`) are written by the session engine
/// only.
pub struct ConnectionDetails {
    adapter_set: Option<String>,
    client_ip: Option<String>,
    server_address: Option<String>,
    server_instance_address: Option<String>,
    server_socket_name: Option<String>,
    session_id: Option<String>,
    user: Option<String>,
    password: Option<String>,
    listeners: Vec<Box<dyn ClientListener>>,
    notifications: Ghost<Seq<Seq<char>>>,
}

impl ConnectionDetails {
    /// The configured adapter set name, if any.
    pub closed spec fn spec_adapter_set(&self) -> Option<Seq<char>> {
        self.adapter_set.deep_view()
    }

    /// The client address as seen by the server, if reported.
    pub closed spec fn spec_client_ip(&self) -> Option<Seq<char>> {
        self.client_ip.deep_view()
    }

    /// The configured server address, if any.
    pub closed spec fn spec_server_address(&self) -> Option<Seq<char>> {
        self.server_address.deep_view()
    }

    /// The per-session server instance address, if reported.
    pub closed spec fn spec_server_instance_address(&self) -> Option<Seq<char>> {
        self.server_instance_address.deep_view()
    }

    /// The server socket name, if reported.
    pub closed spec fn spec_server_socket_name(&self) -> Option<Seq<char>> {
        self.server_socket_name.deep_view()
    }

    /// The session id, if a session is established.
    pub closed spec fn spec_session_id(&self) -> Option<Seq<char>> {
        self.session_id.deep_view()
    }

    /// The configured user name, if any.
    pub closed spec fn spec_user(&self) -> Option<Seq<char>> {
        self.user.deep_view()
    }

    /// The configured password, if any.
    pub closed spec fn spec_password(&self) -> Option<Seq<char>> {
        self.password.deep_view()
    }

    /// The registered listeners, in registration order.
    pub closed spec fn spec_listeners(&self) -> Seq<Box<dyn ClientListener>> {
        self.listeners@
    }

    /// The property names reported to the listeners so far, in the order the
    /// sets happened: each successful setter appends exactly its name, and a
    /// refused one appends nothing.
    pub closed spec fn spec_notifications(&self) -> Seq<Seq<char>> {
        self.notifications@
    }

    /// All fields other than the listener list, as one tuple; setters state
    /// with it that they touch nothing else.
    pub open spec fn spec_fields(&self) -> (
        Option<Seq<char>>,
        Option<Seq<char>>,
        Option<Seq<char>>,
        Option<Seq<char>>,
        Option<Seq<char>>,
        Option<Seq<char>>,
        Option<Seq<char>>,
        Option<Seq<char>>,
    ) {
        (
            self.spec_adapter_set(),
            self.spec_client_ip(),
            self.spec_server_address(),
            self.spec_server_instance_address(),
            self.spec_server_socket_name(),
            self.spec_session_id(),
            self.spec_user(),
            self.spec_password(),
        )
    }

    /// Inquiry method that gets the name of the adapter set that supplies
    /// the items used in this application; `None` means the `DEFAULT`
    /// adapter set.
    pub fn get_adapter_set(&self) -> (r: Option<&String>)
        ensures
            r.deep_view() == self.spec_adapter_set(),
    {
        self.adapter_set.as_ref()
    }

    /// Inquiry method that gets the IP address of this client as seen by the
    /// server serving the current session, when the server reported one.
    pub fn get_client_ip(&self) -> (r: Option<&String>)
        ensures
            r.deep_view() == self.spec_client_ip(),
    {
        self.client_ip.as_ref()
    }

    /// Retrieves the password, if set.
    pub fn get_password(&self) -> (r: Option<&String>)
        ensures
            r.deep_view() == self.spec_password(),
    {
        self.password.as_ref()
    }

    /// Inquiry method that gets the configured address of the server.
    pub fn get_server_address(&self) -> (r: Option<&String>)
        ensures
            r.deep_view() == self.spec_server_address(),
    {
        self.server_address.as_ref()
    }

    /// Inquiry method that gets the server address to be used for all
    /// requests of the current session, when a cluster answered with one.
    pub fn get_server_instance_address(&self) -> (r: Option<&String>)
        ensures
            r.deep_view() == self.spec_server_instance_address(),
    {
        self.server_instance_address.as_ref()
    }

    /// Inquiry method that gets the instance name of the server socket
    /// serving the current session, when reported.
    pub fn get_server_socket_name(&self) -> (r: Option<&String>)
        ensures
            r.deep_view() == self.spec_server_socket_name(),
    {
        self.server_socket_name.as_ref()
    }

    /// Inquiry method that gets the id the server associated to this client
    /// session.
    pub fn get_session_id(&self) -> (r: Option<&String>)
        ensures
            r.deep_view() == self.spec_session_id(),
    {
        self.session_id.as_ref()
    }

    /// Inquiry method that gets the username used for authentication.
    pub fn get_user(&self) -> (r: Option<&String>)
        ensures
            r.deep_view() == self.spec_user(),
    {
        self.user.as_ref()
    }

    /// Creates a new configuration from the given coordinates.  The server
    /// address must carry the `http://` or `https://` scheme; a `None`
    /// adapter set is coerced to `DEFAULT`.
    pub fn new(
        server_address: Option<&str>,
        adapter_set: Option<&str>,
        user: Option<&str>,
        password: Option<&str>,
    ) -> (r: Result<ConnectionDetails, IllegalArgumentException>)
        ensures
            r is Ok <==> (server_address is Some ==> has_http_scheme(
                server_address.unwrap()@,
            )),
            r is Ok ==> {
                let d = r->Ok_0;
                &&& d.spec_server_address() == server_address.deep_view()
                &&& d.spec_adapter_set() == Some(
                    if adapter_set is Some {
                        adapter_set.unwrap()@
                    } else {
                        "DEFAULT"@
                    },
                )
                &&& d.spec_user() == user.deep_view()
                &&& d.spec_password() == password.deep_view()
                &&& d.spec_client_ip() is None
                &&& d.spec_server_instance_address() is None
                &&& d.spec_server_socket_name() is None
                &&& d.spec_session_id() is None
                &&& d.spec_listeners().len() == 0
            },
    {
        let mut connection_details = ConnectionDetails::default();
        let owned_address = match server_address {
            Some(s) => Some(s.to_owned()),
            None => None,
        };
        match connection_details.set_server_address(owned_address) {
            Ok(()) => {}
            Err(e) => {
                return Err(e);
            }
        }
        let owned_adapter = match adapter_set {
            Some(s) => Some(s.to_owned()),
            None => None,
        };
        connection_details.set_adapter_set(owned_adapter);
        let owned_user = match user {
            Some(s) => Some(s.to_owned()),
            None => None,
        };
        connection_details.set_user(owned_user);
        let owned_password = match password {
            Some(s) => Some(s.to_owned()),
            None => None,
        };
        connection_details.set_password(owned_password);
        Ok(connection_details)
    }

    /// Setter method that sets the name of the adapter set handling the
    /// session requests.  A `None` value is equivalent to the `DEFAULT`
    /// name.  Listeners are notified with `adapterSet`.
    pub fn set_adapter_set(&mut self, adapter_set: Option<String>)
        ensures
            final(self).spec_adapter_set() == Some(
                if adapter_set is Some {
                    adapter_set.unwrap()@
                } else {
                    "DEFAULT"@
                },
            ),
            final(self).spec_client_ip() == old(self).spec_client_ip(),
            final(self).spec_server_address() == old(self).spec_server_address(),
            final(self).spec_server_instance_address() == old(self).spec_server_instance_address(),
            final(self).spec_server_socket_name() == old(self).spec_server_socket_name(),
            final(self).spec_session_id() == old(self).spec_session_id(),
            final(self).spec_user() == old(self).spec_user(),
            final(self).spec_password() == old(self).spec_password(),
            final(self).spec_listeners() == old(self).spec_listeners(),
            final(self).spec_notifications() == old(self).spec_notifications().push(
                "adapterSet"@,
            ),
    {
        self.adapter_set = Some(
            match adapter_set {
                Some(v) => v,
                None => "DEFAULT".to_owned(),
            },
        );
        self.notify_listeners("adapterSet");
    }

    /// Setter method that sets the password used for authentication.
    /// Listeners are notified with `password`.
    pub fn set_password(&mut self, password: Option<String>)
        ensures
            final(self).spec_password() == password.deep_view(),
            final(self).spec_adapter_set() == old(self).spec_adapter_set(),
            final(self).spec_client_ip() == old(self).spec_client_ip(),
            final(self).spec_server_address() == old(self).spec_server_address(),
            final(self).spec_server_instance_address() == old(self).spec_server_instance_address(),
            final(self).spec_server_socket_name() == old(self).spec_server_socket_name(),
            final(self).spec_session_id() == old(self).spec_session_id(),
            final(self).spec_user() == old(self).spec_user(),
            final(self).spec_listeners() == old(self).spec_listeners(),
            final(self).spec_notifications() == old(self).spec_notifications().push(
                "password"@,
            ),
    {
        self.password = password;
        self.notify_listeners("password");
    }

    /// Setter method that sets the address of the server.  The address must
    /// begin with `http://` or `https://`; otherwise the call returns an
    /// error and changes nothing.  Listeners are notified with
    /// `serverAddress`.
    pub fn set_server_address(&mut self, server_address: Option<String>) -> (r: Result<
        (),
        IllegalArgumentException,
    >)
        ensures
            r is Ok <==> (server_address is Some ==> has_http_scheme(
                server_address.unwrap()@,
            )),
            r is Ok ==> final(self).spec_server_address() == server_address.deep_view(),
            r is Err ==> *final(self) == *old(self),
            final(self).spec_adapter_set() == old(self).spec_adapter_set(),
            final(self).spec_client_ip() == old(self).spec_client_ip(),
            final(self).spec_server_instance_address() == old(self).spec_server_instance_address(),
            final(self).spec_server_socket_name() == old(self).spec_server_socket_name(),
            final(self).spec_session_id() == old(self).spec_session_id(),
            final(self).spec_user() == old(self).spec_user(),
            final(self).spec_password() == old(self).spec_password(),
            final(self).spec_listeners() == old(self).spec_listeners(),
            r is Ok ==> final(self).spec_notifications() == old(self).spec_notifications().push(
                "serverAddress"@,
            ),
            r is Err ==> final(self).spec_notifications() == old(self).spec_notifications(),
    {
        if let Some(address) = &server_address {
            if !has_http_scheme_exec(address.as_str()) {
                return Err(
                    IllegalArgumentException::new(
                        "Invalid server address: must start with http:// or https://",
                    ),
                );
            }
        }
        self.server_address = server_address;
        self.notify_listeners("serverAddress");
        Ok(())
    }

    /// Setter method that sets the username used for authentication.
    /// Listeners are notified with `user`.
    pub fn set_user(&mut self, user: Option<String>)
        ensures
            final(self).spec_user() == user.deep_view(),
            final(self).spec_adapter_set() == old(self).spec_adapter_set(),
            final(self).spec_client_ip() == old(self).spec_client_ip(),
            final(self).spec_server_address() == old(self).spec_server_address(),
            final(self).spec_server_instance_address() == old(self).spec_server_instance_address(),
            final(self).spec_server_socket_name() == old(self).spec_server_socket_name(),
            final(self).spec_session_id() == old(self).spec_session_id(),
            final(self).spec_password() == old(self).spec_password(),
            final(self).spec_listeners() == old(self).spec_listeners(),
            final(self).spec_notifications() == old(self).spec_notifications().push("user"@),
    {
        self.user = user;
        self.notify_listeners("user");
    }

    /// Records the session id the server assigned; written by the session
    /// engine only.  Listeners are notified with `sessionId`.
    pub(crate) fn note_session_id(&mut self, session_id: Option<String>)
        ensures
            final(self).spec_session_id() == session_id.deep_view(),
            final(self).spec_adapter_set() == old(self).spec_adapter_set(),
            final(self).spec_client_ip() == old(self).spec_client_ip(),
            final(self).spec_server_address() == old(self).spec_server_address(),
            final(self).spec_server_instance_address() == old(self).spec_server_instance_address(),
            final(self).spec_server_socket_name() == old(self).spec_server_socket_name(),
            final(self).spec_user() == old(self).spec_user(),
            final(self).spec_password() == old(self).spec_password(),
            final(self).spec_listeners() == old(self).spec_listeners(),
            final(self).spec_notifications() == old(self).spec_notifications().push(
                "sessionId"@,
            ),
    {
        self.session_id = session_id;
        self.notify_listeners("sessionId");
    }

    /// Records the client address the server reported; written by the
    /// session engine only.  Listeners are notified with `clientIp`.
    pub(crate) fn note_client_ip(&mut self, client_ip: Option<String>)
        ensures
            final(self).spec_client_ip() == client_ip.deep_view(),
            final(self).spec_adapter_set() == old(self).spec_adapter_set(),
            final(self).spec_session_id() == old(self).spec_session_id(),
            final(self).spec_server_address() == old(self).spec_server_address(),
            final(self).spec_server_instance_address() == old(self).spec_server_instance_address(),
            final(self).spec_server_socket_name() == old(self).spec_server_socket_name(),
            final(self).spec_user() == old(self).spec_user(),
            final(self).spec_password() == old(self).spec_password(),
            final(self).spec_listeners() == old(self).spec_listeners(),
            final(self).spec_notifications() == old(self).spec_notifications().push(
                "clientIp"@,
            ),
    {
        self.client_ip = client_ip;
        self.notify_listeners("clientIp");
    }

    /// Records the server socket name the server reported; written by the
    /// session engine only.  Listeners are notified with `serverSocketName`.
    pub(crate) fn note_server_socket_name(&mut self, name: Option<String>)
        ensures
            final(self).spec_server_socket_name() == name.deep_view(),
            final(self).spec_adapter_set() == old(self).spec_adapter_set(),
            final(self).spec_session_id() == old(self).spec_session_id(),
            final(self).spec_server_address() == old(self).spec_server_address(),
            final(self).spec_server_instance_address() == old(self).spec_server_instance_address(),
            final(self).spec_client_ip() == old(self).spec_client_ip(),
            final(self).spec_user() == old(self).spec_user(),
            final(self).spec_password() == old(self).spec_password(),
            final(self).spec_listeners() == old(self).spec_listeners(),
            final(self).spec_notifications() == old(self).spec_notifications().push(
                "serverSocketName"@,
            ),
    {
        self.server_socket_name = name;
        self.notify_listeners("serverSocketName");
    }

    /// Calls `on_property_change(property)` on every registered listener, in
    /// registration order, and records the report.
    fn notify_listeners(&mut self, property: &str)
        ensures
            final(self).spec_notifications() == old(self).spec_notifications().push(property@),
            final(self).spec_fields() == old(self).spec_fields(),
            final(self).spec_listeners() == old(self).spec_listeners(),
    {
        self.notifications = Ghost(self.notifications@.push(property@));
        let mut i: usize = 0;
        while i < self.listeners.len()
            decreases self.listeners.len() - i,
        {
            self.listeners[i].on_property_change(property);
            i = i + 1;
        }
    }

    /// Adds a listener that will receive events related to changes of this
    /// configuration.  `on_listen_start` fires on the new listener at once,
    /// as its first event.
    pub fn add_listener(&mut self, listener: Box<dyn ClientListener>)
        ensures
            final(self).spec_listeners() == old(self).spec_listeners().push(listener),
            final(self).spec_fields() == old(self).spec_fields(),
    {
        listener.on_listen_start();
        self.listeners.push(listener);
    }

    /// Removes the listener at the given registration position, so that it
    /// receives no further events; `on_listen_end` fires on it as its last
    /// event, and the removed listener is handed back.  An out-of-range
    /// position removes nothing.
    pub fn remove_listener(&mut self, index: usize) -> (r: Option<Box<dyn ClientListener>>)
        ensures
            r is Some <==> index < old(self).spec_listeners().len(),
            index < old(self).spec_listeners().len() ==> final(self).spec_listeners() == old(
                self,
            ).spec_listeners().remove(index as int),
            index >= old(self).spec_listeners().len() ==> final(self).spec_listeners() == old(
                self,
            ).spec_listeners(),
            final(self).spec_fields() == old(self).spec_fields(),
    {
        if index < self.listeners.len() {
            self.listeners[index].on_listen_end();
            let listener = self.listeners.remove(index);
            Some(listener)
        } else {
            None
        }
    }
}

impl Default for ConnectionDetails {
    /// An empty configuration: no coordinates, no listeners.
    fn default() -> (r: ConnectionDetails)
        ensures
            r.spec_adapter_set() is None,
            r.spec_client_ip() is None,
            r.spec_server_address() is None,
            r.spec_server_instance_address() is None,
            r.spec_server_socket_name() is None,
            r.spec_session_id() is None,
            r.spec_user() is None,
            r.spec_password() is None,
            r.spec_listeners().len() == 0,
            r.spec_notifications() == Seq::<Seq<char>>::empty(),
    {
        ConnectionDetails {
            adapter_set: None,
            client_ip: None,
            server_address: None,
            server_instance_address: None,
            server_socket_name: None,
            session_id: None,
            user: None,
            password: None,
            listeners: Vec::new(),
            notifications: Ghost(Seq::empty()),
        }
    }
}

} // verus!
