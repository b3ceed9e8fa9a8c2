//! A subscription: mode, items and fields, policy knobs with validated
//! setters, the value cache, and the COMMAND-mode key table.

use vstd::prelude::*;

use crate::cache::{command_item_set, command_key_set, CommandTable, ValueCache};
use crate::codec::{decode_field_tokens, decode_spec, FieldToken, FieldTokenView};
use crate::item_update::{first_index_from, first_index_of, wf_item_update, ItemUpdate};
use crate::subscription_listener::SubscriptionListener;
use crate::util::{parse_pos_spec, parse_usize, dec_digits, split_trimmed, str_eq, to_decimal_string, trimmed_pieces};
use crate::{IllegalArgumentException, IllegalStateException};

verus! {

/// The subscription mode: how updates overwrite, accumulate, key-index or
/// pass through.
#[derive(Clone, Copy, Debug, PartialEq, Eq, Structural)]
pub enum SubscriptionMode {
    /// Each update overwrites the previous values of its fields.
    Merge,
    /// Updates accumulate; each event stands on its own.
    Distinct,
    /// Updates pass through without server-side filtering or snapshots.
    Raw,
    /// Updates carry ADD/UPDATE/DELETE commands keyed by a key field.
    Command,
}

/// The characters of the wire name of each mode.
pub open spec fn mode_string(m: SubscriptionMode) -> Seq<char> {
    match m {
        SubscriptionMode::Merge => "MERGE"@,
        SubscriptionMode::Distinct => "DISTINCT"@,
        SubscriptionMode::Raw => "RAW"@,
        SubscriptionMode::Command => "COMMAND"@,
    }
}

impl SubscriptionMode {
    /// The wire name of the mode: `MERGE`, `DISTINCT`, `RAW` or `COMMAND`.
    pub fn to_string(&self) -> (r: String)
        ensures
            r@ == mode_string(*self),
    {
        match self {
            SubscriptionMode::Merge => "MERGE".to_owned(),
            SubscriptionMode::Distinct => "DISTINCT".to_owned(),
            SubscriptionMode::Raw => "RAW".to_owned(),
            SubscriptionMode::Command => "COMMAND".to_owned(),
        }
    }
}

/// The snapshot preference requested of the server for the items of a
/// subscription.
#[derive(Clone, Copy, Debug, PartialEq, Eq, Structural)]
pub enum Snapshot {
    /// Request the snapshot, its length decided by the server.
    Yes,
    /// Request no snapshot.
    No,
    /// Request a snapshot of at most this many events (DISTINCT mode only).
    Number(usize),
    /// Send no snapshot preference at all.
    Unset,
}

/// The characters each preference puts on the wire.
pub open spec fn snapshot_string(s: Snapshot) -> Seq<char> {
    match s {
        Snapshot::Yes => "true"@,
        Snapshot::No => "false"@,
        Snapshot::Number(n) => dec_digits(n as int),
        Snapshot::Unset => "none"@,
    }
}

impl Snapshot {
    /// The wire form of the preference: `true`, `false`, a decimal length,
    /// or `none`.
    pub fn to_string(&self) -> (r: String)
        ensures
            r@ == snapshot_string(*self),
    {
        match self {
            Snapshot::Yes => "true".to_owned(),
            Snapshot::No => "false".to_owned(),
            Snapshot::Number(n) => to_decimal_string(*n),
            Snapshot::Unset => "none".to_owned(),
        }
    }
}

/// A maximum update frequency, in updates per second.  `Limited(n)` carries
/// the rate in thousandths of an update per second, so `Limited(500)` stands
/// for one update every two seconds; `Unlimited` asks for no limit and
/// `Unfiltered` asks for unfiltered dispatching.
#[derive(Clone, Copy, Debug, PartialEq, Eq, Structural)]
pub enum MaxFrequency {
    /// No frequency limit requested.
    Unlimited,
    /// Unfiltered dispatching: every update is delivered.
    Unfiltered,
    /// A limit in thousandths of an update per second.
    Limited(u64),
}

/// Whether an item name is admitted: non-empty, holding no space, and not
/// readable as a number (a number would be taken for an item position).
pub open spec fn valid_item_name(s: Seq<char>) -> bool {
    &&& s.len() > 0
    &&& !(exists|i: int| 0 <= i < s.len() && s[i] == ' ')
    &&& parse_pos_spec(s) is None
}

/// Whether a field name is admitted: non-empty and holding no space.
pub open spec fn valid_field_name(s: Seq<char>) -> bool {
    &&& s.len() > 0
    &&& !(exists|i: int| 0 <= i < s.len() && s[i] == ' ')
}

/// Whether every name in the list is admitted as an item name.
pub open spec fn valid_item_names(names: Seq<Seq<char>>) -> bool {
    forall|i: int| 0 <= i < names.len() ==> valid_item_name(#[trigger] names[i])
}

/// Whether every name in the list is admitted as a field name.
pub open spec fn valid_field_names(names: Seq<Seq<char>>) -> bool {
    forall|i: int| 0 <= i < names.len() ==> valid_field_name(#[trigger] names[i])
}

/// The 1-based slot of the first comma-separated piece of `schema` whose
/// trimmed form is `target`, as a field schema names its fields.
pub open spec fn schema_position(schema: Seq<char>, target: Seq<char>) -> Option<usize> {
    match first_index_of(trimmed_pieces(schema), target) {
        Some(i) => Some((i + 1) as usize),
        None => None,
    }
}

/// Finds the 1-based slot of the named field in a comma-separated schema.
fn schema_position_exec(schema: &str, target: &str) -> (r: Option<usize>)
    ensures
        r == schema_position(schema@, target@),
{
    let pieces = split_trimmed(schema);
    let n = pieces.len();
    let mut i: usize = 0;
    while i < n
        invariant
            n == pieces.deep_view().len(),
            pieces.deep_view() == trimmed_pieces(schema@),
            0 <= i <= n,
            first_index_of(trimmed_pieces(schema@), target@) == first_index_from(
                trimmed_pieces(schema@),
                target@,
                i as int,
            ),
        decreases n - i,
    {
        if str_eq(pieces[i], target) {
            proof {
                assert(pieces.deep_view()[i as int] == target@);
            }
            return Some(i + 1);
        }
        proof {
            assert(pieces.deep_view()[i as int] != target@);
        }
        i = i + 1;
    }
    None
}

/// Whether the string holds a space character.
fn contains_space(s: &str) -> (r: bool)
    ensures
        r == exists|i: int| 0 <= i < s@.len() && s@[i] == ' ',
{
    let n: usize = s.unicode_len();
    let mut i: usize = 0;
    while i < n
        invariant
            n == s@.len(),
            0 <= i <= n,
            forall|j: int| 0 <= j < i ==> s@[j] != ' ',
        decreases n - i,
    {
        if s.get_char(i) == ' ' {
            return true;
        }
        i = i + 1;
    }
    false
}

/// Checks one item name.
fn check_item_name(s: &str) -> (r: bool)
    ensures
        r == valid_item_name(s@),
{
    if s.unicode_len() == 0 {
        return false;
    }
    if contains_space(s) {
        return false;
    }
    match parse_usize(s) {
        Some(_) => false,
        None => true,
    }
}

/// Checks one field name.
fn check_field_name(s: &str) -> (r: bool)
    ensures
        r == valid_field_name(s@),
{
    if s.unicode_len() == 0 {
        return false;
    }
    !contains_space(s)
}

/// Checks every name of an item list.
fn check_item_names(names: &Vec<String>) -> (r: bool)
    ensures
        r == valid_item_names(names.deep_view()),
{
    let n = names.len();
    let mut i: usize = 0;
    while i < n
        invariant
            n == names.deep_view().len(),
            0 <= i <= n,
            forall|j: int| 0 <= j < i ==> valid_item_name(#[trigger] names.deep_view()[j]),
        decreases n - i,
    {
        if !check_item_name(names[i].as_str()) {
            proof {
                assert(names.deep_view()[i as int] == names@[i as int]@);
                assert(!valid_item_name(names.deep_view()[i as int]));
            }
            return false;
        }
        proof {
            assert(names.deep_view()[i as int] == names@[i as int]@);
        }
        i = i + 1;
    }
    true
}

/// Checks every name of a field list.
fn check_field_names(names: &Vec<String>) -> (r: bool)
    ensures
        r == valid_field_names(names.deep_view()),
{
    let n = names.len();
    let mut i: usize = 0;
    while i < n
        invariant
            n == names.deep_view().len(),
            0 <= i <= n,
            forall|j: int| 0 <= j < i ==> valid_field_name(#[trigger] names.deep_view()[j]),
        decreases n - i,
    {
        if !check_field_name(names[i].as_str()) {
            proof {
                assert(names.deep_view()[i as int] == names@[i as int]@);
                assert(!valid_field_name(names.deep_view()[i as int]));
            }
            return false;
        }
        proof {
            assert(names.deep_view()[i as int] == names@[i as int]@);
        }
        i = i + 1;
    }
    true
}

/// The mathematical content of a `Subscription`.
pub struct SubscriptionView {
    pub mode: SubscriptionMode,
    pub items: Option<Seq<Seq<char>>>,
    pub item_group: Option<Seq<char>>,
    pub fields: Option<Seq<Seq<char>>>,
    pub field_schema: Option<Seq<char>>,
    pub data_adapter: Option<Seq<char>>,
    pub command_second_level_data_adapter: Option<Seq<char>>,
    pub command_second_level_fields: Option<Seq<Seq<char>>>,
    pub command_second_level_field_schema: Option<Seq<char>>,
    pub requested_buffer_size: Option<usize>,
    pub requested_max_frequency: Option<MaxFrequency>,
    pub requested_snapshot: Option<Snapshot>,
    pub selector: Option<Seq<char>>,
    pub listeners: Seq<Box<dyn SubscriptionListener>>,
    pub values: Map<(usize, usize), Seq<char>>,
    pub command_values: Map<(usize, usize, Seq<char>), Seq<char>>,
    pub key_position: Option<usize>,
    pub command_position: Option<usize>,
    pub num_fields: usize,
    pub is_active: bool,
    pub is_subscribed: bool,
    pub history: Seq<SubEvent>,
}

/// A subscription to be submitted to the server.  Most properties can only
/// be changed while the subscription is inactive; each validated setter
/// either stores the supplied value or returns an error and changes nothing.
/// The value cache and the COMMAND key table are filled by the session
/// engine as updates arrive, and read through `get_value` and
/// `get_command_value`.
pub struct Subscription {
    mode: SubscriptionMode,
    items: Option<Vec<String>>,
    item_group: Option<String>,
    fields: Option<Vec<String>>,
    field_schema: Option<String>,
    data_adapter: Option<String>,
    command_second_level_data_adapter: Option<String>,
    command_second_level_fields: Option<Vec<String>>,
    command_second_level_field_schema: Option<String>,
    requested_buffer_size: Option<usize>,
    requested_max_frequency: Option<MaxFrequency>,
    requested_snapshot: Option<Snapshot>,
    selector: Option<String>,
    listeners: Vec<Box<dyn SubscriptionListener>>,
    values: ValueCache,
    command_values: CommandTable,
    key_position: Option<usize>,
    command_position: Option<usize>,
    num_fields: usize,
    is_active: bool,
    is_subscribed: bool,
    history: Ghost<Seq<SubEvent>>,
}

impl View for Subscription {
    type V = SubscriptionView;

    closed spec fn view(&self) -> SubscriptionView {
        SubscriptionView {
            mode: self.mode,
            items: self.items.deep_view(),
            item_group: self.item_group.deep_view(),
            fields: self.fields.deep_view(),
            field_schema: self.field_schema.deep_view(),
            data_adapter: self.data_adapter.deep_view(),
            command_second_level_data_adapter: self.command_second_level_data_adapter.deep_view(),
            command_second_level_fields: self.command_second_level_fields.deep_view(),
            command_second_level_field_schema:
                self.command_second_level_field_schema.deep_view(),
            requested_buffer_size: self.requested_buffer_size,
            requested_max_frequency: self.requested_max_frequency,
            requested_snapshot: self.requested_snapshot,
            selector: self.selector.deep_view(),
            listeners: self.listeners@,
            values: self.values@,
            command_values: self.command_values@,
            key_position: self.key_position,
            command_position: self.command_position,
            num_fields: self.num_fields,
            is_active: self.is_active,
            is_subscribed: self.is_subscribed,
            history: self.history@,
        }
    }
}

impl Subscription {
    /// Validity: the caches' keys are unique, and the event history read by
    /// the listeners respects the subscription lifecycle.
    pub closed spec fn wf(&self) -> bool {
        &&& self.values.wf()
        &&& self.command_values.wf()
        &&& history_ok(self.history@, self.is_subscribed)
    }

    /// Creates a new subscription in the given mode.  Items and fields must
    /// both be provided here (an item group or field schema can replace them
    /// later); the subscription starts inactive, with empty caches.
    pub fn new(mode: SubscriptionMode, items: Option<Vec<String>>, fields: Option<Vec<String>>)
        -> (r: Result<Subscription, IllegalArgumentException>)
        ensures
            r is Ok <==> (items is Some && fields is Some),
            r is Ok ==> {
                let s = r.unwrap();
                &&& s.wf()
                &&& s@ == (SubscriptionView {
                    mode: mode,
                    items: items.deep_view(),
                    item_group: None::<Seq<char>>,
                    fields: fields.deep_view(),
                    field_schema: None::<Seq<char>>,
                    data_adapter: None::<Seq<char>>,
                    command_second_level_data_adapter: None::<Seq<char>>,
                    command_second_level_fields: None::<Seq<Seq<char>>>,
                    command_second_level_field_schema: None::<Seq<char>>,
                    requested_buffer_size: None::<usize>,
                    requested_max_frequency: None::<MaxFrequency>,
                    requested_snapshot: None::<Snapshot>,
                    selector: None::<Seq<char>>,
                    listeners: s@.listeners,
                    values: Map::<(usize, usize), Seq<char>>::empty(),
                    command_values: Map::<(usize, usize, Seq<char>), Seq<char>>::empty(),
                    key_position: None::<usize>,
                    command_position: None::<usize>,
                    num_fields: 0usize,
                    is_active: false,
                    is_subscribed: false,
                    history: Seq::<SubEvent>::empty(),
                })
                &&& s@.listeners.len() == 0
            },
    {
        if items.is_none() || fields.is_none() {
            return Err(IllegalArgumentException::new("Items and fields must be provided"));
        }
        Ok(
            Subscription {
                mode,
                items,
                item_group: None,
                fields,
                field_schema: None,
                data_adapter: None,
                command_second_level_data_adapter: None,
                command_second_level_fields: None,
                command_second_level_field_schema: None,
                requested_buffer_size: None,
                requested_max_frequency: None,
                requested_snapshot: None,
                selector: None,
                listeners: Vec::new(),
                values: ValueCache::new(),
                command_values: CommandTable::new(),
                key_position: None,
                command_position: None,
                num_fields: 0,
                is_active: false,
                is_subscribed: false,
                history: Ghost(Seq::empty()),
            },
        )
    }

    /// Adds a listener that will receive the events of this subscription;
    /// `on_listen_start` fires on it at once, as its first event.
    pub fn add_listener(&mut self, listener: Box<dyn SubscriptionListener>)
        ensures
            final(self)@ == (SubscriptionView {
                listeners: final(self)@.listeners,
                ..old(self)@
            }),
            // exactly one listener was appended; `on_listen_start` fired on
            // it, so its state may differ from the value handed in
            exists|l: Box<dyn SubscriptionListener>|
                final(self)@.listeners == #[trigger] old(self)@.listeners.push(l),
            old(self).wf() ==> final(self).wf(),
    {
        let mut listener = listener;
        listener.on_listen_start();
        let ghost started = listener;
        self.listeners.push(listener);
        proof {
            assert(self.listeners@ == old(self)@.listeners.push(started));
        }
    }

    /// Removes the listener at the given registration position, firing
    /// `on_listen_end` on it as its last event and handing it back.  An
    /// out-of-range position removes nothing.
    pub fn remove_listener(&mut self, index: usize) -> (r: Option<Box<dyn SubscriptionListener>>)
        ensures
            r is Some <==> index < old(self)@.listeners.len(),
            index < old(self)@.listeners.len() ==> final(self)@ == (SubscriptionView {
                listeners: old(self)@.listeners.remove(index as int),
                ..old(self)@
            }),
            index >= old(self)@.listeners.len() ==> final(self)@ == old(self)@,
            old(self).wf() ==> final(self).wf(),
    {
        if index < self.listeners.len() {
            let mut listener = self.listeners.remove(index);
            listener.on_listen_end();
            Some(listener)
        } else {
            None
        }
    }

    /// The listeners of this subscription, in registration order.
    pub fn get_listeners(&self) -> (r: &Vec<Box<dyn SubscriptionListener>>)
        ensures
            r@ == self@.listeners,
    {
        &self.listeners
    }

    /// The mode this subscription was created with.
    pub fn get_mode(&self) -> (r: &SubscriptionMode)
        ensures
            *r == self@.mode,
    {
        &self.mode
    }

    /// Sets the item group to subscribe to, overriding any item list or
    /// group set before.  Refused while the subscription is active.
    pub fn set_item_group(&mut self, group: String) -> (r: Result<(), String>)
        ensures
            r is Ok <==> !old(self)@.is_active,
            r is Ok ==> final(self)@ == (SubscriptionView {
                item_group: Some(group@),
                items: None::<Seq<Seq<char>>>,
                ..old(self)@
            }),
            r is Err ==> final(self)@ == old(self)@,
            old(self).wf() ==> final(self).wf(),
    {
        if self.is_active {
            return Err(
                "Subscription is active. This method can only be called while the Subscription instance is in its 'inactive' state.".to_owned(),
            );
        }
        self.items = None;
        self.item_group = Some(group);
        Ok(())
    }

    /// The item group, when one is set.
    pub fn get_item_group(&self) -> (r: Option<&String>)
        ensures
            r.deep_view() == self@.item_group,
    {
        self.item_group.as_ref()
    }

    /// Sets the item list to subscribe to, overriding any item list or group
    /// set before.  Refused while the subscription is active, and when any
    /// name is empty, holds a space, or reads as a number.
    pub fn set_items(&mut self, items: Vec<String>) -> (r: Result<(), String>)
        ensures
            r is Ok <==> (!old(self)@.is_active && valid_item_names(items.deep_view())),
            r is Ok ==> final(self)@ == (SubscriptionView {
                items: Some(items.deep_view()),
                item_group: None::<Seq<char>>,
                ..old(self)@
            }),
            r is Err ==> final(self)@ == old(self)@,
            old(self).wf() ==> final(self).wf(),
    {
        if self.is_active {
            return Err("Subscription is active".to_owned());
        }
        if !check_item_names(&items) {
            return Err("Invalid item name".to_owned());
        }
        self.item_group = None;
        self.items = Some(items);
        Ok(())
    }

    /// The item list, when one is set.
    pub fn get_items(&self) -> (r: Option<&Vec<String>>)
        ensures
            r is Some <==> self@.items is Some,
            r is Some ==> r.unwrap().deep_view() == self@.items.unwrap(),
    {
        self.items.as_ref()
    }

    /// Sets the field schema to subscribe with, overriding any field list or
    /// schema set before.  Refused while the subscription is active.
    pub fn set_field_schema(&mut self, schema: String) -> (r: Result<(), String>)
        ensures
            r is Ok <==> !old(self)@.is_active,
            r is Ok ==> final(self)@ == (SubscriptionView {
                field_schema: Some(schema@),
                fields: None::<Seq<Seq<char>>>,
                ..old(self)@
            }),
            r is Err ==> final(self)@ == old(self)@,
            old(self).wf() ==> final(self).wf(),
    {
        if self.is_active {
            return Err("Subscription is active".to_owned());
        }
        self.fields = None;
        self.field_schema = Some(schema);
        Ok(())
    }

    /// The field schema, when one is set.
    pub fn get_field_schema(&self) -> (r: Option<&String>)
        ensures
            r.deep_view() == self@.field_schema,
    {
        self.field_schema.as_ref()
    }

    /// Sets the field list to subscribe with, overriding any field list or
    /// schema set before.  Refused while the subscription is active, and
    /// when any name is empty or holds a space.
    pub fn set_fields(&mut self, fields: Vec<String>) -> (r: Result<(), String>)
        ensures
            r is Ok <==> (!old(self)@.is_active && valid_field_names(fields.deep_view())),
            r is Ok ==> final(self)@ == (SubscriptionView {
                fields: Some(fields.deep_view()),
                field_schema: None::<Seq<char>>,
                ..old(self)@
            }),
            r is Err ==> final(self)@ == old(self)@,
            old(self).wf() ==> final(self).wf(),
    {
        if self.is_active {
            return Err("Subscription is active".to_owned());
        }
        if !check_field_names(&fields) {
            return Err("Invalid field name".to_owned());
        }
        self.field_schema = None;
        self.fields = Some(fields);
        Ok(())
    }

    /// The field list, when one is set.
    pub fn get_fields(&self) -> (r: Option<&Vec<String>>)
        ensures
            r is Some <==> self@.fields is Some,
            r is Some ==> r.unwrap().deep_view() == self@.fields.unwrap(),
    {
        self.fields.as_ref()
    }

    /// Sets the data adapter supplying the items; `None` means the `DEFAULT`
    /// adapter.  Refused while the subscription is active.
    pub fn set_data_adapter(&mut self, adapter: Option<String>) -> (r: Result<(), String>)
        ensures
            r is Ok <==> !old(self)@.is_active,
            r is Ok ==> final(self)@ == (SubscriptionView {
                data_adapter: adapter.deep_view(),
                ..old(self)@
            }),
            r is Err ==> final(self)@ == old(self)@,
            old(self).wf() ==> final(self).wf(),
    {
        if self.is_active {
            return Err("Subscription is active".to_owned());
        }
        self.data_adapter = adapter;
        Ok(())
    }

    /// The data adapter name, when one is set.
    pub fn get_data_adapter(&self) -> (r: Option<&String>)
        ensures
            r.deep_view() == self@.data_adapter,
    {
        self.data_adapter.as_ref()
    }

    /// Sets the data adapter of the second-level subscriptions of a COMMAND
    /// subscription.  Refused while active, and for any other mode.
    pub fn set_command_second_level_data_adapter(&mut self, adapter: Option<String>) -> (r: Result<
        (),
        String,
    >)
        ensures
            r is Ok <==> (!old(self)@.is_active && old(self)@.mode == SubscriptionMode::Command),
            r is Ok ==> final(self)@ == (SubscriptionView {
                command_second_level_data_adapter: adapter.deep_view(),
                ..old(self)@
            }),
            r is Err ==> final(self)@ == old(self)@,
            old(self).wf() ==> final(self).wf(),
    {
        if self.is_active {
            return Err("Subscription is active".to_owned());
        }
        if !matches!(self.mode, SubscriptionMode::Command) {
            return Err("Subscription mode is not Command".to_owned());
        }
        self.command_second_level_data_adapter = adapter;
        Ok(())
    }

    /// The second-level data adapter name, readable only in COMMAND mode.
    pub fn get_command_second_level_data_adapter(&self) -> (r: Option<&String>)
        ensures
            self@.mode == SubscriptionMode::Command ==> r.deep_view()
                == self@.command_second_level_data_adapter,
            self@.mode != SubscriptionMode::Command ==> r is None,
    {
        if !matches!(self.mode, SubscriptionMode::Command) {
            return None;
        }
        self.command_second_level_data_adapter.as_ref()
    }

    /// Sets the field schema of the second-level subscriptions of a COMMAND
    /// subscription, enabling the two-level behaviour; `None` disables it.
    /// Refused while active, and for any other mode.
    pub fn set_command_second_level_field_schema(&mut self, schema: Option<String>) -> (r: Result<
        (),
        String,
    >)
        ensures
            r is Ok <==> (!old(self)@.is_active && old(self)@.mode == SubscriptionMode::Command),
            r is Ok ==> final(self)@ == (SubscriptionView {
                command_second_level_field_schema: schema.deep_view(),
                ..old(self)@
            }),
            r is Err ==> final(self)@ == old(self)@,
            old(self).wf() ==> final(self).wf(),
    {
        if self.is_active {
            return Err("Subscription is active".to_owned());
        }
        if !matches!(self.mode, SubscriptionMode::Command) {
            return Err("Subscription mode is not Command".to_owned());
        }
        self.command_second_level_field_schema = schema;
        Ok(())
    }

    /// The second-level field schema, readable only in COMMAND mode.
    pub fn get_command_second_level_field_schema(&self) -> (r: Option<&String>)
        ensures
            self@.mode == SubscriptionMode::Command ==> r.deep_view()
                == self@.command_second_level_field_schema,
            self@.mode != SubscriptionMode::Command ==> r is None,
    {
        if !matches!(self.mode, SubscriptionMode::Command) {
            return None;
        }
        self.command_second_level_field_schema.as_ref()
    }

    /// Sets the field list of the second-level subscriptions of a COMMAND
    /// subscription, enabling the two-level behaviour; `None` disables it.
    /// Refused while active, for any other mode, and when any name is empty
    /// or holds a space.
    pub fn set_command_second_level_fields(&mut self, fields: Option<Vec<String>>) -> (r: Result<
        (),
        String,
    >)
        ensures
            r is Ok <==> (!old(self)@.is_active && old(self)@.mode == SubscriptionMode::Command
                && (fields is Some ==> valid_field_names(fields.unwrap().deep_view()))),
            r is Ok ==> final(self)@ == (SubscriptionView {
                command_second_level_fields: fields.deep_view(),
                ..old(self)@
            }),
            r is Err ==> final(self)@ == old(self)@,
            old(self).wf() ==> final(self).wf(),
    {
        if self.is_active {
            return Err("Subscription is active".to_owned());
        }
        if !matches!(self.mode, SubscriptionMode::Command) {
            return Err("Subscription mode is not Command".to_owned());
        }
        if let Some(list) = &fields {
            if !check_field_names(list) {
                return Err("Invalid field name".to_owned());
            }
        }
        self.command_second_level_fields = fields;
        Ok(())
    }

    /// The second-level field list, readable only in COMMAND mode.
    pub fn get_command_second_level_fields(&self) -> (r: Option<&Vec<String>>)
        ensures
            self@.mode == SubscriptionMode::Command ==> (r is Some <==> self@
                .command_second_level_fields is Some),
            self@.mode == SubscriptionMode::Command && r is Some ==> r.unwrap().deep_view()
                == self@.command_second_level_fields.unwrap(),
            self@.mode != SubscriptionMode::Command ==> r is None,
    {
        if !matches!(self.mode, SubscriptionMode::Command) {
            return None;
        }
        self.command_second_level_fields.as_ref()
    }

    /// Requests a length for the server-side queueing buffers.  Refused
    /// while the subscription is active.
    pub fn set_requested_buffer_size(&mut self, size: Option<usize>) -> (r: Result<(), String>)
        ensures
            r is Ok <==> !old(self)@.is_active,
            r is Ok ==> final(self)@ == (SubscriptionView {
                requested_buffer_size: size,
                ..old(self)@
            }),
            r is Err ==> final(self)@ == old(self)@,
            old(self).wf() ==> final(self).wf(),
    {
        if self.is_active {
            return Err("Subscription is active".to_owned());
        }
        self.requested_buffer_size = size;
        Ok(())
    }

    /// The requested buffer size, when one is set.
    pub fn get_requested_buffer_size(&self) -> (r: Option<&usize>)
        ensures
            r.deep_view() == self@.requested_buffer_size,
    {
        self.requested_buffer_size.as_ref()
    }

    /// Requests a maximum update frequency.  While the subscription is
    /// active the frequency can still be changed, except that unfiltered
    /// dispatching can neither be entered nor left: the call is refused when
    /// the current value is `Unfiltered`, and when the new value is
    /// `Unfiltered` or `None`.  A limit of zero is always refused.  A
    /// refused call changes nothing.
    pub fn set_requested_max_frequency(&mut self, freq: Option<MaxFrequency>) -> (r: Result<
        (),
        String,
    >)
        ensures
            r is Ok <==> ({
                &&& !(old(self)@.is_active && old(self)@.requested_max_frequency == Some(
                    MaxFrequency::Unfiltered,
                ))
                &&& !(old(self)@.is_active && (freq is None || freq == Some(
                    MaxFrequency::Unfiltered,
                )))
                &&& freq != Some(MaxFrequency::Limited(0u64))
            }),
            r is Ok ==> final(self)@ == (SubscriptionView {
                requested_max_frequency: freq,
                ..old(self)@
            }),
            r is Err ==> final(self)@ == old(self)@,
            old(self).wf() ==> final(self).wf(),
    {
        if self.is_active && matches!(
            self.requested_max_frequency,
            Some(MaxFrequency::Unfiltered),
        ) {
            return Err("Subscription is active and current value is unfiltered".to_owned());
        }
        if self.is_active && (freq.is_none() || matches!(freq, Some(MaxFrequency::Unfiltered))) {
            return Err("Cannot set unfiltered or no frequency while active".to_owned());
        }
        if matches!(freq, Some(MaxFrequency::Limited(0u64))) {
            return Err("Frequency limit should be a positive number".to_owned());
        }
        self.requested_max_frequency = freq;
        Ok(())
    }

    /// The requested maximum frequency, when one is set.
    pub fn get_requested_max_frequency(&self) -> (r: Option<MaxFrequency>)
        ensures
            r == self@.requested_max_frequency,
    {
        self.requested_max_frequency
    }

    /// Requests or declines snapshot delivery.  Refused while the
    /// subscription is active; a snapshot length is only admitted in
    /// DISTINCT mode, and in RAW mode only `Snapshot::Unset` (or no
    /// preference at all) is admitted.
    pub fn set_requested_snapshot(&mut self, snapshot: Option<Snapshot>) -> (r: Result<(), String>)
        ensures
            r is Ok <==> ({
                &&& !old(self)@.is_active
                &&& ((snapshot matches Some(Snapshot::Number(_))) ==> old(self)@.mode
                    == SubscriptionMode::Distinct)
                &&& (old(self)@.mode == SubscriptionMode::Raw ==> (snapshot is None || snapshot
                    == Some(Snapshot::Unset)))
            }),
            r is Ok ==> final(self)@ == (SubscriptionView {
                requested_snapshot: snapshot,
                ..old(self)@
            }),
            r is Err ==> final(self)@ == old(self)@,
            old(self).wf() ==> final(self).wf(),
    {
        if self.is_active {
            return Err("Subscription is active".to_owned());
        }
        match snapshot {
            Some(Snapshot::Number(_)) => {
                if !matches!(self.mode, SubscriptionMode::Distinct) {
                    return Err("Cannot specify snapshot length for non-Distinct mode".to_owned());
                }
            },
            Some(Snapshot::Yes) | Some(Snapshot::No) => {
                if matches!(self.mode, SubscriptionMode::Raw) {
                    return Err("Cannot request snapshot for Raw mode".to_owned());
                }
            },
            _ => {},
        }
        self.requested_snapshot = snapshot;
        Ok(())
    }

    /// The requested snapshot preference, when one is set.
    pub fn get_requested_snapshot(&self) -> (r: Option<Snapshot>)
        ensures
            r == self@.requested_snapshot,
    {
        self.requested_snapshot
    }

    /// Sets the server-side selector filtering the updates; `None` unsets
    /// it.  Refused while the subscription is active.
    pub fn set_selector(&mut self, selector: Option<String>) -> (r: Result<(), String>)
        ensures
            r is Ok <==> !old(self)@.is_active,
            r is Ok ==> final(self)@ == (SubscriptionView {
                selector: selector.deep_view(),
                ..old(self)@
            }),
            r is Err ==> final(self)@ == old(self)@,
            old(self).wf() ==> final(self).wf(),
    {
        if self.is_active {
            return Err("Subscription is active".to_owned());
        }
        self.selector = selector;
        Ok(())
    }

    /// The selector name, when one is set.
    pub fn get_selector(&self) -> (r: Option<&String>)
        ensures
            r.deep_view() == self@.selector,
    {
        self.selector.as_ref()
    }

    /// The last value received for an (item, field) pair, both 1-based;
    /// `None` when nothing was received for the pair, or its value is null.
    /// In COMMAND mode the keys overwrite each other here; use
    /// `get_command_value` instead.
    pub fn get_value(&self, item_pos: usize, field_pos: usize) -> (r: Option<&String>)
        requires
            self.wf(),
        ensures
            r is Some <==> self@.values.contains_key((item_pos, field_pos)),
            r is Some ==> r.unwrap()@ == self@.values[(item_pos, field_pos)],
    {
        self.values.get(item_pos, field_pos)
    }

    /// The last value received for a field of the given key within an item
    /// of a COMMAND subscription; `None` when the key is absent (never added
    /// or deleted) or the field was never valued for it.
    pub fn get_command_value(&self, item_pos: usize, key: &str, field_pos: usize) -> (r: Option<
        &String,
    >)
        requires
            self.wf(),
        ensures
            r is Some <==> self@.command_values.contains_key((item_pos, field_pos, key@)),
            r is Some ==> r.unwrap()@ == self@.command_values[(item_pos, field_pos, key@)],
    {
        self.command_values.get(item_pos, key, field_pos)
    }

    /// Whether the subscription is active: submitted to the session engine
    /// and not yet unsubscribed.  Most properties are frozen while active.
    pub fn is_active(&self) -> (r: bool)
        ensures
            r == self@.is_active,
    {
        self.is_active
    }

    /// Whether the subscription is currently established on the server.
    pub fn is_subscribed(&self) -> (r: bool)
        ensures
            r == self@.is_subscribed,
    {
        self.is_subscribed
    }

    /// The 1-based position of the key field of a COMMAND subscription: the
    /// position the server established at subscription time or, for a
    /// subscription built on a field schema, the slot of the `key` field in
    /// the schema.  `None` before the subscription is established, and in
    /// any other mode.
    pub fn get_key_position(&self) -> (r: Option<usize>)
        ensures
            r == if self@.mode == SubscriptionMode::Command && self@.is_subscribed {
                if self@.key_position is Some {
                    self@.key_position
                } else if self@.field_schema is Some {
                    schema_position(self@.field_schema.unwrap(), "key"@)
                } else {
                    None::<usize>
                }
            } else {
                None::<usize>
            },
    {
        if !matches!(self.mode, SubscriptionMode::Command) || !self.is_subscribed {
            return None;
        }
        if self.key_position.is_some() {
            return self.key_position;
        }
        match &self.field_schema {
            Some(schema) => schema_position_exec(schema.as_str(), "key"),
            None => None,
        }
    }

    /// The 1-based position of the command field of a COMMAND subscription:
    /// the position the server established at subscription time or, for a
    /// subscription built on a field schema, the slot of the `command` field
    /// in the schema.  `None` before the subscription is established, and in
    /// any other mode.
    pub fn get_command_position(&self) -> (r: Option<usize>)
        ensures
            r == if self@.mode == SubscriptionMode::Command && self@.is_subscribed {
                if self@.command_position is Some {
                    self@.command_position
                } else if self@.field_schema is Some {
                    schema_position(self@.field_schema.unwrap(), "command"@)
                } else {
                    None::<usize>
                }
            } else {
                None::<usize>
            },
    {
        if !matches!(self.mode, SubscriptionMode::Command) || !self.is_subscribed {
            return None;
        }
        if self.command_position.is_some() {
            return self.command_position;
        }
        match &self.field_schema {
            Some(schema) => schema_position_exec(schema.as_str(), "command"),
            None => None,
        }
    }

    /// Marks the subscription active, as submitting it to the session engine
    /// does.  Fails if it is already active.
    pub fn activate(&mut self) -> (r: Result<(), IllegalStateException>)
        ensures
            r is Ok <==> !old(self)@.is_active,
            r is Ok ==> final(self)@ == (SubscriptionView { is_active: true, ..old(self)@ }),
            r is Err ==> final(self)@ == old(self)@,
            old(self).wf() ==> final(self).wf(),
    {
        if self.is_active {
            return Err(IllegalStateException::new("Subscription is already active"));
        }
        self.is_active = true;
        Ok(())
    }

    /// Marks the subscription inactive again without any server round trip,
    /// as abandoning a never-established registration does.
    pub fn deactivate(&mut self)
        ensures
            final(self)@ == (SubscriptionView { is_active: false, ..old(self)@ }),
            old(self).wf() ==> final(self).wf(),
    {
        self.is_active = false;
    }

    /// Records that the server established the subscription: the field count
    /// and, in COMMAND mode, the key and command field positions it
    /// announced.  `on_subscription` fires on every listener, before any
    /// other event of the round.
    pub fn on_subscribed(
        &mut self,
        num_fields: usize,
        key_position: Option<usize>,
        command_position: Option<usize>,
    )
        requires
            old(self).wf(),
            !old(self)@.is_subscribed,
        ensures
            final(self).wf(),
            final(self)@ == (SubscriptionView {
                is_subscribed: true,
                num_fields: num_fields,
                key_position: key_position,
                command_position: command_position,
                listeners: final(self)@.listeners,
                history: old(self)@.history.push(SubEvent::Subscribed),
                ..old(self)@
            }),
    {
        self.is_subscribed = true;
        self.num_fields = num_fields;
        self.key_position = key_position;
        self.command_position = command_position;
        proof {
            assert(self.history@.push(SubEvent::Subscribed).drop_last() =~= self.history@);
        }
        self.history = Ghost(self.history@.push(SubEvent::Subscribed));
        let ghost base = self@;
        let mut i: usize = 0;
        while i < self.listeners.len()
            invariant
                self@ == (SubscriptionView { listeners: self@.listeners, ..base }),
                self.wf(),
            decreases self.listeners.len() - i,
        {
            self.listeners[i].on_subscription();
            i = i + 1;
        }
    }

    /// Records that the subscription left the server: the caches are emptied
    /// and both lifecycle flags drop, then `on_unsubscription` fires on
    /// every listener as the last event of the round.
    pub fn on_unsubscribed(&mut self)
        requires
            old(self).wf(),
            old(self)@.is_subscribed,
        ensures
            final(self).wf(),
            final(self)@ == (SubscriptionView {
                is_subscribed: false,
                is_active: false,
                values: Map::<(usize, usize), Seq<char>>::empty(),
                command_values: Map::<(usize, usize, Seq<char>), Seq<char>>::empty(),
                listeners: final(self)@.listeners,
                history: old(self)@.history.push(SubEvent::Unsubscribed),
                ..old(self)@
            }),
    {
        self.values.clear();
        self.command_values.clear();
        self.is_subscribed = false;
        self.is_active = false;
        proof {
            assert(self.history@.push(SubEvent::Unsubscribed).drop_last() =~= self.history@);
        }
        self.history = Ghost(self.history@.push(SubEvent::Unsubscribed));
        let ghost base = self@;
        let mut i: usize = 0;
        while i < self.listeners.len()
            invariant
                self@ == (SubscriptionView { listeners: self@.listeners, ..base }),
                self.wf(),
            decreases self.listeners.len() - i,
        {
            self.listeners[i].on_unsubscription();
            i = i + 1;
        }
    }

    /// Delivers the end of an item's snapshot to every listener.
    pub fn on_end_of_snapshot(&mut self, item_name: Option<&str>, item_pos: usize)
        requires
            old(self).wf(),
            old(self)@.is_subscribed,
        ensures
            final(self).wf(),
            final(self)@ == (SubscriptionView {
                listeners: final(self)@.listeners,
                history: old(self)@.history.push(SubEvent::EndOfSnapshotEv),
                ..old(self)@
            }),
    {
        proof {
            assert(self.history@.push(SubEvent::EndOfSnapshotEv).drop_last() =~= self.history@);
        }
        self.history = Ghost(self.history@.push(SubEvent::EndOfSnapshotEv));
        let ghost base = self@;
        let mut i: usize = 0;
        while i < self.listeners.len()
            invariant
                self@ == (SubscriptionView { listeners: self@.listeners, ..base }),
                self.wf(),
            decreases self.listeners.len() - i,
        {
            self.listeners[i].on_end_of_snapshot(item_name, item_pos);
            i = i + 1;
        }
    }

    /// Clears an item's snapshot: the COMMAND key table forgets every key of
    /// the item, then the request is delivered to every listener.
    pub fn on_clear_snapshot(&mut self, item_name: Option<&str>, item_pos: usize)
        requires
            old(self).wf(),
            old(self)@.is_subscribed,
        ensures
            final(self).wf(),
            final(self)@ == (SubscriptionView {
                command_values: old(self)@.command_values.remove_keys(command_item_set(item_pos)),
                listeners: final(self)@.listeners,
                history: old(self)@.history.push(SubEvent::ClearSnapshotEv),
                ..old(self)@
            }),
    {
        self.command_values.clear_item(item_pos);
        proof {
            assert(self.history@.push(SubEvent::ClearSnapshotEv).drop_last() =~= self.history@);
        }
        self.history = Ghost(self.history@.push(SubEvent::ClearSnapshotEv));
        let ghost base = self@;
        let mut i: usize = 0;
        while i < self.listeners.len()
            invariant
                self@ == (SubscriptionView { listeners: self@.listeners, ..base }),
                self.wf(),
            decreases self.listeners.len() - i,
        {
            self.listeners[i].on_clear_snapshot(item_name, item_pos);
            i = i + 1;
        }
    }

    /// Reports to every listener that the server dropped `lost_updates`
    /// consecutive updates of an item.
    pub fn on_item_lost_updates(&mut self, item_name: Option<&str>, item_pos: usize, lost_updates: u32)
        requires
            old(self).wf(),
            old(self)@.is_subscribed,
        ensures
            final(self).wf(),
            final(self)@ == (SubscriptionView {
                listeners: final(self)@.listeners,
                history: old(self)@.history.push(SubEvent::LostUpdatesEv),
                ..old(self)@
            }),
    {
        proof {
            assert(self.history@.push(SubEvent::LostUpdatesEv).drop_last() =~= self.history@);
        }
        self.history = Ghost(self.history@.push(SubEvent::LostUpdatesEv));
        let ghost base = self@;
        let mut i: usize = 0;
        while i < self.listeners.len()
            invariant
                self@ == (SubscriptionView { listeners: self@.listeners, ..base }),
                self.wf(),
            decreases self.listeners.len() - i,
        {
            self.listeners[i].on_item_lost_updates(item_name, item_pos, lost_updates);
            i = i + 1;
        }
    }

    /// Reports to every listener the maximum update frequency the server
    /// really applies.
    pub fn on_real_max_frequency(&mut self, frequency: Option<MaxFrequency>)
        requires
            old(self).wf(),
            old(self)@.is_subscribed,
        ensures
            final(self).wf(),
            final(self)@ == (SubscriptionView {
                listeners: final(self)@.listeners,
                history: old(self)@.history.push(SubEvent::RealMaxFrequencyEv),
                ..old(self)@
            }),
    {
        proof {
            assert(self.history@.push(SubEvent::RealMaxFrequencyEv).drop_last() =~= self.history@);
        }
        self.history = Ghost(self.history@.push(SubEvent::RealMaxFrequencyEv));
        let ghost base = self@;
        let mut i: usize = 0;
        while i < self.listeners.len()
            invariant
                self@ == (SubscriptionView { listeners: self@.listeners, ..base }),
                self.wf(),
            decreases self.listeners.len() - i,
        {
            self.listeners[i].on_real_max_frequency(frequency);
            i = i + 1;
        }
    }

    /// Applies the per-field actions to the value cache of one item and
    /// returns the full field vector after the merge, with the changed
    /// flags.
    fn merge_actions(&mut self, item_pos: usize, actions: &Vec<Option<Option<String>>>) -> (r: (
        Vec<Option<String>>,
        Vec<bool>,
    ))
        requires
            old(self).wf(),
        ensures
            final(self).wf(),
            final(self)@ == (SubscriptionView { values: final(self)@.values, ..old(self)@ }),
            r.0.deep_view().len() == actions.deep_view().len(),
            r.1@.len() == actions.deep_view().len(),
            forall|f: int|
                0 <= f < actions.deep_view().len() ==> #[trigger] r.1@[f] == (
                actions.deep_view()[f] is Some),
            forall|f: int|
                0 <= f < actions.deep_view().len() ==> #[trigger] r.0.deep_view()[f]
                    == merged_value(
                    old(self)@.values,
                    item_pos,
                    (f + 1) as usize,
                    actions.deep_view()[f],
                ),
            forall|f: int|
                0 <= f < actions.deep_view().len() ==> map_opt(
                    final(self)@.values,
                    item_pos,
                    (f + 1) as usize,
                ) == #[trigger] r.0.deep_view()[f],
            forall|it2: usize, f2: usize|
                !(it2 == item_pos && 1 <= f2 <= actions.deep_view().len()) ==> #[trigger] map_opt(
                    final(self)@.values,
                    it2,
                    f2,
                ) == map_opt(old(self)@.values, it2, f2),
    {
        let n = actions.len();
        let mut vals: Vec<Option<String>> = Vec::new();
        let mut flags: Vec<bool> = Vec::new();
        let ghost base = self@;
        let ghost acts = actions.deep_view();
        let mut f: usize = 0;
        while f < n
            invariant
                n == acts.len(),
                acts == actions.deep_view(),
                base == old(self)@,
                0 <= f <= n,
                self.wf(),
                self@ == (SubscriptionView { values: self@.values, ..base }),
                vals.deep_view().len() == f,
                flags@.len() == f,
                forall|g: int| 0 <= g < f ==> #[trigger] flags@[g] == (acts[g] is Some),
                forall|g: int|
                    0 <= g < f ==> #[trigger] vals.deep_view()[g] == merged_value(
                        base.values,
                        item_pos,
                        (g + 1) as usize,
                        acts[g],
                    ),
                forall|g: int|
                    0 <= g < f ==> map_opt(self@.values, item_pos, (g + 1) as usize)
                        == #[trigger] vals.deep_view()[g],
                forall|it2: usize, f2: usize|
                    !(it2 == item_pos && 1 <= f2 <= f) ==> #[trigger] map_opt(self@.values, it2, f2)
                        == map_opt(base.values, it2, f2),
            decreases n - f,
        {
            let ghost vals0 = vals.deep_view();
            proof {
                assert(acts[f as int] == actions@[f as int].deep_view());
            }
            match &actions[f] {
                Some(v) => {
                    let copied: Option<String> = match v {
                        Some(text) => Some(text.clone()),
                        None => None,
                    };
                    let copied2: Option<String> = match v {
                        Some(text) => Some(text.clone()),
                        None => None,
                    };
                    proof {
                        assert(copied.deep_view() == acts[f as int].unwrap());
                        assert(copied2.deep_view() == acts[f as int].unwrap());
                    }
                    let ghost m0 = self@.values;
                    self.values.set(item_pos, f + 1, copied);
                    proof {
                        assert forall|it2: usize, f2: usize|
                            !(it2 == item_pos && 1 <= f2 <= f + 1) implies #[trigger] map_opt(
                            self@.values,
                            it2,
                            f2,
                        ) == map_opt(base.values, it2, f2) by {
                            assert((it2, f2) != (item_pos, (f + 1) as usize));
                            assert(map_opt(m0, it2, f2) == map_opt(base.values, it2, f2));
                            assert(map_opt(self@.values, it2, f2) == map_opt(m0, it2, f2));
                        }
                    }
                    vals.push(copied2);
                    flags.push(true);
                },
                None => {
                    proof {
                        assert(map_opt(self@.values, item_pos, (f + 1) as usize) == map_opt(
                            base.values,
                            item_pos,
                            (f + 1) as usize,
                        ));
                    }
                    let cur: Option<String> = match self.values.get(item_pos, f + 1) {
                        Some(text) => Some(text.clone()),
                        None => None,
                    };
                    proof {
                        assert(cur.deep_view() == map_opt(base.values, item_pos, (f + 1) as usize));
                    }
                    vals.push(cur);
                    flags.push(false);
                },
            }
            proof {
                assert(vals.deep_view() =~= vals0.push(vals.deep_view().last()));
            }
            f = f + 1;
        }
        (vals, flags)
    }

    /// Writes one full row of the COMMAND key table, as an ADD or UPDATE
    /// command does.
    fn write_command_row(&mut self, item_pos: usize, key: &str, vals: &Vec<Option<String>>)
        requires
            old(self).wf(),
        ensures
            final(self).wf(),
            final(self)@ == (SubscriptionView {
                command_values: row_written(
                    old(self)@.command_values,
                    item_pos,
                    key@,
                    vals.deep_view(),
                ),
                ..old(self)@
            }),
    {
        let n = vals.len();
        let ghost base = self@;
        let ghost target = row_written(old(self)@.command_values, item_pos, key@, vals.deep_view());
        let mut f: usize = 0;
        while f < n
            invariant
                n == vals.deep_view().len(),
                base == old(self)@,
                target == row_written(base.command_values, item_pos, key@, vals.deep_view()),
                0 <= f <= n,
                self.wf(),
                self@ == (SubscriptionView { command_values: self@.command_values, ..base }),
                forall|k: (usize, usize, Seq<char>)|
                    (k.0 == item_pos && k.2 == key@ && 1 <= k.1 <= f) ==> (
                    self@.command_values.contains_key(k) <==> vals.deep_view()[k.1 - 1] is Some),
                forall|k: (usize, usize, Seq<char>)|
                    (k.0 == item_pos && k.2 == key@ && 1 <= k.1 <= f
                        && self@.command_values.contains_key(k)) ==> self@.command_values[k]
                        == vals.deep_view()[k.1 - 1].unwrap(),
                forall|k: (usize, usize, Seq<char>)|
                    !(k.0 == item_pos && k.2 == key@ && 1 <= k.1 <= f) ==> (
                    self@.command_values.contains_key(k) <==> base.command_values.contains_key(k)),
                forall|k: (usize, usize, Seq<char>)|
                    !(k.0 == item_pos && k.2 == key@ && 1 <= k.1 <= f)
                        && self@.command_values.contains_key(k) ==> self@.command_values[k]
                        == base.command_values[k],
            decreases n - f,
        {
            let copied: Option<String> = match &vals[f] {
                Some(text) => Some(text.clone()),
                None => None,
            };
            self.command_values.set(item_pos, key, f + 1, copied);
            f = f + 1;
        }
        proof {
            assert(self@.command_values =~= target);
        }
    }

    /// Nulls every non-key field of one item in the value cache, as a DELETE
    /// command leaves the item.
    fn null_non_key_fields(&mut self, item_pos: usize, key_pos: usize, nfields: usize)
        requires
            old(self).wf(),
        ensures
            final(self).wf(),
            final(self)@ == (SubscriptionView { values: final(self)@.values, ..old(self)@ }),
            forall|f2: usize|
                1 <= f2 <= nfields && f2 != key_pos ==> #[trigger] map_opt(
                    final(self)@.values,
                    item_pos,
                    f2,
                ) is None,
            forall|it2: usize, f2: usize|
                !(it2 == item_pos && 1 <= f2 <= nfields && f2 != key_pos) ==> #[trigger] map_opt(
                    final(self)@.values,
                    it2,
                    f2,
                ) == map_opt(old(self)@.values, it2, f2),
    {
        let ghost base = self@;
        let mut f: usize = 0;
        while f < nfields
            invariant
                base == old(self)@,
                0 <= f <= nfields,
                self.wf(),
                self@ == (SubscriptionView { values: self@.values, ..base }),
                forall|f2: usize|
                    1 <= f2 <= f && f2 != key_pos ==> #[trigger] map_opt(
                        self@.values,
                        item_pos,
                        f2,
                    ) is None,
                forall|it2: usize, f2: usize|
                    !(it2 == item_pos && 1 <= f2 <= f && f2 != key_pos) ==> #[trigger] map_opt(
                        self@.values,
                        it2,
                        f2,
                    ) == map_opt(base.values, it2, f2),
            decreases nfields - f,
        {
            if f + 1 != key_pos {
                let ghost m0 = self@.values;
                self.values.set(item_pos, f + 1, None);
                proof {
                    assert forall|it2: usize, f2: usize|
                        !(it2 == item_pos && 1 <= f2 <= f + 1 && f2 != key_pos)
                            implies #[trigger] map_opt(self@.values, it2, f2) == map_opt(
                        base.values,
                        it2,
                        f2,
                    ) by {
                        assert((it2, f2) != (item_pos, (f + 1) as usize));
                        assert(map_opt(m0, it2, f2) == map_opt(base.values, it2, f2));
                        assert(map_opt(self@.values, it2, f2) == map_opt(m0, it2, f2));
                    }
                    assert forall|f2: usize|
                        1 <= f2 <= f + 1 && f2 != key_pos implies #[trigger] map_opt(
                        self@.values,
                        item_pos,
                        f2,
                    ) is None by {
                        if f2 == f + 1 {
                            assert(!self@.values.contains_key((item_pos, f2)));
                        } else {
                            assert(map_opt(m0, item_pos, f2) is None);
                            assert((item_pos, f2) != (item_pos, (f + 1) as usize));
                            assert(map_opt(self@.values, item_pos, f2) == map_opt(
                                m0,
                                item_pos,
                                f2,
                            ));
                        }
                    }
                }
            }
            f = f + 1;
        }
    }

    /// The field names an update event of this subscription carries.
    fn field_names_for(&self, nfields: usize) -> (r: Vec<String>)
        ensures
            r.deep_view() == expected_field_names(self@.fields, nfields),
    {
        if let Some(fs) = &self.fields {
            if fs.len() == nfields {
                let mut out: Vec<String> = Vec::new();
                let mut i: usize = 0;
                while i < nfields
                    invariant
                        0 <= i <= nfields,
                        fs.deep_view().len() == nfields,
                        fs.deep_view() == expected_field_names(self@.fields, nfields),
                        out.deep_view() == fs.deep_view().take(i as int),
                    decreases nfields - i,
                {
                    let ghost before = out.deep_view();
                    out.push(fs[i].clone());
                    proof {
                        assert(out.deep_view() =~= before.push(fs.deep_view()[i as int]));
                        assert(fs.deep_view().take(i + 1) =~= fs.deep_view().take(i as int).push(
                            fs.deep_view()[i as int],
                        ));
                    }
                    i = i + 1;
                }
                proof {
                    assert(fs.deep_view().take(nfields as int) =~= fs.deep_view());
                }
                return out;
            }
        }
        let mut out: Vec<String> = Vec::new();
        let mut i: usize = 0;
        while i < nfields
            invariant
                0 <= i <= nfields,
                out.deep_view() =~= Seq::new(i as nat, |j: int| dec_digits(j + 1)),
            decreases nfields - i,
        {
            let ghost before = out.deep_view();
            let name = to_decimal_string(i + 1);
            out.push(name);
            proof {
                assert(out.deep_view() =~= before.push(dec_digits(i + 1)));
                assert(before.push(dec_digits(i + 1)) =~= Seq::new(
                    (i + 1) as nat,
                    |j: int| dec_digits(j + 1),
                ));
            }
            i = i + 1;
        }
        proof {
            assert(Seq::new(nfields as nat, |j: int| dec_digits(j + 1)) =~= expected_field_names(
                self@.fields,
                nfields,
            ));
        }
        out
    }

    /// Fires `on_item_update` on every listener.
    fn notify_item_update(&mut self, update: &ItemUpdate)
        requires
            old(self).wf(),
        ensures
            final(self).wf(),
            final(self)@ == (SubscriptionView { listeners: final(self)@.listeners, ..old(self)@ }),
    {
        let ghost base = self@;
        let mut i: usize = 0;
        while i < self.listeners.len()
            invariant
                self@ == (SubscriptionView { listeners: self@.listeners, ..base }),
                self.wf(),
            decreases self.listeners.len() - i,
        {
            self.listeners[i].on_item_update(update);
            i = i + 1;
        }
    }

    /// Applies one update frame to this subscription: the field part is
    /// decoded against the item's cached prior values, the cache is brought
    /// to the new state, COMMAND events are routed to the key table, and
    /// only then the resulting event is delivered to every listener, so a
    /// listener reading the caches sees exactly the state its event implies.
    /// An unacceptable field part, a field count that does not match the
    /// subscription, or a malformed COMMAND event is refused; a refusal
    /// delivers no event.
    pub fn apply_update(
        &mut self,
        item_name: Option<String>,
        item_pos: usize,
        payload: &str,
        is_snapshot: bool,
    ) -> (r: Result<AppliedUpdate, IllegalArgumentException>)
        requires
            old(self).wf(),
            old(self)@.is_subscribed,
        ensures
            final(self).wf(),
            final(self)@ == (SubscriptionView {
                values: final(self)@.values,
                command_values: final(self)@.command_values,
                listeners: final(self)@.listeners,
                history: final(self)@.history,
                ..old(self)@
            }),
            r is Err ==> final(self)@ == (SubscriptionView {
                values: final(self)@.values,
                ..old(self)@
            }),
            // success is owed exactly on acceptable frames
            r is Ok <==> update_accepted(old(self)@, item_pos, payload@),
            r is Ok ==> final(self)@.history == old(self)@.history.push(SubEvent::ItemUpdateEv),
            r is Ok ==> {
                let u = r.unwrap().update@;
                let acts = token_actions(decode_spec(payload@).unwrap());
                let n = old(self)@.num_fields;
                &&& wf_item_update(u)
                &&& u.item_pos == item_pos
                &&& u.is_snapshot == is_snapshot
                &&& u.item_name == item_name.deep_view()
                &&& u.field_names == expected_field_names(old(self)@.fields, n)
                &&& u.values.len() == n
                &&& u.changed.len() == n
                &&& (forall|f: int| 0 <= f < n ==> (#[trigger] u.patches[f]) is None)
                // the cache agrees with the delivered event on every field
                &&& (forall|f: int|
                    0 <= f < n ==> map_opt(final(self)@.values, item_pos, (f + 1) as usize)
                        == #[trigger] u.values[f])
                // fields of other items are untouched
                &&& (forall|it2: usize, f2: usize|
                    it2 != item_pos ==> #[trigger] map_opt(final(self)@.values, it2, f2) == map_opt(
                        old(self)@.values,
                        it2,
                        f2,
                    ))
                &&& (r.unwrap().command is Some <==> old(self)@.mode == SubscriptionMode::Command)
                &&& match r.unwrap().command {
                    None => {
                        &&& (forall|f: int|
                            0 <= f < n ==> #[trigger] u.values[f] == merged_value(
                                old(self)@.values,
                                item_pos,
                                (f + 1) as usize,
                                acts[f],
                            ))
                        &&& (forall|f: int| 0 <= f < n ==> #[trigger] u.changed[f] == (
                        acts[f] is Some))
                        &&& final(self)@.command_values == old(self)@.command_values
                    },
                    Some(CommandAction::Add(k)) => {
                        &&& (forall|f: int|
                            0 <= f < n ==> #[trigger] u.values[f] == merged_value(
                                old(self)@.values,
                                item_pos,
                                (f + 1) as usize,
                                acts[f],
                            ))
                        &&& (forall|f: int| 0 <= f < n ==> #[trigger] u.changed[f] == (
                        acts[f] is Some))
                        &&& final(self)@.command_values == row_written(
                            old(self)@.command_values,
                            item_pos,
                            k@,
                            u.values,
                        )
                    },
                    Some(CommandAction::Update(k)) => {
                        &&& (forall|f: int|
                            0 <= f < n ==> #[trigger] u.values[f] == merged_value(
                                old(self)@.values,
                                item_pos,
                                (f + 1) as usize,
                                acts[f],
                            ))
                        &&& (forall|f: int| 0 <= f < n ==> #[trigger] u.changed[f] == (
                        acts[f] is Some))
                        &&& final(self)@.command_values == row_written(
                            old(self)@.command_values,
                            item_pos,
                            k@,
                            u.values,
                        )
                    },
                    Some(CommandAction::Delete(k)) => {
                        &&& old(self)@.key_position is Some
                        &&& u.values == delete_values(old(self)@.key_position.unwrap(), k@, n)
                        &&& u.changed == delete_changed(old(self)@.key_position.unwrap(), n)
                        &&& final(self)@.command_values == old(
                            self,
                        )@.command_values.remove_keys(command_key_set(item_pos, k@))
                    },
                }
            },
    {
        let nfields = self.num_fields;
        let tokens = match decode_field_tokens(payload) {
            Some(t) => t,
            None => {
                return Err(IllegalArgumentException::new("Unacceptable update field part"));
            },
        };
        let acts = match expand_tokens_exec(&tokens, nfields) {
            Ok(a) => a,
            Err(e) => {
                return Err(e);
            },
        };
        let is_command = matches!(self.mode, SubscriptionMode::Command);
        let mut key_pos: usize = 0;
        let mut cmd_pos: usize = 0;
        if is_command {
            key_pos = match self.key_position {
                Some(p) => p,
                None => {
                    return Err(IllegalArgumentException::new("COMMAND key position is unknown"));
                },
            };
            cmd_pos = match self.command_position {
                Some(p) => p,
                None => {
                    return Err(
                        IllegalArgumentException::new("COMMAND command position is unknown"),
                    );
                },
            };
            if !(1 <= key_pos && key_pos <= nfields && 1 <= cmd_pos && cmd_pos <= nfields) {
                return Err(IllegalArgumentException::new("COMMAND field positions out of range"));
            }
        }
        let (vals, changed) = self.merge_actions(item_pos, &acts);
        let ghost m_merged = self@.values;
        let names = self.field_names_for(nfields);
        let mut patches: Vec<Option<String>> = Vec::new();
        let mut pi: usize = 0;
        while pi < nfields
            invariant
                0 <= pi <= nfields,
                patches.deep_view().len() == pi,
                forall|j: int| 0 <= j < pi ==> (#[trigger] patches.deep_view()[j]) is None,
            decreases nfields - pi,
        {
            let ghost before = patches.deep_view();
            patches.push(None);
            proof {
                assert(patches.deep_view() =~= before.push(None::<Seq<char>>));
            }
            pi = pi + 1;
        }
        if !is_command {
            proof {
                assert(names.deep_view().len() == nfields);
                assert(vals.deep_view().len() == nfields);
            }
            let update = match ItemUpdate::new(
                item_name,
                item_pos,
                names,
                vals,
                changed,
                patches,
                is_snapshot,
            ) {
                Ok(u) => u,
                Err(e) => {
                    proof {
                        assert(false);
                    }
                    return Err(e);
                },
            };
            proof {
                assert(self.history@.push(SubEvent::ItemUpdateEv).drop_last() =~= self.history@);
            }
            self.history = Ghost(self.history@.push(SubEvent::ItemUpdateEv));
            self.notify_item_update(&update);
            return Ok(AppliedUpdate { update, command: None });
        }
        // COMMAND mode: the key and command fields route the event
        proof {
            assert(vals.deep_view()[key_pos - 1] == merged_value(
                old(self)@.values,
                item_pos,
                key_pos,
                acts.deep_view()[key_pos - 1],
            ));
            assert(vals.deep_view()[cmd_pos - 1] == merged_value(
                old(self)@.values,
                item_pos,
                cmd_pos,
                acts.deep_view()[cmd_pos - 1],
            ));
        }
        let key: String = match &vals[key_pos - 1] {
            Some(k) => k.clone(),
            None => {
                proof {
                    assert(!update_accepted(old(self)@, item_pos, payload@));
                }
                return Err(IllegalArgumentException::new("COMMAND update carries no key"));
            },
        };
        let cmd: String = match &vals[cmd_pos - 1] {
            Some(c) => c.clone(),
            None => {
                proof {
                    assert(!update_accepted(old(self)@, item_pos, payload@));
                }
                return Err(IllegalArgumentException::new("COMMAND update carries no command"));
            },
        };
        proof {
            assert(cmd@ == merged_value(
                old(self)@.values,
                item_pos,
                cmd_pos,
                acts.deep_view()[cmd_pos - 1],
            ).unwrap());
        }
        let is_add = str_eq(cmd.as_str(), "ADD");
        let is_update_cmd = str_eq(cmd.as_str(), "UPDATE");
        let is_delete = str_eq(cmd.as_str(), "DELETE");
        if is_add || is_update_cmd {
            self.write_command_row(item_pos, key.as_str(), &vals);
            proof {
                assert(names.deep_view().len() == nfields);
                assert(vals.deep_view().len() == nfields);
            }
            let update = match ItemUpdate::new(
                item_name,
                item_pos,
                names,
                vals,
                changed,
                patches,
                is_snapshot,
            ) {
                Ok(u) => u,
                Err(e) => {
                    proof {
                        assert(false);
                    }
                    return Err(e);
                },
            };
            proof {
                assert(self.history@.push(SubEvent::ItemUpdateEv).drop_last() =~= self.history@);
            }
            self.history = Ghost(self.history@.push(SubEvent::ItemUpdateEv));
            self.notify_item_update(&update);
            let action = if is_add {
                CommandAction::Add(key)
            } else {
                CommandAction::Update(key)
            };
            return Ok(AppliedUpdate { update, command: Some(action) });
        }
        if is_delete {
            proof {
                assert(vals.deep_view()[key_pos - 1] == Some(key@));
            }
            self.command_values.delete_key(item_pos, key.as_str());
            let ghost m_before_null = self@.values;
            self.null_non_key_fields(item_pos, key_pos, nfields);
            proof {
                assert(m_before_null == m_merged);
                assert forall|f: int|
                    0 <= f < nfields implies map_opt(self@.values, item_pos, (f + 1) as usize)
                        == delete_values(key_pos, key@, nfields)[f] by {
                    if f + 1 == key_pos {
                        assert(!(item_pos == item_pos && 1 <= key_pos <= nfields && key_pos
                            != key_pos));
                        assert(map_opt(self@.values, item_pos, key_pos) == map_opt(
                            m_merged,
                            item_pos,
                            key_pos,
                        ));
                        assert(map_opt(m_merged, item_pos, key_pos) == vals.deep_view()[
                            key_pos - 1]);
                    } else {
                        assert(map_opt(self@.values, item_pos, ((f + 1) as usize)) is None);
                    }
                }
            }
            let mut dvals: Vec<Option<String>> = Vec::new();
            let mut dchanged: Vec<bool> = Vec::new();
            let mut f: usize = 0;
            while f < nfields
                invariant
                    0 <= f <= nfields,
                    1 <= key_pos <= nfields,
                    dvals.deep_view() == delete_values(key_pos, key@, nfields).take(f as int),
                    dchanged@ == delete_changed(key_pos, nfields).take(f as int),
                decreases nfields - f,
            {
                let ghost bv = dvals.deep_view();
                let ghost bc = dchanged@;
                if f + 1 == key_pos {
                    dvals.push(Some(key.clone()));
                    dchanged.push(false);
                } else {
                    dvals.push(None);
                    dchanged.push(true);
                }
                proof {
                    assert(dvals.deep_view() =~= bv.push(
                        delete_values(key_pos, key@, nfields)[f as int],
                    ));
                    assert(delete_values(key_pos, key@, nfields).take(f + 1) =~= delete_values(
                        key_pos,
                        key@,
                        nfields,
                    ).take(f as int).push(delete_values(key_pos, key@, nfields)[f as int]));
                    assert(dchanged@ =~= bc.push(delete_changed(key_pos, nfields)[f as int]));
                    assert(delete_changed(key_pos, nfields).take(f + 1) =~= delete_changed(
                        key_pos,
                        nfields,
                    ).take(f as int).push(delete_changed(key_pos, nfields)[f as int]));
                }
                f = f + 1;
            }
            proof {
                assert(delete_values(key_pos, key@, nfields).take(nfields as int)
                    =~= delete_values(key_pos, key@, nfields));
                assert(delete_changed(key_pos, nfields).take(nfields as int) =~= delete_changed(
                    key_pos,
                    nfields,
                ));
            }
            proof {
                assert(names.deep_view().len() == nfields);
                assert(dvals.deep_view().len() == nfields);
            }
            let update = match ItemUpdate::new(
                item_name,
                item_pos,
                names,
                dvals,
                dchanged,
                patches,
                is_snapshot,
            ) {
                Ok(u) => u,
                Err(e) => {
                    proof {
                        assert(false);
                    }
                    return Err(e);
                },
            };
            proof {
                assert(self.history@.push(SubEvent::ItemUpdateEv).drop_last() =~= self.history@);
            }
            self.history = Ghost(self.history@.push(SubEvent::ItemUpdateEv));
            self.notify_item_update(&update);
            return Ok(AppliedUpdate { update, command: Some(CommandAction::Delete(key)) });
        }
        proof {
            assert(!update_accepted(old(self)@, item_pos, payload@));
        }
        Err(IllegalArgumentException::new("Unknown COMMAND verb"))
    }
}

/// One event of a subscription's listener stream, as the dispatch discipline
/// orders it.
pub enum SubEvent {
    /// `on_subscription` fired.
    Subscribed,
    /// `on_item_update` fired.
    ItemUpdateEv,
    /// `on_end_of_snapshot` fired.
    EndOfSnapshotEv,
    /// `on_clear_snapshot` fired.
    ClearSnapshotEv,
    /// `on_item_lost_updates` fired.
    LostUpdatesEv,
    /// `on_real_max_frequency` fired.
    RealMaxFrequencyEv,
    /// `on_unsubscription` fired.
    Unsubscribed,
}

/// The dispatch discipline of a subscription's event stream: the stream is a
/// prefix of `(Subscribed, data*, Unsubscribed)*`, where `data` is any of
/// the update, snapshot-boundary, lost-updates and frequency events, and
/// `subscribed_after` says whether the stream stops inside a segment.
pub open spec fn history_ok(h: Seq<SubEvent>, subscribed_after: bool) -> bool
    decreases h.len(),
{
    if h.len() == 0 {
        subscribed_after == false
    } else {
        match h.last() {
            SubEvent::Subscribed => subscribed_after == true && history_ok(h.drop_last(), false),
            SubEvent::Unsubscribed => subscribed_after == false && history_ok(
                h.drop_last(),
                true,
            ),
            _ => subscribed_after == true && history_ok(h.drop_last(), true),
        }
    }
}

/// Event ordering: in a stream that obeys the dispatch discipline, every
/// data event is preceded by an `on_subscription` with no `on_unsubscription`
/// between the two; in particular `on_subscription` strictly precedes every
/// `on_item_update` of its round, and `on_unsubscription` strictly follows
/// the last one.
pub proof fn lemma_event_ordering(h: Seq<SubEvent>, subscribed_after: bool, i: int)
    requires
        history_ok(h, subscribed_after),
        0 <= i < h.len(),
        !(h[i] is Subscribed),
        !(h[i] is Unsubscribed),
    ensures
        exists|j: int|
            0 <= j < i && (#[trigger] h[j]) is Subscribed && (forall|k: int|
                j < k <= i ==> !((#[trigger] h[k]) is Unsubscribed)),
    decreases h.len(),
{
    if i == h.len() - 1 {
        // the stream stops just after the data event; walk back to the
        // start of its segment
        lemma_segment_start(h.drop_last());
        let j = choose|j: int|
            0 <= j < h.drop_last().len() && (#[trigger] h.drop_last()[j]) is Subscribed && (
            forall|k: int| j < k < h.drop_last().len() ==> !((#[trigger] h.drop_last()[k])
                is Unsubscribed));
        assert(h[j] == h.drop_last()[j]);
        assert(forall|k: int| j < k < i ==> h[k] == h.drop_last()[k]);
        assert(h[j] is Subscribed && (forall|k: int|
            j < k <= i ==> !((#[trigger] h[k]) is Unsubscribed)));
    } else {
        let b2 = match h.last() {
            SubEvent::Subscribed => false,
            SubEvent::Unsubscribed => true,
            _ => true,
        };
        lemma_event_ordering(h.drop_last(), b2, i);
        let j = choose|j: int|
            0 <= j < i && (#[trigger] h.drop_last()[j]) is Subscribed && (forall|k: int|
                j < k <= i ==> !((#[trigger] h.drop_last()[k]) is Unsubscribed));
        assert(h[j] == h.drop_last()[j]);
        assert(forall|k: int| j < k <= i ==> h[k] == h.drop_last()[k]);
        assert(h[j] is Subscribed && (forall|k: int|
            j < k <= i ==> !((#[trigger] h[k]) is Unsubscribed)));
    }
}

/// In a stream that stops inside a segment, some event is the
/// `on_subscription` that opened the segment, with no `on_unsubscription`
/// after it.
proof fn lemma_segment_start(h: Seq<SubEvent>)
    requires
        history_ok(h, true),
    ensures
        exists|j: int|
            0 <= j < h.len() && (#[trigger] h[j]) is Subscribed && (forall|k: int|
                j < k < h.len() ==> !((#[trigger] h[k]) is Unsubscribed)),
    decreases h.len(),
{
    assert(h.len() > 0);
    match h.last() {
        SubEvent::Subscribed => {
            assert(h[h.len() - 1] is Subscribed);
        },
        SubEvent::Unsubscribed => {
            assert(false);
        },
        _ => {
            lemma_segment_start(h.drop_last());
            let j = choose|j: int|
                0 <= j < h.drop_last().len() && (#[trigger] h.drop_last()[j]) is Subscribed && (
                forall|k: int| j < k < h.drop_last().len() ==> !((#[trigger] h.drop_last()[k])
                    is Unsubscribed));
            assert(h[j] == h.drop_last()[j]);
            assert(forall|k: int| j < k < h.len() - 1 ==> h[k] == h.drop_last()[k]);
            assert(!(h[h.len() - 1] is Unsubscribed));
            assert(h[j] is Subscribed && (forall|k: int|
                j < k < h.len() ==> !((#[trigger] h[k]) is Unsubscribed)));
        },
    }
}

/// The per-field actions a token list stands for, in field order: `None`
/// keeps the field, `Some(v)` sets it to `v` (`Some(None)` sets it null).  A
/// skip token contributes that many kept fields.
pub open spec fn token_actions(tokens: Seq<FieldTokenView>) -> Seq<Option<Option<Seq<char>>>>
    decreases tokens.len(),
{
    if tokens.len() == 0 {
        Seq::empty()
    } else {
        let rest = token_actions(tokens.drop_first());
        match tokens[0] {
            FieldTokenView::Unchanged => seq![None] + rest,
            FieldTokenView::Skip(n) => Seq::new(n as nat, |j: int| None) + rest,
            FieldTokenView::SetNull => seq![Some(None)] + rest,
            FieldTokenView::SetEmpty => seq![Some(Some(Seq::<char>::empty()))] + rest,
            FieldTokenView::Value(v) => seq![Some(Some(v))] + rest,
        }
    }
}

/// The value cache read as a partial function: the value of an (item, field)
/// pair, or `None` when the pair is absent.
pub open spec fn map_opt(m: Map<(usize, usize), Seq<char>>, item: usize, f: usize) -> Option<
    Seq<char>,
> {
    if m.contains_key((item, f)) {
        Some(m[(item, f)])
    } else {
        None
    }
}

/// What a field is worth after one action against a prior cache.
pub open spec fn merged_value(
    m0: Map<(usize, usize), Seq<char>>,
    item: usize,
    f: usize,
    a: Option<Option<Seq<char>>>,
) -> Option<Seq<char>> {
    match a {
        Some(v) => v,
        None => map_opt(m0, item, f),
    }
}

/// Expands a token list into exactly `nfields` per-field actions; a list
/// that covers more or fewer fields is refused.
fn expand_tokens_exec(tokens: &Vec<FieldToken>, nfields: usize) -> (r: Result<
    Vec<Option<Option<String>>>,
    IllegalArgumentException,
>)
    ensures
        r is Ok <==> token_actions(tokens.deep_view()).len() == nfields,
        r is Ok ==> r.unwrap().deep_view() == token_actions(tokens.deep_view()),
{
    let ghost full = token_actions(tokens.deep_view());
    let nt = tokens.len();
    let mut acts: Vec<Option<Option<String>>> = Vec::new();
    let mut ti: usize = 0;
    proof {
        assert(tokens.deep_view().skip(0) =~= tokens.deep_view());
        assert(acts.deep_view() =~= Seq::<Option<Option<Seq<char>>>>::empty());
        assert(acts.deep_view() + token_actions(tokens.deep_view()) =~= token_actions(
            tokens.deep_view(),
        ));
    }
    while ti < nt
        invariant
            nt == tokens.deep_view().len(),
            0 <= ti <= nt,
            full == token_actions(tokens.deep_view()),
            acts.deep_view().len() <= nfields,
            full == acts.deep_view() + token_actions(tokens.deep_view().skip(ti as int)),
        decreases nt - ti,
    {
        proof {
            let suffix = tokens.deep_view().skip(ti as int);
            assert(suffix[0] == tokens.deep_view()[ti as int]);
            assert(suffix.drop_first() =~= tokens.deep_view().skip(ti + 1));
            assert(tokens.deep_view()[ti as int] == tokens@[ti as int].deep_view());
        }
        let ghost rest = token_actions(tokens.deep_view().skip(ti + 1));
        let ghost acts0 = acts.deep_view();
        let t = &tokens[ti];
        match t {
            FieldToken::Skip(n) => {
                let n = *n;
                if n > nfields - acts.len() {
                    proof {
                        assert(full.len() >= acts0.len() + n);
                    }
                    return Err(
                        IllegalArgumentException::new("The update carries too many fields"),
                    );
                }
                let mut j: usize = 0;
                while j < n
                    invariant
                        0 <= j <= n,
                        acts.deep_view() =~= acts0 + Seq::new(
                            j as nat,
                            |k: int| None::<Option<Seq<char>>>,
                        ),
                    decreases n - j,
                {
                    let ghost before = acts.deep_view();
                    acts.push(None);
                    proof {
                        assert(acts.deep_view() =~= before.push(None::<Option<Seq<char>>>));
                        assert(before.push(None::<Option<Seq<char>>>) =~= acts0 + Seq::new(
                            (j + 1) as nat,
                            |k: int| None::<Option<Seq<char>>>,
                        ));
                    }
                    j = j + 1;
                }
                proof {
                    assert(token_actions(tokens.deep_view().skip(ti as int)) =~= Seq::new(
                        n as nat,
                        |k: int| None::<Option<Seq<char>>>,
                    ) + rest);
                    assert(acts0 + (Seq::new(n as nat, |k: int| None::<Option<Seq<char>>>) + rest)
                        =~= (acts0 + Seq::new(n as nat, |k: int| None::<Option<Seq<char>>>))
                        + rest);
                }
            },
            _ => {
                if acts.len() >= nfields {
                    proof {
                        let one = token_actions(tokens.deep_view().skip(ti as int));
                        assert(one.len() >= 1);
                        assert(full.len() >= acts0.len() + 1);
                    }
                    return Err(
                        IllegalArgumentException::new("The update carries too many fields"),
                    );
                }
                let ghost a = match tokens.deep_view()[ti as int] {
                    FieldTokenView::Unchanged => None::<Option<Seq<char>>>,
                    FieldTokenView::Skip(k) => None::<Option<Seq<char>>>,
                    FieldTokenView::SetNull => Some(None::<Seq<char>>),
                    FieldTokenView::SetEmpty => Some(Some(Seq::<char>::empty())),
                    FieldTokenView::Value(v) => Some(Some(v)),
                };
                match t {
                    FieldToken::Unchanged => {
                        acts.push(None);
                    },
                    FieldToken::SetNull => {
                        acts.push(Some(None));
                    },
                    FieldToken::SetEmpty => {
                        acts.push(Some(Some(String::new())));
                    },
                    FieldToken::Value(v) => {
                        acts.push(Some(Some(v.clone())));
                    },
                    FieldToken::Skip(_) => {
                        // handled in the arm above
                        proof {
                            assert(false);
                        }
                    },
                }
                proof {
                    assert(acts.deep_view() =~= acts0.push(a));
                    assert(token_actions(tokens.deep_view().skip(ti as int)) =~= seq![a] + rest);
                    assert(acts0 + (seq![a] + rest) =~= (acts0 + seq![a]) + rest);
                    assert(acts0.push(a) =~= acts0 + seq![a]);
                }
            },
        }
        ti = ti + 1;
    }
    proof {
        assert(tokens.deep_view().skip(nt as int) =~= Seq::<FieldTokenView>::empty());
        assert(token_actions(Seq::<FieldTokenView>::empty()) =~= Seq::<
            Option<Option<Seq<char>>>,
        >::empty());
        assert(acts.deep_view() + Seq::<Option<Option<Seq<char>>>>::empty() =~= acts.deep_view());
    }
    if acts.len() != nfields {
        return Err(IllegalArgumentException::new("The update carries too few fields"));
    }
    Ok(acts)
}

/// The COMMAND key table after an ADD or UPDATE command wrote a full row for
/// one (item, key) pair: within the row, present values are written and null
/// values drop the field; every other key keeps its binding.
pub open spec fn row_written(
    m: Map<(usize, usize, Seq<char>), Seq<char>>,
    item: usize,
    key: Seq<char>,
    vals: Seq<Option<Seq<char>>>,
) -> Map<(usize, usize, Seq<char>), Seq<char>> {
    Map::new(
        |k: (usize, usize, Seq<char>)|
            if k.0 == item && k.2 == key && 1 <= k.1 <= vals.len() {
                vals[k.1 - 1] is Some
            } else {
                m.dom().contains(k)
            },
        |k: (usize, usize, Seq<char>)|
            if k.0 == item && k.2 == key && 1 <= k.1 <= vals.len() {
                vals[k.1 - 1].unwrap()
            } else {
                m[k]
            },
    )
}

/// The field names an update event carries: the subscription's field list
/// when it has one of the right arity, else the decimal positions, so that
/// addressing by name and by position agree.
pub open spec fn expected_field_names(fields: Option<Seq<Seq<char>>>, nfields: usize) -> Seq<
    Seq<char>,
> {
    if fields is Some && fields.unwrap().len() == nfields {
        fields.unwrap()
    } else {
        Seq::new(nfields as nat, |i: int| dec_digits(i + 1))
    }
}

/// The command carried by one update of a COMMAND subscription, with the key
/// it acts on.
pub enum CommandAction {
    /// The key was added; its row was written to the key table.
    Add(String),
    /// The key was updated; its row was written to the key table.
    Update(String),
    /// The key was deleted; its row left the key table.
    Delete(String),
}

/// One applied update: the event to deliver, and the COMMAND action it
/// carried, if the subscription is in COMMAND mode.
pub struct AppliedUpdate {
    /// The update event, as the listeners saw it.
    pub update: ItemUpdate,
    /// The COMMAND action routed to the key table, in COMMAND mode.
    pub command: Option<CommandAction>,
}

/// When `apply_update` accepts an update: the field part decodes, the
/// decoded actions cover exactly the subscription's fields, and in COMMAND
/// mode the key and command positions are known and in range, the merged key
/// field holds a key, and the merged command field holds `ADD`, `UPDATE` or
/// `DELETE`.
pub open spec fn update_accepted(s: SubscriptionView, item_pos: usize, payload: Seq<char>) -> bool {
    &&& decode_spec(payload) is Some
    &&& token_actions(decode_spec(payload).unwrap()).len() == s.num_fields
    &&& (s.mode == SubscriptionMode::Command ==> {
        let acts = token_actions(decode_spec(payload).unwrap());
        &&& s.key_position is Some
        &&& s.command_position is Some
        &&& 1 <= s.key_position.unwrap() <= s.num_fields
        &&& 1 <= s.command_position.unwrap() <= s.num_fields
        &&& merged_value(
            s.values,
            item_pos,
            s.key_position.unwrap(),
            acts[s.key_position.unwrap() - 1],
        ) is Some
        &&& {
            let cmdv = merged_value(
                s.values,
                item_pos,
                s.command_position.unwrap(),
                acts[s.command_position.unwrap() - 1],
            );
            &&& cmdv is Some
            &&& (cmdv.unwrap() == "ADD"@ || cmdv.unwrap() == "UPDATE"@ || cmdv.unwrap()
                == "DELETE"@)
        }
    })
}

/// The field vector an update event carries after a DELETE command: the key
/// field keeps the key, every other field is null.
pub open spec fn delete_values(key_pos: usize, key: Seq<char>, nfields: usize) -> Seq<
    Option<Seq<char>>,
> {
    Seq::new(nfields as nat, |f: int| if f + 1 == key_pos {
        Some(key)
    } else {
        None
    })
}

/// The changed flags of a DELETE event: every field but the key.
pub open spec fn delete_changed(key_pos: usize, nfields: usize) -> Seq<bool> {
    Seq::new(nfields as nat, |f: int| f + 1 != key_pos)
}

/// One command observed for a single (item, key) pair: an ADD or UPDATE that
/// wrote a full row, or a DELETE that dropped the key.
pub enum KeyCommand {
    /// An ADD or UPDATE wrote this row.
    Upsert(Seq<Option<Seq<char>>>),
    /// A DELETE dropped the key.
    DeleteCmd,
}

/// The key table read as a partial function at one (item, field, key)
/// binding.
pub open spec fn cmd_map_opt(
    m: Map<(usize, usize, Seq<char>), Seq<char>>,
    item: usize,
    f: usize,
    key: Seq<char>,
) -> Option<Seq<char>> {
    if m.contains_key((item, f, key)) {
        Some(m[(item, f, key)])
    } else {
        None
    }
}

/// The key table after a sequence of commands for one (item, key) pair, each
/// applied as `apply_update` applies it.
pub open spec fn table_after(
    m0: Map<(usize, usize, Seq<char>), Seq<char>>,
    item: usize,
    key: Seq<char>,
    cmds: Seq<KeyCommand>,
) -> Map<(usize, usize, Seq<char>), Seq<char>>
    decreases cmds.len(),
{
    if cmds.len() == 0 {
        m0
    } else {
        let m1 = table_after(m0, item, key, cmds.drop_last());
        match cmds.last() {
            KeyCommand::Upsert(row) => row_written(m1, item, key, row),
            KeyCommand::DeleteCmd => m1.remove_keys(command_key_set(item, key)),
        }
    }
}

/// What a field of the key is worth after the commands: the value the last
/// row wrote to it, or nothing when the last command was a DELETE, the last
/// row dropped the field, or no command ever wrote it.
pub open spec fn expected_cmd_value(
    m0: Map<(usize, usize, Seq<char>), Seq<char>>,
    item: usize,
    key: Seq<char>,
    cmds: Seq<KeyCommand>,
    f: usize,
) -> Option<Seq<char>>
    decreases cmds.len(),
{
    if cmds.len() == 0 {
        cmd_map_opt(m0, item, f, key)
    } else {
        match cmds.last() {
            KeyCommand::Upsert(row) => if 1 <= f <= row.len() {
                row[f - 1]
            } else {
                expected_cmd_value(m0, item, key, cmds.drop_last(), f)
            },
            KeyCommand::DeleteCmd => None,
        }
    }
}

/// COMMAND key integrity: after any sequence of ADD, UPDATE and DELETE
/// commands for a key, the value read for a field of that key is the one the
/// last non-DELETE command wrote to it, and nothing when the last command
/// was a DELETE or nothing was ever written.
pub proof fn lemma_command_key_integrity(
    m0: Map<(usize, usize, Seq<char>), Seq<char>>,
    item: usize,
    key: Seq<char>,
    cmds: Seq<KeyCommand>,
    f: usize,
)
    ensures
        cmd_map_opt(table_after(m0, item, key, cmds), item, f, key) == expected_cmd_value(
            m0,
            item,
            key,
            cmds,
            f,
        ),
    decreases cmds.len(),
{
    if cmds.len() > 0 {
        lemma_command_key_integrity(m0, item, key, cmds.drop_last(), f);
        let m1 = table_after(m0, item, key, cmds.drop_last());
        match cmds.last() {
            KeyCommand::Upsert(row) => {
                assert(command_key_set(item, key).contains((item, f, key)) == (true));
            },
            KeyCommand::DeleteCmd => {
                assert(command_key_set(item, key).contains((item, f, key)));
                assert(!m1.remove_keys(command_key_set(item, key)).contains_key((item, f, key)));
            },
        }
    }
}

} // verus!
