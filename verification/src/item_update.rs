//! The payload of one update event: the full field values of an item, the
//! sub-map of fields the event changed, and per-field delta information.

use vstd::prelude::*;

use crate::util::{parse_pos_spec, parse_usize};
use crate::IllegalArgumentException;

verus! {

/// The mathematical content of an `ItemUpdate`: fields are kept in schema
/// order, so the field at index `i` has 1-based position `i + 1`.
pub struct ItemUpdateView {
    /// The item name, absent when the subscription used an item group.
    pub item_name: Option<Seq<char>>,
    /// The 1-based position of the item in the item list or group.
    pub item_pos: usize,
    /// The field names, in schema order.
    pub field_names: Seq<Seq<char>>,
    /// The current value of each field; `None` is an explicit null.
    pub values: Seq<Option<Seq<char>>>,
    /// Which fields this event touched.
    pub changed: Seq<bool>,
    /// The JSON Patch difference for each field, where the server sent one.
    pub patches: Seq<Option<Seq<char>>>,
    /// Whether this event belongs to the item snapshot.
    pub is_snapshot: bool,
}

/// Well-formedness: the four per-field columns walk in step.
pub open spec fn wf_item_update(u: ItemUpdateView) -> bool {
    &&& u.values.len() == u.field_names.len()
    &&& u.changed.len() == u.field_names.len()
    &&& u.patches.len() == u.field_names.len()
}

/// The position of the first occurrence of `name` in `names` at or after
/// index `i`.
pub open spec fn first_index_from(names: Seq<Seq<char>>, name: Seq<char>, i: int) -> Option<int>
    decreases names.len() - i,
{
    if i < 0 || i >= names.len() {
        None
    } else if names[i] == name {
        Some(i)
    } else {
        first_index_from(names, name, i + 1)
    }
}

/// The position of the first occurrence of `name` in `names`, if any.
pub open spec fn first_index_of(names: Seq<Seq<char>>, name: Seq<char>) -> Option<int> {
    first_index_from(names, name, 0)
}

/// How a field key addresses a column: a key that parses as a non-negative
/// integer is a 1-based position; any other key is a field name.  The
/// result is the column index, or `None` for a key that addresses nothing.
pub open spec fn key_index(u: ItemUpdateView, key: Seq<char>) -> Option<int> {
    match parse_pos_spec(key) {
        Some(p) => if 1 <= p && p <= u.field_names.len() {
            Some(p - 1)
        } else {
            None
        },
        None => first_index_of(u.field_names, key),
    }
}

/// The value `get_value` returns for a key: the addressed field's current
/// value, where `None` covers an unknown key, a field not yet valued, and an
/// explicit null alike.
pub open spec fn lookup_value(u: ItemUpdateView, key: Seq<char>) -> Option<Seq<char>> {
    match key_index(u, key) {
        Some(i) => u.values[i],
        None => None,
    }
}

/// The patch `get_value_as_json_patch_if_available` returns for a key.
pub open spec fn lookup_patch(u: ItemUpdateView, key: Seq<char>) -> Option<Seq<char>> {
    match key_index(u, key) {
        Some(i) => u.patches[i],
        None => None,
    }
}

/// Whether `is_value_changed` holds for a key: the addressed field was
/// touched by this event.
pub open spec fn lookup_changed(u: ItemUpdateView, key: Seq<char>) -> bool {
    match key_index(u, key) {
        Some(i) => u.changed[i],
        None => false,
    }
}

/// The (name, value) pairs of the fields this event changed, in schema
/// order, starting from column `i`.
pub open spec fn changed_pairs_from(u: ItemUpdateView, i: int) -> Seq<(Seq<char>, Option<Seq<char>>)>
    decreases u.field_names.len() - i,
{
    if i < 0 || i >= u.field_names.len() {
        Seq::empty()
    } else {
        let rest = changed_pairs_from(u, i + 1);
        if u.changed[i] {
            seq![(u.field_names[i], u.values[i])] + rest
        } else {
            rest
        }
    }
}

/// The (position, value) pairs of the fields this event changed, in schema
/// order, starting from column `i`; positions are 1-based.
pub open spec fn changed_pos_pairs_from(u: ItemUpdateView, i: int) -> Seq<(usize, Option<Seq<char>>)>
    decreases u.field_names.len() - i,
{
    if i < 0 || i >= u.field_names.len() {
        Seq::empty()
    } else {
        let rest = changed_pos_pairs_from(u, i + 1);
        if u.changed[i] {
            seq![(((i + 1) as usize), u.values[i])] + rest
        } else {
            rest
        }
    }
}

/// The full (name, value) field map, in schema order.
pub open spec fn field_pairs(u: ItemUpdateView) -> Seq<(Seq<char>, Option<Seq<char>>)> {
    Seq::new(u.field_names.len(), |i: int| (u.field_names[i], u.values[i]))
}

/// The full (position, value) field map, positions 1-based.
pub open spec fn field_pos_pairs(u: ItemUpdateView) -> Seq<(usize, Option<Seq<char>>)> {
    Seq::new(u.field_names.len(), |i: int| (((i + 1) as usize), u.values[i]))
}

/// One update event for one item: the full field map after the event, the
/// changed-fields sub-map, the per-field JSON Patch deltas when the server
/// used them, and the snapshot flag.  Fields are addressable by 1-based
/// position or by name.
pub struct ItemUpdate {
    item_name: Option<String>,
    item_pos: usize,
    field_names: Vec<String>,
    values: Vec<Option<String>>,
    changed: Vec<bool>,
    patches: Vec<Option<String>>,
    is_snapshot: bool,
}

impl View for ItemUpdate {
    type V = ItemUpdateView;

    closed spec fn view(&self) -> ItemUpdateView {
        ItemUpdateView {
            item_name: self.item_name.deep_view(),
            item_pos: self.item_pos,
            field_names: self.field_names.deep_view(),
            values: self.values.deep_view(),
            changed: self.changed@,
            patches: self.patches.deep_view(),
            is_snapshot: self.is_snapshot,
        }
    }
}

impl ItemUpdate {
    #[verifier::type_invariant]
    spec fn type_wf(self) -> bool {
        wf_item_update(self@)
    }

    /// Builds the update event from its columns: the field names in schema
    /// order, and for each field its current value, whether this event
    /// changed it, and the JSON Patch difference if the server sent one.
    /// The four columns must have one entry per field; mismatched lengths
    /// are refused.
    pub fn new(
        item_name: Option<String>,
        item_pos: usize,
        field_names: Vec<String>,
        values: Vec<Option<String>>,
        changed: Vec<bool>,
        patches: Vec<Option<String>>,
        is_snapshot: bool,
    ) -> (r: Result<ItemUpdate, IllegalArgumentException>)
        ensures
            r is Ok <==> (values@.len() == field_names@.len() && changed@.len()
                == field_names@.len() && patches@.len() == field_names@.len()),
            r is Ok ==> r.unwrap()@ == (ItemUpdateView {
                item_name: item_name.deep_view(),
                item_pos: item_pos,
                field_names: field_names.deep_view(),
                values: values.deep_view(),
                changed: changed@,
                patches: patches.deep_view(),
                is_snapshot: is_snapshot,
            }),
    {
        if values.len() != field_names.len() || changed.len() != field_names.len()
            || patches.len() != field_names.len() {
            return Err(IllegalArgumentException::new("One entry per field is required"));
        }
        Ok(
            ItemUpdate {
                item_name,
                item_pos,
                field_names,
                values,
                changed,
                patches,
                is_snapshot,
            },
        )
    }

    /// The name of the item this update pertains to, or `None` when the
    /// subscription was initialised with an item group.
    pub fn get_item_name(&self) -> (r: Option<&str>)
        ensures
            r.deep_view() == self@.item_name,
    {
        match &self.item_name {
            Some(s) => Some(s.as_str()),
            None => None,
        }
    }

    /// The 1-based position of the item in the item list or group.
    pub fn get_item_pos(&self) -> (r: usize)
        ensures
            r == self@.item_pos,
    {
        self.item_pos
    }

    /// Whether this event belongs to the item snapshot taken at
    /// subscription time, rather than to the real-time flow.
    pub fn is_snapshot(&self) -> (r: bool)
        ensures
            r == self@.is_snapshot,
    {
        self.is_snapshot
    }

    /// The column index addressed by a field name, if the name is known.
    fn find_field(&self, name: &str) -> (r: Option<usize>)
        ensures
            r is Some <==> first_index_of(self@.field_names, name@) is Some,
            r is Some ==> Some(r.unwrap() as int) == first_index_of(self@.field_names, name@)
                && r.unwrap() < self@.field_names.len(),
    {
        let owned = name.to_owned();
        let n = self.field_names.len();
        let mut i: usize = 0;
        while i < n
            invariant
                owned@ == name@,
                n == self@.field_names.len(),
                0 <= i <= n,
                first_index_of(self@.field_names, name@) == first_index_from(
                    self@.field_names,
                    name@,
                    i as int,
                ),
            decreases n - i,
        {
            if self.field_names[i].eq(&owned) {
                proof {
                    assert(self@.field_names[i as int] == name@);
                }
                return Some(i);
            }
            proof {
                assert(self@.field_names[i as int] != name@);
            }
            i = i + 1;
        }
        None
    }

    /// The 1-based position of the given field within the field list, or an
    /// error when the field is not part of this update.
    pub fn get_field_position(&self, field_name: &str) -> (r: Result<
        usize,
        IllegalArgumentException,
    >)
        ensures
            r is Ok <==> first_index_of(self@.field_names, field_name@) is Some,
            r is Ok ==> Some(r.unwrap() as int - 1) == first_index_of(
                self@.field_names,
                field_name@,
            ),
    {
        let n = self.field_names.len();
        match self.find_field(field_name) {
            Some(i) => Ok(i + 1),
            None => Err(IllegalArgumentException::new("The field is not part of this update")),
        }
    }

    /// The value of the addressed field, as received with this or a previous
    /// update.  The key is a 1-based position or a field name; `None` covers
    /// an unknown key, a field not yet valued, and an explicit null alike.
    pub fn get_value(&self, field_name_or_pos: &str) -> (r: Option<&String>)
        ensures
            r.deep_view() == lookup_value(self@, field_name_or_pos@),
    {
        proof {
            use_type_invariant(&*self);
        }
        match parse_usize(field_name_or_pos) {
            Some(pos) => {
                if 1 <= pos && pos <= self.values.len() {
                    self.values[pos - 1].as_ref()
                } else {
                    None
                }
            },
            None => {
                match self.find_field(field_name_or_pos) {
                    Some(i) => self.values[i].as_ref(),
                    None => None,
                }
            },
        }
    }

    /// The JSON Patch difference between the new and the previous value of
    /// the addressed field, when the server chose that delta form; `None`
    /// otherwise.
    pub fn get_value_as_json_patch_if_available(&self, field_name_or_pos: &str) -> (r: Option<
        &String,
    >)
        ensures
            r.deep_view() == lookup_patch(self@, field_name_or_pos@),
    {
        proof {
            use_type_invariant(&*self);
        }
        match parse_usize(field_name_or_pos) {
            Some(pos) => {
                if 1 <= pos && pos <= self.patches.len() {
                    self.patches[pos - 1].as_ref()
                } else {
                    None
                }
            },
            None => {
                match self.find_field(field_name_or_pos) {
                    Some(i) => self.patches[i].as_ref(),
                    None => None,
                }
            },
        }
    }

    /// Whether the addressed field was touched by this event; an unknown
    /// key is reported unchanged.
    pub fn is_value_changed(&self, field_name_or_pos: &str) -> (r: bool)
        ensures
            r == lookup_changed(self@, field_name_or_pos@),
    {
        proof {
            use_type_invariant(&*self);
        }
        match parse_usize(field_name_or_pos) {
            Some(pos) => {
                if 1 <= pos && pos <= self.changed.len() {
                    self.changed[pos - 1]
                } else {
                    false
                }
            },
            None => {
                match self.find_field(field_name_or_pos) {
                    Some(i) => self.changed[i],
                    None => false,
                }
            },
        }
    }

    /// The (name, value) pairs of the fields this event changed, in schema
    /// order.  For a COMMAND subscription the change is relative to the same
    /// key; on a DELETE event every non-key field appears with a null value.
    pub fn get_changed_fields(&self) -> (r: Vec<(String, Option<String>)>)
        ensures
            r.deep_view() == changed_pairs_from(self@, 0),
    {
        proof {
            use_type_invariant(&*self);
        }
        let n = self.field_names.len();
        let mut r: Vec<(String, Option<String>)> = Vec::new();
        proof {
            assert(r.deep_view() + changed_pairs_from(self@, 0) =~= changed_pairs_from(self@, 0));
        }
        let mut i: usize = 0;
        while i < n
            invariant
                wf_item_update(self@),
                n == self@.field_names.len(),
                0 <= i <= n,
                changed_pairs_from(self@, 0) == r.deep_view() + changed_pairs_from(
                    self@,
                    i as int,
                ),
            decreases n - i,
        {
            if self.changed[i] {
                let ghost before = r.deep_view();
                r.push((self.field_names[i].clone(), self.values[i].clone()));
                proof {
                    assert(r.deep_view() =~= before.push(
                        (self@.field_names[i as int], self@.values[i as int]),
                    ));
                    assert(before.push((self@.field_names[i as int], self@.values[i as int]))
                        =~= before + seq![(self@.field_names[i as int], self@.values[i as int])]);
                    assert(before + (seq![(self@.field_names[i as int], self@.values[i as int])]
                        + changed_pairs_from(self@, i + 1)) =~= (before + seq![
                        (self@.field_names[i as int], self@.values[i as int]),
                    ]) + changed_pairs_from(self@, i + 1));
                }
            }
            i = i + 1;
        }
        proof {
            assert(changed_pairs_from(self@, n as int) =~= Seq::<
                (Seq<char>, Option<Seq<char>>),
            >::empty());
            assert(r.deep_view() + Seq::<(Seq<char>, Option<Seq<char>>)>::empty() =~= r.deep_view());
        }
        r
    }

    /// The (position, value) pairs of the fields this event changed, with
    /// 1-based positions, in schema order.
    pub fn get_changed_fields_by_position(&self) -> (r: Vec<(usize, Option<String>)>)
        ensures
            r.deep_view() == changed_pos_pairs_from(self@, 0),
    {
        proof {
            use_type_invariant(&*self);
        }
        let n = self.field_names.len();
        let mut r: Vec<(usize, Option<String>)> = Vec::new();
        proof {
            assert(r.deep_view() + changed_pos_pairs_from(self@, 0) =~= changed_pos_pairs_from(
                self@,
                0,
            ));
        }
        let mut i: usize = 0;
        while i < n
            invariant
                wf_item_update(self@),
                n == self@.field_names.len(),
                0 <= i <= n,
                changed_pos_pairs_from(self@, 0) == r.deep_view() + changed_pos_pairs_from(
                    self@,
                    i as int,
                ),
            decreases n - i,
        {
            if self.changed[i] {
                let ghost before = r.deep_view();
                r.push((i + 1, self.values[i].clone()));
                proof {
                    assert(r.deep_view() =~= before.push(
                        (((i + 1) as usize), self@.values[i as int]),
                    ));
                    assert(before.push((((i + 1) as usize), self@.values[i as int])) =~= before
                        + seq![(((i + 1) as usize), self@.values[i as int])]);
                    assert(before + (seq![(((i + 1) as usize), self@.values[i as int])]
                        + changed_pos_pairs_from(self@, i + 1)) =~= (before + seq![
                        (((i + 1) as usize), self@.values[i as int]),
                    ]) + changed_pos_pairs_from(self@, i + 1));
                }
            }
            i = i + 1;
        }
        proof {
            assert(changed_pos_pairs_from(self@, n as int) =~= Seq::<
                (usize, Option<Seq<char>>),
            >::empty());
            assert(r.deep_view() + Seq::<(usize, Option<Seq<char>>)>::empty() =~= r.deep_view());
        }
        r
    }

    /// The full (name, value) field map of this event, in schema order.
    pub fn get_fields(&self) -> (r: Vec<(String, Option<String>)>)
        ensures
            r.deep_view() == field_pairs(self@),
    {
        proof {
            use_type_invariant(&*self);
        }
        let n = self.field_names.len();
        let mut r: Vec<(String, Option<String>)> = Vec::new();
        let mut i: usize = 0;
        while i < n
            invariant
                wf_item_update(self@),
                n == self@.field_names.len(),
                0 <= i <= n,
                r.deep_view() == field_pairs(self@).take(i as int),
            decreases n - i,
        {
            let ghost before = r.deep_view();
            r.push((self.field_names[i].clone(), self.values[i].clone()));
            proof {
                assert(r.deep_view() =~= before.push(
                    (self@.field_names[i as int], self@.values[i as int]),
                ));
                assert(field_pairs(self@).take(i + 1) =~= field_pairs(self@).take(i as int).push(
                    field_pairs(self@)[i as int],
                ));
            }
            i = i + 1;
        }
        proof {
            assert(field_pairs(self@).take(n as int) =~= field_pairs(self@));
        }
        r
    }

    /// The full (position, value) field map of this event, with 1-based
    /// positions.
    pub fn get_fields_by_position(&self) -> (r: Vec<(usize, Option<String>)>)
        ensures
            r.deep_view() == field_pos_pairs(self@),
    {
        proof {
            use_type_invariant(&*self);
        }
        let n = self.field_names.len();
        let mut r: Vec<(usize, Option<String>)> = Vec::new();
        let mut i: usize = 0;
        while i < n
            invariant
                wf_item_update(self@),
                n == self@.field_names.len(),
                0 <= i <= n,
                r.deep_view() == field_pos_pairs(self@).take(i as int),
            decreases n - i,
        {
            let ghost before = r.deep_view();
            r.push((i + 1, self.values[i].clone()));
            proof {
                assert(r.deep_view() =~= before.push((((i + 1) as usize), self@.values[i as int])));
                assert(field_pos_pairs(self@).take(i + 1) =~= field_pos_pairs(self@).take(
                    i as int,
                ).push(field_pos_pairs(self@)[i as int]));
            }
            i = i + 1;
        }
        proof {
            assert(field_pos_pairs(self@).take(n as int) =~= field_pos_pairs(self@));
        }
        r
    }
}

} // verus!
