//! Encoding of client requests: form-urlencoded parameter lists for session
//! creation, session binding, subscription control and user messages.

use vstd::prelude::*;

use crate::subscription::{mode_string, snapshot_string, Snapshot, Subscription, SubscriptionMode, SubscriptionView};
use crate::util::{dec_digits, string_from_chars};
use crate::IllegalArgumentException;

verus! {

/// A byte that travels unencoded in a form-urlencoded value: an ASCII
/// letter, a digit, or one of `-`, `_`, `.`, `~`.
pub open spec fn is_unreserved(b: u8) -> bool {
    ||| (65 <= b <= 90)
    ||| (97 <= b <= 122)
    ||| (48 <= b <= 57)
    ||| b == 45
    ||| b == 95
    ||| b == 46
    ||| b == 126
}

/// The upper-case hexadecimal digit of a value below sixteen.
pub open spec fn hex_char(d: int) -> char {
    if d < 10 {
        (('0' as int + d) as char)
    } else {
        (('A' as int + d - 10) as char)
    }
}

/// The percent-encoding of one byte: an unreserved byte stands as its
/// character, every other byte as `%` and its two hexadecimal digits.
pub open spec fn percent_byte(b: u8) -> Seq<char> {
    if is_unreserved(b) {
        seq![b as char]
    } else {
        seq!['%', hex_char(b as int / 16), hex_char(b as int % 16)]
    }
}

/// The percent-encoding of a byte string.
pub open spec fn percent_bytes(s: Seq<u8>) -> Seq<char>
    decreases s.len(),
{
    if s.len() == 0 {
        Seq::empty()
    } else {
        percent_byte(s[0]) + percent_bytes(s.drop_first())
    }
}

/// The UTF-8 bytes of one character, by the standard range split of the code
/// point.
pub open spec fn utf8_bytes(c: char) -> Seq<u8> {
    let cp = c as int;
    if cp < 0x80 {
        seq![cp as u8]
    } else if cp < 0x800 {
        seq![(0xC0 + cp / 0x40) as u8, (0x80 + cp % 0x40) as u8]
    } else if cp < 0x10000 {
        seq![
            (0xE0 + cp / 0x1000) as u8,
            (0x80 + (cp / 0x40) % 0x40) as u8,
            (0x80 + cp % 0x40) as u8,
        ]
    } else {
        seq![
            (0xF0 + cp / 0x40000) as u8,
            (0x80 + (cp / 0x1000) % 0x40) as u8,
            (0x80 + (cp / 0x40) % 0x40) as u8,
            (0x80 + cp % 0x40) as u8,
        ]
    }
}

/// The percent-encoding of one character: its UTF-8 bytes, each encoded.
pub open spec fn percent_char(c: char) -> Seq<char> {
    percent_bytes(utf8_bytes(c))
}

/// The percent-encoding of a character sequence.
pub open spec fn percent_chars(s: Seq<char>) -> Seq<char>
    decreases s.len(),
{
    if s.len() == 0 {
        Seq::empty()
    } else {
        percent_char(s[0]) + percent_chars(s.drop_first())
    }
}

/// One more parameter appended to a form-urlencoded body: a separating `&`
/// when something precedes, the plain name, `=`, and the value's characters.
pub open spec fn with_param(body: Seq<char>, name: Seq<char>, value: Seq<char>) -> Seq<char> {
    body + (if body.len() > 0 {
        "&"@
    } else {
        Seq::<char>::empty()
    }) + name + "="@ + value
}

/// Appends the encoding of one byte.
fn push_byte_encoded(out: &mut Vec<char>, b: u8)
    ensures
        final(out)@ == old(out)@ + percent_byte(b),
{
    let ghost before = out@;
    let unreserved = (65 <= b && b <= 90) || (97 <= b && b <= 122) || (48 <= b && b <= 57) || b
        == 45 || b == 95 || b == 46 || b == 126;
    if unreserved {
        out.push(b as char);
        proof {
            assert(out@ =~= before + percent_byte(b));
        }
    } else {
        out.push('%');
        let hi = b / 16;
        let lo = b % 16;
        let hc = if hi < 10 {
            (48 + hi) as char
        } else {
            (65 + (hi - 10)) as char
        };
        let lc = if lo < 10 {
            (48 + lo) as char
        } else {
            (65 + (lo - 10)) as char
        };
        out.push(hc);
        out.push(lc);
        proof {
            assert(out@ =~= before + percent_byte(b));
        }
    }
}

/// Appends the encoding of one character: its UTF-8 bytes, each encoded.
fn push_char_encoded(out: &mut Vec<char>, c: char)
    ensures
        final(out)@ == old(out)@ + percent_char(c),
{
    let ghost before = out@;
    let cp: u32 = c as u32;
    if cp < 0x80 {
        push_byte_encoded(out, cp as u8);
        proof {
            let b = (cp as int) as u8;
            assert(utf8_bytes(c) =~= seq![b]);
            assert(seq![b].drop_first() =~= Seq::<u8>::empty());
            assert(percent_bytes(Seq::<u8>::empty()) =~= Seq::<char>::empty());
            assert(percent_bytes(seq![b]) =~= percent_byte(b));
            assert(out@ =~= before + percent_char(c));
        }
    } else if cp < 0x800 {
        let b0 = (0xC0 + cp / 0x40) as u8;
        let b1 = (0x80 + cp % 0x40) as u8;
        push_byte_encoded(out, b0);
        push_byte_encoded(out, b1);
        proof {
            assert(utf8_bytes(c) =~= seq![b0, b1]);
            assert(seq![b0, b1].drop_first() =~= seq![b1]);
            assert(seq![b1].drop_first() =~= Seq::<u8>::empty());
            assert(percent_bytes(Seq::<u8>::empty()) =~= Seq::<char>::empty());
            assert(percent_bytes(seq![b1]) =~= percent_byte(b1));
            assert(percent_bytes(seq![b0, b1]) =~= percent_byte(b0) + percent_byte(b1));
            assert(out@ =~= before + percent_char(c));
        }
    } else if cp < 0x10000 {
        let b0 = (0xE0 + cp / 0x1000) as u8;
        let b1 = (0x80 + (cp / 0x40) % 0x40) as u8;
        let b2 = (0x80 + cp % 0x40) as u8;
        push_byte_encoded(out, b0);
        push_byte_encoded(out, b1);
        push_byte_encoded(out, b2);
        proof {
            assert(utf8_bytes(c) =~= seq![b0, b1, b2]);
            assert(seq![b0, b1, b2].drop_first() =~= seq![b1, b2]);
            assert(seq![b1, b2].drop_first() =~= seq![b2]);
            assert(seq![b2].drop_first() =~= Seq::<u8>::empty());
            assert(percent_bytes(Seq::<u8>::empty()) =~= Seq::<char>::empty());
            assert(percent_bytes(seq![b2]) =~= percent_byte(b2));
            assert(percent_bytes(seq![b1, b2]) =~= percent_byte(b1) + percent_byte(b2));
            assert(percent_bytes(seq![b0, b1, b2]) =~= percent_byte(b0) + (percent_byte(b1)
                + percent_byte(b2)));
            assert(out@ =~= before + percent_char(c));
        }
    } else {
        let b0 = (0xF0 + cp / 0x40000) as u8;
        let b1 = (0x80 + (cp / 0x1000) % 0x40) as u8;
        let b2 = (0x80 + (cp / 0x40) % 0x40) as u8;
        let b3 = (0x80 + cp % 0x40) as u8;
        push_byte_encoded(out, b0);
        push_byte_encoded(out, b1);
        push_byte_encoded(out, b2);
        push_byte_encoded(out, b3);
        proof {
            assert(utf8_bytes(c) =~= seq![b0, b1, b2, b3]);
            assert(seq![b0, b1, b2, b3].drop_first() =~= seq![b1, b2, b3]);
            assert(seq![b1, b2, b3].drop_first() =~= seq![b2, b3]);
            assert(seq![b2, b3].drop_first() =~= seq![b3]);
            assert(seq![b3].drop_first() =~= Seq::<u8>::empty());
            assert(percent_bytes(Seq::<u8>::empty()) =~= Seq::<char>::empty());
            assert(percent_bytes(seq![b3]) =~= percent_byte(b3));
            assert(percent_bytes(seq![b2, b3]) =~= percent_byte(b2) + percent_byte(b3));
            assert(percent_bytes(seq![b1, b2, b3]) =~= percent_byte(b1) + (percent_byte(b2)
                + percent_byte(b3)));
            assert(percent_bytes(seq![b0, b1, b2, b3]) =~= percent_byte(b0) + (percent_byte(b1)
                + (percent_byte(b2) + percent_byte(b3))));
            assert(out@ =~= before + percent_char(c));
        }
    }
}

/// Percent-encodes a value for a form-urlencoded parameter list, over the
/// UTF-8 bytes of its characters.
pub fn percent_encode(s: &str) -> (r: String)
    ensures
        r@ == percent_chars(s@),
{
    let n: usize = s.unicode_len();
    let mut out: Vec<char> = Vec::new();
    let mut i: usize = 0;
    proof {
        assert(s@.skip(0) =~= s@);
        assert(Seq::<char>::empty() + percent_chars(s@) =~= percent_chars(s@));
    }
    while i < n
        invariant
            n == s@.len(),
            0 <= i <= n,
            percent_chars(s@) == out@ + percent_chars(s@.skip(i as int)),
        decreases n - i,
    {
        let c = s.get_char(i);
        proof {
            assert(s@.skip(i as int)[0] == s@[i as int]);
            assert(s@.skip(i as int).drop_first() =~= s@.skip(i + 1));
        }
        let ghost before = out@;
        push_char_encoded(&mut out, c);
        proof {
            assert(before + (percent_char(s@[i as int]) + percent_chars(s@.skip(i + 1)))
                =~= (before + percent_char(s@[i as int])) + percent_chars(s@.skip(i + 1)));
        }
        i = i + 1;
    }
    proof {
        assert(s@.skip(n as int) =~= Seq::<char>::empty());
        assert(out@ + Seq::<char>::empty() =~= out@);
    }
    string_from_chars(&out)
}

/// A parameter list under construction: name-value pairs joined with `=` and
/// `&`, the values percent-encoded.
pub struct ParamList {
    body: String,
}

impl ParamList {
    /// The characters written so far.
    pub closed spec fn spec_body(&self) -> Seq<char> {
        self.body@
    }

    /// An empty parameter list.
    pub fn new() -> (r: ParamList)
        ensures
            r.spec_body() == Seq::<char>::empty(),
    {
        ParamList { body: String::new() }
    }

    /// Appends one parameter with its value percent-encoded.
    pub fn add(&mut self, name: &str, value: &str)
        ensures
            final(self).spec_body() == with_param(
                old(self).spec_body(),
                name@,
                percent_chars(value@),
            ),
    {
        let ghost start = self.body@;
        if self.body.unicode_len() > 0 {
            self.body.append("&");
        }
        proof {
            if start.len() == 0 {
                assert(self.body@ =~= start + Seq::<char>::empty());
            }
        }
        self.body.append(name);
        self.body.append("=");
        let enc = percent_encode(value);
        self.body.append(enc.as_str());
        proof {
            assert(self.body@ =~= with_param(start, name@, percent_chars(value@)));
        }
    }

    /// Appends one parameter whose value already travels safely on the wire
    /// (digits, a mode name, a boolean word): the value goes in verbatim.
    pub fn add_raw(&mut self, name: &str, value: &str)
        ensures
            final(self).spec_body() == with_param(old(self).spec_body(), name@, value@),
    {
        let ghost start = self.body@;
        if self.body.unicode_len() > 0 {
            self.body.append("&");
        }
        proof {
            if start.len() == 0 {
                assert(self.body@ =~= start + Seq::<char>::empty());
            }
        }
        self.body.append(name);
        self.body.append("=");
        self.body.append(value);
        proof {
            assert(self.body@ =~= with_param(start, name@, value@));
        }
    }

    /// Hands the encoded parameter list out.
    pub fn into_body(self) -> (r: String)
        ensures
            r@ == self.spec_body(),
    {
        self.body
    }
}

/// Joins names with single spaces, as an item group or field schema listing
/// names on the wire does.
pub fn join_names(names: &Vec<String>) -> (r: String)
    ensures
        r@ == joined_names(names.deep_view()),
{
    let mut out = String::new();
    let n = names.len();
    let mut i: usize = 0;
    proof {
        assert(names.deep_view().take(0) =~= Seq::<Seq<char>>::empty());
    }
    while i < n
        invariant
            n == names.deep_view().len(),
            0 <= i <= n,
            out@ == joined_names(names.deep_view().take(i as int)),
        decreases n - i,
    {
        proof {
            assert(names.deep_view().take(i + 1).drop_last() =~= names.deep_view().take(i as int));
            assert(names.deep_view().take(i + 1).last() == names.deep_view()[i as int]);
        }
        if i > 0 {
            out.append(" ");
        }
        out.append(names[i].as_str());
        i = i + 1;
    }
    proof {
        assert(names.deep_view().take(n as int) =~= names.deep_view());
    }
    out
}

/// Names joined with single spaces.
pub open spec fn joined_names(names: Seq<Seq<char>>) -> Seq<char>
    decreases names.len(),
{
    if names.len() == 0 {
        Seq::empty()
    } else if names.len() == 1 {
        names[0]
    } else {
        joined_names(names.drop_last()) + " "@ + names.last()
    }
}

/// Builds the body of a session-creation request: the protocol revision, the
/// adapter set, and the credentials when they are set.
pub fn create_session_request(
    adapter_set: &str,
    user: Option<&str>,
    password: Option<&str>,
) -> (r: String)
    ensures
        ({
            let p1 = with_param(Seq::<char>::empty(), "LS_protocol"@, "TLCP-2.0.0"@);
            let p2 = with_param(p1, "LS_adapter_set"@, percent_chars(adapter_set@));
            let p3 = if user is Some {
                with_param(p2, "LS_user"@, percent_chars(user.unwrap()@))
            } else {
                p2
            };
            let p4 = if password is Some {
                with_param(p3, "LS_password"@, percent_chars(password.unwrap()@))
            } else {
                p3
            };
            r@ == p4
        }),
{
    let mut params = ParamList::new();
    params.add_raw("LS_protocol", "TLCP-2.0.0");
    params.add("LS_adapter_set", adapter_set);
    if let Some(user) = user {
        params.add("LS_user", user);
    }
    if let Some(password) = password {
        params.add("LS_password", password);
    }
    params.into_body()
}

/// Builds the body of a session-bind request; a recovery bind carries the
/// count of updates already received, so the server can replay the missed
/// ones.
pub fn bind_session_request(session_id: &str, recovery_from: Option<usize>) -> (r: String)
    ensures
        ({
            let p1 = with_param(
                Seq::<char>::empty(),
                "LS_session"@,
                percent_chars(session_id@),
            );
            let p2 = if recovery_from is Some {
                with_param(p1, "LS_recovery_from"@, dec_digits(recovery_from.unwrap() as int))
            } else {
                p1
            };
            r@ == p2
        }),
{
    let mut params = ParamList::new();
    params.add("LS_session", session_id);
    if let Some(prog) = recovery_from {
        let prog_text = crate::util::to_decimal_string(prog);
        params.add_raw("LS_recovery_from", prog_text.as_str());
    }
    params.into_body()
}

/// The body of a subscription control request: the request id, the add
/// operation, the subscription id and mode, the item group (or the item list
/// joined by spaces), the field schema (or the field list joined by spaces),
/// and the optional data adapter, snapshot preference and selector.
pub open spec fn subscribe_body(s: SubscriptionView, sub_id: usize, req_id: usize) -> Seq<char> {
    let p1 = with_param(Seq::<char>::empty(), "LS_reqId"@, dec_digits(req_id as int));
    let p2 = with_param(p1, "LS_op"@, "add"@);
    let p3 = with_param(p2, "LS_subId"@, dec_digits(sub_id as int));
    let p4 = with_param(p3, "LS_mode"@, mode_string(s.mode));
    let p5 = if s.item_group is Some {
        with_param(p4, "LS_group"@, percent_chars(s.item_group.unwrap()))
    } else {
        with_param(p4, "LS_group"@, percent_chars(joined_names(s.items.unwrap())))
    };
    let p6 = if s.field_schema is Some {
        with_param(p5, "LS_schema"@, percent_chars(s.field_schema.unwrap()))
    } else {
        with_param(p5, "LS_schema"@, percent_chars(joined_names(s.fields.unwrap())))
    };
    let p7 = if s.data_adapter is Some {
        with_param(p6, "LS_data_adapter"@, percent_chars(s.data_adapter.unwrap()))
    } else {
        p6
    };
    let p8 = if s.requested_snapshot is Some {
        if s.requested_snapshot.unwrap() == Snapshot::Unset {
            p7
        } else {
            with_param(p7, "LS_snapshot"@, snapshot_string(s.requested_snapshot.unwrap()))
        }
    } else {
        if s.mode == SubscriptionMode::Raw {
            p7
        } else {
            with_param(p7, "LS_snapshot"@, "true"@)
        }
    };
    if s.selector is Some {
        with_param(p8, "LS_selector"@, percent_chars(s.selector.unwrap()))
    } else {
        p8
    }
}

/// Builds the body of a subscription control request for the given
/// subscription and request id.  The subscription must carry items or an
/// item group, and fields or a field schema; anything else is refused.
pub fn subscribe_request(subscription: &Subscription, sub_id: usize, req_id: usize) -> (r: Result<
    String,
    IllegalArgumentException,
>)
    ensures
        r is Ok <==> ((subscription@.items is Some || subscription@.item_group is Some) && (
        subscription@.fields is Some || subscription@.field_schema is Some)),
        r is Ok ==> r.unwrap()@ == subscribe_body(subscription@, sub_id, req_id),
{
    let mut params = ParamList::new();
    let req_text = crate::util::to_decimal_string(req_id);
    params.add_raw("LS_reqId", req_text.as_str());
    params.add_raw("LS_op", "add");
    let sub_text = crate::util::to_decimal_string(sub_id);
    params.add_raw("LS_subId", sub_text.as_str());
    let mode = subscription.get_mode().to_string();
    params.add_raw("LS_mode", mode.as_str());
    if let Some(group) = subscription.get_item_group() {
        params.add("LS_group", group.as_str());
    } else if let Some(items) = subscription.get_items() {
        let joined = join_names(items);
        params.add("LS_group", joined.as_str());
    } else {
        return Err(IllegalArgumentException::new("The subscription names no items"));
    }
    if let Some(schema) = subscription.get_field_schema() {
        params.add("LS_schema", schema.as_str());
    } else if let Some(fields) = subscription.get_fields() {
        let joined = join_names(fields);
        params.add("LS_schema", joined.as_str());
    } else {
        return Err(IllegalArgumentException::new("The subscription names no fields"));
    }
    if let Some(adapter) = subscription.get_data_adapter() {
        params.add("LS_data_adapter", adapter.as_str());
    }
    if let Some(snapshot) = subscription.get_requested_snapshot() {
        if !matches!(snapshot, Snapshot::Unset) {
            let text = snapshot.to_string();
            params.add_raw("LS_snapshot", text.as_str());
        }
    } else {
        // the documented default: ask for the snapshot unless the mode is RAW
        if !matches!(subscription.get_mode(), SubscriptionMode::Raw) {
            params.add_raw("LS_snapshot", "true");
        }
    }
    if let Some(selector) = subscription.get_selector() {
        params.add("LS_selector", selector.as_str());
    }
    Ok(params.into_body())
}

/// Builds the body of an unsubscription control request.
pub fn unsubscribe_request(sub_id: usize, req_id: usize) -> (r: String)
    ensures
        ({
            let p1 = with_param(Seq::<char>::empty(), "LS_reqId"@, dec_digits(req_id as int));
            let p2 = with_param(p1, "LS_op"@, "delete"@);
            let p3 = with_param(p2, "LS_subId"@, dec_digits(sub_id as int));
            r@ == p3
        }),
{
    let mut params = ParamList::new();
    let req_text = crate::util::to_decimal_string(req_id);
    params.add_raw("LS_reqId", req_text.as_str());
    params.add_raw("LS_op", "delete");
    let sub_text = crate::util::to_decimal_string(sub_id);
    params.add_raw("LS_subId", sub_text.as_str());
    params.into_body()
}

/// Builds the body of a user-message request; an ordering sequence, when one
/// is named, makes the server process the partition's messages in send
/// order.
pub fn message_request(text: &str, sequence: Option<&str>, msg_num: usize, req_id: usize) -> (r:
    String)
    ensures
        ({
            let p1 = with_param(Seq::<char>::empty(), "LS_reqId"@, dec_digits(req_id as int));
            let p2 = with_param(p1, "LS_message"@, percent_chars(text@));
            let p3 = if sequence is Some {
                with_param(
                    with_param(p2, "LS_sequence"@, percent_chars(sequence.unwrap()@)),
                    "LS_msg_prog"@,
                    dec_digits(msg_num as int),
                )
            } else {
                p2
            };
            r@ == p3
        }),
{
    let mut params = ParamList::new();
    let req_text = crate::util::to_decimal_string(req_id);
    params.add_raw("LS_reqId", req_text.as_str());
    params.add("LS_message", text);
    if let Some(sequence) = sequence {
        params.add("LS_sequence", sequence);
        let prog_text = crate::util::to_decimal_string(msg_num);
        params.add_raw("LS_msg_prog", prog_text.as_str());
    }
    params.into_body()
}

/// Reads the request id a `REQOK` answer echoes, so a caller can cross-check
/// it against the id it sent.
pub fn parse_reqok(line: &str) -> (r: Option<usize>)
    ensures
        ({
            let args = crate::util::parse_args_spec(line@);
            &&& (r is Some <==> (args.len() >= 2 && crate::util::lower_seq(args[0]) == "reqok"@
                && crate::util::parse_pos_spec(args[1]) is Some))
            &&& (r is Some ==> Some(r.unwrap() as int) == crate::util::parse_pos_spec(args[1]))
        }),
{
    let args = crate::util::parse_arguments(line);
    if args.len() < 2 {
        return None;
    }
    if !crate::util::str_eq_lower(args[0], "reqok") {
        return None;
    }
    crate::util::parse_usize(args[1])
}

} // verus!
