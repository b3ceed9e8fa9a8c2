//! Helpers of the wire codec: protocol lines are normalised and split into
//! comma-separated arguments, with `{...}` groups shielding their contents.

use vstd::prelude::*;

verus! {

/// ASCII lower-casing of a single character: `'A'..='Z'` move to
/// `'a'..='z'`, every other character is unchanged.
pub open spec fn lower_char(c: char) -> char {
    if 'A' <= c && c <= 'Z' {
        ((c as u8) + 32) as char
    } else {
        c
    }
}

/// What `clean_message` leaves of a character sequence, scanning with the
/// current `{...}` nesting depth.  Outside every group (depth 0) carriage
/// returns and line feeds are dropped and letters are lower-cased; inside a
/// group every character is kept as it stands.  Braces themselves are kept
/// and drive the depth; a stray `}` outside any group is an ordinary
/// character.
pub open spec fn clean_chars(s: Seq<char>, depth: nat) -> Seq<char>
    decreases s.len(),
{
    if s.len() == 0 {
        Seq::<char>::empty()
    } else {
        let c = s[0];
        let rest = s.drop_first();
        if depth == 0 {
            if c == '\n' || c == '\r' {
                clean_chars(rest, 0)
            } else if c == '{' {
                seq![c] + clean_chars(rest, 1)
            } else {
                seq![lower_char(c)] + clean_chars(rest, 0)
            }
        } else {
            if c == '{' {
                seq![c] + clean_chars(rest, depth + 1)
            } else if c == '}' {
                seq![c] + clean_chars(rest, (depth - 1) as nat)
            } else {
                seq![c] + clean_chars(rest, depth)
            }
        }
    }
}

/// Relies on `Iterator::collect`: a `String` collected from characters is
/// exactly that sequence of characters.
#[verifier::external_body]
pub(crate) fn string_from_chars(v: &Vec<char>) -> (r: String)
    ensures
        r@ == v@,
{
    v.iter().collect()
}

/// Normalises a protocol line: outside `{...}` groups, carriage returns and
/// line feeds are removed and characters are ASCII lower-cased; the contents
/// of brace groups (nestable) are preserved verbatim, since they carry user
/// payloads.
pub fn clean_message(text: &str) -> (r: String)
    ensures
        r@ == clean_chars(text@, 0),
{
    let n: usize = text.unicode_len();
    let mut out: Vec<char> = Vec::new();
    let mut depth: usize = 0;
    let mut i: usize = 0;
    proof {
        assert(text@.subrange(0, n as int) =~= text@);
        assert(Seq::<char>::empty() + clean_chars(text@, 0) =~= clean_chars(text@, 0));
    }
    while i < n
        invariant
            n == text@.len(),
            0 <= i <= n,
            depth <= i,
            clean_chars(text@, 0) == out@ + clean_chars(text@.subrange(i as int, n as int), depth as nat),
        decreases n - i,
    {
        let c = text.get_char(i);
        proof {
            assert(text@.subrange(i as int, n as int)[0] == text@[i as int]);
            assert(text@.subrange(i as int, n as int).drop_first() =~= text@.subrange(
                i + 1,
                n as int,
            ));
        }
        if depth == 0 {
            if c == '\n' || c == '\r' {
                // dropped
            } else if c == '{' {
                out.push(c);
                depth = 1;
            } else {
                out.push(lower_char_exec(c));
            }
        } else {
            if c == '{' {
                out.push(c);
                depth = depth + 1;
            } else if c == '}' {
                out.push(c);
                depth = depth - 1;
            } else {
                out.push(c);
            }
        }
        i = i + 1;
    }
    proof {
        assert(text@.subrange(n as int, n as int) =~= Seq::<char>::empty());
        assert(out@ + Seq::<char>::empty() =~= out@);
    }
    string_from_chars(&out)
}

/// Lower-cases one character, ASCII-wise.
pub fn lower_char_exec(c: char) -> (r: char)
    ensures
        r == lower_char(c),
{
    if 'A' <= c && c <= 'Z' {
        ((c as u8) + 32) as char
    } else {
        c
    }
}

/// An ASCII decimal digit.
pub open spec fn is_ascii_digit(c: char) -> bool {
    '0' <= c && c <= '9'
}

/// The numeric value of an ASCII digit.
pub open spec fn digit_val(c: char) -> int {
    c as int - '0' as int
}

/// The value of a digit string, most significant digit first.
pub open spec fn digits_value(s: Seq<char>) -> int
    decreases s.len(),
{
    if s.len() == 0 {
        0
    } else {
        digits_value(s.drop_last()) * 10 + digit_val(s[s.len() - 1])
    }
}

/// Whether the sequence is one or more ASCII digits and nothing else.
pub open spec fn all_digits(s: Seq<char>) -> bool {
    s.len() > 0 && forall|i: int| 0 <= i < s.len() ==> is_ascii_digit(s[i])
}

/// What parsing a non-negative decimal integer accepts: an optional leading
/// `+`, then one or more digits, with a value that fits in `usize`.
pub open spec fn parse_body(s: Seq<char>) -> Seq<char> {
    if s.len() > 0 && s[0] == '+' {
        s.drop_first()
    } else {
        s
    }
}

pub open spec fn parse_pos_spec(s: Seq<char>) -> Option<int> {
    if all_digits(parse_body(s)) && digits_value(parse_body(s)) <= usize::MAX {
        Some(digits_value(parse_body(s)))
    } else {
        None
    }
}

/// One more digit multiplies the value by ten and adds the digit.
proof fn lemma_digits_extend(s: Seq<char>, i: int)
    requires
        0 <= i < s.len(),
    ensures
        digits_value(s.take(i + 1)) == digits_value(s.take(i)) * 10 + digit_val(s[i]),
{
    assert(s.take(i + 1).drop_last() =~= s.take(i));
    assert(s.take(i + 1)[i] == s[i]);
}

/// On a digit string the value of a prefix never exceeds the whole value.
proof fn lemma_digits_prefix_le(s: Seq<char>, i: int)
    requires
        0 <= i <= s.len(),
        forall|j: int| 0 <= j < s.len() ==> is_ascii_digit(s[j]),
    ensures
        digits_value(s.take(i)) <= digits_value(s),
    decreases s.len() - i,
{
    if i == s.len() {
        assert(s.take(i) =~= s);
    } else {
        lemma_digits_extend(s, i);
        assert(digit_val(s[i]) >= 0);
        lemma_digits_value_nonneg(s.take(i));
        lemma_digits_prefix_le(s, i + 1);
    }
}

/// A string of digits has a non-negative value.
proof fn lemma_digits_value_nonneg(s: Seq<char>)
    requires
        forall|j: int| 0 <= j < s.len() ==> is_ascii_digit(s[j]),
    ensures
        digits_value(s) >= 0,
    decreases s.len(),
{
    if s.len() > 0 {
        lemma_digits_value_nonneg(s.drop_last());
        assert(is_ascii_digit(s[s.len() - 1]));
    }
}

/// Parses a non-negative decimal integer: an optional leading `+`, then one
/// or more digits.  Returns `None` on any other character or when the value
/// does not fit in `usize`.
pub fn parse_usize(s: &str) -> (r: Option<usize>)
    ensures
        r is Some <==> parse_pos_spec(s@) is Some,
        r is Some ==> r.unwrap() as int == parse_pos_spec(s@).unwrap(),
{
    let n: usize = s.unicode_len();
    let start: usize = if n > 0 && s.get_char(0) == '+' {
        1
    } else {
        0
    };
    let ghost body = parse_body(s@);
    proof {
        assert(body =~= s@.subrange(start as int, n as int));
    }
    if start == n {
        return None;
    }
    let mut acc: usize = 0;
    let mut i: usize = start;
    while i < n
        invariant
            n == s@.len(),
            start <= i <= n,
            start < n,
            body == parse_body(s@),
            body == s@.subrange(start as int, n as int),
            forall|j: int| 0 <= j < i - start ==> is_ascii_digit(body[j]),
            acc as int == digits_value(body.take(i - start)),
        decreases n - i,
    {
        let c = s.get_char(i);
        if !('0' <= c && c <= '9') {
            proof {
                assert(body[i - start] == s@[i as int]);
                assert(!is_ascii_digit(body[i - start]));
                assert(!all_digits(body));
                assert(parse_pos_spec(s@) is None);
            }
            return None;
        }
        let d: usize = (c as u8 - 48) as usize;
        proof {
            assert(body[i - start] == s@[i as int]);
            assert(d as int == digit_val(body[i - start]));
            lemma_digits_extend(body, i - start);
        }
        if acc > (usize::MAX - d) / 10 {
            // The digits read so far already exceed the machine range.
            proof {
                assert(acc as int * 10 + d as int > usize::MAX) by (nonlinear_arith)
                    requires
                        acc as int > (usize::MAX as int - d as int) / 10,
                        0 <= d as int <= 9,
                ;
                if all_digits(body) {
                    lemma_digits_prefix_le(body, i - start + 1);
                    assert(digits_value(body.take(i - start + 1)) == acc as int * 10 + d as int);
                    assert(digits_value(body) > usize::MAX);
                }
                assert(parse_pos_spec(s@) is None);
            }
            return None;
        }
        acc = acc * 10 + d;
        i = i + 1;
    }
    proof {
        assert(body.take(n - start) =~= body);
        assert(all_digits(body));
    }
    Some(acc)
}

/// ASCII whitespace, as trimmed from the ends of an argument.
pub open spec fn is_space(c: char) -> bool {
    c == ' ' || c == '\t' || c == '\n' || c == '\r'
}

/// The sequence with leading and trailing ASCII whitespace removed.
pub open spec fn trim_spec(s: Seq<char>) -> Seq<char>
    decreases s.len(),
{
    if s.len() == 0 {
        s
    } else if is_space(s[0]) {
        trim_spec(s.drop_first())
    } else if is_space(s[s.len() - 1]) {
        trim_spec(s.drop_last())
    } else {
        s
    }
}

/// Splits a sequence at the commas that stand outside every `{...}` group,
/// scanning with the given brace depth.  The pieces between the commas are
/// returned raw, empty pieces included, so a sequence with `n` such commas
/// yields `n + 1` pieces.  A `}` may drive the depth negative, and a comma
/// then separates nothing, exactly as the scan of the depth counter has it.
pub open spec fn raw_split(s: Seq<char>, depth: int) -> Seq<Seq<char>>
    decreases s.len(),
{
    if s.len() == 0 {
        seq![Seq::<char>::empty()]
    } else {
        let c = s[0];
        let rest = s.drop_first();
        if c == ',' && depth == 0 {
            seq![Seq::<char>::empty()] + raw_split(rest, 0)
        } else {
            let d2 = if c == '{' {
                depth + 1
            } else if c == '}' {
                depth - 1
            } else {
                depth
            };
            let r = raw_split(rest, d2);
            seq![seq![c] + r[0]] + r.drop_first()
        }
    }
}

/// What `parse_arguments` returns of a line: the raw pieces between
/// top-level commas, in order and verbatim.  Empty pieces are significant
/// tokens of the protocol and are kept, so `n` top-level commas always yield
/// `n + 1` arguments.
pub open spec fn parse_args_spec(s: Seq<char>) -> Seq<Seq<char>> {
    raw_split(s, 0)
}

/// A split always yields at least one piece.
proof fn lemma_raw_split_len(s: Seq<char>, depth: int)
    ensures
        raw_split(s, depth).len() >= 1,
    decreases s.len(),
{
    if s.len() > 0 {
        let c = s[0];
        let rest = s.drop_first();
        if c == ',' && depth == 0 {
            lemma_raw_split_len(rest, 0);
        } else {
            let d2 = if c == '{' {
                depth + 1
            } else if c == '}' {
                depth - 1
            } else {
                depth
            };
            lemma_raw_split_len(rest, d2);
        }
    }
}

/// The first raw piece, extended at the front by characters that are not
/// splitting commas.
pub open spec fn prepend_first(p: Seq<char>, xs: Seq<Seq<char>>) -> Seq<Seq<char>>
    recommends
        xs.len() >= 1,
{
    seq![p + xs[0]] + xs.drop_first()
}

/// Splits a sequence at every comma; `n` commas yield `n + 1` raw pieces,
/// empty pieces included.
pub open spec fn comma_split(s: Seq<char>) -> Seq<Seq<char>>
    decreases s.len(),
{
    if s.len() == 0 {
        seq![Seq::<char>::empty()]
    } else if s[0] == ',' {
        seq![Seq::<char>::empty()] + comma_split(s.drop_first())
    } else {
        prepend_first(seq![s[0]], comma_split(s.drop_first()))
    }
}

/// A comma split always yields at least one piece.
proof fn lemma_comma_split_len(s: Seq<char>)
    ensures
        comma_split(s).len() >= 1,
    decreases s.len(),
{
    if s.len() > 0 {
        lemma_comma_split_len(s.drop_first());
    }
}

/// The comma-separated pieces of a sequence, each trimmed of ASCII
/// whitespace, empty pieces kept in place.
pub open spec fn trimmed_pieces(s: Seq<char>) -> Seq<Seq<char>> {
    comma_split(s).map_values(|p: Seq<char>| trim_spec(p))
}

/// Splits a line at every comma and trims each piece; empty pieces are kept,
/// so the piece at index `i` belongs to the `i + 1`-th comma-separated slot.
pub fn split_trimmed<'a>(input: &'a str) -> (r: Vec<&'a str>)
    ensures
        r.deep_view() == trimmed_pieces(input@),
{
    let n: usize = input.unicode_len();
    let mut r: Vec<&'a str> = Vec::new();
    let mut start: usize = 0;
    let mut i: usize = 0;
    proof {
        assert(input@.subrange(0, n as int) =~= input@);
        lemma_comma_split_len(input@.subrange(0, n as int));
        let whole = comma_split(input@.subrange(0, n as int));
        assert(prepend_first(Seq::<char>::empty(), whole) =~~= whole);
        assert(r.deep_view() =~= Seq::<Seq<char>>::empty());
        assert(Seq::<Seq<char>>::empty() + trimmed_pieces(input@) =~= trimmed_pieces(input@));
    }
    while i < n
        invariant
            n == input@.len(),
            0 <= start <= i <= n,
            comma_split(input@.subrange(start as int, n as int)) == prepend_first(
                input@.subrange(start as int, i as int),
                comma_split(input@.subrange(i as int, n as int)),
            ),
            trimmed_pieces(input@) == r.deep_view() + comma_split(
                input@.subrange(start as int, n as int),
            ).map_values(|p: Seq<char>| trim_spec(p)),
        decreases n - i,
    {
        let c = input.get_char(i);
        proof {
            let suffix = input@.subrange(i as int, n as int);
            assert(suffix[0] == input@[i as int]);
            assert(suffix.drop_first() =~= input@.subrange(i + 1, n as int));
            lemma_comma_split_len(input@.subrange(i + 1, n as int));
        }
        if c == ',' {
            proof {
                let piece = input@.subrange(start as int, i as int);
                let tail = comma_split(input@.subrange(i + 1, n as int));
                assert(comma_split(input@.subrange(i as int, n as int)) =~= seq![
                    Seq::<char>::empty(),
                ] + tail);
                assert(prepend_first(piece, seq![Seq::<char>::empty()] + tail) =~~= seq![piece]
                    + tail);
                assert((seq![piece] + tail).map_values(|p: Seq<char>| trim_spec(p)) =~= seq![
                    trim_spec(piece),
                ] + tail.map_values(|p: Seq<char>| trim_spec(p)));
            }
            let (a, b) = trimmed_bounds(input, start, i);
            let piece = input.substring_char(a, b);
            let ghost old_r = r.deep_view();
            r.push(piece);
            proof {
                assert(r.deep_view() =~= old_r.push(piece@));
                assert(old_r.push(piece@) =~= old_r + seq![piece@]);
                let tail = comma_split(input@.subrange(i + 1, n as int));
                assert(prepend_first(Seq::<char>::empty(), tail) =~~= tail);
                assert(input@.subrange(i + 1, i + 1) =~= Seq::<char>::empty());
            }
            start = i + 1;
        } else {
            proof {
                let piece = input@.subrange(start as int, i as int);
                let tail = comma_split(input@.subrange(i + 1, n as int));
                assert(comma_split(input@.subrange(i as int, n as int)) =~= prepend_first(
                    seq![input@[i as int]],
                    tail,
                ));
                assert(prepend_first(piece, prepend_first(seq![input@[i as int]], tail))
                    =~~= prepend_first(piece + seq![input@[i as int]], tail));
                assert(piece + seq![input@[i as int]] =~= input@.subrange(start as int, i + 1));
            }
        }
        i = i + 1;
    }
    proof {
        let piece = input@.subrange(start as int, n as int);
        assert(input@.subrange(n as int, n as int) =~= Seq::<char>::empty());
        assert(comma_split(Seq::<char>::empty()) =~= seq![Seq::<char>::empty()]);
        assert(prepend_first(piece, seq![Seq::<char>::empty()]) =~~= seq![piece]);
        assert(seq![piece].map_values(|p: Seq<char>| trim_spec(p)) =~= seq![trim_spec(piece)]);
    }
    let (a, b) = trimmed_bounds(input, start, n);
    let piece = input.substring_char(a, b);
    let ghost old_r = r.deep_view();
    r.push(piece);
    proof {
        assert(r.deep_view() =~= old_r.push(piece@));
        assert(old_r.push(piece@) =~= old_r + seq![piece@]);
    }
    r
}

/// Copies a list of strings.
pub fn clone_strings(names: &Vec<String>) -> (r: Vec<String>)
    ensures
        r.deep_view() == names.deep_view(),
{
    let n = names.len();
    let mut out: Vec<String> = Vec::new();
    let mut i: usize = 0;
    while i < n
        invariant
            n == names.deep_view().len(),
            0 <= i <= n,
            out.deep_view() == names.deep_view().take(i as int),
        decreases n - i,
    {
        let ghost before = out.deep_view();
        out.push(names[i].clone());
        proof {
            assert(out.deep_view() =~= before.push(names.deep_view()[i as int]));
            assert(names.deep_view().take(i + 1) =~= names.deep_view().take(i as int).push(
                names.deep_view()[i as int],
            ));
        }
        i = i + 1;
    }
    proof {
        assert(names.deep_view().take(n as int) =~= names.deep_view());
    }
    out
}

/// A character sequence lower-cased, ASCII-wise.
pub open spec fn lower_seq(s: Seq<char>) -> Seq<char> {
    s.map_values(|c: char| lower_char(c))
}

/// Whether `s`, lower-cased ASCII-wise, equals `t` as it stands.
pub fn str_eq_lower(s: &str, t: &str) -> (r: bool)
    ensures
        r == (lower_seq(s@) == t@),
{
    let n: usize = s.unicode_len();
    let m: usize = t.unicode_len();
    if n != m {
        proof {
            assert(lower_seq(s@).len() == n);
        }
        return false;
    }
    let mut i: usize = 0;
    while i < n
        invariant
            n == s@.len(),
            n == t@.len(),
            0 <= i <= n,
            forall|j: int| 0 <= j < i ==> lower_seq(s@)[j] == t@[j],
        decreases n - i,
    {
        if lower_char_exec(s.get_char(i)) != t.get_char(i) {
            proof {
                assert(lower_seq(s@)[i as int] == lower_char(s@[i as int]));
            }
            return false;
        }
        proof {
            assert(lower_seq(s@)[i as int] == lower_char(s@[i as int]));
        }
        i = i + 1;
    }
    proof {
        assert(lower_seq(s@) =~= t@);
    }
    true
}

/// Whether two strings hold the same characters.
pub fn str_eq(a: &str, b: &str) -> (r: bool)
    ensures
        r == (a@ == b@),
{
    let n: usize = a.unicode_len();
    let m: usize = b.unicode_len();
    if n != m {
        return false;
    }
    let mut i: usize = 0;
    while i < n
        invariant
            n == a@.len(),
            n == b@.len(),
            0 <= i <= n,
            forall|j: int| 0 <= j < i ==> a@[j] == b@[j],
        decreases n - i,
    {
        if a.get_char(i) != b.get_char(i) {
            return false;
        }
        i = i + 1;
    }
    proof {
        assert(a@ =~= b@);
    }
    true
}

/// The decimal digit character for a value between zero and nine.
pub open spec fn digit_char(d: int) -> char {
    (('0' as int + d) as char)
}

/// The decimal digits of a non-negative number, most significant first.
pub open spec fn dec_digits(n: int) -> Seq<char>
    decreases n,
{
    if n < 0 {
        Seq::empty()
    } else if n < 10 {
        seq![digit_char(n)]
    } else {
        dec_digits(n / 10) + seq![digit_char(n % 10)]
    }
}

/// Appends the decimal digits of `n` to `out`.
fn push_decimal(n: usize, out: &mut Vec<char>)
    ensures
        final(out)@ == old(out)@ + dec_digits(n as int),
    decreases n,
{
    if n < 10 {
        out.push((48u8 + (n as u8)) as char);
        proof {
            assert(out@ =~= old(out)@ + dec_digits(n as int));
        }

    } else {
        push_decimal(n / 10, out);
        out.push((48u8 + ((n % 10) as u8)) as char);
        proof {
            assert((48u8 + ((n % 10) as u8)) as char == digit_char(n as int % 10));
            assert(out@ =~= old(out)@ + dec_digits(n as int));
        }
    }
}

/// Renders a number in decimal.
pub fn to_decimal_string(n: usize) -> (r: String)
    ensures
        r@ == dec_digits(n as int),
{
    let mut out: Vec<char> = Vec::new();
    push_decimal(n, &mut out);
    proof {
        assert(out@ =~= dec_digits(n as int));
    }
    string_from_chars(&out)
}

/// Returns the bounds of the given slice of `text` with ASCII whitespace
/// trimmed from both ends.
fn trimmed_bounds(text: &str, from: usize, to: usize) -> (r: (usize, usize))
    requires
        from <= to <= text@.len(),
    ensures
        from <= r.0 <= r.1 <= to,
        text@.subrange(r.0 as int, r.1 as int) == trim_spec(text@.subrange(from as int, to as int)),
{
    let mut a: usize = from;
    let mut b: usize = to;
    while a < b
        invariant
            from <= a <= b <= to <= text@.len(),
            trim_spec(text@.subrange(a as int, b as int)) == trim_spec(
                text@.subrange(from as int, to as int),
            ),
        ensures
            from <= a <= b <= to,
            trim_spec(text@.subrange(a as int, b as int)) == trim_spec(
                text@.subrange(from as int, to as int),
            ),
            a < b ==> !is_space(text@[a as int]),
        decreases b - a,
    {
        let c = text.get_char(a);
        if !(c == ' ' || c == '\t' || c == '\n' || c == '\r') {
            break;
        }
        proof {
            let cur = text@.subrange(a as int, b as int);
            assert(cur[0] == text@[a as int]);
            assert(cur.drop_first() =~= text@.subrange(a + 1, b as int));
        }
        a = a + 1;
    }
    while b > a
        invariant
            from <= a <= b <= to <= text@.len(),
            trim_spec(text@.subrange(a as int, b as int)) == trim_spec(
                text@.subrange(from as int, to as int),
            ),
            a < b ==> !is_space(text@[a as int]),
        ensures
            from <= a <= b <= to,
            trim_spec(text@.subrange(a as int, b as int)) == trim_spec(
                text@.subrange(from as int, to as int),
            ),
            a < b ==> !is_space(text@[a as int]),
            a < b ==> !is_space(text@[b - 1]),
        decreases b,
    {
        let c = text.get_char(b - 1);
        if !(c == ' ' || c == '\t' || c == '\n' || c == '\r') {
            break;
        }
        proof {
            let cur = text@.subrange(a as int, b as int);
            assert(cur[0] == text@[a as int]);
            assert(cur[cur.len() - 1] == text@[b - 1]);
            assert(cur.drop_last() =~= text@.subrange(a as int, b - 1));
        }
        b = b - 1;
    }
    proof {
        let cur = text@.subrange(a as int, b as int);
        if a < b {
            assert(cur[0] == text@[a as int]);
            assert(cur[cur.len() - 1] == text@[b - 1]);
        }
        assert(trim_spec(cur) == cur);
    }
    (a, b)
}

/// Splits a protocol line into its arguments: the pieces between commas that
/// stand outside every `{...}` group, each trimmed of ASCII whitespace, the
/// empty ones dropped.  Brace groups, nestable, travel whole inside one
/// argument.
pub fn parse_arguments<'a>(input: &'a str) -> (r: Vec<&'a str>)
    ensures
        r.deep_view() == parse_args_spec(input@),
{
    let n: usize = input.unicode_len();
    let mut r: Vec<&'a str> = Vec::new();
    let mut start: usize = 0;
    let mut depth: i128 = 0;
    let mut i: usize = 0;
    proof {
        assert(input@.subrange(0, n as int) =~= input@);
        lemma_raw_split_len(input@.subrange(0, n as int), 0);
        let whole = raw_split(input@.subrange(0, n as int), 0);
        assert(prepend_first(Seq::<char>::empty(), whole) =~~= whole);
        assert(r.deep_view() =~= Seq::<Seq<char>>::empty());
        assert(Seq::<Seq<char>>::empty() + whole =~= whole);
    }
    while i < n
        invariant
            n == input@.len(),
            0 <= start <= i <= n,
            -(i as int) <= depth <= i as int,
            raw_split(input@.subrange(start as int, n as int), 0) == prepend_first(
                input@.subrange(start as int, i as int),
                raw_split(input@.subrange(i as int, n as int), depth as int),
            ),
            parse_args_spec(input@) == r.deep_view() + raw_split(
                input@.subrange(start as int, n as int),
                0,
            ),
        decreases n - i,
    {
        let c = input.get_char(i);
        proof {
            let suffix = input@.subrange(i as int, n as int);
            assert(suffix[0] == input@[i as int]);
            assert(suffix.drop_first() =~= input@.subrange(i + 1, n as int));
            lemma_raw_split_len(input@.subrange(i + 1, n as int), 0);
        }
        if c == ',' && depth == 0 {
            // A top-level comma closes the current raw piece.
            proof {
                let piece = input@.subrange(start as int, i as int);
                let tail = raw_split(input@.subrange(i + 1, n as int), 0);
                assert(raw_split(input@.subrange(i as int, n as int), 0) =~= seq![
                    Seq::<char>::empty(),
                ] + tail);
                assert(prepend_first(piece, seq![Seq::<char>::empty()] + tail) =~~= seq![piece]
                    + tail);
            }
            let piece = input.substring_char(start, i);
            let ghost old_r = r.deep_view();
            r.push(piece);
            start = i + 1;
            proof {
                assert(r.deep_view() =~= old_r.push(piece@));
                assert(old_r.push(piece@) =~= old_r + seq![piece@]);
                let tail = raw_split(input@.subrange(i + 1, n as int), 0);
                assert(prepend_first(Seq::<char>::empty(), tail) =~~= tail);
                assert(input@.subrange(i + 1, i + 1) =~= Seq::<char>::empty());
                assert((old_r + seq![piece@]) + tail =~= old_r + (seq![piece@] + tail));
            }
        } else {
            let ghost d0 = depth as int;
            if c == '{' {
                depth = depth + 1;
            } else if c == '}' {
                depth = depth - 1;
            }
            proof {
                let piece = input@.subrange(start as int, i as int);
                let tail = raw_split(input@.subrange(i + 1, n as int), depth as int);
                lemma_raw_split_len(input@.subrange(i + 1, n as int), depth as int);
                assert(raw_split(input@.subrange(i as int, n as int), d0) =~= prepend_first(
                    seq![input@[i as int]],
                    tail,
                ));
                assert(prepend_first(piece, prepend_first(seq![input@[i as int]], tail))
                    =~~= prepend_first(piece + seq![input@[i as int]], tail));
                assert(piece + seq![input@[i as int]] =~= input@.subrange(start as int, i + 1));
            }
        }
        i = i + 1;
    }
    // The final raw piece runs to the end of the line.
    proof {
        let piece = input@.subrange(start as int, n as int);
        assert(input@.subrange(n as int, n as int) =~= Seq::<char>::empty());
        assert(raw_split(Seq::<char>::empty(), depth as int) =~= seq![Seq::<char>::empty()]);
        assert(prepend_first(piece, seq![Seq::<char>::empty()]) =~~= seq![piece]);
    }
    let piece = input.substring_char(start, n);
    let ghost old_r = r.deep_view();
    r.push(piece);
    proof {
        assert(r.deep_view() =~= old_r.push(piece@));
        assert(old_r.push(piece@) =~= old_r + seq![piece@]);
    }
    r
}

} // verus!
