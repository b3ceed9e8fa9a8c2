//! Decoding of the field part of an update frame.  The values travel as
//! `|`-separated tokens; a token is empty for an unchanged field, `#` for an
//! explicit null, `$` for an explicit empty string, `^` and a count to skip
//! that many unchanged fields, and otherwise a literal value in which `\|`
//! and `\\` unescape to `|` and `\`.

use vstd::prelude::*;

use crate::util::{parse_pos_spec, parse_usize, prepend_first, string_from_chars};

verus! {

/// One decoded field token of an update frame.
#[derive(Debug, Clone, PartialEq, Eq)]
pub enum FieldToken {
    /// The field keeps its previous value.
    Unchanged,
    /// This many consecutive fields keep their previous values.
    Skip(usize),
    /// The field becomes null.
    SetNull,
    /// The field becomes the empty string.
    SetEmpty,
    /// The field becomes this literal value.
    Value(String),
}

/// The spec-level form of a decoded token.
pub enum FieldTokenView {
    Unchanged,
    Skip(usize),
    SetNull,
    SetEmpty,
    Value(Seq<char>),
}

impl View for FieldToken {
    type V = FieldTokenView;

    open spec fn view(&self) -> FieldTokenView {
        match self {
            FieldToken::Unchanged => FieldTokenView::Unchanged,
            FieldToken::Skip(n) => FieldTokenView::Skip(*n),
            FieldToken::SetNull => FieldTokenView::SetNull,
            FieldToken::SetEmpty => FieldTokenView::SetEmpty,
            FieldToken::Value(v) => FieldTokenView::Value(v@),
        }
    }
}

impl DeepView for FieldToken {
    type V = FieldTokenView;

    open spec fn deep_view(&self) -> FieldTokenView {
        self@
    }
}

/// Splits the field part at every `|` that is not escaped by a backslash;
/// the pieces keep their escape sequences.  A backslash binds to the
/// character after it, and a trailing lone backslash stands for itself.
pub open spec fn pipe_split(s: Seq<char>) -> Seq<Seq<char>>
    decreases s.len(),
{
    if s.len() == 0 {
        seq![Seq::<char>::empty()]
    } else if s[0] == '\\' && s.len() >= 2 {
        prepend_first(seq![s[0], s[1]], pipe_split(s.skip(2)))
    } else if s[0] == '|' {
        seq![Seq::<char>::empty()] + pipe_split(s.drop_first())
    } else {
        prepend_first(seq![s[0]], pipe_split(s.drop_first()))
    }
}

/// A pipe split always yields at least one piece.
proof fn lemma_pipe_split_len(s: Seq<char>)
    ensures
        pipe_split(s).len() >= 1,
    decreases s.len(),
{
    if s.len() == 0 {
    } else if s[0] == '\\' && s.len() >= 2 {
        lemma_pipe_split_len(s.skip(2));
    } else if s[0] == '|' {
        lemma_pipe_split_len(s.drop_first());
    } else {
        lemma_pipe_split_len(s.drop_first());
    }
}

/// Removes the escapes of a raw piece: `\|` yields `|`, `\\` yields `\`, a
/// backslash before any other character is dropped before it, and a trailing
/// lone backslash stands for itself.
pub open spec fn unescape(s: Seq<char>) -> Seq<char>
    decreases s.len(),
{
    if s.len() == 0 {
        s
    } else if s[0] == '\\' && s.len() >= 2 {
        seq![s[1]] + unescape(s.skip(2))
    } else {
        seq![s[0]] + unescape(s.drop_first())
    }
}

/// What one raw piece decodes to.  A piece opened by `^` must go on with
/// digits (a skip count that fits the machine); any other `^` piece is a
/// delta form this library does not accept, and decodes to `None`.
pub open spec fn classify(p: Seq<char>) -> Option<FieldTokenView> {
    if p.len() == 0 {
        Some(FieldTokenView::Unchanged)
    } else if p == seq!['#'] {
        Some(FieldTokenView::SetNull)
    } else if p == seq!['$'] {
        Some(FieldTokenView::SetEmpty)
    } else if p[0] == '^' {
        match parse_pos_spec(p.drop_first()) {
            Some(n) => Some(FieldTokenView::Skip(n as usize)),
            None => None,
        }
    } else {
        Some(FieldTokenView::Value(unescape(p)))
    }
}

/// What a whole field part decodes to: every piece classified, or `None` as
/// soon as one piece is unacceptable.
pub open spec fn decode_spec(s: Seq<char>) -> Option<Seq<FieldTokenView>> {
    let pieces = pipe_split(s);
    if forall|i: int| 0 <= i < pieces.len() ==> classify(#[trigger] pieces[i]) is Some {
        Some(Seq::new(pieces.len(), |i: int| classify(pieces[i]).unwrap()))
    } else {
        None
    }
}

/// Unescapes one raw piece.
fn unescape_exec(p: &Vec<char>) -> (r: Vec<char>)
    ensures
        r@ == unescape(p@),
{
    let n = p.len();
    let mut out: Vec<char> = Vec::new();
    let mut i: usize = 0;
    proof {
        assert(p@.skip(0) =~= p@);
        assert(Seq::<char>::empty() + unescape(p@) =~= unescape(p@));
    }
    while i < n
        invariant
            n == p@.len(),
            0 <= i <= n,
            unescape(p@) == out@ + unescape(p@.skip(i as int)),
        decreases n - i,
    {
        let c = p[i];
        proof {
            assert(p@.skip(i as int)[0] == p@[i as int]);
            assert(p@.skip(i as int).drop_first() =~= p@.skip(i + 1));
            if i + 2 <= n {
                assert(p@.skip(i as int).skip(2) =~= p@.skip(i + 2));
                assert(p@.skip(i as int)[1] == p@[i + 1]);
            }
        }
        if c == '\\' && i + 1 < n {
            out.push(p[i + 1]);
            i = i + 2;
        } else {
            out.push(c);
            i = i + 1;
        }
    }
    proof {
        assert(p@.skip(n as int) =~= Seq::<char>::empty());
        assert(out@ + Seq::<char>::empty() =~= out@);
    }
    out
}

/// Copies a slice of a character vector.
fn chars_subrange(v: &Vec<char>, from: usize, to: usize) -> (r: Vec<char>)
    requires
        from <= to <= v@.len(),
    ensures
        r@ == v@.subrange(from as int, to as int),
{
    let mut out: Vec<char> = Vec::new();
    let mut i: usize = from;
    proof {
        assert(out@ =~= v@.subrange(from as int, from as int));
    }
    while i < to
        invariant
            from <= i <= to <= v@.len(),
            out@ == v@.subrange(from as int, i as int),
        decreases to - i,
    {
        out.push(v[i]);
        proof {
            assert(out@ =~= v@.subrange(from as int, i + 1));
        }
        i = i + 1;
    }
    out
}

/// Classifies one raw piece, handed over as its characters.
fn classify_exec(p: &Vec<char>) -> (r: Option<FieldToken>)
    ensures
        r.deep_view() == classify(p@),
{
    let n = p.len();
    if n == 0 {
        return Some(FieldToken::Unchanged);
    }
    if n == 1 && p[0] == '#' {
        proof {
            assert(p@ =~= seq!['#']);
        }
        return Some(FieldToken::SetNull);
    }
    if n == 1 && p[0] == '$' {
        proof {
            assert(p@ =~= seq!['$']);
        }
        return Some(FieldToken::SetEmpty);
    }
    proof {
        if p@ == seq!['#'] {
            assert(p@.len() == 1 && p@[0] == '#');
        }
        if p@ == seq!['$'] {
            assert(p@.len() == 1 && p@[0] == '$');
        }
    }
    if p[0] == '^' {
        let rest_chars = chars_subrange(p, 1, n);
        let rest = string_from_chars(&rest_chars);
        proof {
            assert(rest@ =~= p@.drop_first());
        }
        match parse_usize(rest.as_str()) {
            Some(k) => {
                return Some(FieldToken::Skip(k));
            },
            None => {
                return None;
            },
        }
    }
    let unescaped = unescape_exec(p);
    Some(FieldToken::Value(string_from_chars(&unescaped)))
}

/// Decodes the field part of an update frame into its tokens.  The split
/// happens at unescaped `|` characters; empty pieces are unchanged fields,
/// `#` is a null, `$` an empty string, `^` and a count skips that many
/// fields, and any other piece is a literal value with its escapes resolved.
/// A `^` piece that does not carry a count (such as a delta form this
/// library does not speak) makes the whole part unacceptable.
pub fn decode_field_tokens(s: &str) -> (r: Option<Vec<FieldToken>>)
    ensures
        r is Some <==> decode_spec(s@) is Some,
        r is Some ==> r.unwrap().deep_view() == decode_spec(s@).unwrap(),
{
    let n: usize = s.unicode_len();
    let mut pieces_done: usize = 0;
    let mut out: Vec<FieldToken> = Vec::new();
    let mut cur: Vec<char> = Vec::new();
    let ghost pieces = pipe_split(s@);
    let mut i: usize = 0;
    proof {
        lemma_pipe_split_len(s@);
        assert(s@.skip(0) =~= s@);
        assert(prepend_first(Seq::<char>::empty(), pipe_split(s@)) =~~= pipe_split(s@));
        assert(out.deep_view() =~= Seq::<FieldTokenView>::empty());
    }
    while i < n
        invariant
            n == s@.len(),
            0 <= i <= n,
            pieces == pipe_split(s@),
            pieces_done <= i,
            pieces_done == out.deep_view().len(),
            pieces_done + 1 <= pieces.len(),
            // the whole split is: finished pieces, then the current piece
            // extended by what remains
            pieces =~= pieces.take(pieces_done as int) + prepend_first(
                cur@,
                pipe_split(s@.skip(i as int)),
            ),
            // every finished piece decoded into out
            forall|j: int|
                0 <= j < pieces_done ==> classify(#[trigger] pieces[j]) is Some,
            forall|j: int|
                0 <= j < pieces_done ==> out.deep_view()[j] == classify(
                    #[trigger] pieces[j],
                ).unwrap(),
        decreases n - i,
    {
        let c = s.get_char(i);
        proof {
            let suffix = s@.skip(i as int);
            assert(suffix[0] == s@[i as int]);
            assert(suffix.drop_first() =~= s@.skip(i + 1));
            if i + 2 <= n {
                assert(suffix.skip(2) =~= s@.skip(i + 2));
                assert(suffix[1] == s@[i + 1]);
            }
            lemma_pipe_split_len(s@.skip(i + 1));
            if i + 2 <= n {
                lemma_pipe_split_len(s@.skip(i + 2));
            }
        }
        if c == '\\' && i + 1 < n {
            let ghost cur0 = cur@;
            cur.push(c);
            cur.push(s.get_char(i + 1));
            proof {
                let tail = pipe_split(s@.skip(i + 2));
                assert(prepend_first(cur0, prepend_first(seq![s@[i as int], s@[i + 1]], tail))
                    =~~= prepend_first(cur0 + seq![s@[i as int], s@[i + 1]], tail));
                assert(cur@ =~= cur0 + seq![s@[i as int], s@[i + 1]]);
            }
            i = i + 2;
        } else if c == '|' {
            // the current piece is complete
            proof {
                let tail = pipe_split(s@.skip(i + 1));
                assert(pipe_split(s@.skip(i as int)) =~= seq![Seq::<char>::empty()] + tail);
                assert(prepend_first(cur@, seq![Seq::<char>::empty()] + tail) =~~= seq![cur@]
                    + tail);
                assert(pieces[pieces_done as int] == cur@);
            }
            let decoded = classify_exec(&cur);
            match decoded {
                Some(t) => {
                    let ghost out0 = out.deep_view();
                    out.push(t);
                    proof {
                        assert(out.deep_view() =~= out0.push(classify(cur@).unwrap()));
                    }
                },
                None => {
                    proof {
                        assert(classify(pieces[pieces_done as int]) is None);
                        assert(decode_spec(s@) is None);
                    }
                    return None;
                },
            }
            cur = Vec::new();
            pieces_done = pieces_done + 1;
            proof {
                let tail = pipe_split(s@.skip(i + 1));
                assert(prepend_first(Seq::<char>::empty(), tail) =~~= tail);
                assert(pieces.take(pieces_done as int) =~= pieces.take(pieces_done - 1).push(
                    pieces[pieces_done - 1],
                ));
                assert(pieces =~= pieces.take(pieces_done as int) + prepend_first(
                    cur@,
                    pipe_split(s@.skip(i + 1)),
                ));
            }
            i = i + 1;
        } else {
            let ghost cur0 = cur@;
            cur.push(c);
            proof {
                let tail = pipe_split(s@.skip(i + 1));
                assert(prepend_first(cur0, prepend_first(seq![s@[i as int]], tail))
                    =~~= prepend_first(cur0 + seq![s@[i as int]], tail));
                assert(cur@ =~= cur0 + seq![s@[i as int]]);
            }
            i = i + 1;
        }
    }
    // the last piece runs to the end of the part
    proof {
        assert(s@.skip(n as int) =~= Seq::<char>::empty());
        assert(pipe_split(Seq::<char>::empty()) =~= seq![Seq::<char>::empty()]);
        assert(prepend_first(cur@, seq![Seq::<char>::empty()]) =~~= seq![cur@]);
        assert(pieces_done + 1 == pieces.len());
        assert(pieces[pieces_done as int] == cur@);
    }
    let decoded = classify_exec(&cur);
    match decoded {
        Some(t) => {
            let ghost out0 = out.deep_view();
            out.push(t);
            proof {
                assert(out.deep_view() =~= out0.push(classify(cur@).unwrap()));
                let spec_out = Seq::new(pieces.len(), |j: int| classify(pieces[j]).unwrap());
                assert(out.deep_view() =~= spec_out);
            }
            Some(out)
        },
        None => {
            proof {
                assert(classify(pieces[pieces_done as int]) is None);
                assert(decode_spec(s@) is None);
            }
            None
        },
    }
}

} // verus!
