//! The wire format of the response body.
//!
//! A response body is serialized as a JSON object with exactly two string
//! fields, in this order: `{"message":"...","status":"..."}`. Quotation
//! marks and backslashes inside a field are escaped with a backslash;
//! every other character is carried through unchanged. [`parse_body`]
//! inverts the encoding and rejects anything that is not exactly an object
//! of these two fields.

use vstd::prelude::*;

use crate::response::FailureSignal;
use crate::response::ResponseBody;
use crate::response::spec_message_of;
use crate::response::spec_status_code;
use crate::response::spec_status_line;
use crate::response::translate;

verus! {

/// How a single character appears inside a JSON string field.
pub open spec fn escape_char(c: char) -> Seq<char> {
    if c == '"' || c == '\\' {
        seq!['\\', c]
    } else {
        seq![c]
    }
}

/// How a whole field appears inside a JSON string field.
pub open spec fn escape_seq(s: Seq<char>) -> Seq<char>
    decreases s.len(),
{
    if s.len() == 0 {
        Seq::empty()
    } else {
        escape_char(s[0]) + escape_seq(s.skip(1))
    }
}

/// The exact serialized form of a body with the given field values.
pub open spec fn spec_encode_body(message: Seq<char>, status: Seq<char>) -> Seq<char> {
    "{\"message\":\""@ + escape_seq(message) + "\",\"status\":\""@ + escape_seq(status) + "\"}"@
}

proof fn lemma_escape_push(s: Seq<char>, c: char)
    ensures
        escape_seq(s.push(c)) == escape_seq(s) + escape_char(c),
    decreases s.len(),
{
    if s.len() == 0 {
        assert(s.push(c).skip(1) =~= Seq::<char>::empty());
        assert(escape_seq(Seq::<char>::empty()) =~= Seq::<char>::empty());
        assert(s.push(c)[0] == c);
        assert(escape_seq(s.push(c)) =~= escape_seq(s) + escape_char(c));
    } else {
        assert(s.push(c).skip(1) =~= s.skip(1).push(c));
        lemma_escape_push(s.skip(1), c);
        assert(escape_seq(s.push(c)) =~= escape_seq(s) + escape_char(c));
    }
}

/// Reads one JSON string field from the front of `s`: the characters up to
/// and including the first unescaped closing quote. Yields the decoded field
/// and the number of characters consumed, or nothing when `s` is not a
/// well-formed remainder of a string field.
pub open spec fn scan_string(s: Seq<char>) -> Option<(Seq<char>, int)>
    decreases s.len(),
{
    if s.len() == 0 {
        None
    } else if s[0] == '"' {
        Some((Seq::empty(), 1))
    } else if s[0] == '\\' {
        if s.len() >= 2 && (s[1] == '"' || s[1] == '\\') {
            match scan_string(s.skip(2)) {
                Some(p) => Some((seq![s[1]] + p.0, p.1 + 2)),
                None => None,
            }
        } else {
            None
        }
    } else {
        match scan_string(s.skip(1)) {
            Some(p) => Some((seq![s[0]] + p.0, p.1 + 1)),
            None => None,
        }
    }
}

/// Whether `pat` occurs in `s` at position `i`.
pub open spec fn has_pat_at(s: Seq<char>, i: int, pat: Seq<char>) -> bool {
    i + pat.len() <= s.len() && s.subrange(i, i + pat.len()) == pat
}

/// The field values encoded in `s`, when `s` is exactly the serialized form
/// of one response body: the object must hold the two string fields
/// `message` and `status`, in that order, and nothing else.
pub open spec fn spec_parse_body(s: Seq<char>) -> Option<(Seq<char>, Seq<char>)> {
    let prefix = "{\"message\":\""@;
    let mid = ",\"status\":\""@;
    let end = "}"@;
    if has_pat_at(s, 0, prefix) {
        let s1 = s.skip(prefix.len() as int);
        match scan_string(s1) {
            Some(p1) => {
                if has_pat_at(s1, p1.1, mid) {
                    let s3 = s1.skip(p1.1 + mid.len());
                    match scan_string(s3) {
                        Some(p2) => {
                            if s3.skip(p2.1) == end {
                                Some((p1.0, p2.0))
                            } else {
                                None
                            }
                        },
                        None => None,
                    }
                } else {
                    None
                }
            },
            None => None,
        }
    } else {
        None
    }
}

proof fn lemma_scan_escaped(m: Seq<char>, tail: Seq<char>)
    ensures
        scan_string(escape_seq(m) + seq!['"'] + tail) == Some(
            (m, (escape_seq(m).len() + 1) as int),
        ),
    decreases m.len(),
{
    let s = escape_seq(m) + seq!['"'] + tail;
    if m.len() == 0 {
        assert(escape_seq(m) =~= Seq::<char>::empty());
        assert(s[0] == '"');
        assert(m =~= Seq::<char>::empty());
        assert(scan_string(s) == Some((m, (escape_seq(m).len() + 1) as int)));
    } else {
        let c = m[0];
        let rest = m.skip(1);
        lemma_scan_escaped(rest, tail);
        assert(seq![c] + rest =~= m);
        if c == '"' || c == '\\' {
            assert(s[0] == '\\');
            assert(s[1] == c);
            assert(s.skip(2) =~= escape_seq(rest) + seq!['"'] + tail);
            assert(escape_seq(m).len() == 2 + escape_seq(rest).len());
            assert(scan_string(s) == Some((m, (escape_seq(m).len() + 1) as int)));
        } else {
            assert(s[0] == c);
            assert(s.skip(1) =~= escape_seq(rest) + seq!['"'] + tail);
            assert(escape_seq(m).len() == 1 + escape_seq(rest).len());
            assert(scan_string(s) == Some((m, (escape_seq(m).len() + 1) as int)));
        }
    }
}

/// Law: serialization round-trips. Decoding the serialized form of any body
/// yields back exactly its two field values — no field is lost, added or
/// altered, whatever characters the fields hold.
pub proof fn lemma_body_round_trip(message: Seq<char>, status: Seq<char>)
    ensures
        spec_parse_body(spec_encode_body(message, status)) == Some((message, status)),
{
    reveal_strlit("{\"message\":\"");
    reveal_strlit("\",\"status\":\"");
    reveal_strlit(",\"status\":\"");
    reveal_strlit("\"}");
    reveal_strlit("}");
    let prefix = "{\"message\":\""@;
    let midf = "\",\"status\":\""@;
    let mid = ",\"status\":\""@;
    let endf = "\"}"@;
    let end = "}"@;
    assert(midf =~= seq!['"'] + mid);
    assert(endf =~= seq!['"'] + end);
    let em = escape_seq(message);
    let es = escape_seq(status);
    let s = spec_encode_body(message, status);
    assert(s.subrange(0, prefix.len() as int) =~= prefix);
    let s1 = s.skip(prefix.len() as int);
    let tail1 = mid + es + seq!['"'] + end;
    assert(s1 =~= em + seq!['"'] + tail1);
    lemma_scan_escaped(message, tail1);
    assert(scan_string(s1) == Some((message, (em.len() + 1) as int)));
    let p1_len: int = (em.len() + 1) as int;
    assert(s1.subrange(p1_len, p1_len + mid.len()) =~= mid);
    let s3 = s1.skip(p1_len + mid.len());
    assert(s3 =~= es + seq!['"'] + end);
    lemma_scan_escaped(status, end);
    assert(scan_string(s3) == Some((status, (es.len() + 1) as int)));
    assert(s3.skip((es.len() + 1) as int) =~= end);
}

/// Relies on String::push: appends the one character to the end of the string.
#[verifier::external_body]
fn push_char(s: &mut String, c: char)
    ensures
        final(s)@ == old(s)@ + seq![c],
{
    s.push(c);
}

/// Builds the escaped form of a field value.
fn escape_str(s: &str) -> (r: String)
    ensures
        r@ == escape_seq(s@),
{
    let n = s.unicode_len();
    let mut out = String::new();
    let mut i: usize = 0;
    while i < n
        invariant
            i <= n,
            n == s@.len(),
            out@ == escape_seq(s@.take(i as int)),
        decreases n - i,
    {
        let c = s.get_char(i);
        if c == '"' || c == '\\' {
            push_char(&mut out, '\\');
            push_char(&mut out, c);
        } else {
            push_char(&mut out, c);
        }
        proof {
            assert(s@.take(i + 1 as int) =~= s@.take(i as int).push(s@[i as int]));
            lemma_escape_push(s@.take(i as int), s@[i as int]);
            assert(out@ =~= escape_seq(s@.take(i + 1 as int)));
        }
        i = i + 1;
    }
    proof {
        assert(s@.take(n as int) =~= s@);
    }
    out
}

/// Whether `pat` occurs in `s` at character position `i`.
fn has_at(s: &str, i: usize, pat: &str) -> (b: bool)
    requires
        i <= s@.len(),
    ensures
        b == has_pat_at(s@, i as int, pat@),
{
    let n = s.unicode_len();
    let m = pat.unicode_len();
    if m > n - i {
        return false;
    }
    let mut j: usize = 0;
    while j < m
        invariant
            j <= m,
            i + m <= n,
            n == s@.len(),
            m == pat@.len(),
            forall|k: int| 0 <= k < j ==> s@[i + k] == pat@[k],
        decreases m - j,
    {
        if s.get_char(i + j) != pat.get_char(j) {
            proof {
                assert(s@.subrange(i as int, i + pat@.len())[j as int] == s@[i + j]);
            }
            return false;
        }
        j = j + 1;
    }
    proof {
        assert(s@.subrange(i as int, i + pat@.len()) =~= pat@);
    }
    true
}

/// One step of the invariant of [`scan_from`]: what the scan of the whole
/// remainder yields, given what has been decoded up to position `i`.
spec fn scan_mid(full: Seq<char>, start: int, i: int, acc: Seq<char>) -> bool {
    scan_string(full.skip(start)) == (match scan_string(full.skip(i)) {
        Some(p) => Some((acc + p.0, (i - start) + p.1)),
        None => None,
    })
}

/// Reads one JSON string field of `s` beginning at character position
/// `start`, as [`scan_string`] describes. Yields the decoded field and the
/// position just past its closing quote.
fn scan_from(s: &str, start: usize) -> (r: Option<(String, usize)>)
    requires
        start <= s@.len(),
    ensures
        r is Some <==> scan_string(s@.skip(start as int)) is Some,
        r is Some ==> {
            let p = scan_string(s@.skip(start as int))->0;
            (r->0).0@ == p.0 && (r->0).1 == start + p.1 && start < (r->0).1 && (r->0).1 <= s@.len()
        },
{
    let n = s.unicode_len();
    let mut i: usize = start;
    let mut out = String::new();
    proof {
        if scan_string(s@.skip(start as int)) is Some {
            let p = scan_string(s@.skip(start as int))->0;
            assert(Seq::<char>::empty() + p.0 =~= p.0);
        }
    }
    while i < n
        invariant
            start <= i <= n,
            n == s@.len(),
            scan_mid(s@, start as int, i as int, out@),
        decreases n - i,
    {
        let c = s.get_char(i);
        proof {
            assert(s@.skip(i as int)[0] == s@[i as int]);
        }
        if c == '"' {
            proof {
                assert(scan_string(s@.skip(i as int)) == Some((Seq::<char>::empty(), 1int)));
                assert(out@ + Seq::<char>::empty() =~= out@);
            }
            return Some((out, i + 1));
        }
        if c == '\\' {
            if i + 1 >= n {
                proof {
                    assert(s@.skip(i as int).len() < 2);
                }
                return None;
            }
            let c2 = s.get_char(i + 1);
            proof {
                assert(s@.skip(i as int)[1] == s@[i + 1]);
            }
            if c2 == '"' || c2 == '\\' {
                let ghost out0 = out@;
                push_char(&mut out, c2);
                proof {
                    assert(s@.skip(i as int).skip(2) =~= s@.skip(i + 2));
                    if scan_string(s@.skip(i + 2)) is Some {
                        let p = scan_string(s@.skip(i + 2))->0;
                        assert(out0 + (seq![s@[i + 1]] + p.0) =~= out@ + p.0);
                    }
                }
                i = i + 2;
            } else {
                return None;
            }
        } else {
            let ghost out0 = out@;
            push_char(&mut out, c);
            proof {
                assert(s@.skip(i as int).skip(1) =~= s@.skip(i + 1));
                if scan_string(s@.skip(i + 1)) is Some {
                    let p = scan_string(s@.skip(i + 1))->0;
                    assert(out0 + (seq![s@[i as int]] + p.0) =~= out@ + p.0);
                }
            }
            i = i + 1;
        }
    }
    proof {
        assert(s@.skip(i as int) =~= Seq::<char>::empty());
    }
    None
}

/// Decodes the JSON wire form of a response body, as [`spec_parse_body`]
/// describes: anything but an object of exactly the fields `message` and
/// `status`, in that order, is rejected.
pub fn parse_body(s: &str) -> (r: Option<ResponseBody>)
    ensures
        r is Some <==> spec_parse_body(s@) is Some,
        r is Some ==> (r->0).message@ == (spec_parse_body(s@)->0).0 && (r->0).status@ == (
        spec_parse_body(s@)->0).1,
{
    let n = s.unicode_len();
    let prefix = "{\"message\":\"";
    let mid = ",\"status\":\"";
    if !has_at(s, 0, prefix) {
        return None;
    }
    let plen = prefix.unicode_len();
    let ghost s1 = s@.skip(plen as int);
    let r1 = scan_from(s, plen);
    match r1 {
        None => None,
        Some((message, end1)) => {
            let ghost p1 = scan_string(s1)->0;
            let mlen = mid.unicode_len();
            let mid_ok = has_at(s, end1, mid);
            proof {
                if end1 + mid@.len() <= s@.len() {
                    assert(s1.subrange(p1.1, p1.1 + mid@.len()) =~= s@.subrange(
                        end1 as int,
                        end1 + mid@.len(),
                    ));
                }
                assert(has_pat_at(s1, p1.1, mid@) == has_pat_at(s@, end1 as int, mid@));
            }
            if !mid_ok {
                return None;
            }
            let ghost s3 = s1.skip(p1.1 + mid@.len());
            let r2 = scan_from(s, end1 + mlen);
            proof {
                assert(s3 =~= s@.skip(end1 + mlen));
            }
            match r2 {
                None => None,
                Some((status, end2)) => {
                    let ghost p2 = scan_string(s3)->0;
                    let closed = n - end2 == 1 && s.get_char(end2) == '}';
                    proof {
                        reveal_strlit("}");
                        assert(s3.skip(p2.1) =~= s@.skip(end2 as int));
                        if closed {
                            assert(s@.skip(end2 as int) =~= "}"@);
                        } else if n - end2 == 1 {
                            assert(s@.skip(end2 as int)[0] == s@[end2 as int]);
                            assert("}"@[0] == '}');
                            assert(s@.skip(end2 as int) != "}"@);
                        } else {
                            assert(s@.skip(end2 as int).len() != "}"@.len());
                            assert(s@.skip(end2 as int) != "}"@);
                        }
                    }
                    if closed {
                        Some(ResponseBody { message, status })
                    } else {
                        None
                    }
                },
            }
        },
    }
}

/// Maps a failure signal all the way to the wire: the HTTP status code, the
/// chosen message, and the serialized JSON body that the pipeline applies
/// verbatim to the outbound response.
pub fn translate_to_wire(signal: &FailureSignal) -> (r: (u16, String, String))
    ensures
        r.0 as int == spec_status_code(*signal),
        r.1@ == spec_message_of(*signal),
        r.2@ == spec_encode_body(
            spec_message_of(*signal),
            spec_status_line(spec_status_code(*signal)),
        ),
{
    let (code, body) = translate(signal);
    let json = body.to_json();
    (code, body.message, json)
}

impl ResponseBody {
    /// Serializes the body to its JSON wire form. Infallible for this fixed
    /// schema: both fields are plain strings.
    pub fn to_json(&self) -> (s: String)
        ensures
            s@ == spec_encode_body(self.message@, self.status@),
    {
        let mut out = String::from_str("{\"message\":\"");
        out.append(escape_str(self.message.as_str()).as_str());
        out.append("\",\"status\":\"");
        out.append(escape_str(self.status.as_str()).as_str());
        out.append("\"}");
        proof {
            assert(out@ =~= spec_encode_body(self.message@, self.status@));
        }
        out
    }
}

} // verus!
