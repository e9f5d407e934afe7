//! Incremental extraction of complete top-level JSON object texts from an
//! append-only text buffer fed by the solver's raw output lines.
use vstd::prelude::*;
use vstd::string::*;

use crate::json_value::{json_id, json_id_field};

verus! {

/// Index of the first `{` at or after `i`, if any.
pub open spec fn open_from(s: Seq<char>, i: int) -> Option<int>
    decreases s.len() - i,
{
    if i < 0 || i >= s.len() {
        None
    } else if s[i] == '{' {
        Some(i)
    } else {
        open_from(s, i + 1)
    }
}

/// The brace-matching state machine, resumed at position `i` with nesting
/// `depth`, the in-string flag and the pending-escape flag: the index of the
/// `}` at which the depth returns to zero, if the text holds one.
pub open spec fn close_from(s: Seq<char>, i: int, depth: int, in_str: bool, esc: bool) -> Option<int>
    decreases s.len() - i,
{
    if i < 0 || i >= s.len() {
        None
    } else {
        let c = s[i];
        if esc {
            close_from(s, i + 1, depth, in_str, false)
        } else if c == '\\' {
            close_from(s, i + 1, depth, in_str, true)
        } else if c == '"' {
            close_from(s, i + 1, depth, !in_str, false)
        } else if in_str {
            close_from(s, i + 1, depth, in_str, false)
        } else if c == '{' {
            close_from(s, i + 1, depth + 1, in_str, false)
        } else if c == '}' {
            if depth - 1 == 0 {
                Some(i)
            } else {
                close_from(s, i + 1, depth - 1, in_str, false)
            }
        } else {
            close_from(s, i + 1, depth, in_str, false)
        }
    }
}

/// Bounds `(start, end)`, both inclusive, of the first complete top-level
/// object in `s`: scanning starts at the first `{`.
pub open spec fn object_bounds(s: Seq<char>) -> Option<(int, int)> {
    match open_from(s, 0) {
        None => None,
        Some(a) => match close_from(s, a, 0, false, false) {
            None => None,
            Some(b) => Some((a, b)),
        },
    }
}

/// What framing once does to buffer `s`: the object text it extracts, if any,
/// and what the buffer holds afterwards.
pub open spec fn frame(s: Seq<char>) -> (Option<Seq<char>>, Seq<char>) {
    match object_bounds(s) {
        None => (None, s),
        Some((a, b)) => (Some(s.subrange(a, b + 1)), s.subrange(b + 1, s.len() as int)),
    }
}

proof fn lemma_open_from_bounds(s: Seq<char>, i: int)
    ensures
        open_from(s, i) matches Some(a) ==> 0 <= i <= a < s.len() && s[a] == '{',
    decreases s.len() - i,
{
    if 0 <= i < s.len() && s[i] != '{' {
        lemma_open_from_bounds(s, i + 1);
    }
}

proof fn lemma_close_from_bounds(s: Seq<char>, i: int, depth: int, in_str: bool, esc: bool)
    ensures
        close_from(s, i, depth, in_str, esc) matches Some(b) ==> 0 <= i <= b < s.len(),
    decreases s.len() - i,
{
    if 0 <= i < s.len() {
        lemma_close_from_bounds(s, i + 1, depth, in_str, false);
        lemma_close_from_bounds(s, i + 1, depth, in_str, true);
        lemma_close_from_bounds(s, i + 1, depth, !in_str, false);
        lemma_close_from_bounds(s, i + 1, depth + 1, in_str, false);
        lemma_close_from_bounds(s, i + 1, depth - 1, in_str, false);
    }
}

proof fn lemma_object_bounds(s: Seq<char>)
    ensures
        object_bounds(s) matches Some((a, b)) ==> 0 <= a <= b < s.len(),
{
    lemma_open_from_bounds(s, 0);
    if let Some(a) = open_from(s, 0) {
        lemma_close_from_bounds(s, a, 0, false, false);
    }
}

/// The characters of `s`, in order.
fn chars_of(s: &str) -> (r: Vec<char>)
    ensures
        r@ == s@,
{
    broadcast use vstd::string::group_string_axioms;
    let mut v: Vec<char> = Vec::new();
    for c in it: s.chars()
        invariant
            v@ == it.seq().take(it.index() as int),
    {
        v.push(c);
    }
    assert(v@ =~= s@);
    v
}

/// Extracts the next complete top-level JSON object text from `buffer` and
/// removes it, with everything before it, from the buffer. When the buffer
/// holds no `{`, or the object is not complete yet, nothing is extracted and
/// the buffer is left as it was.
pub fn next_object(buffer: &mut String) -> (r: Option<String>)
    ensures
        ({
            let (obj, rest) = frame(old(buffer)@);
            &&& r matches Some(t) ==> obj == Some(t@)
            &&& r is None ==> obj is None
            &&& final(buffer)@ == rest
        }),
{
    let ghost s = buffer@;
    let cs = chars_of(buffer.as_str());
    let n = cs.len();
    let mut start: usize = 0;
    while start < n
        invariant
            s == buffer@,
            cs@ == s,
            n == s.len(),
            start <= n,
            open_from(s, 0) == open_from(s, start as int),
        ensures
            start < n ==> s[start as int] == '{',
        decreases n - start,
    {
        if cs[start] == '{' {
            break;
        }
        start = start + 1;
    }
    if start == n {
        return None;
    }
    proof {
        lemma_open_from_bounds(s, start as int);
    }
    let mut i: usize = start;
    let mut depth: usize = 0;
    let mut in_str = false;
    let mut esc = false;
    let mut end: usize = n;
    while i < n
        invariant_except_break
            end == n,
            depth <= i - start,
            i == start ==> depth == 0 && !in_str && !esc,
            i > start ==> depth >= 1,
            close_from(s, start as int, 0, false, false) == close_from(s, i as int, depth as int, in_str, esc),
        invariant
            s == buffer@,
            cs@ == s,
            n == s.len(),
            start < n,
            s[start as int] == '{',
            open_from(s, 0) == Some(start as int),
            start <= i <= n,
        ensures
            end <= n,
            end == n ==> close_from(s, start as int, 0, false, false) is None,
            end < n ==> close_from(s, start as int, 0, false, false) == Some(end as int),
        decreases n - i,
    {
        let c = cs[i];
        if esc {
            esc = false;
        } else if c == '\\' {
            esc = true;
        } else if c == '"' {
            in_str = !in_str;
        } else if in_str {
        } else if c == '{' {
            depth = depth + 1;
        } else if c == '}' {
            depth = depth - 1;
            if depth == 0 {
                end = i;
                break;
            }
        }
        i = i + 1;
    }
    if end == n {
        return None;
    }
    proof {
        lemma_close_from_bounds(s, start as int, 0, false, false);
    }
    let obj = buffer.as_str().substring_char(start, end + 1);
    let obj = String::from_str(obj);
    let rest = buffer.as_str().substring_char(end + 1, n);
    let rest = String::from_str(rest);
    *buffer = rest;
    Some(obj)
}

} // verus!

verus! {

/// How a framed object text is treated, given what parsing it gave for its
/// `id` member (see `json_id_field`).
#[derive(Clone, Copy, Debug, PartialEq, Eq, Structural)]
pub enum Disposition {
    /// Not JSON: the segment is dropped and nothing is reported.
    Malformed,
    /// The startup handshake (`id` equal to 0): dropped, framing goes on.
    Handshake,
    /// A message for the caller.
    Message,
}

pub open spec fn disposition_of(parsed: Option<Option<u64>>) -> Disposition {
    match parsed {
        None => Disposition::Malformed,
        Some(id) => if id == Some(0u64) {
            Disposition::Handshake
        } else {
            Disposition::Message
        },
    }
}

/// Decides what becomes of a framed object text from the result of parsing
/// its `id` member.
pub fn classify(parsed: Option<Option<u64>>) -> (r: Disposition)
    ensures
        r == disposition_of(parsed),
{
    match parsed {
        None => Disposition::Malformed,
        Some(Some(0)) => Disposition::Handshake,
        Some(_) => Disposition::Message,
    }
}

/// What extraction does to buffer `s`: frame an object; drop it and report
/// nothing if it is not JSON; skip it and go on with the rest if it is the
/// handshake; deliver it otherwise.
pub open spec fn extract(s: Seq<char>) -> (Option<Seq<char>>, Seq<char>)
    decreases s.len(),
{
    match object_bounds(s) {
        None => (None, s),
        Some((a, b)) => {
            let obj = s.subrange(a, b + 1);
            let rest = s.subrange(b + 1, s.len() as int);
            if 0 <= a <= b < s.len() {
                match disposition_of(json_id_field(obj)) {
                    Disposition::Malformed => (None, rest),
                    Disposition::Handshake => extract(rest),
                    Disposition::Message => (Some(obj), rest),
                }
            } else {
                (None, s)
            }
        },
    }
}

/// Extracts the next complete JSON object text for the caller from `buffer`,
/// skipping handshake objects and dropping a malformed one.
pub fn extract_json(buffer: &mut String) -> (r: Option<String>)
    ensures
        ({
            let (obj, rest) = extract(old(buffer)@);
            &&& r matches Some(t) ==> obj == Some(t@)
            &&& r is None ==> obj is None
            &&& final(buffer)@ == rest
        }),
{
    loop
        invariant
            extract(buffer@) == extract(old(buffer)@),
        decreases buffer@.len(),
    {
        let ghost s = buffer@;
        proof {
            lemma_object_bounds(s);
        }
        match next_object(buffer) {
            None => {
                assert(extract(s) == frame(s));
                return None;
            },
            Some(t) => {
                let ghost (a, b) = object_bounds(s)->Some_0;
                assert(t@ == s.subrange(a, b + 1));
                let parsed = json_id(t.as_str());
                match classify(parsed) {
                    Disposition::Malformed => {
                        assert(extract(s) == (None::<Seq<char>>, buffer@));
                        return None;
                    },
                    Disposition::Handshake => {
                        assert(extract(s) == extract(buffer@));
                    },
                    Disposition::Message => {
                        assert(extract(s) == (Some(t@), buffer@));
                        return Some(t);
                    },
                }
            },
        }
    }
}

} // verus!

verus! {

/// The scan of a text agrees with the scan of any longer text that it starts:
/// an object closed in the shorter text is closed at the same place in the
/// longer one, and one closed in the longer text past the end of the shorter
/// one is not closed in the shorter one.
proof fn lemma_close_from_prefix(s: Seq<char>, u: Seq<char>, i: int, depth: int, in_str: bool, esc: bool)
    requires
        0 <= i,
        s.len() <= u.len(),
        s == u.subrange(0, s.len() as int),
    ensures
        close_from(s, i, depth, in_str, esc) matches Some(k) ==> close_from(u, i, depth, in_str, esc) == Some(k),
        close_from(u, i, depth, in_str, esc) matches Some(k) ==> (k < s.len() ==> close_from(s, i, depth, in_str, esc) == Some(k)),
        close_from(u, i, depth, in_str, esc) matches Some(k) ==> (k >= s.len() ==> close_from(s, i, depth, in_str, esc) is None),
    decreases s.len() - i,
{
    lemma_close_from_bounds(u, i, depth, in_str, esc);
    if i < s.len() {
        assert(s[i] == u[i]);
        lemma_close_from_prefix(s, u, i + 1, depth, in_str, false);
        lemma_close_from_prefix(s, u, i + 1, depth, in_str, true);
        lemma_close_from_prefix(s, u, i + 1, depth, !in_str, false);
        lemma_close_from_prefix(s, u, i + 1, depth + 1, in_str, false);
        lemma_close_from_prefix(s, u, i + 1, depth - 1, in_str, false);
    }
}

/// A complete object text: it starts with `{` and the brace-matching scan
/// from its first character returns to depth zero exactly at its last one.
pub open spec fn balanced_object(t: Seq<char>) -> bool {
    &&& t.len() > 0
    &&& t[0] == '{'
    &&& close_from(t, 0, 0, false, false) == Some(t.len() - 1)
}

/// Framing a complete object text `t` followed by any text `rest` extracts
/// exactly `t` and leaves exactly `rest`; while only a proper prefix of `t`
/// has arrived, framing extracts nothing and leaves the buffer as it is.
pub proof fn lemma_frame_complete_object(t: Seq<char>, rest: Seq<char>)
    requires
        balanced_object(t),
    ensures
        frame(t + rest) == (Some(t), rest),
        forall|m: int| 0 <= m < t.len() ==> #[trigger] frame(t.subrange(0, m)) == (None::<Seq<char>>, t.subrange(0, m)),
{
    let u = t + rest;
    assert(t == u.subrange(0, t.len() as int));
    lemma_close_from_prefix(t, u, 0, 0, false, false);
    assert(open_from(u, 0) == Some(0int));
    assert(u.subrange(0, t.len() as int) == t);
    assert(u.subrange(t.len() as int, u.len() as int) == rest);
    assert forall|m: int| 0 <= m < t.len() implies #[trigger] frame(t.subrange(0, m)) == (None::<Seq<char>>, t.subrange(0, m)) by {
        let p = t.subrange(0, m);
        assert(p == t.subrange(0, p.len() as int));
        lemma_close_from_prefix(p, t, 0, 0, false, false);
        if m > 0 {
            assert(open_from(p, 0) == Some(0int));
        }
    }
}

/// A complete object text `t` that parses as JSON with an `id` other than 0,
/// followed by any text `rest`, is delivered as it is by extraction, which
/// leaves exactly `rest`.
pub proof fn lemma_extract_complete_message(t: Seq<char>, rest: Seq<char>)
    requires
        balanced_object(t),
        disposition_of(json_id_field(t)) == Disposition::Message,
    ensures
        extract(t + rest) == (Some(t), rest),
{
    lemma_frame_complete_object(t, rest);
    lemma_object_bounds(t + rest);
}

/// Extraction never delivers the handshake, nor a text that is not JSON:
/// whatever the buffer holds, a delivered text parses, and its `id` is not 0.
pub proof fn lemma_handshake_never_delivered(s: Seq<char>)
    ensures
        extract(s).0 matches Some(t) ==> json_id_field(t) is Some && json_id_field(t) != Some(Some(0u64)),
    decreases s.len(),
{
    lemma_object_bounds(s);
    if let Some((a, b)) = object_bounds(s) {
        let rest = s.subrange(b + 1, s.len() as int);
        lemma_handshake_never_delivered(rest);
    }
}

} // verus!

verus! {

proof fn lemma_extract_shrinks(s: Seq<char>)
    ensures
        extract(s).1.len() <= s.len(),
        extract(s).0 is Some ==> extract(s).1.len() < s.len(),
    decreases s.len(),
{
    lemma_object_bounds(s);
    if let Some((a, b)) = object_bounds(s) {
        lemma_extract_shrinks(s.subrange(b + 1, s.len() as int));
    }
}

/// Extraction repeated until it reports nothing: the object texts delivered,
/// in order, and what the buffer holds afterwards.
pub open spec fn drain(s: Seq<char>) -> (Seq<Seq<char>>, Seq<char>)
    decreases s.len(),
{
    let (obj, rest) = extract(s);
    match obj {
        None => (Seq::empty(), rest),
        Some(t) => if rest.len() < s.len() {
            let (more, last) = drain(rest);
            (seq![t] + more, last)
        } else {
            (Seq::empty(), rest)
        },
    }
}

/// Handles one raw output line: appends it and a newline to `buffer`, then
/// extracts objects for the caller until no more can be had, and returns them
/// in order.
pub fn feed_line(buffer: &mut String, line: &str) -> (r: Vec<String>)
    ensures
        ({
            let (objs, rest) = drain(old(buffer)@ + line@ + "\n"@);
            &&& r@.len() == objs.len()
            &&& forall|k: int| 0 <= k < objs.len() ==> (#[trigger] r@[k])@ == objs[k]
            &&& final(buffer)@ == rest
        }),
{
    buffer.append(line);
    buffer.append("\n");
    let ghost total = buffer@;
    let mut out: Vec<String> = Vec::new();
    loop
        invariant
            total == old(buffer)@ + line@ + "\n"@,
            drain(total).0.len() == out@.len() + drain(buffer@).0.len(),
            forall|k: int| 0 <= k < out@.len() ==> (#[trigger] out@[k])@ == drain(total).0[k],
            forall|k: int| 0 <= k < drain(buffer@).0.len() ==> drain(total).0[out@.len() + k] == #[trigger] drain(buffer@).0[k],
            drain(total).1 == drain(buffer@).1,
        decreases buffer@.len(),
    {
        let ghost s = buffer@;
        proof {
            lemma_extract_shrinks(s);
        }
        match extract_json(buffer) {
            None => {
                return out;
            },
            Some(t) => {
                proof {
                    let (more, last) = drain(buffer@);
                    assert(drain(s) == (seq![t@] + more, last));
                    assert(drain(s).0[0] == t@);
                    assert forall|k: int| 0 <= k < drain(buffer@).0.len() implies drain(total).0[out@.len() + 1 + k] == #[trigger] drain(buffer@).0[k] by {
                        assert(drain(s).0[k + 1] == drain(buffer@).0[k]);
                    }
                }
                out.push(t);
            },
        }
    }
}

/// Whatever the stream holds and wherever the handshake stands in it, none
/// of the texts that a line hands on is the handshake or fails to parse.
pub proof fn lemma_drain_never_delivers_handshake(s: Seq<char>)
    ensures
        forall|k: int| 0 <= k < drain(s).0.len() ==> json_id_field(#[trigger] drain(s).0[k]) is Some
            && json_id_field(drain(s).0[k]) != Some(Some(0u64)),
    decreases s.len(),
{
    lemma_handshake_never_delivered(s);
    lemma_extract_shrinks(s);
    let (obj, rest) = extract(s);
    if obj is Some && rest.len() < s.len() {
        lemma_drain_never_delivers_handshake(rest);
        assert forall|k: int| 0 <= k < drain(s).0.len() implies json_id_field(#[trigger] drain(s).0[k]) is Some
            && json_id_field(drain(s).0[k]) != Some(Some(0u64)) by {
            if k > 0 {
                assert(drain(s).0[k] == drain(rest).0[k - 1]);
            }
        }
    }
}

} // verus!
