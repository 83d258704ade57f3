use crate::chars::{DOT, DIGIT_0, DIGIT_9, HYPHEN, LOWER_A, LOWER_Z, UPPER_A, UPPER_Z};
use crate::error::RDNSError;
use vstd::prelude::*;

verus! {

// ---------------------------------------------------------------------------
// Character classes of RFC 1035 names
// ---------------------------------------------------------------------------

pub open spec fn spec_is_letter(c: u8) -> bool {
    (LOWER_A <= c && c <= LOWER_Z) || (UPPER_A <= c && c <= UPPER_Z)
}

pub open spec fn spec_is_digit(c: u8) -> bool {
    DIGIT_0 <= c && c <= DIGIT_9
}

pub open spec fn spec_is_hyphen(c: u8) -> bool {
    c == HYPHEN
}

/// Letter, digit or hyphen: the characters allowed after the first one of a
/// label.
pub open spec fn spec_is_ldh(c: u8) -> bool {
    spec_is_letter(c) || spec_is_digit(c) || spec_is_hyphen(c)
}

/// The position right after the run of letter/digit/hyphen bytes that starts
/// at `i`.
pub open spec fn ldh_run_end(s: Seq<u8>, i: int) -> int
    decreases s.len() - i,
{
    if i >= s.len() {
        i
    } else if spec_is_ldh(s[i]) {
        ldh_run_end(s, i + 1)
    } else {
        i
    }
}

proof fn lemma_ldh_run_end_lb(s: Seq<u8>, i: int)
    ensures
        ldh_run_end(s, i) >= i,
    decreases s.len() - i,
{
    if i < s.len() && spec_is_ldh(s[i]) {
        lemma_ldh_run_end_lb(s, i + 1);
    }
}

proof fn lemma_ldh_run_end_props(s: Seq<u8>, i: int)
    requires
        0 <= i <= s.len(),
    ensures
        i <= ldh_run_end(s, i) <= s.len(),
        forall|k: int| i <= k < ldh_run_end(s, i) ==> spec_is_ldh(s[k]),
        ldh_run_end(s, i) < s.len() ==> !spec_is_ldh(s[ldh_run_end(s, i)]),
    decreases s.len() - i,
{
    if i < s.len() && spec_is_ldh(s[i]) {
        lemma_ldh_run_end_props(s, i + 1);
    }
}

/// A well-formed label: 1 to 63 bytes, starting with a letter, containing
/// only letters, digits and hyphens, and not ending in a hyphen.
pub open spec fn spec_valid_label(l: Seq<u8>) -> bool {
    &&& 1 <= l.len() <= 63
    &&& spec_is_letter(l[0])
    &&& forall|k: int| 0 <= k < l.len() ==> spec_is_ldh(l[k])
    &&& !spec_is_hyphen(l[l.len() - 1])
}

// ---------------------------------------------------------------------------
// The grammar of presentation names, as a mathematical parser
// ---------------------------------------------------------------------------

/// What parsing a presentation name yields: the wire-form bytes together with
/// the position right after the consumed text, or the error.
pub enum NameOutcome {
    Accept { wire: Seq<u8>, used: int },
    Reject { err: RDNSError },
}

/// One label starting at `i`: its length-prefixed wire chunk and the position
/// after it.  Error offsets are absolute positions in `s`.
pub open spec fn spec_parse_label(s: Seq<u8>, i: int) -> NameOutcome {
    if i >= s.len() || !spec_is_letter(s[i]) {
        NameOutcome::Reject { err: RDNSError::NameLabelInvalid(i as usize) }
    } else {
        let end = ldh_run_end(s, i);
        if spec_is_hyphen(s[end - 1]) {
            NameOutcome::Reject { err: RDNSError::NameLabelInvalid((end - 1) as usize) }
        } else if end - i > 63 {
            NameOutcome::Reject { err: RDNSError::NameLabelTooLong((end - i) as usize) }
        } else {
            NameOutcome::Accept { wire: seq![(end - i) as u8] + s.subrange(i, end), used: end }
        }
    }
}

/// One or more dot-separated labels starting at `i`.  Parsing stops at the end
/// of the input, at a byte in `stops`, or after a trailing dot followed by
/// nothing or a stop byte, which appends the terminating empty label.
pub open spec fn spec_parse_subdomain(s: Seq<u8>, i: int, stops: Seq<u8>) -> NameOutcome
    decreases s.len() - i,
        via spec_parse_subdomain_dec
{
    match spec_parse_label(s, i) {
        NameOutcome::Reject { err } => NameOutcome::Reject { err },
        NameOutcome::Accept { wire, used } => {
            if used >= s.len() {
                NameOutcome::Accept { wire, used }
            } else if s[used] == DOT {
                if used + 1 >= s.len() || stops.contains(s[used + 1]) {
                    NameOutcome::Accept { wire: wire.push(0u8), used: used + 1 }
                } else {
                    match spec_parse_subdomain(s, used + 1, stops) {
                        NameOutcome::Reject { err } => NameOutcome::Reject { err },
                        NameOutcome::Accept { wire: rest, used: fin } => (NameOutcome::Accept {
                            wire: wire + rest,
                            used: fin,
                        }),
                    }
                }
            } else if stops.contains(s[used]) {
                NameOutcome::Accept { wire, used }
            } else {
                NameOutcome::Reject { err: RDNSError::NameLabelInvalid(used as usize) }
            }
        },
    }
}

#[via_fn]
proof fn spec_parse_subdomain_dec(s: Seq<u8>, i: int, stops: Seq<u8>) {
    lemma_ldh_run_end_lb(s, i);
}

/// A whole presentation name starting at `start`: a single leading dot is the
/// root name and consumes nothing; otherwise the labels are parsed and the
/// result must fit in 255 bytes.
pub open spec fn spec_parse_name(s: Seq<u8>, start: int, stops: Seq<u8>) -> NameOutcome {
    if start >= s.len() {
        NameOutcome::Reject { err: RDNSError::NameInvalid }
    } else if s[start] == DOT {
        NameOutcome::Accept { wire: seq![0u8], used: start }
    } else {
        match spec_parse_subdomain(s, start, stops) {
            NameOutcome::Reject { err } => NameOutcome::Reject { err },
            NameOutcome::Accept { wire, used } => {
                if wire.len() > 255 {
                    NameOutcome::Reject { err: RDNSError::NameTooLong(wire.len() as usize) }
                } else {
                    NameOutcome::Accept { wire, used }
                }
            },
        }
    }
}

/// A whole standalone presentation string: rejected outright when longer than
/// 255 bytes, otherwise parsed with no stop bytes.
pub open spec fn spec_parse_repr(s: Seq<u8>) -> NameOutcome {
    if s.len() > 255 {
        NameOutcome::Reject { err: RDNSError::NameTooLong(s.len() as usize) }
    } else {
        spec_parse_name(s, 0, Seq::empty())
    }
}

/// Rebase the positional payload of a name error so that it counts from the
/// start of the name rather than from the start of the surrounding input.
pub open spec fn name_err_rel(e: RDNSError, start: int) -> RDNSError {
    match e {
        RDNSError::NameLabelInvalid(p) => RDNSError::NameLabelInvalid((p - start) as usize),
        _ => e,
    }
}

// ---------------------------------------------------------------------------
// Wire form: well-formedness and decoding
// ---------------------------------------------------------------------------

/// The bytes of `w` from `i` on form a sequence of length-prefixed valid
/// labels, either running to the end (a relative name) or closed by a single
/// terminating zero byte (an absolute name).
pub open spec fn labels_wf_at(w: Seq<u8>, i: int) -> bool
    decreases w.len() - i,
{
    if i >= w.len() {
        true
    } else if w[i] == 0 {
        i == w.len() - 1
    } else {
        let l = w[i] as int;
        &&& 1 <= l <= 63
        &&& i + 1 + l <= w.len()
        &&& spec_valid_label(w.subrange(i + 1, i + 1 + l))
        &&& labels_wf_at(w, i + 1 + l)
    }
}

/// A well-formed wire name: non-empty, at most 255 bytes, made of valid
/// length-prefixed labels.  The root name is the single zero byte.
pub open spec fn wf_name(w: Seq<u8>) -> bool {
    &&& 1 <= w.len() <= 255
    &&& labels_wf_at(w, 0)
}

/// The presentation text of the wire bytes from `i` on: each label, with a
/// dot between labels and a trailing dot for the terminating empty label.
/// The root name decodes to ".".
pub open spec fn decode_at(w: Seq<u8>, i: int) -> Seq<u8>
    decreases w.len() - i,
{
    if i < 0 || i >= w.len() {
        Seq::empty()
    } else if w[i] == 0 {
        seq![DOT]
    } else {
        let l = w[i] as int;
        if i + 1 + l > w.len() {
            seq![DOT]
        } else {
            let label = w.subrange(i + 1, i + 1 + l);
            if i + 1 + l == w.len() {
                label
            } else if w[i + 1 + l] == 0 {
                label + seq![DOT]
            } else {
                label + seq![DOT] + decode_at(w, i + 1 + l)
            }
        }
    }
}

proof fn lemma_decode_at_suffix(w: Seq<u8>, i: int, j: int)
    requires
        0 <= i <= j <= w.len(),
    ensures
        decode_at(w, j) == decode_at(w.subrange(i, w.len() as int), j - i),
    decreases w.len() - j,
{
    let t = w.subrange(i, w.len() as int);
    if j >= w.len() {
        assert(decode_at(w, j) == Seq::<u8>::empty());
    } else if w[j] == 0 {
        assert(t[j - i] == 0);
    } else {
        let l = w[j] as int;
        assert(t[j - i] == w[j]);
        if j + 1 + l > w.len() {
        } else {
            assert(w.subrange(j + 1, j + 1 + l) =~= t.subrange(j - i + 1, j - i + 1 + l));
            if j + 1 + l == w.len() {
            } else if w[j + 1 + l] == 0 {
                assert(t[j - i + 1 + l] == 0);
            } else {
                lemma_decode_at_suffix(w, i, j + 1 + l);
            }
        }
    }
}

proof fn lemma_labels_wf_at_suffix(w: Seq<u8>, i: int, j: int)
    requires
        0 <= i <= j <= w.len(),
    ensures
        labels_wf_at(w, j) == labels_wf_at(w.subrange(i, w.len() as int), j - i),
    decreases w.len() - j,
{
    let t = w.subrange(i, w.len() as int);
    if j >= w.len() {
    } else if w[j] == 0 {
        assert(t[j - i] == 0);
    } else {
        let l = w[j] as int;
        assert(t[j - i] == w[j]);
        if 1 <= l <= 63 && j + 1 + l <= w.len() {
            assert(w.subrange(j + 1, j + 1 + l) =~= t.subrange(j - i + 1, j - i + 1 + l));
            lemma_labels_wf_at_suffix(w, i, j + 1 + l);
        }
    }
}

proof fn lemma_parse_label_props(s: Seq<u8>, i: int)
    requires
        0 <= i <= s.len() <= usize::MAX,
    ensures
        match spec_parse_label(s, i) {
            NameOutcome::Accept { wire, used } => {
                &&& i < used <= s.len()
                &&& wire.len() == used - i + 1
                &&& wire == seq![(used - i) as u8] + s.subrange(i, used)
                &&& 1 <= used - i <= 63
                &&& spec_valid_label(s.subrange(i, used))
            },
            NameOutcome::Reject { err } => {
                err matches RDNSError::NameLabelInvalid(p) ==> i <= p <= s.len()
            },
        },
{
    lemma_ldh_run_end_props(s, i);
    if i < s.len() && spec_is_letter(s[i]) {
        let end = ldh_run_end(s, i);
        assert(spec_is_ldh(s[i]));
        assert(end > i) by {
            if end == i {
                assert(!spec_is_ldh(s[i]));
            }
        }
        if !spec_is_hyphen(s[end - 1]) && end - i <= 63 {
            let label = s.subrange(i, end);
            assert(label[0] == s[i]);
            assert(label[label.len() - 1] == s[end - 1]);
            assert(forall|k: int| 0 <= k < label.len() ==> spec_is_ldh(#[trigger] label[k]));
        }
    }
}

proof fn lemma_subdomain_props(s: Seq<u8>, i: int, stops: Seq<u8>)
    requires
        0 <= i <= s.len() <= usize::MAX,
    ensures
        match spec_parse_subdomain(s, i, stops) {
            NameOutcome::Accept { wire, used } => {
                &&& i < used <= s.len()
                &&& wire.len() == used - i + 1
                &&& 2 <= wire.len()
                &&& 1 <= wire[0] <= 63
                &&& labels_wf_at(wire, 0)
                &&& decode_at(wire, 0) == s.subrange(i, used)
            },
            NameOutcome::Reject { err } => {
                err matches RDNSError::NameLabelInvalid(p) ==> i <= p <= s.len()
            },
        },
    decreases s.len() - i,
{
    lemma_parse_label_props(s, i);
    match spec_parse_label(s, i) {
        NameOutcome::Reject { err } => {},
        NameOutcome::Accept { wire: chunk, used: j } => {
            let l = j - i;
            let label = s.subrange(i, j);
            assert(chunk == seq![l as u8] + label);
            assert(chunk[0] == l as u8);
            assert(chunk.subrange(1, 1 + l) =~= label);
            if j >= s.len() || (s[j] != DOT && stops.contains(s[j])) {
                // the single label is the whole name, relative form
                assert(labels_wf_at(chunk, 1 + l)) by {
                    assert(1 + l >= chunk.len());
                }
                assert(labels_wf_at(chunk, 0));
                assert(decode_at(chunk, 0) == label);
            } else if s[j] == DOT {
                if j + 1 >= s.len() || stops.contains(s[j + 1]) {
                    // trailing dot: absolute form with terminating zero
                    let wire = chunk.push(0u8);
                    assert(wire[0] == l as u8);
                    assert(wire.subrange(1, 1 + l) =~= label);
                    assert(wire[1 + l] == 0);
                    assert(labels_wf_at(wire, 1 + l)) by {
                        assert(1 + l == wire.len() - 1);
                    }
                    assert(labels_wf_at(wire, 0));
                    assert(decode_at(wire, 0) == label + seq![DOT]);
                    assert(s.subrange(i, j + 1) =~= label + seq![DOT]) by {
                        assert(s[j] == DOT);
                    }
                } else {
                    lemma_subdomain_props(s, j + 1, stops);
                    match spec_parse_subdomain(s, j + 1, stops) {
                        NameOutcome::Reject { err } => {},
                        NameOutcome::Accept { wire: rest, used: fin } => {
                            let wire = chunk + rest;
                            assert(wire.len() == chunk.len() + rest.len());
                            assert(wire[0] == l as u8);
                            assert(wire.subrange(1, 1 + l) =~= label);
                            assert(wire.subrange(1 + l, wire.len() as int) =~= rest);
                            // well-formedness carries over from the tail
                            lemma_labels_wf_at_suffix(wire, 1 + l, 1 + l);
                            assert(labels_wf_at(wire, 1 + l) == labels_wf_at(rest, 0));
                            assert(labels_wf_at(wire, 0));
                            // the decoded text is label . rest-text
                            assert(wire[1 + l] == rest[0]);
                            assert(rest[0] != 0);
                            lemma_decode_at_suffix(wire, 1 + l, 1 + l);
                            assert(decode_at(wire, 1 + l) == decode_at(rest, 0));
                            assert(decode_at(wire, 0) == label + seq![DOT] + decode_at(rest, 0));
                            assert(s.subrange(i, fin) =~= label + seq![DOT] + s.subrange(j + 1, fin)) by {
                                assert(s[j] == DOT);
                            }
                        },
                    }
                }
            } else {
            }
        },
    }
}

/// Every wire name that `spec_parse_name` accepts is well formed.
pub proof fn lemma_name_accept_wf(s: Seq<u8>, start: int, stops: Seq<u8>)
    requires
        0 <= start <= s.len() <= usize::MAX,
    ensures
        match spec_parse_name(s, start, stops) {
            NameOutcome::Accept { wire, used } => {
                &&& wf_name(wire)
                &&& start <= used <= s.len()
            },
            NameOutcome::Reject { err } => {
                err matches RDNSError::NameLabelInvalid(p) ==> start <= p <= s.len()
            },
        },
{
    if start < s.len() && s[start] != DOT {
        lemma_subdomain_props(s, start, stops);
    }
}

/// Round trip: decoding the wire form that `spec_parse_name` produced yields
/// exactly the presentation text it consumed, for relative and absolute
/// names alike; the root name decodes to ".".
pub proof fn lemma_name_round_trip(s: Seq<u8>, start: int, stops: Seq<u8>)
    requires
        0 <= start <= s.len() <= usize::MAX,
        spec_parse_name(s, start, stops) matches NameOutcome::Accept { .. },
    ensures
        match spec_parse_name(s, start, stops) {
            NameOutcome::Accept { wire, used } => decode_at(wire, 0) == if s[start] == DOT {
                seq![DOT]
            } else {
                s.subrange(start, used)
            },
            NameOutcome::Reject { .. } => true,
        },
{
    if s[start] != DOT {
        lemma_subdomain_props(s, start, stops);
    }
}

proof fn lemma_subdomain_consumes_all(s: Seq<u8>, i: int)
    requires
        0 <= i <= s.len() <= usize::MAX,
        spec_parse_subdomain(s, i, Seq::empty()) matches NameOutcome::Accept { .. },
    ensures
        match spec_parse_subdomain(s, i, Seq::empty()) {
            NameOutcome::Accept { wire, used } => used == s.len(),
            NameOutcome::Reject { .. } => true,
        },
    decreases s.len() - i,
{
    match spec_parse_label(s, i) {
        NameOutcome::Reject { .. } => {},
        NameOutcome::Accept { wire: _, used: j } => {
            lemma_parse_label_props(s, i);
            if j < s.len() && s[j] == DOT && j + 1 < s.len() {
                lemma_subdomain_consumes_all(s, j + 1);
            }
        },
    }
}

/// Round trip for a standalone presentation string: every string that
/// `spec_parse_repr` accepts decodes back from its wire form to exactly the
/// original text, relative or absolute, with "." standing for the root name.
pub proof fn lemma_repr_round_trip(s: Seq<u8>)
    requires
        s.len() <= usize::MAX,
        spec_parse_repr(s) matches NameOutcome::Accept { .. },
    ensures
        match spec_parse_repr(s) {
            NameOutcome::Accept { wire, used } => decode_at(wire, 0) == if s[0] == DOT {
                seq![DOT]
            } else {
                s
            },
            NameOutcome::Reject { .. } => true,
        },
{
    lemma_name_round_trip(s, 0, Seq::empty());
    if s[0] != DOT {
        lemma_subdomain_consumes_all(s, 0);
        match spec_parse_name(s, 0, Seq::empty()) {
            NameOutcome::Accept { wire, used } => {
                assert(s.subrange(0, used) =~= s);
            },
            NameOutcome::Reject { .. } => {},
        }
    }
}

// ---------------------------------------------------------------------------
// The executable parser
// ---------------------------------------------------------------------------

/// Parses presentation names into wire form.
pub struct NameParser;

impl NameParser {
    pub(crate) fn is_letter(ch: u8) -> (r: bool)
        ensures
            r == spec_is_letter(ch),
    {
        (LOWER_A <= ch && ch <= LOWER_Z) || (UPPER_A <= ch && ch <= UPPER_Z)
    }

    pub(crate) fn is_digit(ch: u8) -> (r: bool)
        ensures
            r == spec_is_digit(ch),
    {
        DIGIT_0 <= ch && ch <= DIGIT_9
    }

    fn is_hyphen(ch: u8) -> (r: bool)
        ensures
            r == spec_is_hyphen(ch),
    {
        ch == HYPHEN
    }

    fn ldh_end(input: &Vec<u8>, i: usize) -> (r: usize)
        requires
            i <= input@.len(),
        ensures
            r == ldh_run_end(input@, i as int),
            i <= r <= input@.len(),
    {
        proof {
            lemma_ldh_run_end_props(input@, i as int);
        }
        let mut j = i;
        while j < input.len() && (NameParser::is_letter(input[j]) || NameParser::is_digit(
            input[j],
        ) || NameParser::is_hyphen(input[j]))
            invariant
                i <= j <= input@.len(),
                ldh_run_end(input@, i as int) == ldh_run_end(input@, j as int),
            decreases input@.len() - j,
        {
            proof {
                assert(ldh_run_end(input@, j as int) == ldh_run_end(input@, j + 1));
            }
            j = j + 1;
        }
        proof {
            assert(ldh_run_end(input@, j as int) == j);
        }
        j
    }

    fn parse_label(input: &Vec<u8>, i: usize) -> (r: Result<(Vec<u8>, usize), RDNSError>)
        requires
            i <= input@.len(),
        ensures
            ({
                let o = spec_parse_label(input@, i as int);
                match r {
                    Ok(p) => o == (NameOutcome::Accept { wire: p.0@, used: p.1 as int }) && i < p.1
                        <= input@.len(),
                    Err(e) => o == (NameOutcome::Reject { err: e }),
                }
            }),
    {
        proof {
            assert(input.len() == input@.len());
            lemma_parse_label_props(input@, i as int);
        }
        if i >= input.len() || !NameParser::is_letter(input[i]) {
            return Err(RDNSError::NameLabelInvalid(i));
        }
        let end = NameParser::ldh_end(input, i);
        proof {
            assert(ldh_run_end(input@, i as int) == ldh_run_end(input@, i + 1));
            lemma_ldh_run_end_lb(input@, i + 1);
            assert(end > i);
        }
        if NameParser::is_hyphen(input[end - 1]) {
            return Err(RDNSError::NameLabelInvalid(end - 1));
        }
        if end - i > 63 {
            return Err(RDNSError::NameLabelTooLong(end - i));
        }
        let mut w: Vec<u8> = Vec::new();
        w.push((end - i) as u8);
        let mut j = i;
        while j < end
            invariant
                i <= j <= end <= input@.len(),
                w@ == seq![(end - i) as u8] + input@.subrange(i as int, j as int),
            decreases end - j,
        {
            w.push(input[j]);
            proof {
                assert(input@.subrange(i as int, j + 1) =~= input@.subrange(i as int, j as int)
                    + seq![input@[j as int]]);
            }
            j = j + 1;
        }
        Ok((w, end))
    }

    fn byte_in(stops: &Vec<u8>, c: u8) -> (r: bool)
        ensures
            r == stops@.contains(c),
    {
        let mut k: usize = 0;
        while k < stops.len()
            invariant
                0 <= k <= stops@.len(),
                forall|t: int| 0 <= t < k ==> stops@[t] != c,
            decreases stops@.len() - k,
        {
            if stops[k] == c {
                return true;
            }
            k = k + 1;
        }
        false
    }

    fn parse_subdomain(input: &Vec<u8>, i: usize, stops: &Vec<u8>) -> (r: Result<
        (Vec<u8>, usize),
        RDNSError,
    >)
        requires
            i <= input@.len(),
        ensures
            ({
                let o = spec_parse_subdomain(input@, i as int, stops@);
                match r {
                    Ok(p) => o == (NameOutcome::Accept { wire: p.0@, used: p.1 as int }) && i < p.1
                        <= input@.len(),
                    Err(e) => o == (NameOutcome::Reject { err: e }),
                }
            }),
        decreases input@.len() - i,
    {
        let (mut w, j) = match NameParser::parse_label(input, i) {
            Ok(p) => p,
            Err(e) => {
                return Err(e);
            },
        };
        if j >= input.len() {
            return Ok((w, j));
        }
        if input[j] == DOT {
            let j2 = j + 1;
            if j2 >= input.len() || NameParser::byte_in(stops, input[j2]) {
                w.push(0u8);
                return Ok((w, j2));
            }
            match NameParser::parse_subdomain(input, j2, stops) {
                Err(e) => Err(e),
                Ok((mut rest, fin)) => {
                    w.append(&mut rest);
                    Ok((w, fin))
                },
            }
        } else if NameParser::byte_in(stops, input[j]) {
            Ok((w, j))
        } else {
            Err(RDNSError::NameLabelInvalid(j))
        }
    }

    fn shift_name_err(e: RDNSError, start: usize) -> (r: RDNSError)
        requires
            e matches RDNSError::NameLabelInvalid(p) ==> p >= start,
        ensures
            r == name_err_rel(e, start as int),
    {
        match e {
            RDNSError::NameLabelInvalid(p) => RDNSError::NameLabelInvalid(p - start),
            _ => e,
        }
    }

    /// Parse the presentation name that starts at `start` in `input`,
    /// stopping at any byte in `stop_chars`.  On success the wire bytes and
    /// the number of consumed bytes are returned; positional error payloads
    /// count from `start`.
    pub fn parse(input: &Vec<u8>, start: usize, stop_chars: &Vec<u8>) -> (r: Result<
        (Vec<u8>, usize),
        RDNSError,
    >)
        requires
            start <= input@.len(),
        ensures
            ({
                let o = spec_parse_name(input@, start as int, stop_chars@);
                match r {
                    Ok(p) => o == (NameOutcome::Accept { wire: p.0@, used: start + p.1 }) && p.1
                        <= input@.len() - start,
                    Err(e) => o matches NameOutcome::Reject { err } && e == name_err_rel(
                        err,
                        start as int,
                    ),
                }
            }),
    {
        proof {
            assert(input.len() == input@.len());
            lemma_name_accept_wf(input@, start as int, stop_chars@);
        }
        if start >= input.len() {
            return Err(RDNSError::NameInvalid);
        }
        if input[start] == DOT {
            let mut w: Vec<u8> = Vec::new();
            w.push(0u8);
            proof {
                assert(w@ =~= seq![0u8]);
            }
            return Ok((w, 0));
        }
        match NameParser::parse_subdomain(input, start, stop_chars) {
            Err(e) => Err(NameParser::shift_name_err(e, start)),
            Ok((w, end)) => {
                if w.len() > 255 {
                    Err(RDNSError::NameTooLong(w.len()))
                } else {
                    Ok((w, end - start))
                }
            },
        }
    }

    /// Parse a whole standalone presentation string into wire bytes.  A
    /// string longer than 255 bytes is rejected before parsing.
    pub fn parse_repr(repr: &Vec<u8>) -> (r: Result<Vec<u8>, RDNSError>)
        ensures
            ({
                let o = spec_parse_repr(repr@);
                match r {
                    Ok(w) => o matches NameOutcome::Accept { wire, .. } && wire == w@,
                    Err(e) => o matches NameOutcome::Reject { err } && e == err,
                }
            }),
    {
        if repr.len() > 255 {
            return Err(RDNSError::NameTooLong(repr.len()));
        }
        let stops: Vec<u8> = Vec::new();
        proof {
            assert(stops@ =~= Seq::<u8>::empty());
        }
        match NameParser::parse(repr, 0, &stops) {
            Ok((w, _)) => Ok(w),
            Err(e) => Err(e),
        }
    }
}

// ---------------------------------------------------------------------------
// The Name type
// ---------------------------------------------------------------------------

/// An owned, immutable domain name in wire form: each label preceded by its
/// one-byte length, with a terminating zero-length label when the name is
/// absolute.  The root name is the single zero byte.
#[derive(Debug)]
pub struct Name {
    bytes: Vec<u8>,
}

impl View for Name {
    type V = Seq<u8>;

    closed spec fn view(&self) -> Seq<u8> {
        self.bytes@
    }
}

impl Name {
    /// Every `Name` holds well-formed wire bytes.
    #[verifier::type_invariant]
    pub open spec fn inv(&self) -> bool {
        wf_name(self@)
    }

    /// The root name, a single zero byte.
    pub fn root() -> (r: Name)
        ensures
            r@ == seq![0u8],
            wf_name(r@),
    {
        let mut b: Vec<u8> = Vec::new();
        b.push(0u8);
        proof {
            assert(b@ =~= seq![0u8]);
        }
        Name { bytes: b }
    }

    /// Parse the presentation name that starts at `start` in `input`,
    /// stopping at any byte in `stop_chars`; returns the name and the number
    /// of consumed bytes.
    pub fn parse(input: &Vec<u8>, start: usize, stop_chars: &Vec<u8>) -> (r: Result<
        (Name, usize),
        RDNSError,
    >)
        requires
            start <= input@.len(),
        ensures
            ({
                let o = spec_parse_name(input@, start as int, stop_chars@);
                match r {
                    Ok(p) => o == (NameOutcome::Accept { wire: p.0@, used: start + p.1 }) && p.1
                        <= input@.len() - start && wf_name(p.0@),
                    Err(e) => o matches NameOutcome::Reject { err } && e == name_err_rel(
                        err,
                        start as int,
                    ),
                }
            }),
    {
        proof {
            assert(input.len() == input@.len());
            lemma_name_accept_wf(input@, start as int, stop_chars@);
        }
        match NameParser::parse(input, start, stop_chars) {
            Ok((w, used)) => Ok((Name { bytes: w }, used)),
            Err(e) => Err(e),
        }
    }

    /// Parse a whole standalone presentation string into a name.
    pub fn from_text(repr: &Vec<u8>) -> (r: Result<Name, RDNSError>)
        ensures
            ({
                let o = spec_parse_repr(repr@);
                match r {
                    Ok(n) => o matches NameOutcome::Accept { wire, .. } && wire == n@ && wf_name(
                        n@,
                    ),
                    Err(e) => o matches NameOutcome::Reject { err } && e == err,
                }
            }),
    {
        proof {
            assert(repr.len() == repr@.len());
            if repr@.len() <= 255 {
                lemma_name_accept_wf(repr@, 0, Seq::empty());
            }
        }
        match NameParser::parse_repr(repr) {
            Ok(w) => Ok(Name { bytes: w }),
            Err(e) => Err(e),
        }
    }

    /// The length of the wire form in bytes.
    pub fn len(&self) -> (r: usize)
        ensures
            r == self@.len(),
    {
        self.bytes.len()
    }

    /// Whether the name is relative, that is, its presentation form had no
    /// trailing dot and its wire form has no terminating empty label.
    pub fn is_relative(&self) -> (r: bool)
        ensures
            r == (self@[self@.len() - 1] != 0),
    {
        proof {
            use_type_invariant(self);
        }
        self.bytes[self.bytes.len() - 1] != 0
    }

    /// A copy of the raw wire bytes.
    pub fn raw(&self) -> (r: Vec<u8>)
        ensures
            r@ == self@,
    {
        let mut out: Vec<u8> = Vec::new();
        let mut k: usize = 0;
        while k < self.bytes.len()
            invariant
                0 <= k <= self.bytes@.len(),
                out@ == self.bytes@.subrange(0, k as int),
            decreases self.bytes@.len() - k,
        {
            out.push(self.bytes[k]);
            proof {
                assert(self.bytes@.subrange(0, k + 1) =~= self.bytes@.subrange(0, k as int)
                    + seq![self.bytes@[k as int]]);
            }
            k = k + 1;
        }
        proof {
            assert(out@ =~= self.bytes@);
        }
        out
    }

    /// The presentation text of the name: labels separated by dots, with a
    /// trailing dot when the name is absolute; the root name is ".".
    pub fn to_text(&self) -> (r: Vec<u8>)
        ensures
            r@ == decode_at(self@, 0),
    {
        decode_from(&self.bytes, 0)
    }
}

impl Clone for Name {
    fn clone(&self) -> (r: Self)
        ensures
            r@ == self@,
    {
        proof {
            use_type_invariant(self);
        }
        Name { bytes: self.raw() }
    }
}

fn decode_from(w: &Vec<u8>, i: usize) -> (r: Vec<u8>)
    requires
        i <= w@.len(),
    ensures
        r@ == decode_at(w@, i as int),
    decreases w@.len() - i,
{
    let mut out: Vec<u8> = Vec::new();
    if i >= w.len() {
        proof {
            assert(out@ =~= decode_at(w@, i as int));
        }
        return out;
    }
    let l = w[i] as usize;
    if l == 0 {
        out.push(DOT);
        proof {
            assert(out@ =~= seq![DOT]);
        }
        return out;
    }
    if l > w.len() - i - 1 {
        out.push(DOT);
        proof {
            assert(out@ =~= seq![DOT]);
        }
        return out;
    }
    let stop = i + 1 + l;
    let mut j = i + 1;
    while j < stop
        invariant
            i + 1 <= j <= stop <= w@.len(),
            stop == i + 1 + l,
            out@ == w@.subrange(i + 1, j as int),
        decreases stop - j,
    {
        out.push(w[j]);
        proof {
            assert(w@.subrange(i + 1, j + 1) =~= w@.subrange(i + 1, j as int) + seq![w@[j as int]]);
        }
        j = j + 1;
    }
    if stop == w.len() {
        return out;
    }
    if w[stop] == 0 {
        out.push(DOT);
        proof {
            assert(out@ =~= w@.subrange(i + 1, stop as int) + seq![DOT]);
        }
        return out;
    }
    out.push(DOT);
    let mut rest = decode_from(w, stop);
    out.append(&mut rest);
    proof {
        assert(out@ =~= w@.subrange(i + 1, stop as int) + seq![DOT] + decode_at(w@, stop as int));
    }
    out
}

} // verus!
