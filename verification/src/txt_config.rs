use crate::chars::{
    AT, DIGIT_0, DOLLAR, DOT, LPAREN, RPAREN, SEMICOLON, SPACE, TAB, UPPER_C, UPPER_D, UPPER_E,
    UPPER_G, UPPER_I, UPPER_L, UPPER_N, UPPER_O, UPPER_R, UPPER_U,
};
use crate::error::{name_issue, spec_name_issue, FormatIssue, LineCharPos, RDNSError};
use crate::name::{
    lemma_name_accept_wf, spec_is_digit, spec_is_letter, spec_parse_name, wf_name, Name,
    NameOutcome, NameParser,
};
use crate::record::{
    copy_bytes, AliasResourceData, CNameResourceData, NameServerResourceData, ResourceData,
    SOAResourceData, SpecResourceData, SpecSoaData,
};
use crate::{
    spec_rr_class_of_text, spec_rr_type_of_text, RRClass, RRType, ResourceRecord, SpecRecord,
};
use vstd::prelude::*;

verus! {

// ---------------------------------------------------------------------------
// The position-tracking cursor over the lines of one master file
// ---------------------------------------------------------------------------

/// The view of the cursor: all lines of the file, the index of the line that
/// would be pulled next, the current line with the read position in it, and
/// the 1-based line and column counters used in diagnostics.
pub struct RState {
    pub lines: Seq<Seq<u8>>,
    pub next: int,
    pub cur: Seq<u8>,
    pub pos: int,
    pub line: int,
    pub col: int,
}

/// The cursor is inside its line and its file, and every length fits the
/// machine.
pub open spec fn rstate_wf(r: RState) -> bool {
    &&& 0 <= r.pos <= r.cur.len() <= usize::MAX
    &&& 0 <= r.next <= r.lines.len() <= usize::MAX
    &&& forall|i: int| 0 <= i < r.lines.len() ==> (#[trigger] r.lines[i]).len() <= usize::MAX
    &&& 1 <= r.line <= usize::MAX
    &&& 1 <= r.col <= usize::MAX
}

/// A counter bumped by one, staying put at the machine limit.
pub open spec fn col_bump(c: int) -> int {
    if c >= usize::MAX {
        c
    } else {
        c + 1
    }
}

/// The cursor right after construction: sitting on the first line, or on an
/// empty line when the file has none.
pub open spec fn spec_reader_new(ls: Seq<Seq<u8>>) -> RState {
    if ls.len() > 0 {
        RState { lines: ls, next: 1, cur: ls[0], pos: 0, line: 1, col: 1 }
    } else {
        RState { lines: ls, next: 0, cur: Seq::empty(), pos: 0, line: 1, col: 1 }
    }
}

/// The byte under the cursor, if the current line still has one.
pub open spec fn spec_peek(r: RState) -> Option<u8> {
    if 0 <= r.pos < r.cur.len() {
        Some(r.cur[r.pos])
    } else {
        None
    }
}

/// Take the byte under the cursor; the column counter is bumped whether or
/// not a byte was left.
pub open spec fn spec_next_char(r: RState) -> (RState, Option<u8>) {
    let r2 = RState { col: col_bump(r.col), ..r };
    if 0 <= r.pos < r.cur.len() {
        (RState { pos: r.pos + 1, ..r2 }, Some(r.cur[r.pos]))
    } else {
        (r2, None)
    }
}

/// Pull the next line: reset the position and column, bump the line counter;
/// yields false, changing nothing, when no line is left.
pub open spec fn spec_next_line(r: RState) -> (RState, bool) {
    if 0 <= r.next < r.lines.len() {
        (
            RState {
                lines: r.lines,
                next: r.next + 1,
                cur: r.lines[r.next],
                pos: 0,
                line: col_bump(r.line),
                col: 1,
            },
            true,
        )
    } else {
        (r, false)
    }
}

/// The reportable position of the cursor.
pub open spec fn spec_position(r: RState) -> LineCharPos {
    LineCharPos { line: r.line as usize, column: r.col as usize }
}

/// Wraps the lines of one master file and exposes character-level peeking and
/// advancing together with a reportable (line, column) position.  A nested
/// file gets a fresh cursor of its own.
pub struct ParserReader {
    lines: Vec<Vec<u8>>,
    next_line_idx: usize,
    cur: Vec<u8>,
    pos: usize,
    line_num: usize,
    char_num: usize,
}

impl View for ParserReader {
    type V = RState;

    closed spec fn view(&self) -> RState {
        RState {
            lines: self.lines.deep_view(),
            next: self.next_line_idx as int,
            cur: self.cur@,
            pos: self.pos as int,
            line: self.line_num as int,
            col: self.char_num as int,
        }
    }
}

impl ParserReader {
    /// Open a cursor over the given lines, sitting on the first one.
    pub fn new(lines: Vec<Vec<u8>>) -> (r: ParserReader)
        ensures
            r@ == spec_reader_new(lines.deep_view()),
            rstate_wf(r@),
    {
        proof {
            let ls = lines.deep_view();
            assert forall|i: int| 0 <= i < ls.len() implies (#[trigger] ls[i]).len()
                <= usize::MAX by {
                assert(lines@[i].len() == lines@[i]@.len());
                assert(ls[i] =~= lines@[i]@);
            }
            assert(lines.len() == lines@.len());
        }
        if lines.len() > 0 {
            let cur = copy_bytes(&lines[0]);
            proof {
                assert(lines.deep_view()[0] =~= lines@[0]@);
                assert(cur.len() == cur@.len());
            }
            ParserReader { lines, next_line_idx: 1, cur, pos: 0, line_num: 1, char_num: 1 }
        } else {
            let cur: Vec<u8> = Vec::new();
            ParserReader { lines, next_line_idx: 0, cur, pos: 0, line_num: 1, char_num: 1 }
        }
    }

    /// The byte under the cursor, without advancing.
    pub fn peek_char(&self) -> (r: Option<u8>)
        requires
            rstate_wf(self@),
        ensures
            r == spec_peek(self@),
    {
        if self.pos < self.cur.len() {
            Some(self.cur[self.pos])
        } else {
            None
        }
    }

    /// Take the byte under the cursor and advance the column counter.
    pub fn next_char(&mut self) -> (r: Option<u8>)
        requires
            rstate_wf(old(self)@),
        ensures
            (final(self)@, r) == spec_next_char(old(self)@),
            rstate_wf(final(self)@),
    {
        if self.char_num < usize::MAX {
            self.char_num = self.char_num + 1;
        }
        if self.pos < self.cur.len() {
            let c = self.cur[self.pos];
            self.pos = self.pos + 1;
            Some(c)
        } else {
            None
        }
    }

    /// Pull the next line from the file; false when none is left.
    pub fn next_line(&mut self) -> (r: bool)
        requires
            rstate_wf(old(self)@),
        ensures
            (final(self)@, r) == spec_next_line(old(self)@),
            rstate_wf(final(self)@),
    {
        if self.next_line_idx < self.lines.len() {
            proof {
                assert(self.lines.deep_view()[self.next_line_idx as int] =~= self.lines@[self.next_line_idx as int]@);
                assert(self.lines@[self.next_line_idx as int].len() == self.lines@[self.next_line_idx as int]@.len());
            }
            self.cur = copy_bytes(&self.lines[self.next_line_idx]);
            self.next_line_idx = self.next_line_idx + 1;
            self.pos = 0;
            if self.line_num < usize::MAX {
                self.line_num = self.line_num + 1;
            }
            self.char_num = 1;
            true
        } else {
            false
        }
    }

    /// The current line of the cursor.
    pub fn borrow(&self) -> (r: &Vec<u8>)
        ensures
            r@ == self@.cur,
    {
        &self.cur
    }

    /// The position inside the current line.
    pub fn position_in_line(&self) -> (r: usize)
        ensures
            r == self@.pos,
    {
        self.pos
    }

    /// Move the cursor forward over `n` bytes of the current line without
    /// touching the column counter, the way name parsing consumes its text.
    pub fn skip(&mut self, n: usize)
        requires
            rstate_wf(old(self)@),
            old(self)@.pos + n <= old(self)@.cur.len(),
        ensures
            final(self)@ == (RState { pos: old(self)@.pos + n, ..old(self)@ }),
            rstate_wf(final(self)@),
    {
        proof {
            assert(self.cur.len() == self.cur@.len());
        }
        self.pos = self.pos + n;
    }

    /// The reportable (line, column) position of the cursor.
    pub fn current_position(&self) -> (r: LineCharPos)
        requires
            rstate_wf(self@),
        ensures
            r == spec_position(self@),
    {
        LineCharPos { line: self.line_num, column: self.char_num }
    }
}

// ---------------------------------------------------------------------------
// The zone parser's state
// ---------------------------------------------------------------------------

/// The view of the zone parser: the cursor plus the running state of one
/// parse — the current origin and owner name in wire form, the class pinned
/// for the file, and whether a multi-line block is open.
pub struct PState {
    pub r: RState,
    pub origin: Seq<u8>,
    pub name: Option<Seq<u8>>,
    pub class: RRClass<u16>,
    pub multiline: bool,
}

/// The cursor is well placed and every name held in the state is well formed.
pub open spec fn pstate_wf(p: PState) -> bool {
    &&& rstate_wf(p.r)
    &&& wf_name(p.origin)
    &&& (p.name matches Some(n) ==> wf_name(n))
}

/// The same parser state over a moved cursor.
pub open spec fn with_r(p: PState, r: RState) -> PState {
    PState { r, ..p }
}

/// The running state fields other than the cursor are untouched.
pub open spec fn same_ctl(p: PState, q: PState) -> bool {
    &&& q.origin == p.origin
    &&& q.name == p.name
    &&& q.class == p.class
    &&& q.multiline == p.multiline
}

/// The cursor stayed on the same line and only moved forward.
pub open spec fn same_line(p: PState, q: PState) -> bool {
    &&& q.r.lines == p.r.lines
    &&& q.r.next == p.r.next
    &&& q.r.cur == p.r.cur
    &&& p.r.pos <= q.r.pos
}

/// The cursor stayed inside the same file and never went backwards.
pub open spec fn frame_ok(p: PState, q: PState) -> bool {
    &&& q.r.lines == p.r.lines
    &&& p.r.next <= q.r.next
    &&& (q.r.next == p.r.next ==> q.r.cur == p.r.cur && p.r.pos <= q.r.pos)
}

/// The whitespace bytes that end a name inside a record.
pub open spec fn ws_stops() -> Seq<u8> {
    seq![SPACE, TAB]
}

// ---------------------------------------------------------------------------
// Token-level steps of the grammar, as functions on the parser state
// ---------------------------------------------------------------------------

/// Skip spaces and tabs; yields whether any byte was skipped.
pub open spec fn spec_chomp(p: PState) -> (PState, bool)
    decreases p.r.cur.len() - p.r.pos,
{
    match spec_peek(p.r) {
        Some(ch) => {
            if ch == SPACE || ch == TAB {
                let (r2, _) = spec_next_char(p.r);
                let (q, _) = spec_chomp(with_r(p, r2));
                (q, true)
            } else {
                (p, false)
            }
        },
        None => (p, false),
    }
}

proof fn lemma_chomp(p: PState)
    requires
        pstate_wf(p),
    ensures
        ({
            let q = spec_chomp(p).0;
            &&& pstate_wf(q)
            &&& same_line(p, q)
            &&& same_ctl(p, q)
        }),
    decreases p.r.cur.len() - p.r.pos,
{
    match spec_peek(p.r) {
        Some(ch) => {
            if ch == SPACE || ch == TAB {
                lemma_chomp(with_r(p, spec_next_char(p.r).0));
            }
        },
        None => {},
    }
}

/// Collect the run of letters under the cursor.
pub open spec fn spec_get_text(p: PState) -> (PState, Seq<u8>)
    decreases p.r.cur.len() - p.r.pos,
{
    match spec_peek(p.r) {
        Some(ch) => {
            if spec_is_letter(ch) {
                let (r2, _) = spec_next_char(p.r);
                let (q, rest) = spec_get_text(with_r(p, r2));
                (q, seq![ch] + rest)
            } else {
                (p, Seq::empty())
            }
        },
        None => (p, Seq::empty()),
    }
}

proof fn lemma_get_text(p: PState)
    requires
        pstate_wf(p),
    ensures
        ({
            let q = spec_get_text(p).0;
            &&& pstate_wf(q)
            &&& same_line(p, q)
            &&& same_ctl(p, q)
        }),
    decreases p.r.cur.len() - p.r.pos,
{
    match spec_peek(p.r) {
        Some(ch) => {
            if spec_is_letter(ch) {
                lemma_get_text(with_r(p, spec_next_char(p.r).0));
            }
        },
        None => {},
    }
}

/// Collect the run of decimal digits under the cursor.
pub open spec fn spec_take_digits(p: PState) -> (PState, Seq<u8>)
    decreases p.r.cur.len() - p.r.pos,
{
    match spec_peek(p.r) {
        Some(ch) => {
            if spec_is_digit(ch) {
                let (r2, _) = spec_next_char(p.r);
                let (q, rest) = spec_take_digits(with_r(p, r2));
                (q, seq![ch] + rest)
            } else {
                (p, Seq::empty())
            }
        },
        None => (p, Seq::empty()),
    }
}

proof fn lemma_take_digits(p: PState)
    requires
        pstate_wf(p),
    ensures
        ({
            let (q, ds) = spec_take_digits(p);
            &&& pstate_wf(q)
            &&& same_line(p, q)
            &&& same_ctl(p, q)
            &&& forall|i: int| 0 <= i < ds.len() ==> spec_is_digit(#[trigger] ds[i])
        }),
    decreases p.r.cur.len() - p.r.pos,
{
    match spec_peek(p.r) {
        Some(ch) => {
            if spec_is_digit(ch) {
                lemma_take_digits(with_r(p, spec_next_char(p.r).0));
            }
        },
        None => {},
    }
}

/// The numeric value of a run of decimal digit bytes.
pub open spec fn digits_val(ds: Seq<u8>) -> int
    decreases ds.len(),
{
    if ds.len() == 0 {
        0
    } else {
        digits_val(ds.drop_last()) * 10 + (ds.last() - DIGIT_0)
    }
}

proof fn lemma_digits_val_nonneg(ds: Seq<u8>)
    requires
        forall|i: int| 0 <= i < ds.len() ==> spec_is_digit(#[trigger] ds[i]),
    ensures
        digits_val(ds) >= 0,
    decreases ds.len(),
{
    if ds.len() > 0 {
        lemma_digits_val_nonneg(ds.drop_last());
    }
}

/// A maximal run of decimal digits read as a number: missing digits or a
/// value above `max` is a format error reported at the position after the
/// run.
pub open spec fn spec_parse_number(p: PState, max: int) -> (PState, Result<int, RDNSError>) {
    let (q, ds) = spec_take_digits(p);
    if ds.len() == 0 || digits_val(ds) > max {
        (
            q,
            Err(
                RDNSError::MasterFileFormatError(FormatIssue::InvalidNumber, spec_position(q.r)),
            ),
        )
    } else {
        (q, Ok(digits_val(ds)))
    }
}

proof fn lemma_parse_number(p: PState, max: int)
    requires
        pstate_wf(p),
    ensures
        ({
            let q = spec_parse_number(p, max).0;
            &&& pstate_wf(q)
            &&& same_line(p, q)
            &&& same_ctl(p, q)
        }),
{
    lemma_take_digits(p);
}

/// An optional TTL: a number is read exactly when a digit is under the
/// cursor.
pub open spec fn spec_try_parse_ttl(p: PState) -> (PState, Result<Option<int>, RDNSError>) {
    match spec_peek(p.r) {
        Some(ch) => {
            if spec_is_digit(ch) {
                let (q, v) = spec_parse_number(p, i32::MAX as int);
                match v {
                    Ok(n) => (q, Ok(Some(n))),
                    Err(e) => (q, Err(e)),
                }
            } else {
                (p, Ok(None))
            }
        },
        None => (p, Ok(None)),
    }
}

proof fn lemma_try_parse_ttl(p: PState)
    requires
        pstate_wf(p),
    ensures
        ({
            let q = spec_try_parse_ttl(p).0;
            &&& pstate_wf(q)
            &&& same_line(p, q)
            &&& same_ctl(p, q)
        }),
{
    lemma_parse_number(p, i32::MAX as int);
}

/// A domain name inside a record: a lone `@` denotes the current origin;
/// anything else is parsed by the name codec, stopping at whitespace.  A name
/// error becomes a format error at the current position.
pub open spec fn spec_parse_domain_name(p: PState) -> (PState, Result<Seq<u8>, RDNSError>) {
    if spec_peek(p.r) == Some(AT) {
        let (r2, _) = spec_next_char(p.r);
        (with_r(p, r2), Ok(p.origin))
    } else {
        match spec_parse_name(p.r.cur, p.r.pos, ws_stops()) {
            NameOutcome::Accept { wire, used } => (
                with_r(p, RState { pos: used, ..p.r }),
                Ok(wire),
            ),
            NameOutcome::Reject { err } => (
                p,
                Err(
                    RDNSError::MasterFileFormatError(
                        spec_name_issue(err),
                        spec_position(p.r),
                    ),
                ),
            ),
        }
    }
}

proof fn lemma_parse_domain_name(p: PState)
    requires
        pstate_wf(p),
    ensures
        ({
            let (q, v) = spec_parse_domain_name(p);
            &&& pstate_wf(q)
            &&& same_line(p, q)
            &&& same_ctl(p, q)
            &&& (v matches Ok(w) ==> wf_name(w))
        }),
{
    if spec_peek(p.r) == Some(AT) {
    } else {
        lemma_name_accept_wf(p.r.cur, p.r.pos, ws_stops());
    }
}

/// What one parsed entry of a master file is: a finished resource record, or
/// a request to parse another file (with the origin it must be parsed under)
/// whose records belong at this place in the result.
pub enum SpecEntry {
    Record { record: SpecRecord },
    Inclusion { path: Seq<u8>, origin: Seq<u8> },
}

/// One parsed entry of a master file; the caller resolves `Inclusion`
/// entries by reading the named file and splicing its records in at this
/// position.
#[derive(Debug)]
pub enum ZoneEntry {
    Record(ResourceRecord),
    Inclusion { path: Vec<u8>, origin: Name },
}

impl View for ZoneEntry {
    type V = SpecEntry;

    open spec fn view(&self) -> SpecEntry {
        match self {
            ZoneEntry::Record(record) => SpecEntry::Record { record: record@ },
            ZoneEntry::Inclusion { path, origin } => (SpecEntry::Inclusion {
                path: path@,
                origin: origin@,
            }),
        }
    }
}

/// An optional domain name: nothing is read when only a comment or the line
/// end follows.
pub open spec fn spec_maybe_parse_domain_name(p: PState) -> (
    PState,
    Result<Option<Seq<u8>>, RDNSError>,
) {
    let (p1, _) = spec_chomp(p);
    match spec_peek(p1.r) {
        None => (p1, Ok(None)),
        Some(ch) => {
            if ch == SEMICOLON {
                (p1, Ok(None))
            } else {
                match spec_parse_domain_name(p1) {
                    (q, Ok(w)) => (q, Ok(Some(w))),
                    (q, Err(e)) => (q, Err(e)),
                }
            }
        },
    }
}

proof fn lemma_maybe_parse_domain_name(p: PState)
    requires
        pstate_wf(p),
    ensures
        ({
            let (q, v) = spec_maybe_parse_domain_name(p);
            &&& pstate_wf(q)
            &&& same_line(p, q)
            &&& same_ctl(p, q)
            &&& (v matches Ok(Some(w)) ==> wf_name(w))
        }),
{
    lemma_chomp(p);
    let p1 = spec_chomp(p).0;
    lemma_parse_domain_name(p1);
}

/// Collect bytes up to the next whitespace or the line end.
pub open spec fn spec_take_until_ws(p: PState) -> (PState, Seq<u8>)
    decreases p.r.cur.len() - p.r.pos,
{
    match spec_peek(p.r) {
        None => (p, Seq::empty()),
        Some(ch) => {
            if ch == SPACE || ch == TAB {
                (p, Seq::empty())
            } else {
                let (r2, _) = spec_next_char(p.r);
                let (q, rest) = spec_take_until_ws(with_r(p, r2));
                (q, seq![ch] + rest)
            }
        },
    }
}

proof fn lemma_take_until_ws(p: PState)
    requires
        pstate_wf(p),
    ensures
        ({
            let q = spec_take_until_ws(p).0;
            &&& pstate_wf(q)
            &&& same_line(p, q)
            &&& same_ctl(p, q)
        }),
    decreases p.r.cur.len() - p.r.pos,
{
    match spec_peek(p.r) {
        None => {},
        Some(ch) => {
            if !(ch == SPACE || ch == TAB) {
                lemma_take_until_ws(with_r(p, spec_next_char(p.r).0));
            }
        },
    }
}

/// The file path named by a directive: whitespace must separate it from the
/// directive name, and it runs to the next whitespace or the line end.
pub open spec fn spec_parse_file_name(p: PState) -> (PState, Result<Seq<u8>, RDNSError>) {
    let (p1, any) = spec_chomp(p);
    if !any {
        (
            p1,
            Err(
                RDNSError::MasterFileFormatError(
                    FormatIssue::MissingFileNameSeparator,
                    spec_position(p1.r),
                ),
            ),
        )
    } else {
        let (p2, path) = spec_take_until_ws(p1);
        (p2, Ok(path))
    }
}

proof fn lemma_parse_file_name(p: PState)
    requires
        pstate_wf(p),
    ensures
        ({
            let q = spec_parse_file_name(p).0;
            &&& pstate_wf(q)
            &&& same_line(p, q)
            &&& same_ctl(p, q)
        }),
{
    lemma_chomp(p);
    lemma_take_until_ws(spec_chomp(p).0);
}

/// The name of a control directive: the run of letters after the `$`.  A
/// byte that is neither a letter nor whitespace is a format error.
pub open spec fn spec_control_name(p: PState) -> (PState, Result<Seq<u8>, RDNSError>)
    decreases p.r.cur.len() - p.r.pos,
{
    match spec_peek(p.r) {
        None => (p, Ok(Seq::empty())),
        Some(ch) => {
            if ch == SPACE || ch == TAB {
                (p, Ok(Seq::empty()))
            } else if spec_is_letter(ch) {
                let (r2, _) = spec_next_char(p.r);
                match spec_control_name(with_r(p, r2)) {
                    (q, Ok(rest)) => (q, Ok(seq![ch] + rest)),
                    (q, Err(e)) => (q, Err(e)),
                }
            } else {
                (
                    p,
                    Err(
                        RDNSError::MasterFileFormatError(
                            FormatIssue::ControlNameNotLetters,
                            spec_position(p.r),
                        ),
                    ),
                )
            }
        },
    }
}

proof fn lemma_control_name(p: PState)
    requires
        pstate_wf(p),
    ensures
        ({
            let q = spec_control_name(p).0;
            &&& pstate_wf(q)
            &&& same_line(p, q)
            &&& same_ctl(p, q)
        }),
    decreases p.r.cur.len() - p.r.pos,
{
    match spec_peek(p.r) {
        None => {},
        Some(ch) => {
            if !(ch == SPACE || ch == TAB) && spec_is_letter(ch) {
                lemma_control_name(with_r(p, spec_next_char(p.r).0));
            }
        },
    }
}

/// The name of the directive that changes the current origin.
pub open spec fn origin_word() -> Seq<u8> {
    seq![UPPER_O, UPPER_R, UPPER_I, UPPER_G, UPPER_I, UPPER_N]
}

/// The name of the directive that pulls another file into the zone.
pub open spec fn inclusion_word() -> Seq<u8> {
    seq![UPPER_I, UPPER_N, UPPER_C, UPPER_L, UPPER_U, UPPER_D, UPPER_E]
}

/// A control directive, starting at its `$`: the origin directive moves the
/// current origin; the file directive yields an inclusion entry whose origin
/// is the explicitly given name, or else the current origin.
pub open spec fn spec_parse_control_entry(p: PState) -> (
    PState,
    Result<Option<SpecEntry>, RDNSError>,
) {
    let (r1, _) = spec_next_char(p.r);
    let p1 = with_r(p, r1);
    match spec_control_name(p1) {
        (p2, Err(e)) => (p2, Err(e)),
        (p2, Ok(word)) => {
            if word == origin_word() {
                let (p3, _) = spec_chomp(p2);
                match spec_parse_domain_name(p3) {
                    (p4, Ok(w)) => (PState { origin: w, ..p4 }, Ok(None)),
                    (p4, Err(e)) => (p4, Err(e)),
                }
            } else if word == inclusion_word() {
                match spec_parse_file_name(p2) {
                    (p3, Err(e)) => (p3, Err(e)),
                    (p3, Ok(path)) => {
                        match spec_maybe_parse_domain_name(p3) {
                            (p4, Err(e)) => (p4, Err(e)),
                            (p4, Ok(opt)) => {
                                let org = match opt {
                                    Some(w) => w,
                                    None => p4.origin,
                                };
                                (p4, Ok(Some(SpecEntry::Inclusion { path, origin: org })))
                            },
                        }
                    },
                }
            } else {
                (
                    p2,
                    Err(
                        RDNSError::MasterFileFormatError(
                            FormatIssue::UnknownControlDirective,
                            spec_position(p2.r),
                        ),
                    ),
                )
            }
        },
    }
}

proof fn lemma_parse_control_entry(p: PState)
    requires
        pstate_wf(p),
    ensures
        ({
            let q = spec_parse_control_entry(p).0;
            &&& pstate_wf(q)
            &&& q.r.lines == p.r.lines
            &&& q.r.next == p.r.next
            &&& q.r.cur == p.r.cur
            &&& p.r.pos <= q.r.pos
            &&& (spec_peek(p.r) matches Some(_) ==> p.r.pos < q.r.pos)
            &&& q.name == p.name
            &&& q.class == p.class
            &&& q.multiline == p.multiline
        }),
{
    let p1 = with_r(p, spec_next_char(p.r).0);
    lemma_control_name(p1);
    match spec_control_name(p1) {
        (p2, Err(_)) => {},
        (p2, Ok(word)) => {
            if word == origin_word() {
                lemma_chomp(p2);
                lemma_parse_domain_name(spec_chomp(p2).0);
            } else if word == inclusion_word() {
                lemma_parse_file_name(p2);
                match spec_parse_file_name(p2) {
                    (p3, Err(_)) => {},
                    (p3, Ok(_)) => {
                        lemma_maybe_parse_domain_name(p3);
                    },
                }
            }
        },
    }
}

/// One part of an IPv4 address: its digits, then a separating dot or
/// whitespace or the line end; the digits must name a value up to 255.
pub open spec fn spec_ip_part(p: PState) -> (PState, Result<int, RDNSError>) {
    let (p1, ds) = spec_take_digits(p);
    match spec_peek(p1.r) {
        Some(ch) => {
            if ch == DOT || ch == SPACE || ch == TAB {
                let (r2, _) = spec_next_char(p1.r);
                let p2 = with_r(p1, r2);
                if ds.len() == 0 || digits_val(ds) > 255 {
                    (
                        p2,
                        Err(
                            RDNSError::MasterFileFormatError(
                                FormatIssue::InvalidIpPart,
                                spec_position(p2.r),
                            ),
                        ),
                    )
                } else {
                    (p2, Ok(digits_val(ds)))
                }
            } else {
                (
                    p1,
                    Err(
                        RDNSError::MasterFileFormatError(
                            FormatIssue::InvalidIpFormat,
                            spec_position(p1.r),
                        ),
                    ),
                )
            }
        },
        None => {
            let (r2, _) = spec_next_char(p1.r);
            let p2 = with_r(p1, r2);
            if ds.len() == 0 || digits_val(ds) > 255 {
                (
                    p2,
                    Err(
                        RDNSError::MasterFileFormatError(
                            FormatIssue::InvalidIpPart,
                            spec_position(p2.r),
                        ),
                    ),
                )
            } else {
                (p2, Ok(digits_val(ds)))
            }
        },
    }
}

proof fn lemma_ip_part(p: PState)
    requires
        pstate_wf(p),
    ensures
        ({
            let (q, v) = spec_ip_part(p);
            &&& pstate_wf(q)
            &&& same_line(p, q)
            &&& same_ctl(p, q)
            &&& (v matches Ok(n) ==> 0 <= n <= 255)
        }),
{
    lemma_take_digits(p);
    let (p1, ds) = spec_take_digits(p);
    lemma_digits_val_nonneg(ds);
}

/// A whole IPv4 address: four parts in order, most significant first.
pub open spec fn spec_parse_ip_addr(p: PState) -> (PState, Result<Seq<u8>, RDNSError>) {
    match spec_ip_part(p) {
        (p1, Err(e)) => (p1, Err(e)),
        (p1, Ok(a)) => {
            match spec_ip_part(p1) {
                (p2, Err(e)) => (p2, Err(e)),
                (p2, Ok(b)) => {
                    match spec_ip_part(p2) {
                        (p3, Err(e)) => (p3, Err(e)),
                        (p3, Ok(c)) => {
                            match spec_ip_part(p3) {
                                (p4, Err(e)) => (p4, Err(e)),
                                (p4, Ok(d)) => (p4, Ok(seq![a as u8, b as u8, c as u8, d as u8])),
                            }
                        },
                    }
                },
            }
        },
    }
}

proof fn lemma_parse_ip_addr(p: PState)
    requires
        pstate_wf(p),
    ensures
        ({
            let (q, v) = spec_parse_ip_addr(p);
            &&& pstate_wf(q)
            &&& same_line(p, q)
            &&& same_ctl(p, q)
            &&& (v matches Ok(o) ==> o.len() == 4)
        }),
{
    lemma_ip_part(p);
    let (p1, v1) = spec_ip_part(p);
    if v1 matches Ok(_) {
        lemma_ip_part(p1);
        let (p2, v2) = spec_ip_part(p1);
        if v2 matches Ok(_) {
            lemma_ip_part(p2);
            let (p3, v3) = spec_ip_part(p2);
            if v3 matches Ok(_) {
                lemma_ip_part(p3);
            }
        }
    }
}

proof fn lemma_chomp_line(p: PState)
    ensures
        ({
            let q = spec_chomp(p).0;
            &&& q.r.cur == p.r.cur
            &&& p.r.pos <= q.r.pos
        }),
    decreases p.r.cur.len() - p.r.pos,
{
    match spec_peek(p.r) {
        Some(ch) => {
            if ch == SPACE || ch == TAB {
                lemma_chomp_line(with_r(p, spec_next_char(p.r).0));
            }
        },
        None => {},
    }
}

/// Between the fields of a record: skip whitespace; an opening parenthesis
/// enters the multi-line block, a closing one leaves it; a comment or the
/// line end moves on to the next physical line.
pub open spec fn spec_parse_common_in_rr(p: PState) -> (PState, Result<(), RDNSError>)
    decreases p.r.cur.len() - p.r.pos,
        via spec_parse_common_in_rr_dec
{
    let (p1, _) = spec_chomp(p);
    match spec_peek(p1.r) {
        Some(ch) => {
            if ch == LPAREN {
                if p1.multiline {
                    (
                        p1,
                        Err(
                            RDNSError::MasterFileFormatError(
                                FormatIssue::NestedMultiline,
                                spec_position(p1.r),
                            ),
                        ),
                    )
                } else {
                    let (r2, _) = spec_next_char(p1.r);
                    let p2 = PState { multiline: true, ..with_r(p1, r2) };
                    spec_parse_common_in_rr(p2)
                }
            } else if ch == RPAREN {
                if !p1.multiline {
                    (
                        p1,
                        Err(
                            RDNSError::MasterFileFormatError(
                                FormatIssue::NotInMultiline,
                                spec_position(p1.r),
                            ),
                        ),
                    )
                } else {
                    let (r2, _) = spec_next_char(p1.r);
                    (PState { multiline: false, ..with_r(p1, r2) }, Ok(()))
                }
            } else if ch == SEMICOLON {
                let (r2, _) = spec_next_line(p1.r);
                let (p3, _) = spec_chomp(with_r(p1, r2));
                (p3, Ok(()))
            } else {
                (p1, Ok(()))
            }
        },
        None => {
            let (r2, _) = spec_next_line(p1.r);
            let (p3, _) = spec_chomp(with_r(p1, r2));
            (p3, Ok(()))
        },
    }
}

#[via_fn]
proof fn spec_parse_common_in_rr_dec(p: PState) {
    lemma_chomp_line(p);
}

proof fn lemma_parse_common_in_rr(p: PState)
    requires
        pstate_wf(p),
    ensures
        ({
            let q = spec_parse_common_in_rr(p).0;
            &&& pstate_wf(q)
            &&& frame_ok(p, q)
            &&& q.origin == p.origin
            &&& q.name == p.name
            &&& q.class == p.class
        }),
    decreases p.r.cur.len() - p.r.pos,
{
    lemma_chomp(p);
    lemma_chomp_line(p);
    let p1 = spec_chomp(p).0;
    match spec_peek(p1.r) {
        Some(ch) => {
            if ch == LPAREN {
                if !p1.multiline {
                    let p2 = PState { multiline: true, ..with_r(p1, spec_next_char(p1.r).0) };
                    lemma_parse_common_in_rr(p2);
                }
            } else if ch == RPAREN {
            } else if ch == SEMICOLON {
                let (r2, _) = spec_next_line(p1.r);
                lemma_chomp(with_r(p1, r2));
            }
        },
        None => {
            let (r2, _) = spec_next_line(p1.r);
            lemma_chomp(with_r(p1, r2));
        },
    }
}


/// Whitespace glue, then one domain name of an SOA payload.
pub open spec fn spec_soa_name(p: PState) -> (PState, Result<Seq<u8>, RDNSError>) {
    match spec_parse_common_in_rr(p) {
        (p1, Err(e)) => (p1, Err(e)),
        (p1, Ok(_)) => spec_parse_domain_name(p1),
    }
}

proof fn lemma_soa_name(p: PState)
    requires
        pstate_wf(p),
    ensures
        ({
            let (q, v) = spec_soa_name(p);
            &&& pstate_wf(q)
            &&& frame_ok(p, q)
            &&& q.origin == p.origin
            &&& q.name == p.name
            &&& q.class == p.class
            &&& (v matches Ok(w) ==> wf_name(w))
        }),
{
    lemma_parse_common_in_rr(p);
    let (p1, v1) = spec_parse_common_in_rr(p);
    if v1 matches Ok(_) {
        lemma_parse_domain_name(p1);
    }
}

/// Whitespace glue, then one decimal counter of an SOA payload.
pub open spec fn spec_soa_number(p: PState, max: int) -> (PState, Result<int, RDNSError>) {
    match spec_parse_common_in_rr(p) {
        (p1, Err(e)) => (p1, Err(e)),
        (p1, Ok(_)) => spec_parse_number(p1, max),
    }
}

proof fn lemma_soa_number(p: PState, max: int)
    requires
        pstate_wf(p),
    ensures
        ({
            let (q, v) = spec_soa_number(p, max);
            &&& pstate_wf(q)
            &&& frame_ok(p, q)
            &&& q.origin == p.origin
            &&& q.name == p.name
            &&& q.class == p.class
            &&& (v matches Ok(n) ==> 0 <= n <= max)
        }),
{
    lemma_parse_common_in_rr(p);
    let (p1, v1) = spec_parse_common_in_rr(p);
    if v1 matches Ok(_) {
        lemma_parse_number(p1, max);
        let ds = spec_take_digits(p1).1;
        lemma_take_digits(p1);
        lemma_digits_val_nonneg(ds);
    }
}

/// An SOA payload: the primary and responsible names, then the five counters,
/// any of them separated by whitespace, comments, line ends or one
/// parenthesized block.
pub open spec fn spec_parse_soa(p: PState) -> (PState, Result<SpecSoaData, RDNSError>) {
    match spec_soa_name(p) {
        (p1, Err(e)) => (p1, Err(e)),
        (p1, Ok(primary)) => {
            match spec_soa_name(p1) {
                (p2, Err(e)) => (p2, Err(e)),
                (p2, Ok(responsible)) => {
                    match spec_soa_number(p2, u32::MAX as int) {
                        (p3, Err(e)) => (p3, Err(e)),
                        (p3, Ok(serial)) => {
                            match spec_soa_number(p3, i32::MAX as int) {
                                (p4, Err(e)) => (p4, Err(e)),
                                (p4, Ok(refresh)) => {
                                    match spec_soa_number(p4, i32::MAX as int) {
                                        (p5, Err(e)) => (p5, Err(e)),
                                        (p5, Ok(retry)) => {
                                            match spec_soa_number(p5, i32::MAX as int) {
                                                (p6, Err(e)) => (p6, Err(e)),
                                                (p6, Ok(expire)) => {
                                                    match spec_soa_number(p6, u32::MAX as int) {
                                                        (p7, Err(e)) => (p7, Err(e)),
                                                        (p7, Ok(minimum)) => (
                                                            p7,
                                                            Ok(
                                                                SpecSoaData {
                                                                    primary,
                                                                    responsible,
                                                                    serial: serial as u32,
                                                                    refresh: refresh as i32,
                                                                    retry: retry as i32,
                                                                    expire: expire as i32,
                                                                    minimum: minimum as u32,
                                                                },
                                                            ),
                                                        ),
                                                    }
                                                },
                                            }
                                        },
                                    }
                                },
                            }
                        },
                    }
                },
            }
        },
    }
}

proof fn lemma_parse_soa(p: PState)
    requires
        pstate_wf(p),
    ensures
        ({
            let q = spec_parse_soa(p).0;
            &&& pstate_wf(q)
            &&& frame_ok(p, q)
            &&& q.origin == p.origin
            &&& q.name == p.name
            &&& q.class == p.class
        }),
{
    lemma_soa_name(p);
    let (p1, v1) = spec_soa_name(p);
    if v1 matches Ok(_) {
        lemma_soa_name(p1);
        let (p2, v2) = spec_soa_name(p1);
        if v2 matches Ok(_) {
            lemma_soa_number(p2, u32::MAX as int);
            let (p3, v3) = spec_soa_number(p2, u32::MAX as int);
            if v3 matches Ok(_) {
                lemma_soa_number(p3, i32::MAX as int);
                let (p4, v4) = spec_soa_number(p3, i32::MAX as int);
                if v4 matches Ok(_) {
                    lemma_soa_number(p4, i32::MAX as int);
                    let (p5, v5) = spec_soa_number(p4, i32::MAX as int);
                    if v5 matches Ok(_) {
                        lemma_soa_number(p5, i32::MAX as int);
                        let (p6, v6) = spec_soa_number(p5, i32::MAX as int);
                        if v6 matches Ok(_) {
                            lemma_soa_number(p6, u32::MAX as int);
                        }
                    }
                }
            }
        }
    }
}

/// Whether a CLASS is the unset marker `UNKNOWN(0)`.
pub open spec fn class_unset(c: RRClass<u16>) -> bool {
    c == RRClass::<u16>::UNKNOWN(0)
}

/// Whether the TYPE read so far asks for one more token: none was read, or
/// the token named no known TYPE.
pub open spec fn needs_type_token(rt: Option<RRType<u16>>) -> bool {
    match rt {
        None => true,
        Some(RRType::UNKNOWN(v)) => v == 0,
        Some(_) => false,
    }
}

/// The rdata of a record, dispatched on its TYPE: only A, NS, CNAME and SOA
/// are supported; every other TYPE is rejected.
pub open spec fn spec_parse_rdata(p: PState, rt: Option<RRType<u16>>) -> (
    PState,
    Result<SpecResourceData, RDNSError>,
) {
    match rt {
        Some(RRType::A) => {
            match spec_parse_ip_addr(p) {
                (p1, Err(e)) => (p1, Err(e)),
                (p1, Ok(octets)) => (p1, Ok(SpecResourceData::Alias { octets })),
            }
        },
        Some(RRType::NS) => {
            match spec_parse_domain_name(p) {
                (p1, Err(e)) => (p1, Err(e)),
                (p1, Ok(name)) => (p1, Ok(SpecResourceData::NameServer { name })),
            }
        },
        Some(RRType::CNAME) => {
            match spec_parse_domain_name(p) {
                (p1, Err(e)) => (p1, Err(e)),
                (p1, Ok(name)) => (p1, Ok(SpecResourceData::CName { name })),
            }
        },
        Some(RRType::SOA) => {
            match spec_parse_soa(p) {
                (p1, Err(e)) => (p1, Err(e)),
                (p1, Ok(data)) => (p1, Ok(SpecResourceData::Soa { data })),
            }
        },
        Some(_) => (
            p,
            Err(
                RDNSError::MasterFileFormatError(
                    FormatIssue::UnknownRRType,
                    spec_position(p.r),
                ),
            ),
        ),
        None => (
            p,
            Err(
                RDNSError::MasterFileFormatError(
                    FormatIssue::MissingRRType,
                    spec_position(p.r),
                ),
            ),
        ),
    }
}

proof fn lemma_parse_rdata(p: PState, rt: Option<RRType<u16>>)
    requires
        pstate_wf(p),
    ensures
        ({
            let q = spec_parse_rdata(p, rt).0;
            &&& pstate_wf(q)
            &&& frame_ok(p, q)
            &&& q.origin == p.origin
            &&& q.name == p.name
            &&& q.class == p.class
        }),
{
    match rt {
        Some(RRType::A) => {
            lemma_parse_ip_addr(p);
        },
        Some(RRType::NS) => {
            lemma_parse_domain_name(p);
        },
        Some(RRType::CNAME) => {
            lemma_parse_domain_name(p);
        },
        Some(RRType::SOA) => {
            lemma_parse_soa(p);
        },
        _ => {},
    }
}

/// One resource record, from its optional TTL and CLASS to its rdata.  The
/// TTL and CLASS may come in either order before the TYPE; the first explicit
/// CLASS is pinned for the file and every record must agree with it; the
/// owner name must already be known.
pub open spec fn spec_parse_rr(p: PState) -> (PState, Result<SpecRecord, RDNSError>) {
    match spec_try_parse_ttl(p) {
        (p1, Err(e)) => (p1, Err(e)),
        (p1, Ok(ttl0)) => {
            let (p2, _) = spec_chomp(p1);
            let (p3, text) = spec_get_text(p2);
            let class0 = spec_rr_class_of_text(text);
            let (p4, _) = spec_chomp(p3);
            let rt0: Option<RRType<u16>> = if class_unset(class0) {
                Some(spec_rr_type_of_text(text))
            } else {
                None
            };
            let after = spec_rr_second_token(p4, ttl0, rt0);
            match after {
                (p5, Err(e)) => (p5, Err(e)),
                (p5, Ok((ttl1, rt1))) => {
                    if class_unset(class0) && !class_unset(p5.class) {
                        spec_rr_finish(p5, ttl1, rt1, p5.class)
                    } else if class_unset(class0) {
                        (
                            p5,
                            Err(
                                RDNSError::MasterFileFormatError(
                                    FormatIssue::NoClass,
                                    spec_position(p5.r),
                                ),
                            ),
                        )
                    } else if class_unset(p5.class) {
                        let p6 = PState { class: class0, ..p5 };
                        spec_rr_finish(p6, ttl1, rt1, class0)
                    } else if class0 != p5.class {
                        (
                            p5,
                            Err(
                                RDNSError::MasterFileFormatError(
                                    FormatIssue::MultipleClasses,
                                    spec_position(p5.r),
                                ),
                            ),
                        )
                    } else {
                        spec_rr_finish(p5, ttl1, rt1, class0)
                    }
                },
            }
        },
    }
}

/// The possible second TTL and the TYPE token of a record: read only when
/// the first token already named the CLASS or nothing.
pub open spec fn spec_rr_second_token(
    p: PState,
    ttl0: Option<int>,
    rt0: Option<RRType<u16>>,
) -> (PState, Result<(Option<int>, Option<RRType<u16>>), RDNSError>) {
    if needs_type_token(rt0) {
        let first = match ttl0 {
            None => {
                match spec_try_parse_ttl(p) {
                    (p1, Err(e)) => (p1, Err(e)),
                    (p1, Ok(t)) => {
                        let (p2, _) = spec_chomp(p1);
                        (p2, Ok(t))
                    },
                }
            },
            Some(_) => (p, Ok(ttl0)),
        };
        match first {
            (p2, Err(e)) => (p2, Err(e)),
            (p2, Ok(ttl1)) => {
                let (p3, text2) = spec_get_text(p2);
                let (p4, _) = spec_chomp(p3);
                (p4, Ok((ttl1, Some(spec_rr_type_of_text(text2)))))
            },
        }
    } else {
        (p, Ok((ttl0, rt0)))
    }
}

proof fn lemma_rr_second_token(p: PState, ttl0: Option<int>, rt0: Option<RRType<u16>>)
    requires
        pstate_wf(p),
    ensures
        ({
            let q = spec_rr_second_token(p, ttl0, rt0).0;
            &&& pstate_wf(q)
            &&& same_line(p, q)
            &&& same_ctl(p, q)
        }),
{
    if needs_type_token(rt0) {
        if ttl0 is None {
            lemma_try_parse_ttl(p);
            let (p1, v1) = spec_try_parse_ttl(p);
            if v1 matches Ok(_) {
                lemma_chomp(p1);
                let p2 = spec_chomp(p1).0;
                lemma_get_text(p2);
                lemma_chomp(spec_get_text(p2).0);
            }
        } else {
            lemma_get_text(p);
            lemma_chomp(spec_get_text(p).0);
        }
    }
}

/// The tail of a record: its rdata, assembled with the owner name, TYPE,
/// CLASS and TTL into the finished record.  A missing owner name is a
/// format error.
pub open spec fn spec_rr_finish(
    p: PState,
    ttl: Option<int>,
    rt: Option<RRType<u16>>,
    class: RRClass<u16>,
) -> (PState, Result<SpecRecord, RDNSError>) {
    match spec_parse_rdata(p, rt) {
        (p1, Err(e)) => (p1, Err(e)),
        (p1, Ok(rdata)) => {
            match p1.name {
                None => (
                    p1,
                    Err(
                        RDNSError::MasterFileFormatError(
                            FormatIssue::NoOwnerName,
                            spec_position(p1.r),
                        ),
                    ),
                ),
                Some(owner) => (
                    p1,
                    Ok(
                        SpecRecord {
                            name: owner,
                            rr_type: match rt {
                                Some(t) => t,
                                None => RRType::UNKNOWN(0),
                            },
                            class,
                            ttl: match ttl {
                                Some(v) => v as i32,
                                None => 0,
                            },
                            rdata,
                        },
                    ),
                ),
            }
        },
    }
}

proof fn lemma_rr_finish(p: PState, ttl: Option<int>, rt: Option<RRType<u16>>, class: RRClass<u16>)
    requires
        pstate_wf(p),
    ensures
        ({
            let q = spec_rr_finish(p, ttl, rt, class).0;
            &&& pstate_wf(q)
            &&& frame_ok(p, q)
            &&& q.origin == p.origin
            &&& q.name == p.name
            &&& q.class == p.class
        }),
{
    lemma_parse_rdata(p, rt);
}

proof fn lemma_parse_rr(p: PState)
    requires
        pstate_wf(p),
    ensures
        ({
            let q = spec_parse_rr(p).0;
            &&& pstate_wf(q)
            &&& frame_ok(p, q)
            &&& q.origin == p.origin
            &&& q.name == p.name
        }),
{
    lemma_try_parse_ttl(p);
    let (p1, v1) = spec_try_parse_ttl(p);
    match v1 {
        Err(_) => {},
        Ok(ttl0) => {
            lemma_chomp(p1);
            let p2 = spec_chomp(p1).0;
            lemma_get_text(p2);
            let (p3, text) = spec_get_text(p2);
            lemma_chomp(p3);
            let p4 = spec_chomp(p3).0;
            let class0 = spec_rr_class_of_text(text);
            let rt0: Option<RRType<u16>> = if class_unset(class0) {
                Some(spec_rr_type_of_text(text))
            } else {
                None
            };
            lemma_rr_second_token(p4, ttl0, rt0);
            let (p5, v5) = spec_rr_second_token(p4, ttl0, rt0);
            match v5 {
                Err(_) => {},
                Ok(pair) => {
                    let (ttl1, rt1) = pair;
                    if class_unset(class0) && !class_unset(p5.class) {
                        lemma_rr_finish(p5, ttl1, rt1, p5.class);
                    } else if class_unset(class0) {
                    } else if class_unset(p5.class) {
                        let p6 = PState { class: class0, ..p5 };
                        lemma_rr_finish(p6, ttl1, rt1, class0);
                    } else if class0 != p5.class {
                    } else {
                        lemma_rr_finish(p5, ttl1, rt1, class0);
                    }
                },
            }
        },
    }
}

/// A record together with the owner name that begins its line: the name is
/// parsed first and becomes the current owner name.
pub open spec fn spec_parse_name_and_rr(p: PState) -> (PState, Result<SpecRecord, RDNSError>) {
    match spec_parse_domain_name(p) {
        (p1, Err(e)) => (p1, Err(e)),
        (p1, Ok(w)) => {
            let p2 = PState { name: Some(w), ..p1 };
            let (p3, _) = spec_chomp(p2);
            spec_parse_rr(p3)
        },
    }
}

proof fn lemma_parse_name_and_rr(p: PState)
    requires
        pstate_wf(p),
    ensures
        ({
            let q = spec_parse_name_and_rr(p).0;
            &&& pstate_wf(q)
            &&& frame_ok(p, q)
            &&& q.origin == p.origin
        }),
{
    lemma_parse_domain_name(p);
    let (p1, v1) = spec_parse_domain_name(p);
    match v1 {
        Err(_) => {},
        Ok(w) => {
            let p2 = PState { name: Some(w), ..p1 };
            lemma_chomp(p2);
            let p3 = spec_chomp(p2).0;
            lemma_parse_rr(p3);
        },
    }
}

/// One physical line of a master file: leading whitespace marks a
/// continuation line that reuses the current owner name; a `;` discards the
/// rest of the line; each `$` directive is handled in place; anything else
/// is one record (which may run on over further lines inside parentheses).
pub open spec fn spec_line_step(p: PState, start_of_line: bool) -> (
    PState,
    Result<Seq<SpecEntry>, RDNSError>,
)
    decreases p.r.cur.len() - p.r.pos,
        when pstate_wf(p)
        via spec_line_step_dec
{
    match spec_peek(p.r) {
        None => (p, Ok(Seq::empty())),
        Some(ch) => {
            if ch == SPACE || ch == TAB {
                let (r2, _) = spec_next_char(p.r);
                spec_line_step(with_r(p, r2), false)
            } else if ch == SEMICOLON {
                (p, Ok(Seq::empty()))
            } else if ch == DOLLAR {
                match spec_parse_control_entry(p) {
                    (p1, Err(e)) => (p1, Err(e)),
                    (p1, Ok(opt)) => {
                        match spec_line_step(p1, start_of_line) {
                            (p2, Err(e)) => (p2, Err(e)),
                            (p2, Ok(rest)) => {
                                let es = match opt {
                                    Some(e) => seq![e] + rest,
                                    None => rest,
                                };
                                (p2, Ok(es))
                            },
                        }
                    },
                }
            } else {
                let step = if start_of_line {
                    spec_parse_name_and_rr(p)
                } else {
                    spec_parse_rr(p)
                };
                match step {
                    (p1, Err(e)) => (p1, Err(e)),
                    (p1, Ok(record)) => (p1, Ok(seq![SpecEntry::Record { record }])),
                }
            }
        },
    }
}

#[via_fn]
proof fn spec_line_step_dec(p: PState, start_of_line: bool) {
    match spec_peek(p.r) {
        None => {},
        Some(ch) => {
            if ch == SPACE || ch == TAB {
            } else if ch == SEMICOLON {
            } else if ch == DOLLAR {
                lemma_parse_control_entry(p);
            }
        },
    }
}

proof fn lemma_line_step(p: PState, start_of_line: bool)
    requires
        pstate_wf(p),
    ensures
        ({
            let q = spec_line_step(p, start_of_line).0;
            &&& pstate_wf(q)
            &&& frame_ok(p, q)
        }),
    decreases p.r.cur.len() - p.r.pos,
{
    match spec_peek(p.r) {
        None => {},
        Some(ch) => {
            if ch == SPACE || ch == TAB {
                lemma_line_step(with_r(p, spec_next_char(p.r).0), false);
            } else if ch == SEMICOLON {
            } else if ch == DOLLAR {
                lemma_parse_control_entry(p);
                let (p1, v1) = spec_parse_control_entry(p);
                if v1 matches Ok(_) {
                    lemma_line_step(p1, start_of_line);
                }
            } else {
                if start_of_line {
                    lemma_parse_name_and_rr(p);
                } else {
                    lemma_parse_rr(p);
                }
            }
        },
    }
}

/// All lines of a master file in order, each handled by `spec_line_step`,
/// with the entries concatenated in file-encounter order.
pub open spec fn spec_run(p: PState) -> (PState, Result<Seq<SpecEntry>, RDNSError>)
    decreases p.r.lines.len() - p.r.next,
        when pstate_wf(p)
        via spec_run_dec
{
    match spec_line_step(p, true) {
        (p1, Err(e)) => (p1, Err(e)),
        (p1, Ok(es)) => {
            let (r2, more) = spec_next_line(p1.r);
            if more {
                match spec_run(with_r(p1, r2)) {
                    (p2, Err(e)) => (p2, Err(e)),
                    (p2, Ok(rest)) => (p2, Ok(es + rest)),
                }
            } else {
                (p1, Ok(es))
            }
        },
    }
}

#[via_fn]
proof fn spec_run_dec(p: PState) {
    lemma_line_step(p, true);
}

/// The parser state a fresh parse of `lines` starts from, under `origin`.
pub open spec fn spec_parser_init(lines: Seq<Seq<u8>>, origin: Seq<u8>) -> PState {
    PState {
        r: spec_reader_new(lines),
        origin,
        name: None,
        class: RRClass::UNKNOWN(0),
        multiline: false,
    }
}

/// The views of a sequence of parsed entries.
pub open spec fn entries_view(s: Seq<ZoneEntry>) -> Seq<SpecEntry> {
    s.map_values(|e: ZoneEntry| e@)
}


/// Whether two byte strings hold the same bytes.
fn eq_bytes(a: &Vec<u8>, b: &Vec<u8>) -> (r: bool)
    ensures
        r == (a@ == b@),
{
    if a.len() != b.len() {
        return false;
    }
    let mut k: usize = 0;
    while k < a.len()
        invariant
            0 <= k <= a@.len() == b@.len(),
            forall|i: int| 0 <= i < k ==> a@[i] == b@[i],
        decreases a@.len() - k,
    {
        if a[k] != b[k] {
            return false;
        }
        k = k + 1;
    }
    proof {
        assert(a@ =~= b@);
    }
    true
}

/// Whether a file path was already visited on the way here: the guard a
/// caller uses against a cycle of file directives.
pub fn path_already_seen(seen: &Vec<Vec<u8>>, path: &Vec<u8>) -> (r: bool)
    ensures
        r == exists|i: int| 0 <= i < seen@.len() && (#[trigger] seen@[i])@ == path@,
{
    let mut k: usize = 0;
    while k < seen.len()
        invariant
            0 <= k <= seen@.len(),
            forall|i: int| 0 <= i < k ==> (#[trigger] seen@[i])@ != path@,
        decreases seen@.len() - k,
    {
        if eq_bytes(&seen[k], path) {
            return true;
        }
        k = k + 1;
    }
    false
}

/// The value of a run of digit bytes, capped: nothing when the run is empty
/// or its value exceeds `max`.
fn digits_value_capped(ds: &Vec<u8>, max: u64) -> (r: Option<u64>)
    requires
        forall|i: int| 0 <= i < ds@.len() ==> spec_is_digit(#[trigger] ds@[i]),
        max <= u32::MAX as u64,
    ensures
        match r {
            Some(v) => ds@.len() > 0 && v as int == digits_val(ds@) && v <= max,
            None => ds@.len() == 0 || digits_val(ds@) > max,
        },
{
    let ghost dsv = ds@;
    let mut acc: u64 = 0;
    let mut over: bool = false;
    let mut k: usize = 0;
    proof {
        assert(dsv.subrange(0, 0) =~= Seq::<u8>::empty());
        assert(ds.len() == ds@.len());
    }
    while k < ds.len()
        invariant
            0 <= k <= dsv.len() <= usize::MAX,
            ds@ == dsv,
            max <= u32::MAX as u64,
            forall|i: int| 0 <= i < dsv.len() ==> spec_is_digit(#[trigger] dsv[i]),
            !over ==> acc as int == digits_val(dsv.subrange(0, k as int)) && acc <= max,
            over ==> digits_val(dsv.subrange(0, k as int)) > max,
        decreases dsv.len() - k,
    {
        let d = ds[k] - DIGIT_0;
        proof {
            assert(dsv.subrange(0, k + 1).drop_last() =~= dsv.subrange(0, k as int));
            assert(dsv.subrange(0, k + 1).last() == dsv[k as int]);
        }
        if !over {
            let cand = acc * 10 + (d as u64);
            if cand > max {
                over = true;
            } else {
                acc = cand;
            }
        }
        k = k + 1;
    }
    proof {
        assert(dsv.subrange(0, dsv.len() as int) =~= dsv);
    }
    if ds.len() == 0 || over {
        None
    } else {
        Some(acc)
    }
}

/// Whether a directive name is the one that changes the origin.
fn is_origin_word(t: &Vec<u8>) -> (r: bool)
    ensures
        r == (t@ == origin_word()),
{
    let r = t.len() == 6 && t[0] == UPPER_O && t[1] == UPPER_R && t[2] == UPPER_I && t[3]
        == UPPER_G && t[4] == UPPER_I && t[5] == UPPER_N;
    proof {
        if r {
            assert(t@ =~= origin_word());
        }
    }
    r
}

/// Whether a directive name is the one that pulls another file in.
fn is_inclusion_word(t: &Vec<u8>) -> (r: bool)
    ensures
        r == (t@ == inclusion_word()),
{
    let r = t.len() == 7 && t[0] == UPPER_I && t[1] == UPPER_N && t[2] == UPPER_C && t[3]
        == UPPER_L && t[4] == UPPER_U && t[5] == UPPER_D && t[6] == UPPER_E;
    proof {
        if r {
            assert(t@ =~= inclusion_word());
        }
    }
    r
}


/// The ghost value of an optional TTL.
pub open spec fn opt_ttl_view(t: Option<i32>) -> Option<int> {
    match t {
        Some(v) => Some(v as int),
        None => None,
    }
}

/// Whether a CLASS is the unset marker.
fn class_unset_exec(c: &RRClass<u16>) -> (r: bool)
    ensures
        r == class_unset(*c),
{
    match c {
        RRClass::UNKNOWN(v) => *v == 0,
        _ => false,
    }
}

/// Whether the TYPE read so far asks for one more token.
fn needs_type_token_exec(rt: &Option<RRType<u16>>) -> (r: bool)
    ensures
        r == needs_type_token(*rt),
{
    match rt {
        None => true,
        Some(RRType::UNKNOWN(v)) => *v == 0,
        Some(_) => false,
    }
}

// ---------------------------------------------------------------------------
// The executable zone parser
// ---------------------------------------------------------------------------

/// The recursive-descent parser over one master file: it drives the cursor,
/// interprets directives, resolves owner names and classes against its
/// running state, and dispatches on the record TYPE.
pub struct TxtConfigParser {
    state: ParserReader,
    current_origin: Name,
    current_name: Option<Name>,
    current_class: RRClass<u16>,
    multiline: bool,
}

impl View for TxtConfigParser {
    type V = PState;

    closed spec fn view(&self) -> PState {
        PState {
            r: self.state@,
            origin: self.current_origin@,
            name: match self.current_name {
                Some(n) => Some(n@),
                None => None,
            },
            class: self.current_class,
            multiline: self.multiline,
        }
    }
}

impl TxtConfigParser {
    fn new(lines: Vec<Vec<u8>>, origin: Name) -> (r: TxtConfigParser)
        ensures
            r@ == (PState {
                r: spec_reader_new(lines.deep_view()),
                origin: origin@,
                name: None,
                class: RRClass::UNKNOWN(0),
                multiline: false,
            }),
            pstate_wf(r@),
    {
        proof {
            use_type_invariant(&origin);
        }
        TxtConfigParser {
            state: ParserReader::new(lines),
            current_origin: origin,
            current_name: None,
            current_class: RRClass::UNKNOWN(0),
            multiline: false,
        }
    }

    /// Skip spaces and tabs; yields whether any byte was skipped.
    fn chomp(&mut self) -> (r: bool)
        requires
            pstate_wf(old(self)@),
        ensures
            (final(self)@, r) == spec_chomp(old(self)@),
            pstate_wf(final(self)@),
        decreases old(self)@.r.cur.len() - old(self)@.r.pos,
    {
        match self.state.peek_char() {
            Some(ch) => {
                if ch == SPACE || ch == TAB {
                    self.state.next_char();
                    self.chomp();
                    true
                } else {
                    false
                }
            },
            None => false,
        }
    }

    /// Collect the run of letters under the cursor.
    fn get_text(&mut self) -> (t: Vec<u8>)
        requires
            pstate_wf(old(self)@),
        ensures
            (final(self)@, t@) == spec_get_text(old(self)@),
            pstate_wf(final(self)@),
        decreases old(self)@.r.cur.len() - old(self)@.r.pos,
    {
        match self.state.peek_char() {
            Some(ch) => {
                if NameParser::is_letter(ch) {
                    self.state.next_char();
                    let mut rest = self.get_text();
                    let mut out: Vec<u8> = Vec::new();
                    out.push(ch);
                    out.append(&mut rest);
                    out
                } else {
                    Vec::new()
                }
            },
            None => Vec::new(),
        }
    }

    /// Collect the run of decimal digits under the cursor.
    fn take_digits(&mut self) -> (t: Vec<u8>)
        requires
            pstate_wf(old(self)@),
        ensures
            (final(self)@, t@) == spec_take_digits(old(self)@),
            pstate_wf(final(self)@),
        decreases old(self)@.r.cur.len() - old(self)@.r.pos,
    {
        match self.state.peek_char() {
            Some(ch) => {
                if NameParser::is_digit(ch) {
                    self.state.next_char();
                    let mut rest = self.take_digits();
                    let mut out: Vec<u8> = Vec::new();
                    out.push(ch);
                    out.append(&mut rest);
                    out
                } else {
                    Vec::new()
                }
            },
            None => Vec::new(),
        }
    }

    /// Read a maximal digit run as a number no greater than `max`.
    fn parse_number_max(&mut self, max: u64) -> (r: Result<u64, RDNSError>)
        requires
            pstate_wf(old(self)@),
            max <= u32::MAX as u64,
        ensures
            ({
                let (q, v) = spec_parse_number(old(self)@, max as int);
                &&& final(self)@ == q
                &&& match r {
                    Ok(x) => v == Ok::<int, RDNSError>(x as int) && x <= max,
                    Err(e) => v == Err::<int, RDNSError>(e),
                }
            }),
            pstate_wf(final(self)@),
    {
        proof {
            lemma_take_digits(old(self)@);
        }
        let ds = self.take_digits();
        match digits_value_capped(&ds, max) {
            Some(v) => Ok(v),
            None => Err(
                RDNSError::MasterFileFormatError(
                    FormatIssue::InvalidNumber,
                    self.state.current_position(),
                ),
            ),
        }
    }

    /// Read a number that fits an `u32`.
    fn parse_number_u32(&mut self) -> (r: Result<u32, RDNSError>)
        requires
            pstate_wf(old(self)@),
        ensures
            ({
                let (q, v) = spec_parse_number(old(self)@, u32::MAX as int);
                &&& final(self)@ == q
                &&& match r {
                    Ok(x) => v == Ok::<int, RDNSError>(x as int),
                    Err(e) => v == Err::<int, RDNSError>(e),
                }
            }),
            pstate_wf(final(self)@),
    {
        match self.parse_number_max(u32::MAX as u64) {
            Ok(x) => Ok(x as u32),
            Err(e) => Err(e),
        }
    }

    /// Read a number that fits an `i32`.
    fn parse_number_i32(&mut self) -> (r: Result<i32, RDNSError>)
        requires
            pstate_wf(old(self)@),
        ensures
            ({
                let (q, v) = spec_parse_number(old(self)@, i32::MAX as int);
                &&& final(self)@ == q
                &&& match r {
                    Ok(x) => v == Ok::<int, RDNSError>(x as int),
                    Err(e) => v == Err::<int, RDNSError>(e),
                }
            }),
            pstate_wf(final(self)@),
    {
        match self.parse_number_max(i32::MAX as u64) {
            Ok(x) => Ok(x as i32),
            Err(e) => Err(e),
        }
    }

    /// Read a TTL when a digit is under the cursor.
    fn try_parse_ttl(&mut self) -> (r: Result<Option<i32>, RDNSError>)
        requires
            pstate_wf(old(self)@),
        ensures
            ({
                let (q, v) = spec_try_parse_ttl(old(self)@);
                &&& final(self)@ == q
                &&& match r {
                    Ok(Some(x)) => v == Ok::<Option<int>, RDNSError>(Some(x as int)),
                    Ok(None) => v == Ok::<Option<int>, RDNSError>(None),
                    Err(e) => v == Err::<Option<int>, RDNSError>(e),
                }
            }),
            pstate_wf(final(self)@),
    {
        match self.state.peek_char() {
            Some(ch) => {
                if NameParser::is_digit(ch) {
                    match self.parse_number_i32() {
                        Ok(x) => Ok(Some(x)),
                        Err(e) => Err(e),
                    }
                } else {
                    Ok(None)
                }
            },
            None => Ok(None),
        }
    }

    /// Read a domain name: a lone `@` yields the current origin; anything
    /// else goes through the name codec, stopping at whitespace.
    fn parse_domain_name(&mut self) -> (r: Result<Name, RDNSError>)
        requires
            pstate_wf(old(self)@),
        ensures
            ({
                let (q, v) = spec_parse_domain_name(old(self)@);
                &&& final(self)@ == q
                &&& match r {
                    Ok(n) => v == Ok::<Seq<u8>, RDNSError>(n@),
                    Err(e) => v == Err::<Seq<u8>, RDNSError>(e),
                }
            }),
            pstate_wf(final(self)@),
    {
        let first = self.state.peek_char();
        if first == Some(AT) {
            self.state.next_char();
            return Ok(self.current_origin.clone());
        }
        let mut stops: Vec<u8> = Vec::new();
        stops.push(SPACE);
        stops.push(TAB);
        proof {
            assert(stops@ =~= ws_stops());
            lemma_name_accept_wf(self@.r.cur, self@.r.pos, ws_stops());
        }
        let start = self.state.position_in_line();
        let parsed = Name::parse(self.state.borrow(), start, &stops);
        match parsed {
            Ok((n, used)) => {
                self.state.skip(used);
                Ok(n)
            },
            Err(e) => {
                Err(
                    RDNSError::MasterFileFormatError(
                        name_issue(&e),
                        self.state.current_position(),
                    ),
                )
            },
        }
    }

    /// Read an optional domain name: none when only a comment or the line
    /// end follows.
    fn maybe_parse_domain_name(&mut self) -> (r: Result<Option<Name>, RDNSError>)
        requires
            pstate_wf(old(self)@),
        ensures
            ({
                let (q, v) = spec_maybe_parse_domain_name(old(self)@);
                &&& final(self)@ == q
                &&& match r {
                    Ok(Some(n)) => v == Ok::<Option<Seq<u8>>, RDNSError>(Some(n@)),
                    Ok(None) => v == Ok::<Option<Seq<u8>>, RDNSError>(None),
                    Err(e) => v == Err::<Option<Seq<u8>>, RDNSError>(e),
                }
            }),
            pstate_wf(final(self)@),
    {
        self.chomp();
        match self.state.peek_char() {
            None => Ok(None),
            Some(ch) => {
                if ch == SEMICOLON {
                    Ok(None)
                } else {
                    match self.parse_domain_name() {
                        Ok(n) => Ok(Some(n)),
                        Err(e) => Err(e),
                    }
                }
            },
        }
    }

    /// Collect bytes up to the next whitespace or the line end.
    fn take_until_ws(&mut self) -> (t: Vec<u8>)
        requires
            pstate_wf(old(self)@),
        ensures
            (final(self)@, t@) == spec_take_until_ws(old(self)@),
            pstate_wf(final(self)@),
        decreases old(self)@.r.cur.len() - old(self)@.r.pos,
    {
        match self.state.peek_char() {
            None => Vec::new(),
            Some(ch) => {
                if ch == SPACE || ch == TAB {
                    Vec::new()
                } else {
                    self.state.next_char();
                    let mut rest = self.take_until_ws();
                    let mut out: Vec<u8> = Vec::new();
                    out.push(ch);
                    out.append(&mut rest);
                    out
                }
            },
        }
    }

    /// Read the file path named by a directive.
    fn parse_file_name(&mut self) -> (r: Result<Vec<u8>, RDNSError>)
        requires
            pstate_wf(old(self)@),
        ensures
            ({
                let (q, v) = spec_parse_file_name(old(self)@);
                &&& final(self)@ == q
                &&& match r {
                    Ok(path) => v == Ok::<Seq<u8>, RDNSError>(path@),
                    Err(e) => v == Err::<Seq<u8>, RDNSError>(e),
                }
            }),
            pstate_wf(final(self)@),
    {
        let any = self.chomp();
        if !any {
            return Err(
                RDNSError::MasterFileFormatError(
                    FormatIssue::MissingFileNameSeparator,
                    self.state.current_position(),
                ),
            );
        }
        Ok(self.take_until_ws())
    }

    /// Read the letters of a control directive name, after the `$`.
    fn control_name(&mut self) -> (r: Result<Vec<u8>, RDNSError>)
        requires
            pstate_wf(old(self)@),
        ensures
            ({
                let (q, v) = spec_control_name(old(self)@);
                &&& final(self)@ == q
                &&& match r {
                    Ok(w) => v == Ok::<Seq<u8>, RDNSError>(w@),
                    Err(e) => v == Err::<Seq<u8>, RDNSError>(e),
                }
            }),
            pstate_wf(final(self)@),
        decreases old(self)@.r.cur.len() - old(self)@.r.pos,
    {
        match self.state.peek_char() {
            None => Ok(Vec::new()),
            Some(ch) => {
                if ch == SPACE || ch == TAB {
                    Ok(Vec::new())
                } else if NameParser::is_letter(ch) {
                    self.state.next_char();
                    match self.control_name() {
                        Ok(mut rest) => {
                            let mut out: Vec<u8> = Vec::new();
                            out.push(ch);
                            out.append(&mut rest);
                            Ok(out)
                        },
                        Err(e) => Err(e),
                    }
                } else {
                    Err(
                        RDNSError::MasterFileFormatError(
                            FormatIssue::ControlNameNotLetters,
                            self.state.current_position(),
                        ),
                    )
                }
            },
        }
    }

    /// Handle a control directive, starting at its `$`: the origin directive
    /// moves the current origin and yields nothing; the file directive yields
    /// the inclusion entry for the caller to resolve.
    fn parse_control_entry(&mut self) -> (r: Result<Option<ZoneEntry>, RDNSError>)
        requires
            pstate_wf(old(self)@),
        ensures
            ({
                let (q, v) = spec_parse_control_entry(old(self)@);
                &&& final(self)@ == q
                &&& match r {
                    Ok(Some(e)) => v == Ok::<Option<SpecEntry>, RDNSError>(Some(e@)),
                    Ok(None) => v == Ok::<Option<SpecEntry>, RDNSError>(None),
                    Err(e) => v == Err::<Option<SpecEntry>, RDNSError>(e),
                }
            }),
            pstate_wf(final(self)@),
    {
        proof {
            lemma_parse_control_entry(old(self)@);
        }
        self.state.next_char();
        let word = match self.control_name() {
            Ok(w) => w,
            Err(e) => {
                return Err(e);
            },
        };
        if is_origin_word(&word) {
            self.chomp();
            match self.parse_domain_name() {
                Ok(n) => {
                    self.current_origin = n;
                    Ok(None)
                },
                Err(e) => Err(e),
            }
        } else if is_inclusion_word(&word) {
            let path = match self.parse_file_name() {
                Ok(p) => p,
                Err(e) => {
                    return Err(e);
                },
            };
            match self.maybe_parse_domain_name() {
                Err(e) => Err(e),
                Ok(opt) => {
                    let org = match opt {
                        Some(n) => n,
                        None => self.current_origin.clone(),
                    };
                    Ok(Some(ZoneEntry::Inclusion { path, origin: org }))
                },
            }
        } else {
            Err(
                RDNSError::MasterFileFormatError(
                    FormatIssue::UnknownControlDirective,
                    self.state.current_position(),
                ),
            )
        }
    }

    /// Read one part of an IPv4 address together with its separator.
    fn parse_ip_part(&mut self) -> (r: Result<u8, RDNSError>)
        requires
            pstate_wf(old(self)@),
        ensures
            ({
                let (q, v) = spec_ip_part(old(self)@);
                &&& final(self)@ == q
                &&& match r {
                    Ok(x) => v == Ok::<int, RDNSError>(x as int),
                    Err(e) => v == Err::<int, RDNSError>(e),
                }
            }),
            pstate_wf(final(self)@),
    {
        proof {
            lemma_take_digits(old(self)@);
        }
        let ds = self.take_digits();
        match self.state.peek_char() {
            Some(ch) => {
                if ch == DOT || ch == SPACE || ch == TAB {
                    self.state.next_char();
                    match digits_value_capped(&ds, 255) {
                        Some(v) => Ok(v as u8),
                        None => Err(
                            RDNSError::MasterFileFormatError(
                                FormatIssue::InvalidIpPart,
                                self.state.current_position(),
                            ),
                        ),
                    }
                } else {
                    Err(
                        RDNSError::MasterFileFormatError(
                            FormatIssue::InvalidIpFormat,
                            self.state.current_position(),
                        ),
                    )
                }
            },
            None => {
                self.state.next_char();
                match digits_value_capped(&ds, 255) {
                    Some(v) => Ok(v as u8),
                    None => Err(
                        RDNSError::MasterFileFormatError(
                            FormatIssue::InvalidIpPart,
                            self.state.current_position(),
                        ),
                    ),
                }
            },
        }
    }

    /// Read a whole IPv4 address as its four octets.
    fn parse_ip_addr(&mut self) -> (r: Result<[u8; 4], RDNSError>)
        requires
            pstate_wf(old(self)@),
        ensures
            ({
                let (q, v) = spec_parse_ip_addr(old(self)@);
                &&& final(self)@ == q
                &&& match r {
                    Ok(o) => v == Ok::<Seq<u8>, RDNSError>(o@),
                    Err(e) => v == Err::<Seq<u8>, RDNSError>(e),
                }
            }),
            pstate_wf(final(self)@),
    {
        let a = match self.parse_ip_part() {
            Ok(x) => x,
            Err(e) => {
                return Err(e);
            },
        };
        let b = match self.parse_ip_part() {
            Ok(x) => x,
            Err(e) => {
                return Err(e);
            },
        };
        let c = match self.parse_ip_part() {
            Ok(x) => x,
            Err(e) => {
                return Err(e);
            },
        };
        let d = match self.parse_ip_part() {
            Ok(x) => x,
            Err(e) => {
                return Err(e);
            },
        };
        let octets = [a, b, c, d];
        proof {
            assert(octets@ =~= seq![a, b, c, d]);
        }
        Ok(octets)
    }

    /// Step over the glue between record fields: whitespace, parentheses of a
    /// multi-line block, comments and line ends.
    fn parse_common_in_rr(&mut self) -> (r: Result<(), RDNSError>)
        requires
            pstate_wf(old(self)@),
        ensures
            ({
                let (q, v) = spec_parse_common_in_rr(old(self)@);
                &&& final(self)@ == q
                &&& match r {
                    Ok(_) => v == Ok::<(), RDNSError>(()),
                    Err(e) => v == Err::<(), RDNSError>(e),
                }
            }),
            pstate_wf(final(self)@),
        decreases old(self)@.r.cur.len() - old(self)@.r.pos,
    {
        proof {
            lemma_chomp_line(old(self)@);
        }
        self.chomp();
        match self.state.peek_char() {
            Some(ch) => {
                if ch == LPAREN {
                    if self.multiline {
                        Err(
                            RDNSError::MasterFileFormatError(
                                FormatIssue::NestedMultiline,
                                self.state.current_position(),
                            ),
                        )
                    } else {
                        self.state.next_char();
                        self.multiline = true;
                        self.parse_common_in_rr()
                    }
                } else if ch == RPAREN {
                    if !self.multiline {
                        Err(
                            RDNSError::MasterFileFormatError(
                                FormatIssue::NotInMultiline,
                                self.state.current_position(),
                            ),
                        )
                    } else {
                        self.state.next_char();
                        self.multiline = false;
                        Ok(())
                    }
                } else if ch == SEMICOLON {
                    self.state.next_line();
                    self.chomp();
                    Ok(())
                } else {
                    Ok(())
                }
            },
            None => {
                self.state.next_line();
                self.chomp();
                Ok(())
            },
        }
    }

    /// Whitespace glue, then one domain name of an SOA payload.
    fn soa_name(&mut self) -> (r: Result<Name, RDNSError>)
        requires
            pstate_wf(old(self)@),
        ensures
            ({
                let (q, v) = spec_soa_name(old(self)@);
                &&& final(self)@ == q
                &&& match r {
                    Ok(n) => v == Ok::<Seq<u8>, RDNSError>(n@),
                    Err(e) => v == Err::<Seq<u8>, RDNSError>(e),
                }
            }),
            pstate_wf(final(self)@),
    {
        match self.parse_common_in_rr() {
            Err(e) => Err(e),
            Ok(_) => self.parse_domain_name(),
        }
    }

    /// Whitespace glue, then one counter of an SOA payload that fits an `u32`.
    fn soa_number_u32(&mut self) -> (r: Result<u32, RDNSError>)
        requires
            pstate_wf(old(self)@),
        ensures
            ({
                let (q, v) = spec_soa_number(old(self)@, u32::MAX as int);
                &&& final(self)@ == q
                &&& match r {
                    Ok(x) => v == Ok::<int, RDNSError>(x as int),
                    Err(e) => v == Err::<int, RDNSError>(e),
                }
            }),
            pstate_wf(final(self)@),
    {
        match self.parse_common_in_rr() {
            Err(e) => Err(e),
            Ok(_) => self.parse_number_u32(),
        }
    }

    /// Whitespace glue, then one counter of an SOA payload that fits an `i32`.
    fn soa_number_i32(&mut self) -> (r: Result<i32, RDNSError>)
        requires
            pstate_wf(old(self)@),
        ensures
            ({
                let (q, v) = spec_soa_number(old(self)@, i32::MAX as int);
                &&& final(self)@ == q
                &&& match r {
                    Ok(x) => v == Ok::<int, RDNSError>(x as int),
                    Err(e) => v == Err::<int, RDNSError>(e),
                }
            }),
            pstate_wf(final(self)@),
    {
        match self.parse_common_in_rr() {
            Err(e) => Err(e),
            Ok(_) => self.parse_number_i32(),
        }
    }

    /// Read an SOA payload: two names, then the five counters.
    fn parse_soa(&mut self) -> (r: Result<SOAResourceData, RDNSError>)
        requires
            pstate_wf(old(self)@),
        ensures
            ({
                let (q, v) = spec_parse_soa(old(self)@);
                &&& final(self)@ == q
                &&& match r {
                    Ok(d) => v == Ok::<SpecSoaData, RDNSError>(d@),
                    Err(e) => v == Err::<SpecSoaData, RDNSError>(e),
                }
            }),
            pstate_wf(final(self)@),
    {
        let primary_name = match self.soa_name() {
            Ok(n) => n,
            Err(e) => {
                return Err(e);
            },
        };
        let responsible_name = match self.soa_name() {
            Ok(n) => n,
            Err(e) => {
                return Err(e);
            },
        };
        let serial = match self.soa_number_u32() {
            Ok(x) => x,
            Err(e) => {
                return Err(e);
            },
        };
        let refresh = match self.soa_number_i32() {
            Ok(x) => x,
            Err(e) => {
                return Err(e);
            },
        };
        let retry = match self.soa_number_i32() {
            Ok(x) => x,
            Err(e) => {
                return Err(e);
            },
        };
        let expire = match self.soa_number_i32() {
            Ok(x) => x,
            Err(e) => {
                return Err(e);
            },
        };
        let minimum = match self.soa_number_u32() {
            Ok(x) => x,
            Err(e) => {
                return Err(e);
            },
        };
        Ok(
            SOAResourceData {
                primary_name,
                responsible_name,
                serial,
                refresh,
                retry,
                expire,
                minimum,
            },
        )
    }

    /// Read the rdata for a TYPE and finish the record with the current owner
    /// name.
    fn rr_finish(&mut self, ttl: Option<i32>, rt: Option<RRType<u16>>, class: RRClass<u16>) -> (r:
        Result<ResourceRecord, RDNSError>)
        requires
            pstate_wf(old(self)@),
        ensures
            ({
                let (q, v) = spec_rr_finish(old(self)@, opt_ttl_view(ttl), rt, class);
                &&& final(self)@ == q
                &&& match r {
                    Ok(rec) => v == Ok::<SpecRecord, RDNSError>(rec@),
                    Err(e) => v == Err::<SpecRecord, RDNSError>(e),
                }
            }),
            pstate_wf(final(self)@),
    {
        let rdata = match rt {
            Some(RRType::A) => {
                match self.parse_ip_addr() {
                    Ok(octets) => ResourceData::Alias(AliasResourceData(octets)),
                    Err(e) => {
                        return Err(e);
                    },
                }
            },
            Some(RRType::NS) => {
                match self.parse_domain_name() {
                    Ok(n) => ResourceData::NameServer(NameServerResourceData(n)),
                    Err(e) => {
                        return Err(e);
                    },
                }
            },
            Some(RRType::CNAME) => {
                match self.parse_domain_name() {
                    Ok(n) => ResourceData::CName(CNameResourceData(n)),
                    Err(e) => {
                        return Err(e);
                    },
                }
            },
            Some(RRType::SOA) => {
                match self.parse_soa() {
                    Ok(d) => ResourceData::Soa(d),
                    Err(e) => {
                        return Err(e);
                    },
                }
            },
            Some(_) => {
                return Err(
                    RDNSError::MasterFileFormatError(
                        FormatIssue::UnknownRRType,
                        self.state.current_position(),
                    ),
                );
            },
            None => {
                return Err(
                    RDNSError::MasterFileFormatError(
                        FormatIssue::MissingRRType,
                        self.state.current_position(),
                    ),
                );
            },
        };
        let name = match &self.current_name {
            Some(n) => n.clone(),
            None => {
                return Err(
                    RDNSError::MasterFileFormatError(
                        FormatIssue::NoOwnerName,
                        self.state.current_position(),
                    ),
                );
            },
        };
        Ok(
            ResourceRecord {
                name,
                rr_type: match rt {
                    Some(t) => t,
                    None => RRType::UNKNOWN(0),
                },
                class,
                ttl: match ttl {
                    Some(v) => v,
                    None => 0,
                },
                rdata,
            },
        )
    }

    /// Read the TYPE token (and a TTL that may still precede it) when the
    /// first token did not already name the TYPE.
    fn rr_second_token(&mut self, ttl0: Option<i32>, rt0: Option<RRType<u16>>) -> (r: Result<
        (Option<i32>, Option<RRType<u16>>),
        RDNSError,
    >)
        requires
            pstate_wf(old(self)@),
        ensures
            ({
                let (q, v) = spec_rr_second_token(old(self)@, opt_ttl_view(ttl0), rt0);
                &&& final(self)@ == q
                &&& match r {
                    Ok(pair) => v == Ok::<(Option<int>, Option<RRType<u16>>), RDNSError>(
                        (opt_ttl_view(pair.0), pair.1),
                    ),
                    Err(e) => v == Err::<(Option<int>, Option<RRType<u16>>), RDNSError>(e),
                }
            }),
            pstate_wf(final(self)@),
    {
        if needs_type_token_exec(&rt0) {
            let ttl1 = match ttl0 {
                None => {
                    let t = match self.try_parse_ttl() {
                        Ok(t) => t,
                        Err(e) => {
                            return Err(e);
                        },
                    };
                    self.chomp();
                    t
                },
                Some(v) => Some(v),
            };
            let text2 = self.get_text();
            let rt = RRType::from_mnemonic(&text2);
            self.chomp();
            Ok((ttl1, Some(rt)))
        } else {
            Ok((ttl0, rt0))
        }
    }

    /// Read one resource record from its optional TTL and CLASS onwards,
    /// reusing the current owner name.
    fn parse_rr(&mut self) -> (r: Result<ResourceRecord, RDNSError>)
        requires
            pstate_wf(old(self)@),
        ensures
            ({
                let (q, v) = spec_parse_rr(old(self)@);
                &&& final(self)@ == q
                &&& match r {
                    Ok(rec) => v == Ok::<SpecRecord, RDNSError>(rec@),
                    Err(e) => v == Err::<SpecRecord, RDNSError>(e),
                }
            }),
            pstate_wf(final(self)@),
    {
        let ttl0 = match self.try_parse_ttl() {
            Ok(t) => t,
            Err(e) => {
                return Err(e);
            },
        };
        self.chomp();
        let text = self.get_text();
        let class0 = RRClass::from_mnemonic(&text);
        self.chomp();
        let rt0: Option<RRType<u16>> = if class_unset_exec(&class0) {
            Some(RRType::from_mnemonic(&text))
        } else {
            None
        };
        let pair = match self.rr_second_token(ttl0, rt0) {
            Ok(p) => p,
            Err(e) => {
                return Err(e);
            },
        };
        let (ttl1, rt1) = pair;
        if class_unset_exec(&class0) && !class_unset_exec(&self.current_class) {
            let c = self.current_class;
            self.rr_finish(ttl1, rt1, c)
        } else if class_unset_exec(&class0) {
            Err(
                RDNSError::MasterFileFormatError(
                    FormatIssue::NoClass,
                    self.state.current_position(),
                ),
            )
        } else if class_unset_exec(&self.current_class) {
            self.current_class = class0;
            self.rr_finish(ttl1, rt1, class0)
        } else if !(class0 == self.current_class) {
            Err(
                RDNSError::MasterFileFormatError(
                    FormatIssue::MultipleClasses,
                    self.state.current_position(),
                ),
            )
        } else {
            self.rr_finish(ttl1, rt1, class0)
        }
    }

    /// Read the owner name that begins a line, then the record it owns.
    fn parse_name_and_rr(&mut self) -> (r: Result<ResourceRecord, RDNSError>)
        requires
            pstate_wf(old(self)@),
        ensures
            ({
                let (q, v) = spec_parse_name_and_rr(old(self)@);
                &&& final(self)@ == q
                &&& match r {
                    Ok(rec) => v == Ok::<SpecRecord, RDNSError>(rec@),
                    Err(e) => v == Err::<SpecRecord, RDNSError>(e),
                }
            }),
            pstate_wf(final(self)@),
    {
        proof {
            lemma_parse_domain_name(old(self)@);
        }
        match self.parse_domain_name() {
            Err(e) => Err(e),
            Ok(n) => {
                self.current_name = Some(n);
                self.chomp();
                self.parse_rr()
            },
        }
    }

    /// Handle the rest of the current physical line.
    fn line_step(&mut self, start_of_line: bool) -> (r: Result<Vec<ZoneEntry>, RDNSError>)
        requires
            pstate_wf(old(self)@),
        ensures
            ({
                let (q, v) = spec_line_step(old(self)@, start_of_line);
                &&& final(self)@ == q
                &&& match r {
                    Ok(es) => v == Ok::<Seq<SpecEntry>, RDNSError>(entries_view(es@)),
                    Err(e) => v == Err::<Seq<SpecEntry>, RDNSError>(e),
                }
            }),
            pstate_wf(final(self)@),
        decreases old(self)@.r.cur.len() - old(self)@.r.pos,
    {
        match self.state.peek_char() {
            None => {
                let out: Vec<ZoneEntry> = Vec::new();
                proof {
                    assert(entries_view(out@) =~= Seq::<SpecEntry>::empty());
                }
                Ok(out)
            },
            Some(ch) => {
                if ch == SPACE || ch == TAB {
                    self.state.next_char();
                    self.line_step(false)
                } else if ch == SEMICOLON {
                    let out: Vec<ZoneEntry> = Vec::new();
                    proof {
                        assert(entries_view(out@) =~= Seq::<SpecEntry>::empty());
                    }
                    Ok(out)
                } else if ch == DOLLAR {
                    proof {
                        lemma_parse_control_entry(old(self)@);
                    }
                    let opt = match self.parse_control_entry() {
                        Ok(o) => o,
                        Err(e) => {
                            return Err(e);
                        },
                    };
                    match self.line_step(start_of_line) {
                        Err(e) => Err(e),
                        Ok(mut rest) => {
                            let ghost rest_v = rest@;
                            let mut out: Vec<ZoneEntry> = Vec::new();
                            let ghost first: Seq<SpecEntry> = match &opt {
                                Some(e) => seq![e@],
                                None => Seq::empty(),
                            };
                            match opt {
                                Some(e) => out.push(e),
                                None => (),
                            };
                            out.append(&mut rest);
                            proof {
                                assert(entries_view(out@) =~= first + entries_view(rest_v));
                            }
                            Ok(out)
                        },
                    }
                } else {
                    let step = if start_of_line {
                        self.parse_name_and_rr()
                    } else {
                        self.parse_rr()
                    };
                    match step {
                        Err(e) => Err(e),
                        Ok(record) => {
                            let ghost rv = record@;
                            let mut out: Vec<ZoneEntry> = Vec::new();
                            out.push(ZoneEntry::Record(record));
                            proof {
                                assert(entries_view(out@) =~= seq![
                                    SpecEntry::Record { record: rv },
                                ]);
                            }
                            Ok(out)
                        },
                    }
                }
            },
        }
    }

    /// Handle every line of the file in order, accumulating the entries.
    fn run(&mut self) -> (r: Result<Vec<ZoneEntry>, RDNSError>)
        requires
            pstate_wf(old(self)@),
        ensures
            ({
                let (q, v) = spec_run(old(self)@);
                &&& final(self)@ == q
                &&& match r {
                    Ok(es) => v == Ok::<Seq<SpecEntry>, RDNSError>(entries_view(es@)),
                    Err(e) => v == Err::<Seq<SpecEntry>, RDNSError>(e),
                }
            }),
            pstate_wf(final(self)@),
        decreases old(self)@.r.lines.len() - old(self)@.r.next,
    {
        proof {
            lemma_line_step(old(self)@, true);
        }
        let mut es = match self.line_step(true) {
            Ok(es) => es,
            Err(e) => {
                return Err(e);
            },
        };
        if self.state.next_line() {
            match self.run() {
                Err(e) => Err(e),
                Ok(mut rest) => {
                    let ghost es_v = es@;
                    let ghost rest_v = rest@;
                    es.append(&mut rest);
                    proof {
                        assert(entries_view(es@) =~= entries_view(es_v) + entries_view(rest_v));
                    }
                    Ok(es)
                },
            }
        } else {
            Ok(es)
        }
    }

    /// Parse a whole master file, given as its lines, under the given origin.
    /// The entries come back in file-encounter order: finished records, and
    /// one inclusion entry for each file directive, which the caller resolves
    /// by parsing that file under the entry's origin and splicing its records
    /// in at the entry's place.
    pub fn parse(lines: Vec<Vec<u8>>, origin: Name) -> (r: Result<Vec<ZoneEntry>, RDNSError>)
        ensures
            ({
                let (q, v) = spec_run(spec_parser_init(lines.deep_view(), origin@));
                match r {
                    Ok(es) => v == Ok::<Seq<SpecEntry>, RDNSError>(entries_view(es@)),
                    Err(e) => v == Err::<Seq<SpecEntry>, RDNSError>(e),
                }
            }),
    {
        let mut parser = TxtConfigParser::new(lines, origin);
        parser.run()
    }
}

} // verus!
