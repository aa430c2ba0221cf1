//! Parsing of store conflict diagnostics.
//!
//! When an insert violates the range-overlap exclusion rule, the store attaches
//! a human-readable diagnostic of the shape
//! `(key1, key2)=(value1, [value2...)) ... (key1, key2)=(value1, [value2...))`,
//! the first clause describing the rejected row and the second the existing row
//! it collided with.  The diagnostic text is not a stable contract, so parsing
//! is best effort: any input that does not yield exactly two such clauses with
//! a resource identifier and a well-formed quoted timestamp range degrades to
//! [`ReservationConflictInfo::Unparsed`], never to a hard failure.
//!
//! The grammar of one clause is given by the spec functions in this module:
//! an opening parenthesis, a key word, a comma (with optional surrounding
//! whitespace), a second key word, then `)=(`, a value word, a comma, and a
//! bracketed value running up to the first `)` or `]`.  Words are runs of
//! ASCII letters, digits, `-` and `_`.

use vstd::prelude::*;
use vstd::seq_lib::*;
use vstd::string::*;

use crate::timestamp::DateTimeUtc;

verus! {

// ------------------------------------------------------------------
// Character classes and runs
// ------------------------------------------------------------------

/// A word character: ASCII letter, digit, `-` or `_`.
pub open spec fn is_word_char(c: char) -> bool {
    ('a' as u32 <= c as u32 && c as u32 <= 'z' as u32) || ('A' as u32 <= c as u32 && c as u32
        <= 'Z' as u32) || ('0' as u32 <= c as u32 && c as u32 <= '9' as u32) || c == '-' || c == '_'
}

/// A whitespace character permitted around the comma between two keys or
/// two values.
pub open spec fn is_space_char(c: char) -> bool {
    c == ' ' || c == '\t' || c == '\n' || c == '\r' || c == '\u{b}' || c == '\u{c}'
}

/// A character permitted inside the bracketed value: anything but the
/// delimiters `)` and `]` that close it.
pub open spec fn is_value_char(c: char) -> bool {
    c != ')' && c != ']'
}

pub open spec fn word_class() -> spec_fn(char) -> bool {
    |c: char| is_word_char(c)
}

pub open spec fn space_class() -> spec_fn(char) -> bool {
    |c: char| is_space_char(c)
}

pub open spec fn value_class() -> spec_fn(char) -> bool {
    |c: char| is_value_char(c)
}

pub open spec fn non_comma_class() -> spec_fn(char) -> bool {
    |c: char| c != ','
}

pub open spec fn non_quote_class() -> spec_fn(char) -> bool {
    |c: char| c != '"'
}

/// The end of the maximal run of characters satisfying `f` that starts at
/// `i`: the first position at or after `i` whose character fails `f`, or the
/// end of the sequence.
pub open spec fn run_end(s: Seq<char>, i: int, f: spec_fn(char) -> bool) -> int
    decreases s.len() - i,
{
    if !(0 <= i < s.len()) {
        i
    } else if !f(s[i]) {
        i
    } else {
        run_end(s, i + 1, f)
    }
}

/// A maximal run stays within the sequence, every character in it satisfies
/// `f`, and the character just past it (if any) does not.
pub proof fn lemma_run_end(s: Seq<char>, i: int, f: spec_fn(char) -> bool)
    requires
        0 <= i <= s.len(),
    ensures
        i <= run_end(s, i, f) <= s.len(),
        forall|j: int| i <= j < run_end(s, i, f) ==> f(s[j]),
        run_end(s, i, f) < s.len() ==> !f(s[run_end(s, i, f)]),
    decreases s.len() - i,
{
    if i < s.len() && f(s[i]) {
        lemma_run_end(s, i + 1, f);
    }
}

// ------------------------------------------------------------------
// One clause of the diagnostic
// ------------------------------------------------------------------

/// The captures of one clause: the two keys, the two values, and the position
/// just past the clause.
pub ghost struct MatchRec {
    pub k1: Seq<char>,
    pub k2: Seq<char>,
    pub v1: Seq<char>,
    pub v2: Seq<char>,
    pub end: int,
}

/// The clause starting exactly at position `i`, if the text from `i` on has
/// the shape `(k1 , k2)=(v1 , [v2` with maximal-run captures.
pub open spec fn match_at(s: Seq<char>, i: int) -> Option<MatchRec> {
    if !(0 <= i < s.len() && s[i] == '(') {
        None
    } else {
        let k1s = i + 1;
        let k1e = run_end(s, k1s, word_class());
        if k1e == k1s {
            None
        } else {
            let c1 = run_end(s, k1e, space_class());
            if !(c1 < s.len() && s[c1] == ',') {
                None
            } else {
                let k2s = run_end(s, c1 + 1, space_class());
                let k2e = run_end(s, k2s, word_class());
                if k2e == k2s {
                    None
                } else if !(k2e + 2 < s.len() && s[k2e] == ')' && s[k2e + 1] == '=' && s[k2e + 2]
                    == '(') {
                    None
                } else {
                    let v1s = k2e + 3;
                    let v1e = run_end(s, v1s, word_class());
                    if v1e == v1s {
                        None
                    } else {
                        let c2 = run_end(s, v1e, space_class());
                        if !(c2 < s.len() && s[c2] == ',') {
                            None
                        } else {
                            let br = run_end(s, c2 + 1, space_class());
                            if !(br < s.len() && s[br] == '[') {
                                None
                            } else {
                                let v2s = br + 1;
                                let v2e = run_end(s, v2s, value_class());
                                if v2e == v2s {
                                    None
                                } else {
                                    Some(
                                        MatchRec {
                                            k1: s.subrange(k1s, k1e),
                                            k2: s.subrange(k2s, k2e),
                                            v1: s.subrange(v1s, v1e),
                                            v2: s.subrange(v2s, v2e),
                                            end: v2e,
                                        },
                                    )
                                }
                            }
                        }
                    }
                }
            }
        }
    }
}

/// All clauses of the text, found left to right without overlap: at each
/// position the clause starting there is taken if one exists, and the search
/// resumes just past it.
pub open spec fn matches_from(s: Seq<char>, i: int) -> Seq<MatchRec>
    decreases s.len() - i,
{
    if !(0 <= i < s.len()) {
        Seq::empty()
    } else {
        match match_at(s, i) {
            Some(m) => {
                let next = if i < m.end <= s.len() {
                    m.end
                } else {
                    i + 1
                };
                seq![m] + matches_from(s, next)
            },
            None => matches_from(s, i + 1),
        }
    }
}

// ------------------------------------------------------------------
// From clauses to windows
// ------------------------------------------------------------------

/// The key naming the resource identifier field of a clause.
pub open spec fn resource_id_key() -> Seq<char> {
    seq!['r', 'e', 's', 'o', 'u', 'r', 'c', 'e', '_', 'i', 'd']
}

/// The key naming the timestamp-range field of a clause.
pub open spec fn timespan_key() -> Seq<char> {
    seq!['t', 'i', 'm', 'e', 's', 'p', 'a', 'n']
}

/// The two key/value pairs of one clause.
pub ghost struct FieldsModel {
    pub k1: Seq<char>,
    pub v1: Seq<char>,
    pub k2: Seq<char>,
    pub v2: Seq<char>,
}

pub open spec fn fields_of_match(m: MatchRec) -> FieldsModel {
    FieldsModel { k1: m.k1, v1: m.v1, k2: m.k2, v2: m.v2 }
}

/// The value stored under `key`, the second pair taking precedence when both
/// keys are equal, as a later insert into a key/value map would.
pub open spec fn field_value(f: FieldsModel, key: Seq<char>) -> Option<Seq<char>> {
    if f.k2 == key {
        Some(f.v2)
    } else if f.k1 == key {
        Some(f.v1)
    } else {
        None
    }
}

/// One side of a conflict, as mathematical values.
pub ghost struct WindowModel {
    pub rid: Seq<char>,
    pub start: i64,
    pub end: i64,
}

/// A parsed conflict: the rejected window and the existing one.
pub ghost struct ConflictModel {
    pub new: WindowModel,
    pub old: WindowModel,
}

/// What the timestamp parser returns for a given piece of text: the seconds
/// since the Unix epoch of the instant written there in the store's
/// offset-aware format, normalized to UTC, or nothing when the text is not a
/// timestamp of that format.  The result depends on the text alone; it is
/// computed by [`parse_date`].
pub uninterp spec fn date_seconds_of(s: Seq<char>) -> Option<i64>;

/// The window described by one clause's fields: its resource identifier and
/// its quoted timestamp range, with every `"` removed, split at the first
/// comma, both halves read as timestamps.
pub open spec fn window_of_fields(f: FieldsModel) -> Option<WindowModel> {
    match (field_value(f, resource_id_key()), field_value(f, timespan_key())) {
        (Some(rid), Some(ts)) => {
            let cleaned = ts.filter(non_quote_class());
            let cp = run_end(cleaned, 0, non_comma_class());
            if cp >= cleaned.len() {
                None
            } else {
                let start_txt = cleaned.subrange(0, cp);
                let end_txt = cleaned.subrange(cp + 1, cleaned.len() as int);
                match (date_seconds_of(start_txt), date_seconds_of(end_txt)) {
                    (Some(a), Some(b)) => Some(WindowModel { rid: rid, start: a, end: b }),
                    _ => None,
                }
            }
        },
        _ => None,
    }
}

/// The two clauses of a diagnostic, when it has exactly two.
pub open spec fn parse_info_of(s: Seq<char>) -> Option<(FieldsModel, FieldsModel)> {
    let ms = matches_from(s, 0);
    if ms.len() != 2 {
        None
    } else {
        Some((fields_of_match(ms[0]), fields_of_match(ms[1])))
    }
}

/// The structured conflict a diagnostic describes, when it parses.
pub open spec fn conflict_of(s: Seq<char>) -> Option<ConflictModel> {
    match parse_info_of(s) {
        Some(p) => match (window_of_fields(p.0), window_of_fields(p.1)) {
            (Some(n), Some(o)) => Some(ConflictModel { new: n, old: o }),
            _ => None,
        },
        None => None,
    }
}

// ------------------------------------------------------------------
// Public value types
// ------------------------------------------------------------------

/// One side of a conflict: the resource and the half-open window `[start, end)`.
#[derive(Clone, Debug)]
pub struct ReservationWindow {
    pub rid: String,
    pub start: DateTimeUtc,
    pub end: DateTimeUtc,
}

impl View for ReservationWindow {
    type V = WindowModel;

    open spec fn view(&self) -> WindowModel {
        WindowModel { rid: self.rid@, start: self.start.seconds, end: self.end.seconds }
    }
}

impl PartialEq for ReservationWindow {
    fn eq(&self, other: &ReservationWindow) -> bool {
        self.rid == other.rid && self.start == other.start && self.end == other.end
    }
}

impl vstd::std_specs::cmp::PartialEqSpecImpl for ReservationWindow {
    open spec fn obeys_eq_spec() -> bool {
        true
    }

    open spec fn eq_spec(&self, other: &ReservationWindow) -> bool {
        self@ == other@
    }
}

/// The rejected incoming window and the existing window it collided with.
#[derive(Clone, Debug)]
pub struct ReservationConflict {
    pub new: ReservationWindow,
    pub old: ReservationWindow,
}

impl View for ReservationConflict {
    type V = ConflictModel;

    open spec fn view(&self) -> ConflictModel {
        ConflictModel { new: self.new@, old: self.old@ }
    }
}

impl PartialEq for ReservationConflict {
    fn eq(&self, other: &ReservationConflict) -> bool {
        self.new == other.new && self.old == other.old
    }
}

impl vstd::std_specs::cmp::PartialEqSpecImpl for ReservationConflict {
    open spec fn obeys_eq_spec() -> bool {
        true
    }

    open spec fn eq_spec(&self, other: &ReservationConflict) -> bool {
        self@ == other@
    }
}

/// A conflict diagnostic, either parsed into structure or preserved verbatim.
#[derive(Clone, Debug)]
pub enum ReservationConflictInfo {
    Parsed(ReservationConflict),
    Unparsed(String),
}

/// `info` is what best-effort parsing of the diagnostic text `detail`
/// yields: the structured conflict when the text parses, the verbatim text
/// otherwise.
pub open spec fn parsed_best_effort(info: ReservationConflictInfo, detail: Seq<char>) -> bool {
    match conflict_of(detail) {
        Some(c) => info matches ReservationConflictInfo::Parsed(rc) && rc@ == c,
        None => info matches ReservationConflictInfo::Unparsed(raw) && raw@ == detail,
    }
}

impl PartialEq for ReservationConflictInfo {
    fn eq(&self, other: &ReservationConflictInfo) -> bool {
        match (self, other) {
            (ReservationConflictInfo::Parsed(a), ReservationConflictInfo::Parsed(b)) => *a == *b,
            (ReservationConflictInfo::Unparsed(x), ReservationConflictInfo::Unparsed(y)) => *x
                == *y,
            _ => false,
        }
    }
}

impl vstd::std_specs::cmp::PartialEqSpecImpl for ReservationConflictInfo {
    open spec fn obeys_eq_spec() -> bool {
        true
    }

    open spec fn eq_spec(&self, other: &ReservationConflictInfo) -> bool {
        match (self, other) {
            (ReservationConflictInfo::Parsed(a), ReservationConflictInfo::Parsed(b)) => a@ == b@,
            (ReservationConflictInfo::Unparsed(x), ReservationConflictInfo::Unparsed(y)) => x@
                == y@,
            _ => false,
        }
    }
}

/// The two key/value pairs captured from one clause.
#[derive(Clone, Debug)]
pub struct DiagnosticFields {
    pub k1: String,
    pub v1: String,
    pub k2: String,
    pub v2: String,
}

impl View for DiagnosticFields {
    type V = FieldsModel;

    open spec fn view(&self) -> FieldsModel {
        FieldsModel { k1: self.k1@, v1: self.v1@, k2: self.k2@, v2: self.v2@ }
    }
}

impl DiagnosticFields {
    /// The value stored under `key`, the second pair taking precedence, as in
    /// a key/value map filled pair by pair.
    pub fn get(&self, key: &str) -> (r: Option<String>)
        ensures
            match field_value(self@, key@) {
                Some(v) => r matches Some(t) && t@ == v,
                None => r is None,
            },
    {
        let k: String = key.to_owned();
        if self.k2 == k {
            Some(self.v2.clone())
        } else if self.k1 == k {
            Some(self.v1.clone())
        } else {
            None
        }
    }
}

/// The raw captures of a diagnostic with exactly two clauses.
#[derive(Clone, Debug)]
pub struct ParseInfo {
    pub new: DiagnosticFields,
    pub old: DiagnosticFields,
}

// ------------------------------------------------------------------
// Executable scanning
// ------------------------------------------------------------------

fn word_char(c: char) -> (b: bool)
    ensures
        b == is_word_char(c),
{
    ('a' as u32 <= c as u32 && c as u32 <= 'z' as u32) || ('A' as u32 <= c as u32 && c as u32
        <= 'Z' as u32) || ('0' as u32 <= c as u32 && c as u32 <= '9' as u32) || c == '-' || c == '_'
}

fn space_char(c: char) -> (b: bool)
    ensures
        b == is_space_char(c),
{
    c == ' ' || c == '\t' || c == '\n' || c == '\r' || c == '\u{b}' || c == '\u{c}'
}

fn value_char(c: char) -> (b: bool)
    ensures
        b == is_value_char(c),
{
    c != ')' && c != ']'
}

/// The characters of `s`, in order.
pub(crate) fn chars_of(s: &str) -> (v: Vec<char>)
    ensures
        v@ == s@,
{
    let n = s.unicode_len();
    let mut v: Vec<char> = Vec::new();
    let mut i: usize = 0;
    while i < n
        invariant
            n == s@.len(),
            i <= n,
            v@ == s@.subrange(0, i as int),
        decreases n - i,
    {
        let c = s.get_char(i);
        v.push(c);
        proof {
            assert(s@.subrange(0, i as int).push(s@[i as int]) =~= s@.subrange(0, i + 1 as int));
        }
        i = i + 1;
    }
    proof {
        assert(v@ =~= s@);
    }
    v
}

fn word_run(v: &Vec<char>, i: usize) -> (r: usize)
    requires
        i <= v@.len(),
    ensures
        r == run_end(v@, i as int, word_class()),
        i <= r <= v@.len(),
{
    let mut j = i;
    while j < v.len() && word_char(v[j])
        invariant
            i <= j <= v@.len(),
            run_end(v@, i as int, word_class()) == run_end(v@, j as int, word_class()),
        decreases v@.len() - j,
    {
        j = j + 1;
    }
    j
}

fn space_run(v: &Vec<char>, i: usize) -> (r: usize)
    requires
        i <= v@.len(),
    ensures
        r == run_end(v@, i as int, space_class()),
        i <= r <= v@.len(),
{
    let mut j = i;
    while j < v.len() && space_char(v[j])
        invariant
            i <= j <= v@.len(),
            run_end(v@, i as int, space_class()) == run_end(v@, j as int, space_class()),
        decreases v@.len() - j,
    {
        j = j + 1;
    }
    j
}

fn value_run(v: &Vec<char>, i: usize) -> (r: usize)
    requires
        i <= v@.len(),
    ensures
        r == run_end(v@, i as int, value_class()),
        i <= r <= v@.len(),
{
    let mut j = i;
    while j < v.len() && value_char(v[j])
        invariant
            i <= j <= v@.len(),
            run_end(v@, i as int, value_class()) == run_end(v@, j as int, value_class()),
        decreases v@.len() - j,
    {
        j = j + 1;
    }
    j
}

fn non_comma_run(v: &Vec<char>, i: usize) -> (r: usize)
    requires
        i <= v@.len(),
    ensures
        r == run_end(v@, i as int, non_comma_class()),
        i <= r <= v@.len(),
{
    let mut j = i;
    while j < v.len() && v[j] != ','
        invariant
            i <= j <= v@.len(),
            run_end(v@, i as int, non_comma_class()) == run_end(v@, j as int, non_comma_class()),
        decreases v@.len() - j,
    {
        j = j + 1;
    }
    j
}

/// The capture positions of one clause found in the text.
struct RawMatch {
    k1s: usize,
    k1e: usize,
    k2s: usize,
    k2e: usize,
    v1s: usize,
    v1e: usize,
    v2s: usize,
    v2e: usize,
}

spec fn raw_wf(s: Seq<char>, m: RawMatch) -> bool {
    m.k1s <= m.k1e <= s.len() && m.k2s <= m.k2e <= s.len() && m.v1s <= m.v1e <= s.len() && m.v2s
        <= m.v2e <= s.len()
}

spec fn raw_model(s: Seq<char>, m: RawMatch) -> MatchRec {
    MatchRec {
        k1: s.subrange(m.k1s as int, m.k1e as int),
        k2: s.subrange(m.k2s as int, m.k2e as int),
        v1: s.subrange(m.v1s as int, m.v1e as int),
        v2: s.subrange(m.v2s as int, m.v2e as int),
        end: m.v2e as int,
    }
}

fn try_match(v: &Vec<char>, i: usize) -> (r: Option<RawMatch>)
    requires
        i < v@.len(),
    ensures
        match r {
            Some(m) => match_at(v@, i as int) == Some(raw_model(v@, m)) && raw_wf(v@, m) && i
                < m.v2e <= v@.len(),
            None => match_at(v@, i as int) is None,
        },
{
    let n = v.len();
    if v[i] != '(' {
        return None;
    }
    let k1s = i + 1;
    let k1e = word_run(v, k1s);
    if k1e == k1s {
        return None;
    }
    let c1 = space_run(v, k1e);
    if !(c1 < v.len() && v[c1] == ',') {
        return None;
    }
    let k2s = space_run(v, c1 + 1);
    let k2e = word_run(v, k2s);
    if k2e == k2s {
        return None;
    }
    if v.len() - k2e < 3 {
        return None;
    }
    if !(v[k2e] == ')' && v[k2e + 1] == '=' && v[k2e + 2] == '(') {
        return None;
    }
    let v1s = k2e + 3;
    let v1e = word_run(v, v1s);
    if v1e == v1s {
        return None;
    }
    let c2 = space_run(v, v1e);
    if !(c2 < v.len() && v[c2] == ',') {
        return None;
    }
    let br = space_run(v, c2 + 1);
    if !(br < v.len() && v[br] == '[') {
        return None;
    }
    let v2s = br + 1;
    let v2e = value_run(v, v2s);
    if v2e == v2s {
        return None;
    }
    Some(RawMatch { k1s, k1e, k2s, k2e, v1s, v1e, v2s, v2e })
}

/// The elements of `v` from `a` (inclusive) to `b` (exclusive), in order.
fn subvec(v: &Vec<char>, a: usize, b: usize) -> (r: Vec<char>)
    requires
        a <= b <= v@.len(),
    ensures
        r@ == v@.subrange(a as int, b as int),
{
    let mut r: Vec<char> = Vec::new();
    let mut i = a;
    while i < b
        invariant
            a <= i <= b <= v@.len(),
            r@ == v@.subrange(a as int, i as int),
        decreases b - i,
    {
        r.push(v[i]);
        proof {
            assert(v@.subrange(a as int, i as int).push(v@[i as int]) =~= v@.subrange(
                a as int,
                i + 1 as int,
            ));
        }
        i = i + 1;
    }
    r
}

/// Relies on chrono's `DateTime::parse_from_str` with the offset-aware format
/// `%Y-%m-%d %H:%M:%S%#z`, and on `DateTime::timestamp`.  Both compute from
/// their arguments alone, so the result is named by [`date_seconds_of`].
#[verifier::external_body]
fn parse_offset_datetime(chars: &Vec<char>) -> (r: Option<i64>)
    ensures
        r == date_seconds_of(chars@),
{
    let s: String = chars.iter().collect();
    match chrono::DateTime::parse_from_str(&s, "%Y-%m-%d %H:%M:%S%#z") {
        Ok(d) => Some(d.timestamp()),
        Err(_) => None,
    }
}

/// Reads a timestamp in the store's offset-aware format, normalized to UTC.
pub fn parse_date(s: &str) -> (r: Option<DateTimeUtc>)
    ensures
        match date_seconds_of(s@) {
            Some(n) => r matches Some(d) && d.seconds == n,
            None => r is None,
        },
{
    let v = chars_of(s);
    match parse_offset_datetime(&v) {
        Some(n) => Some(DateTimeUtc { seconds: n }),
        None => None,
    }
}

spec fn raw_models(s: Seq<char>, ms: Seq<RawMatch>) -> Seq<MatchRec> {
    ms.map_values(|m: RawMatch| raw_model(s, m))
}

/// All clauses of the text, scanned left to right.
fn scan_matches(v: &Vec<char>) -> (ms: Vec<RawMatch>)
    ensures
        raw_models(v@, ms@) == matches_from(v@, 0),
        forall|k: int| 0 <= k < ms@.len() ==> raw_wf(v@, #[trigger] ms@[k]),
{
    let mut ms: Vec<RawMatch> = Vec::new();
    let mut i: usize = 0;
    while i < v.len()
        invariant
            i <= v@.len(),
            matches_from(v@, 0) == raw_models(v@, ms@) + matches_from(v@, i as int),
            forall|k: int| 0 <= k < ms@.len() ==> raw_wf(v@, #[trigger] ms@[k]),
        decreases v@.len() - i,
    {
        match try_match(v, i) {
            Some(m) => {
                let next = m.v2e;
                proof {
                    let ghost rec = raw_model(v@, m);
                    assert(matches_from(v@, i as int) =~= seq![rec] + matches_from(
                        v@,
                        next as int,
                    ));
                    assert(raw_models(v@, ms@.push(m)) =~= raw_models(v@, ms@).push(rec));
                    assert(raw_models(v@, ms@).push(rec) + matches_from(v@, next as int)
                        =~= raw_models(v@, ms@) + (seq![rec] + matches_from(v@, next as int)));
                }
                ms.push(m);
                i = next;
            },
            None => {
                proof {
                    assert(matches_from(v@, i as int) =~= matches_from(v@, i + 1 as int));
                }
                i = i + 1;
            },
        }
    }
    proof {
        assert(matches_from(v@, i as int) =~= Seq::<MatchRec>::empty());
        assert(raw_models(v@, ms@) + Seq::<MatchRec>::empty() =~= raw_models(v@, ms@));
    }
    ms
}

/// The two key/value pairs of one scanned clause, materialized as strings.
fn fields_from(s: &str, m: &RawMatch) -> (f: DiagnosticFields)
    requires
        raw_wf(s@, *m),
    ensures
        f@ == fields_of_match(raw_model(s@, *m)),
{
    DiagnosticFields {
        k1: s.substring_char(m.k1s, m.k1e).to_owned(),
        v1: s.substring_char(m.v1s, m.v1e).to_owned(),
        k2: s.substring_char(m.k2s, m.k2e).to_owned(),
        v2: s.substring_char(m.v2s, m.v2e).to_owned(),
    }
}

impl ParseInfo {
    /// Splits a diagnostic into the raw captures of its two clauses; fails
    /// unless the text holds exactly two.
    pub fn from_str(s: &str) -> (r: Result<ParseInfo, ()>)
        ensures
            match parse_info_of(s@) {
                Some(p) => r matches Ok(pi) && pi.new@ == p.0 && pi.old@ == p.1,
                None => r matches Err(_),
            },
    {
        let v = chars_of(s);
        let ms = scan_matches(&v);
        if ms.len() != 2 {
            return Err(());
        }
        let first = fields_from(s, &ms[0]);
        let second = fields_from(s, &ms[1]);
        Ok(ParseInfo { new: first, old: second })
    }
}

impl ReservationWindow {
    /// Builds the window one clause describes: its resource identifier and
    /// its quoted timestamp range, quotes removed, split at the first comma,
    /// both halves read as timestamps.
    pub fn try_from(f: &DiagnosticFields) -> (r: Result<ReservationWindow, ()>)
        ensures
            match window_of_fields(f@) {
                Some(w) => r matches Ok(win) && win@ == w,
                None => r matches Err(_),
            },
    {
        proof {
            reveal_strlit("resource_id");
            reveal_strlit("timespan");
            assert("resource_id"@ =~= resource_id_key());
            assert("timespan"@ =~= timespan_key());
        }
        let rid = match f.get("resource_id") {
            Some(a) => a,
            None => {
                return Err(());
            },
        };
        let ts = match f.get("timespan") {
            Some(b) => b,
            None => {
                return Err(());
            },
        };
        let tv = chars_of(ts.as_str());
        let mut cleaned: Vec<char> = Vec::new();
        let mut i: usize = 0;
        while i < tv.len()
            invariant
                i <= tv@.len(),
                cleaned@ == tv@.subrange(0, i as int).filter(non_quote_class()),
            decreases tv@.len() - i,
        {
            let c = tv[i];
            proof {
                let pre = tv@.subrange(0, i as int);
                pre.lemma_filter_push(tv@[i as int], non_quote_class());
                assert(pre.push(tv@[i as int]) =~= tv@.subrange(0, i + 1 as int));
            }
            if c != '"' {
                cleaned.push(c);
            }
            i = i + 1;
        }
        proof {
            assert(tv@.subrange(0, tv@.len() as int) =~= tv@);
        }
        let cp = non_comma_run(&cleaned, 0);
        if cp >= cleaned.len() {
            return Err(());
        }
        let start_v = subvec(&cleaned, 0, cp);
        let end_v = subvec(&cleaned, cp + 1, cleaned.len());
        match (parse_offset_datetime(&start_v), parse_offset_datetime(&end_v)) {
            (Some(sa), Some(sb)) => Ok(
                ReservationWindow {
                    rid,
                    start: DateTimeUtc { seconds: sa },
                    end: DateTimeUtc { seconds: sb },
                },
            ),
            _ => Err(()),
        }
    }
}

impl ReservationConflict {
    /// Builds the conflict pair from the raw captures of the two clauses.
    pub fn try_from(value: ParseInfo) -> (r: Result<ReservationConflict, ()>)
        ensures
            match (window_of_fields(value.new@), window_of_fields(value.old@)) {
                (Some(n), Some(o)) => r matches Ok(c) && c@ == (ConflictModel {
                    new: n,
                    old: o,
                }),
                _ => r matches Err(_),
            },
    {
        let w_new = match ReservationWindow::try_from(&value.new) {
            Ok(w) => w,
            Err(_) => {
                return Err(());
            },
        };
        let w_old = match ReservationWindow::try_from(&value.old) {
            Ok(w) => w,
            Err(_) => {
                return Err(());
            },
        };
        Ok(ReservationConflict { new: w_new, old: w_old })
    }

    /// Parses a diagnostic into the conflict it describes.
    pub fn from_str(s: &str) -> (r: Result<ReservationConflict, ()>)
        ensures
            match conflict_of(s@) {
                Some(c) => r matches Ok(rc) && rc@ == c,
                None => r matches Err(_),
            },
    {
        match ParseInfo::from_str(s) {
            Ok(pi) => Self::try_from(pi),
            Err(_) => Err(()),
        }
    }
}

impl ReservationConflictInfo {
    /// Parses a diagnostic, best effort: structure when the text matches the
    /// conflict grammar, the verbatim text otherwise.  Never fails.
    pub fn from_str(s: &str) -> (r: ReservationConflictInfo)
        ensures
            parsed_best_effort(r, s@),
    {
        match ReservationConflict::from_str(s) {
            Ok(c) => ReservationConflictInfo::Parsed(c),
            Err(_) => ReservationConflictInfo::Unparsed(s.to_owned()),
        }
    }
}

} // verus!
