use vstd::prelude::*;

verus! {

/// Severity of a log event written by the supervised process.
#[derive(Clone, Copy, Debug, PartialEq, Eq, Structural)]
pub enum Level {
    Error,
    Warn,
    Info,
    Debug,
    Trace,
}

/// One structured line of the supervised process's output.
#[derive(Clone, Debug, PartialEq, Eq)]
pub struct LogEvent {
    pub level: Level,
    pub target: String,
    pub message: String,
}

/// White space as the Unicode `White_Space` property lists it.
pub open spec fn is_space(c: char) -> bool {
    ('\t' <= c && c <= '\r') || c == ' ' || c == '\u{85}' || c == '\u{a0}' || c == '\u{1680}' || (
    '\u{2000}' <= c && c <= '\u{200a}') || c == '\u{2028}' || c == '\u{2029}' || c == '\u{202f}'
        || c == '\u{205f}' || c == '\u{3000}'
}

pub open spec fn is_upper(c: char) -> bool {
    'A' <= c && c <= 'Z'
}

/// Characters a target token is made of: letters, digits, `:`, `_` and `-`.
pub open spec fn is_target_char(c: char) -> bool {
    ('a' <= c && c <= 'z') || ('A' <= c && c <= 'Z') || ('0' <= c && c <= '9') || c == ':'
        || c == '_' || c == '-'
}

/// End of the longest run of spaces in `s` that starts at `i`.
pub open spec fn space_end(s: Seq<char>, i: int) -> int
    decreases s.len() - i,
{
    if 0 <= i < s.len() && is_space(s[i]) {
        space_end(s, i + 1)
    } else {
        i
    }
}

/// End of the longest run of upper-case letters in `s` that starts at `i`.
pub open spec fn upper_end(s: Seq<char>, i: int) -> int
    decreases s.len() - i,
{
    if 0 <= i < s.len() && is_upper(s[i]) {
        upper_end(s, i + 1)
    } else {
        i
    }
}

/// End of the longest run of target characters in `s` that starts at `i`.
pub open spec fn target_end(s: Seq<char>, i: int) -> int
    decreases s.len() - i,
{
    if 0 <= i < s.len() && is_target_char(s[i]) {
        target_end(s, i + 1)
    } else {
        i
    }
}

pub open spec fn level_name(l: Level) -> Seq<char> {
    match l {
        Level::Error => seq!['E', 'R', 'R', 'O', 'R'],
        Level::Warn => seq!['W', 'A', 'R', 'N'],
        Level::Info => seq!['I', 'N', 'F', 'O'],
        Level::Debug => seq!['D', 'E', 'B', 'U', 'G'],
        Level::Trace => seq!['T', 'R', 'A', 'C', 'E'],
    }
}

/// The level whose upper-case name is `t`, if any.
pub open spec fn level_of_name(t: Seq<char>) -> Option<Level> {
    if t == level_name(Level::Error) {
        Some(Level::Error)
    } else if t == level_name(Level::Warn) {
        Some(Level::Warn)
    } else if t == level_name(Level::Info) {
        Some(Level::Info)
    } else if t == level_name(Level::Debug) {
        Some(Level::Debug)
    } else if t == level_name(Level::Trace) {
        Some(Level::Trace)
    } else {
        None
    }
}

/// Start of the message once `>` stands at `e`: after the longest run of
/// spaces, or, where the spaces run to the end of the line, at its last
/// character.
pub open spec fn message_start(s: Seq<char>, e: int) -> int {
    let f = space_end(s, e + 1);
    if f < s.len() {
        f
    } else {
        s.len() - 1
    }
}

/// No character of `s` from `i` on is a line break.
pub open spec fn no_line_break(s: Seq<char>, i: int) -> bool {
    forall|k: int| i <= k < s.len() ==> s[k] != '\n'
}

/// The shape `LEVEL TARGET > MESSAGE` starts at `p`: a run of upper-case
/// letters, spaces, a target token, spaces, `>`, spaces, and a non-empty
/// message without line breaks that runs to the end of the line.
pub open spec fn matches_at(s: Seq<char>, p: int) -> bool {
    let b = upper_end(s, p);
    let c = space_end(s, b);
    let d = target_end(s, c);
    let e = space_end(s, d);
    let m = message_start(s, e);
    &&& 0 <= p < b
    &&& b < c < d < e < s.len()
    &&& s[e] == '>'
    &&& e + 1 < m < s.len()
    &&& no_line_break(s, m)
}

/// The leftmost position, from `i` on, where the shape starts.
pub open spec fn first_match(s: Seq<char>, i: int) -> Option<int>
    decreases s.len() - i,
{
    if i < 0 || i >= s.len() {
        None
    } else if matches_at(s, i) {
        Some(i)
    } else {
        first_match(s, i + 1)
    }
}

/// The line format `LEVEL TARGET > MESSAGE`, found at its leftmost place in
/// the line. Gives level, target and message where the shape is found and its
/// upper-case word names a level; `None` for any other line.
pub open spec fn parse_spec(s: Seq<char>) -> Option<(Level, Seq<char>, Seq<char>)> {
    match first_match(s, 0) {
        None => None,
        Some(p) => {
            let b = upper_end(s, p);
            let c = space_end(s, b);
            let d = target_end(s, c);
            let e = space_end(s, d);
            let m = message_start(s, e);
            match level_of_name(s.subrange(p, b)) {
                None => None,
                Some(level) => Some((level, s.subrange(c, d), s.subrange(m, s.len() as int))),
            }
        },
    }
}

pub fn is_space_char(c: char) -> (r: bool)
    ensures
        r == is_space(c),
{
    ('\t' <= c && c <= '\r') || c == ' ' || c == '\u{85}' || c == '\u{a0}' || c == '\u{1680}' || (
    '\u{2000}' <= c && c <= '\u{200a}') || c == '\u{2028}' || c == '\u{2029}' || c == '\u{202f}'
        || c == '\u{205f}' || c == '\u{3000}'
}

pub fn is_upper_char(c: char) -> (r: bool)
    ensures
        r == is_upper(c),
{
    'A' <= c && c <= 'Z'
}

pub fn is_target_character(c: char) -> (r: bool)
    ensures
        r == is_target_char(c),
{
    ('a' <= c && c <= 'z') || ('A' <= c && c <= 'Z') || ('0' <= c && c <= '9') || c == ':'
        || c == '_' || c == '-'
}

fn skip_spaces(s: &Vec<char>, i: usize) -> (r: usize)
    requires
        i <= s@.len(),
    ensures
        r == space_end(s@, i as int),
        i <= r <= s@.len(),
{
    let len = s.len();
    let mut j: usize = i;
    while j < len && is_space_char(s[j])
        invariant
            len == s@.len(),
            i <= j <= len,
            space_end(s@, i as int) == space_end(s@, j as int),
        decreases len - j,
    {
        j = j + 1;
    }
    j
}

fn skip_upper(s: &Vec<char>, i: usize) -> (r: usize)
    requires
        i <= s@.len(),
    ensures
        r == upper_end(s@, i as int),
        i <= r <= s@.len(),
{
    let len = s.len();
    let mut j: usize = i;
    while j < len && is_upper_char(s[j])
        invariant
            len == s@.len(),
            i <= j <= len,
            upper_end(s@, i as int) == upper_end(s@, j as int),
        decreases len - j,
    {
        j = j + 1;
    }
    j
}

fn skip_target(s: &Vec<char>, i: usize) -> (r: usize)
    requires
        i <= s@.len(),
    ensures
        r == target_end(s@, i as int),
        i <= r <= s@.len(),
{
    let len = s.len();
    let mut j: usize = i;
    while j < len && is_target_character(s[j])
        invariant
            len == s@.len(),
            i <= j <= len,
            target_end(s@, i as int) == target_end(s@, j as int),
        decreases len - j,
    {
        j = j + 1;
    }
    j
}

/// Whether two strings hold the same characters.
pub fn same_text(a: &str, b: &str) -> (r: bool)
    ensures
        r == (a@ == b@),
{
    let x = String::from_str(a);
    let y = String::from_str(b);
    x == y
}

/// Reads a severity from its upper-case name.
pub fn parse_level(t: &str) -> (r: Option<Level>)
    ensures
        r == level_of_name(t@),
{
    proof {
        reveal_strlit("ERROR");
        reveal_strlit("WARN");
        reveal_strlit("INFO");
        reveal_strlit("DEBUG");
        reveal_strlit("TRACE");
        assert("ERROR"@ =~= level_name(Level::Error));
        assert("WARN"@ =~= level_name(Level::Warn));
        assert("INFO"@ =~= level_name(Level::Info));
        assert("DEBUG"@ =~= level_name(Level::Debug));
        assert("TRACE"@ =~= level_name(Level::Trace));
    }
    if same_text(t, "ERROR") {
        Some(Level::Error)
    } else if same_text(t, "WARN") {
        Some(Level::Warn)
    } else if same_text(t, "INFO") {
        Some(Level::Info)
    } else if same_text(t, "DEBUG") {
        Some(Level::Debug)
    } else if same_text(t, "TRACE") {
        Some(Level::Trace)
    } else {
        None
    }
}

/// The characters of `line`, in order.
pub fn chars_of(line: &str) -> (r: Vec<char>)
    ensures
        r@ == line@,
{
    let len = line.unicode_len();
    let mut r: Vec<char> = Vec::new();
    let mut i: usize = 0;
    while i < len
        invariant
            len == line@.len(),
            i <= len,
            r@ == line@.subrange(0, i as int),
        decreases len - i,
    {
        r.push(line.get_char(i));
        i = i + 1;
        assert(r@ =~= line@.subrange(0, i as int));
    }
    assert(r@ =~= line@);
    r
}

fn has_no_line_break(s: &Vec<char>, i: usize) -> (r: bool)
    requires
        i <= s@.len(),
    ensures
        r == no_line_break(s@, i as int),
{
    let mut j: usize = i;
    while j < s.len()
        invariant
            i <= j <= s@.len(),
            no_line_break(s@, i as int) == no_line_break(s@, j as int),
        decreases s@.len() - j,
    {
        if s[j] == '\n' {
            return false;
        }
        j = j + 1;
    }
    true
}

/// The positions of the shape that starts at `p`: end of the upper-case word,
/// start and end of the target, place of `>`, start of the message.
struct Positions {
    b: usize,
    c: usize,
    d: usize,
    e: usize,
    m: usize,
}

fn positions_at(s: &Vec<char>, p: usize) -> (r: Positions)
    requires
        p <= s@.len(),
    ensures
        r.b == upper_end(s@, p as int),
        r.c == space_end(s@, r.b as int),
        r.d == target_end(s@, r.c as int),
        r.e == space_end(s@, r.d as int),
        r.e < s@.len() ==> r.m == message_start(s@, r.e as int),
        p <= r.b <= r.c <= r.d <= r.e <= s@.len(),
        r.m <= s@.len(),
{
    let b = skip_upper(s, p);
    let c = skip_spaces(s, b);
    let d = skip_target(s, c);
    let e = skip_spaces(s, d);
    if e >= s.len() {
        return Positions { b, c, d, e, m: 0 };
    }
    let f = skip_spaces(s, e + 1);
    let m = if f < s.len() {
        f
    } else {
        s.len() - 1
    };
    Positions { b, c, d, e, m }
}

fn shape_at(s: &Vec<char>, p: usize, q: &Positions) -> (r: bool)
    requires
        p <= s@.len(),
        q.b == upper_end(s@, p as int),
        q.c == space_end(s@, q.b as int),
        q.d == target_end(s@, q.c as int),
        q.e == space_end(s@, q.d as int),
        q.e < s@.len() ==> q.m == message_start(s@, q.e as int),
        p <= q.b <= q.c <= q.d <= q.e <= s@.len(),
        q.m <= s@.len(),
    ensures
        r == matches_at(s@, p as int),
{
    p < q.b && q.b < q.c && q.c < q.d && q.d < q.e && q.e < s.len() && s[q.e] == '>' && q.e + 1
        < q.m && q.m < s.len() && has_no_line_break(s, q.m)
}

/// Parses one line of the supervised process's output in the format
/// `LEVEL TARGET > MESSAGE`, found at its leftmost place in the line. Any
/// other line, including one whose upper-case word is not one of the five
/// severity names, gives `None`.
pub fn parse_line(line: &str) -> (r: Option<LogEvent>)
    ensures
        parse_spec(line@) is None <==> r is None,
        r is Some ==> ({
            let (level, target, message) = parse_spec(line@)->Some_0;
            &&& r->Some_0.level == level
            &&& r->Some_0.target@ == target
            &&& r->Some_0.message@ == message
        }),
{
    let s = chars_of(line);
    let len = s.len();
    let mut p: usize = 0;
    while p < len
        invariant
            len == s@.len(),
            s@ == line@,
            p <= len,
            first_match(s@, 0) == first_match(s@, p as int),
        decreases len - p,
    {
        let q = positions_at(&s, p);
        if shape_at(&s, p, &q) {
            return match parse_level(line.substring_char(p, q.b)) {
                None => None,
                Some(level) => {
                    let target = String::from_str(line.substring_char(q.c, q.d));
                    let message = String::from_str(line.substring_char(q.m, len));
                    Some(LogEvent { level, target, message })
                },
            };
        }
        p = p + 1;
    }
    None
}

pub open spec fn all_spaces(w: Seq<char>) -> bool {
    forall|i: int| 0 <= i < w.len() ==> is_space(#[trigger] w[i])
}

pub open spec fn all_target_chars(t: Seq<char>) -> bool {
    forall|i: int| 0 <= i < t.len() ==> is_target_char(#[trigger] t[i])
}

/// The line `LEVEL TARGET > MESSAGE` after the text `w0`, with the given runs
/// of spaces: `w1` after the level, `w2` before `>` and `w3` after it.
pub open spec fn format_line(
    w0: Seq<char>,
    level: Level,
    w1: Seq<char>,
    target: Seq<char>,
    w2: Seq<char>,
    w3: Seq<char>,
    message: Seq<char>,
) -> Seq<char> {
    w0 + level_name(level) + w1 + target + w2 + seq!['>'] + w3 + message
}

/// The pieces of a line in the format: spaces where spaces go (at least one
/// each time), a non-empty target, and a non-empty message without line
/// breaks that starts with a character other than a space, unless it is a
/// single character.
pub open spec fn well_formed_pieces(
    w1: Seq<char>,
    target: Seq<char>,
    w2: Seq<char>,
    w3: Seq<char>,
    message: Seq<char>,
) -> bool {
    &&& all_spaces(w1) && w1.len() > 0
    &&& all_target_chars(target) && target.len() > 0
    &&& all_spaces(w2) && w2.len() > 0
    &&& all_spaces(w3) && w3.len() > 0
    &&& message.len() > 0 && (message.len() == 1 || !is_space(message[0]))
    &&& forall|k: int| 0 <= k < message.len() ==> #[trigger] message[k] != '\n'
}

proof fn lemma_space_run(s: Seq<char>, i: int, n: int)
    requires
        0 <= i,
        0 <= n,
        i + n <= s.len(),
        forall|k: int| i <= k < i + n ==> is_space(#[trigger] s[k]),
        i + n == s.len() || !is_space(s[i + n]),
    ensures
        space_end(s, i) == i + n,
    decreases n,
{
    if n > 0 {
        lemma_space_run(s, i + 1, n - 1);
    }
}

proof fn lemma_upper_run(s: Seq<char>, i: int, n: int)
    requires
        0 <= i,
        0 <= n,
        i + n <= s.len(),
        forall|k: int| i <= k < i + n ==> is_upper(#[trigger] s[k]),
        i + n == s.len() || !is_upper(s[i + n]),
    ensures
        upper_end(s, i) == i + n,
    decreases n,
{
    if n > 0 {
        lemma_upper_run(s, i + 1, n - 1);
    }
}

proof fn lemma_target_run(s: Seq<char>, i: int, n: int)
    requires
        0 <= i,
        0 <= n,
        i + n <= s.len(),
        forall|k: int| i <= k < i + n ==> is_target_char(#[trigger] s[k]),
        i + n == s.len() || !is_target_char(s[i + n]),
    ensures
        target_end(s, i) == i + n,
    decreases n,
{
    if n > 0 {
        lemma_target_run(s, i + 1, n - 1);
    }
}

pub proof fn lemma_level_name_round_trip(level: Level)
    ensures
        level_of_name(level_name(level)) == Some(level),
        level_name(level).len() > 0,
        forall|i: int| 0 <= i < level_name(level).len() ==> is_upper(#[trigger] level_name(level)[i]),
{
    assert(level_name(Level::Error) != level_name(Level::Warn));
    assert(level_name(Level::Error) != level_name(Level::Info));
    assert(level_name(Level::Error) != level_name(Level::Debug));
    assert(level_name(Level::Error) != level_name(Level::Trace));
    assert(level_name(Level::Warn)[0] != level_name(Level::Info)[0]);
    assert(level_name(Level::Warn)[0] != level_name(Level::Debug)[0]);
    assert(level_name(Level::Warn)[0] != level_name(Level::Trace)[0]);
    assert(level_name(Level::Info)[0] != level_name(Level::Debug)[0]);
    assert(level_name(Level::Info)[0] != level_name(Level::Trace)[0]);
    assert(level_name(Level::Debug)[0] != level_name(Level::Trace)[0]);
}

proof fn lemma_first_match_is(s: Seq<char>, i: int, p: int)
    requires
        0 <= i <= p < s.len(),
        forall|k: int| i <= k < p ==> !#[trigger] matches_at(s, k),
        matches_at(s, p),
    ensures
        first_match(s, i) == Some(p),
    decreases p - i,
{
    if i < p {
        lemma_first_match_is(s, i + 1, p);
    }
}

proof fn lemma_first_match_matches(s: Seq<char>, i: int)
    requires
        0 <= i,
        first_match(s, i) is Some,
    ensures
        matches_at(s, first_match(s, i)->Some_0),
        i <= first_match(s, i)->Some_0 < s.len(),
        forall|k: int| i <= k < first_match(s, i)->Some_0 ==> !#[trigger] matches_at(s, k),
    decreases s.len() - i,
{
    if !matches_at(s, i) {
        lemma_first_match_matches(s, i + 1);
    }
}

/// Every line in the format, after leading spaces, is recognised, and its
/// level, target and message are exactly the ones it was written with.
pub proof fn lemma_format_parses(
    w0: Seq<char>,
    level: Level,
    w1: Seq<char>,
    target: Seq<char>,
    w2: Seq<char>,
    w3: Seq<char>,
    message: Seq<char>,
)
    requires
        all_spaces(w0),
        well_formed_pieces(w1, target, w2, w3, message),
    ensures
        parse_spec(format_line(w0, level, w1, target, w2, w3, message)) == Some(
            (level, target, message),
        ),
{
    let s = format_line(w0, level, w1, target, w2, w3, message);
    let name = level_name(level);
    lemma_level_name_round_trip(level);
    let a = w0.len() as int;
    let b = a + name.len();
    let c = b + w1.len();
    let d = c + target.len();
    let e = d + w2.len();
    let f = e + 1 + w3.len();
    assert(s.len() == f + message.len());
    assert forall|k: int| 0 <= k < a implies !#[trigger] matches_at(s, k) by {
        assert(s[k] == w0[k]);
        assert(upper_end(s, k) == k);
    }
    assert forall|k: int| a <= k < b implies is_upper(#[trigger] s[k]) by {
        assert(s[k] == name[k - a]);
    }
    assert(s[b] == w1[0]);
    lemma_upper_run(s, a, name.len() as int);
    assert forall|k: int| b <= k < c implies is_space(#[trigger] s[k]) by {
        assert(s[k] == w1[k - b]);
    }
    assert(s[c] == target[0]);
    lemma_space_run(s, b, w1.len() as int);
    assert forall|k: int| c <= k < d implies is_target_char(#[trigger] s[k]) by {
        assert(s[k] == target[k - c]);
    }
    assert(s[d] == w2[0]);
    lemma_target_run(s, c, target.len() as int);
    assert forall|k: int| d <= k < e implies is_space(#[trigger] s[k]) by {
        assert(s[k] == w2[k - d]);
    }
    assert(s[e] == '>');
    lemma_space_run(s, d, w2.len() as int);
    assert forall|k: int| e + 1 <= k < f implies is_space(#[trigger] s[k]) by {
        assert(s[k] == w3[k - e - 1]);
    }
    assert(s[f] == message[0]);
    if is_space(message[0]) {
        lemma_space_run(s, e + 1, (w3.len() + 1) as int);
    } else {
        lemma_space_run(s, e + 1, w3.len() as int);
    }
    assert(message_start(s, e) == f);
    assert forall|k: int| f <= k < s.len() implies s[k] != '\n' by {
        assert(s[k] == message[k - f]);
    }
    assert(matches_at(s, a));
    lemma_first_match_is(s, 0, a);
    assert(s.subrange(a, b) =~= name);
    assert(s.subrange(c, d) =~= target);
    assert(s.subrange(f, s.len() as int) =~= message);
}

proof fn lemma_space_end_content(s: Seq<char>, i: int)
    requires
        0 <= i <= s.len(),
    ensures
        i <= space_end(s, i) <= s.len(),
        forall|k: int| i <= k < space_end(s, i) ==> is_space(#[trigger] s[k]),
        space_end(s, i) < s.len() ==> !is_space(s[space_end(s, i)]),
    decreases s.len() - i,
{
    if i < s.len() && is_space(s[i]) {
        lemma_space_end_content(s, i + 1);
    }
}

proof fn lemma_upper_end_content(s: Seq<char>, i: int)
    requires
        0 <= i <= s.len(),
    ensures
        i <= upper_end(s, i) <= s.len(),
    decreases s.len() - i,
{
    if i < s.len() && is_upper(s[i]) {
        lemma_upper_end_content(s, i + 1);
    }
}

proof fn lemma_target_end_content(s: Seq<char>, i: int)
    requires
        0 <= i <= s.len(),
    ensures
        i <= target_end(s, i) <= s.len(),
        forall|k: int| i <= k < target_end(s, i) ==> is_target_char(#[trigger] s[k]),
    decreases s.len() - i,
{
    if i < s.len() && is_target_char(s[i]) {
        lemma_target_end_content(s, i + 1);
    }
}

/// Every line that is recognised holds the format: it is some text, the name
/// of its level, spaces, its target, spaces, `>`, spaces and its message.
pub proof fn lemma_parsed_line_in_format(s: Seq<char>)
    requires
        parse_spec(s) is Some,
    ensures
        ({
            let (level, target, message) = parse_spec(s)->Some_0;
            exists|w0: Seq<char>, w1: Seq<char>, w2: Seq<char>, w3: Seq<char>|
                well_formed_pieces(w1, target, w2, w3, message) && s == #[trigger] format_line(
                    w0,
                    level,
                    w1,
                    target,
                    w2,
                    w3,
                    message,
                )
        }),
{
    let (level, target, message) = parse_spec(s)->Some_0;
    lemma_first_match_matches(s, 0);
    let p = first_match(s, 0)->Some_0;
    let b = upper_end(s, p);
    lemma_upper_end_content(s, p);
    let c = space_end(s, b);
    lemma_space_end_content(s, b);
    let d = target_end(s, c);
    lemma_target_end_content(s, c);
    let e = space_end(s, d);
    lemma_space_end_content(s, d);
    let f = space_end(s, e + 1);
    lemma_space_end_content(s, e + 1);
    let m = message_start(s, e);
    let w0 = s.subrange(0, p);
    let w1 = s.subrange(b, c);
    let w2 = s.subrange(d, e);
    let w3 = s.subrange(e + 1, m);
    assert(s.subrange(p, b) == level_name(level));
    assert(all_spaces(w1));
    assert(all_target_chars(target));
    assert(all_spaces(w2));
    assert(all_spaces(w3));
    assert(message[0] == s[m]);
    assert forall|k: int| 0 <= k < message.len() implies #[trigger] message[k] != '\n' by {
        assert(message[k] == s[m + k]);
    }
    assert(well_formed_pieces(w1, target, w2, w3, message));
    assert(s =~= format_line(w0, level, w1, target, w2, w3, message));
}

/// A line with a line break in what would be its message is not recognised
/// at a place where the shape would otherwise start.
pub proof fn lemma_line_break_in_message_not_matched(s: Seq<char>, p: int, k: int)
    requires
        0 <= p,
        message_start(s, space_end(s, target_end(s, space_end(s, upper_end(s, p))))) <= k < s.len(),
        s[k] == '\n',
    ensures
        !matches_at(s, p),
{
}

/// An empty line is not in the format.
pub proof fn lemma_empty_line_not_parsed()
    ensures
        parse_spec(Seq::<char>::empty()) is None,
{
}

/// A line without any upper-case letter, such as one whose level is written
/// in lower case, is not in the format.
pub proof fn lemma_no_upper_not_parsed(s: Seq<char>)
    requires
        forall|k: int| 0 <= k < s.len() ==> !is_upper(#[trigger] s[k]),
    ensures
        parse_spec(s) is None,
{
    if first_match(s, 0) is Some {
        lemma_first_match_matches(s, 0);
        let p = first_match(s, 0)->Some_0;
        assert(!is_upper(s[p]));
    }
}

} // verus!
