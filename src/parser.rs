//! The MI line grammar and its parser.
//!
//! A line is trimmed; a blank line and the prompt `(gdb)` carry no record.
//! Otherwise an optional decimal token is followed by a prefix character that
//! selects the record: `^` result, `*` exec-async, `=`/`+` notification,
//! `~` console, `@` target, `&` log. Values follow the grammar
//!
//! ```text
//! result := name '=' value
//! value  := const | tuple | list
//! const  := '"' escaped-chars '"'
//! tuple  := '{' [ result (',' result)* ] '}'
//! list   := '[' [ value (',' value)* ] ']' | '[' [ result (',' result)* ] ']'
//! ```
use vstd::prelude::*;
use crate::text::{all_digits, chars_of, decimal_value, digits_value, is_digit, string_of, string_of_range, text_eq};
use crate::types::{
    AsyncClass, GdbError, GdbErrorKind, MiOutputRecord, MiResult, MiValue, NotificationClass,
    ResultClass, VRecord, VValue, results_view,
};

verus! {

broadcast use vstd::std_specs::vec::axiom_vec_index_decreases;

/// A character that may stand in a variable or class name.
pub open spec fn is_name_char(c: char) -> bool {
    ('a' <= c <= 'z') || ('A' <= c <= 'Z') || ('0' <= c <= '9') || c == '-' || c == '_'
}

/// The end of the run of name characters that starts at `i`.
pub open spec fn name_end(s: Seq<char>, i: int) -> int
    decreases s.len() - i,
{
    if 0 <= i < s.len() && is_name_char(s[i]) {
        name_end(s, i + 1)
    } else {
        i
    }
}

/// The end of the run of decimal digits that starts at `i`.
pub open spec fn digits_end(s: Seq<char>, i: int) -> int
    decreases s.len() - i,
{
    if 0 <= i < s.len() && is_digit(s[i]) {
        digits_end(s, i + 1)
    } else {
        i
    }
}

/// What a backslash followed by `c` stands for inside a quoted constant:
/// `\n`, `\t`, `\r`, `\\` and `\"` are decoded, any other pair is kept as it is.
pub open spec fn unescape(c: char) -> Seq<char> {
    if c == 'n' {
        seq!['\n']
    } else if c == 't' {
        seq!['\t']
    } else if c == 'r' {
        seq!['\r']
    } else if c == '\\' {
        seq!['\\']
    } else if c == '"' {
        seq!['"']
    } else {
        seq!['\\', c]
    }
}

/// The body of a quoted constant from position `i` on, `acc` being what is
/// already decoded: the decoded text and the position after the closing quote.
pub open spec fn const_body(s: Seq<char>, i: int, acc: Seq<char>) -> Option<(Seq<char>, int)>
    decreases s.len() - i,
{
    if i < 0 || i >= s.len() {
        None
    } else if s[i] == '"' {
        Some((acc, i + 1))
    } else if s[i] == '\\' {
        if i + 1 < s.len() {
            const_body(s, i + 2, acc + unescape(s[i + 1]))
        } else {
            None
        }
    } else {
        const_body(s, i + 1, acc.push(s[i]))
    }
}

/// A character that opens a value (as opposed to a name).
pub open spec fn opens_value(c: char) -> bool {
    c == '"' || c == '{' || c == '['
}

/// The value that starts at `i`, and the position after it.
pub open spec fn value_at(s: Seq<char>, i: int) -> Option<(VValue, int)>
    decreases s.len() - i, 0nat,
{
    if i < 0 || i >= s.len() {
        None
    } else if s[i] == '"' {
        match const_body(s, i + 1, seq![]) {
            Some((t, e)) => Some((VValue::Str(t), e)),
            None => None,
        }
    } else if s[i] == '{' {
        if i + 1 < s.len() && s[i + 1] == '}' {
            Some((VValue::Tuple(seq![]), i + 2))
        } else {
            match results_from(s, i + 1, '}', seq![]) {
                Some((rs, e)) => Some((VValue::Tuple(rs), e)),
                None => None,
            }
        }
    } else if s[i] == '[' {
        if i + 1 < s.len() && s[i + 1] == ']' {
            Some((VValue::List(seq![]), i + 2))
        } else if i + 1 < s.len() && opens_value(s[i + 1]) {
            match values_from(s, i + 1, seq![]) {
                Some((vs, e)) => Some((VValue::List(vs), e)),
                None => None,
            }
        } else {
            match results_from(s, i + 1, ']', seq![]) {
                Some((rs, e)) => Some((VValue::ResultList(rs), e)),
                None => None,
            }
        }
    } else {
        None
    }
}

/// The named value `name=value` that starts at `i`, and the position after it.
pub open spec fn result_at(s: Seq<char>, i: int) -> Option<((Seq<char>, VValue), int)>
    decreases s.len() - i, 1nat,
{
    let j = name_end(s, i);
    if i < 0 || j <= i || j >= s.len() || s[j] != '=' {
        None
    } else {
        match value_at(s, j + 1) {
            Some((v, e)) => Some(((s.subrange(i, j), v), e)),
            None => None,
        }
    }
}

/// Named values separated by commas from `i` up to the `close` character,
/// after those already in `acc`; and the position after `close`.
pub open spec fn results_from(
    s: Seq<char>,
    i: int,
    close: char,
    acc: Seq<(Seq<char>, VValue)>,
) -> Option<(Seq<(Seq<char>, VValue)>, int)>
    decreases s.len() - i, 2nat,
{
    if i < 0 || i >= s.len() {
        None
    } else {
        match result_at(s, i) {
            Some((r, e)) => if e <= i || e >= s.len() {
                None
            } else if s[e] == ',' {
                results_from(s, e + 1, close, acc.push(r))
            } else if s[e] == close {
                Some((acc.push(r), e + 1))
            } else {
                None
            },
            None => None,
        }
    }
}

/// Values separated by commas from `i` up to `]`, after those already in
/// `acc`; and the position after `]`.
pub open spec fn values_from(s: Seq<char>, i: int, acc: Seq<VValue>) -> Option<(Seq<VValue>, int)>
    decreases s.len() - i, 1nat,
{
    if i < 0 || i >= s.len() {
        None
    } else {
        match value_at(s, i) {
            Some((v, e)) => if e <= i || e >= s.len() {
                None
            } else if s[e] == ',' {
                values_from(s, e + 1, acc.push(v))
            } else if s[e] == ']' {
                Some((acc.push(v), e + 1))
            } else {
                None
            },
            None => None,
        }
    }
}

/// Named values separated by commas from `i` to the end of `s`, after those
/// already in `acc`.
pub open spec fn results_to_end(s: Seq<char>, i: int, acc: Seq<(Seq<char>, VValue)>) -> Option<
    Seq<(Seq<char>, VValue)>,
>
    decreases s.len() - i,
{
    if i < 0 || i >= s.len() {
        None
    } else {
        match result_at(s, i) {
            Some((r, e)) => if e <= i || e > s.len() {
                None
            } else if e == s.len() {
                Some(acc.push(r))
            } else if s[e] == ',' {
                results_to_end(s, e + 1, acc.push(r))
            } else {
                None
            },
            None => None,
        }
    }
}

/// The longest run of leading named values separated by commas, after those
/// already in `acc`: reading stops at the first that does not parse.
pub open spec fn leading_results(s: Seq<char>, i: int, acc: Seq<(Seq<char>, VValue)>) -> Seq<
    (Seq<char>, VValue),
>
    decreases s.len() - i,
{
    if i < 0 || i >= s.len() {
        acc
    } else {
        match result_at(s, i) {
            Some((r, e)) => if e <= i || e >= s.len() || s[e] != ',' {
                acc.push(r)
            } else {
                leading_results(s, e + 1, acc.push(r))
            },
            None => acc,
        }
    }
}

pub open spec fn is_space(c: char) -> bool {
    c == ' ' || c == '\t' || c == '\n' || c == '\r'
}

pub open spec fn trim_start_at(s: Seq<char>, i: int) -> int
    decreases s.len() - i,
{
    if 0 <= i < s.len() && is_space(s[i]) {
        trim_start_at(s, i + 1)
    } else {
        i
    }
}

pub open spec fn trim_end_at(s: Seq<char>, j: int) -> int
    decreases j,
{
    if 0 < j <= s.len() && is_space(s[j - 1]) {
        trim_end_at(s, j - 1)
    } else {
        j
    }
}

/// `s` without leading and trailing white space.
pub open spec fn trimmed(s: Seq<char>) -> Seq<char> {
    let a = trim_start_at(s, 0);
    let b = trim_end_at(s, s.len() as int);
    if a < b {
        s.subrange(a, b)
    } else {
        seq![]
    }
}

pub open spec fn result_class_of(w: Seq<char>) -> Option<ResultClass> {
    if w == "done"@ {
        Some(ResultClass::Done)
    } else if w == "running"@ {
        Some(ResultClass::Running)
    } else if w == "connected"@ {
        Some(ResultClass::Connected)
    } else if w == "error"@ {
        Some(ResultClass::Error)
    } else if w == "exit"@ {
        Some(ResultClass::Exit)
    } else {
        None
    }
}

pub open spec fn async_class_of(w: Seq<char>) -> Option<AsyncClass> {
    if w == "stopped"@ {
        Some(AsyncClass::Stopped)
    } else if w == "running"@ {
        Some(AsyncClass::Running)
    } else {
        None
    }
}

pub open spec fn notification_class_of(w: Seq<char>) -> Option<NotificationClass> {
    if w == "breakpoint-created"@ {
        Some(NotificationClass::BreakpointCreated)
    } else if w == "breakpoint-modified"@ {
        Some(NotificationClass::BreakpointModified)
    } else if w == "breakpoint-deleted"@ {
        Some(NotificationClass::BreakpointDeleted)
    } else if w == "thread-group-added"@ {
        Some(NotificationClass::ThreadGroupAdded)
    } else if w == "thread-group-started"@ {
        Some(NotificationClass::ThreadGroupStarted)
    } else if w == "thread-group-exited"@ {
        Some(NotificationClass::ThreadGroupExited)
    } else if w == "thread-created"@ {
        Some(NotificationClass::ThreadCreated)
    } else if w == "thread-selected"@ {
        Some(NotificationClass::ThreadSelected)
    } else if w == "thread-exited"@ {
        Some(NotificationClass::ThreadExited)
    } else if w == "library-loaded"@ {
        Some(NotificationClass::LibraryLoaded)
    } else if w == "library-unloaded"@ {
        Some(NotificationClass::LibraryUnloaded)
    } else if w == "cmd-param-changed"@ {
        Some(NotificationClass::CmdParamChanged)
    } else if w == "param-changed"@ {
        Some(NotificationClass::ParamChanged)
    } else if w == "memory-changed"@ {
        Some(NotificationClass::MemoryChanged)
    } else {
        None
    }
}

/// What one line of MI output holds.
pub enum LineOutcome {
    /// A blank line or the prompt.
    Blank,
    Record(VRecord),
    /// A record prefix followed by text that the grammar refuses.
    Malformed,
}

pub open spec fn is_record_prefix(c: char) -> bool {
    c == '^' || c == '*' || c == '=' || c == '+'
}

pub open spec fn is_stream_prefix(c: char) -> bool {
    c == '~' || c == '@' || c == '&'
}

/// The record of a trimmed, non-blank line that starts (after its token)
/// with `^`, `*`, `=` or `+` at position `d`.
pub open spec fn keyed_record(t: Seq<char>, d: int) -> LineOutcome {
    let p = t[d];
    let w = name_end(t, d + 1);
    let word = t.subrange(d + 1, w);
    let token: Option<u64> = if d == 0 {
        None
    } else {
        Some(decimal_value(t.subrange(0, d)) as u64)
    };
    let results: Option<Seq<(Seq<char>, VValue)>> = if w == t.len() {
        Some(seq![])
    } else if t[w] == ',' {
        results_to_end(t, w + 1, seq![])
    } else {
        None
    };
    if (d > 0 && decimal_value(t.subrange(0, d)) > u64::MAX) || results is None {
        LineOutcome::Malformed
    } else if p == '^' {
        match result_class_of(word) {
            Some(c) => LineOutcome::Record(
                VRecord::Result { token, class: c, results: results.unwrap() },
            ),
            None => LineOutcome::Malformed,
        }
    } else if p == '*' {
        match async_class_of(word) {
            Some(c) => LineOutcome::Record(
                VRecord::Async { token, class: c, results: results.unwrap() },
            ),
            None => LineOutcome::Malformed,
        }
    } else {
        match notification_class_of(word) {
            Some(c) => LineOutcome::Record(
                VRecord::Notification { class: c, results: results.unwrap() },
            ),
            None => LineOutcome::Malformed,
        }
    }
}

/// The record of a trimmed line that starts with a stream prefix: one
/// quoted constant that ends the line.
pub open spec fn stream_record(t: Seq<char>) -> LineOutcome {
    match const_body(t, 2, seq![]) {
        Some((text, e)) => if t.len() >= 2 && t[1] == '"' && e == t.len() {
            if t[0] == '~' {
                LineOutcome::Record(VRecord::Console(text))
            } else if t[0] == '@' {
                LineOutcome::Record(VRecord::Target(text))
            } else {
                LineOutcome::Record(VRecord::Log(text))
            }
        } else {
            LineOutcome::Malformed
        },
        None => LineOutcome::Malformed,
    }
}

/// What a line of MI output holds. A line that begins with no record
/// prefix is kept whole as console text.
pub open spec fn line_outcome(line: Seq<char>) -> LineOutcome {
    let t = trimmed(line);
    let d = digits_end(t, 0);
    if t.len() == 0 || t == "(gdb)"@ {
        LineOutcome::Blank
    } else if d < t.len() && is_record_prefix(t[d]) {
        keyed_record(t, d)
    } else if d == 0 && is_stream_prefix(t[0]) {
        stream_record(t)
    } else {
        LineOutcome::Record(VRecord::Console(t))
    }
}

pub open spec fn value_out(r: Option<(MiValue, usize)>) -> Option<(VValue, int)> {
    match r {
        Some((v, e)) => Some((v@, e as int)),
        None => None,
    }
}

pub open spec fn result_out(r: Option<(MiResult, usize)>) -> Option<((Seq<char>, VValue), int)> {
    match r {
        Some((v, e)) => Some((v@, e as int)),
        None => None,
    }
}

pub open spec fn results_out(r: Option<(Vec<MiResult>, usize)>) -> Option<
    (Seq<(Seq<char>, VValue)>, int),
> {
    match r {
        Some((v, e)) => Some((results_view(v@), e as int)),
        None => None,
    }
}

pub open spec fn values_view(vs: Seq<MiValue>) -> Seq<VValue> {
    Seq::new(vs.len(), |i: int| vs[i]@)
}

pub open spec fn values_out(r: Option<(Vec<MiValue>, usize)>) -> Option<(Seq<VValue>, int)> {
    match r {
        Some((v, e)) => Some((values_view(v@), e as int)),
        None => None,
    }
}

pub open spec fn ends_after(r: Option<(MiValue, usize)>, i: int, n: int) -> bool {
    match r {
        Some((_, e)) => i < e <= n,
        None => true,
    }
}

proof fn lemma_results_push(acc: Seq<MiResult>, r: MiResult)
    ensures
        results_view(acc.push(r)) == results_view(acc).push(r@),
{
    assert(results_view(acc.push(r)) =~= results_view(acc).push(r@));
}

proof fn lemma_values_push(acc: Seq<MiValue>, v: MiValue)
    ensures
        values_view(acc.push(v)) == values_view(acc).push(v@),
{
    assert(values_view(acc.push(v)) =~= values_view(acc).push(v@));
}

/// The end of the run of name characters from `i`.
fn scan_name(s: &Vec<char>, i: usize) -> (j: usize)
    requires
        i <= s@.len(),
    ensures
        j as int == name_end(s@, i as int),
        i <= j <= s@.len(),
{
    let mut j = i;
    while j < s.len()
        invariant
            i <= j <= s@.len(),
            name_end(s@, j as int) == name_end(s@, i as int),
        decreases s@.len() - j,
    {
        let c = s[j];
        if !(('a' <= c && c <= 'z') || ('A' <= c && c <= 'Z') || ('0' <= c && c <= '9') || c == '-'
            || c == '_') {
            return j;
        }
        j = j + 1;
    }
    j
}

/// Decodes a quoted constant whose body starts at `i`.
fn parse_const(s: &Vec<char>, i: usize) -> (r: Option<(String, usize)>)
    requires
        i <= s@.len(),
    ensures
        const_body(s@, i as int, seq![]) == match r {
            Some((t, e)) => Some((t@, e as int)),
            None => None,
        },
        r matches Some((_, e)) ==> i < e <= s@.len(),
{
    let mut acc: Vec<char> = Vec::new();
    let mut k = i;
    while k < s.len()
        invariant
            i <= k <= s@.len(),
            const_body(s@, k as int, acc@) == const_body(s@, i as int, seq![]),
        decreases s@.len() - k,
    {
        let c = s[k];
        if c == '"' {
            let t = string_of(acc.as_slice());
            return Some((t, k + 1));
        } else if c == '\\' {
            if k + 1 >= s.len() {
                return None;
            }
            let n = s[k + 1];
            let ghost before = acc@;
            if n == 'n' {
                acc.push('\n');
            } else if n == 't' {
                acc.push('\t');
            } else if n == 'r' {
                acc.push('\r');
            } else if n == '\\' {
                acc.push('\\');
            } else if n == '"' {
                acc.push('"');
            } else {
                acc.push('\\');
                acc.push(n);
            }
            assert(acc@ =~= before + unescape(n));
            k = k + 2;
        } else {
            acc.push(c);
            k = k + 1;
        }
    }
    None
}

/// Parses the value that starts at `i`.
fn parse_value_at(s: &Vec<char>, i: usize) -> (r: Option<(MiValue, usize)>)
    requires
        i <= s@.len(),
    ensures
        value_out(r) == value_at(s@, i as int),
        ends_after(r, i as int, s@.len() as int),
    decreases s@.len() - i, 0nat,
{
    if i >= s.len() {
        return None;
    }
    let c = s[i];
    if c == '"' {
        match parse_const(s, i + 1) {
            Some((t, e)) => Some((MiValue::String(t), e)),
            None => None,
        }
    } else if c == '{' {
        if i + 1 < s.len() && s[i + 1] == '}' {
            let v = MiValue::Tuple(Vec::new());
            assert(v@->Tuple_0 =~= seq![]);
            return Some((v, i + 2));
        }
        let r = parse_results_until(s, i + 1, '}', Vec::new());
        proof {
            assert(results_view(Seq::<MiResult>::empty()) =~= seq![]);
        }
        match r {
            Some((rs, e)) => {
                let v = MiValue::Tuple(rs);
                assert(v@->Tuple_0 =~= results_view(rs@));
                Some((v, e))
            },
            None => None,
        }
    } else if c == '[' {
        if i + 1 < s.len() && s[i + 1] == ']' {
            let v = MiValue::List(Vec::new());
            assert(v@->List_0 =~= seq![]);
            return Some((v, i + 2));
        }
        if i + 1 < s.len() && (s[i + 1] == '"' || s[i + 1] == '{' || s[i + 1] == '[') {
            let r = parse_values_until(s, i + 1, Vec::new());
            proof {
                assert(values_view(Seq::<MiValue>::empty()) =~= seq![]);
            }
            match r {
                Some((vs, e)) => {
                    let v = MiValue::List(vs);
                    assert(v@->List_0 =~= values_view(vs@));
                    Some((v, e))
                },
                None => None,
            }
        } else {
            let r = parse_results_until(s, i + 1, ']', Vec::new());
            proof {
                assert(results_view(Seq::<MiResult>::empty()) =~= seq![]);
            }
            match r {
                Some((rs, e)) => {
                    let v = MiValue::ResultList(rs);
                    assert(v@->ResultList_0 =~= results_view(rs@));
                    Some((v, e))
                },
                None => None,
            }
        }
    } else {
        None
    }
}

/// Parses the named value that starts at `i`.
fn parse_result_at(s: &Vec<char>, i: usize) -> (r: Option<(MiResult, usize)>)
    requires
        i <= s@.len(),
    ensures
        result_out(r) == result_at(s@, i as int),
        r matches Some((_, e)) ==> i < e <= s@.len(),
    decreases s@.len() - i, 1nat,
{
    let j = scan_name(s, i);
    if j <= i || j >= s.len() || s[j] != '=' {
        return None;
    }
    match parse_value_at(s, j + 1) {
        Some((v, e)) => {
            let name = string_of_range(s, i, j);
            Some((MiResult { variable: name, value: v }, e))
        },
        None => None,
    }
}

/// Parses named values separated by commas from `i` up to `close`.
fn parse_results_until(s: &Vec<char>, i: usize, close: char, acc: Vec<MiResult>) -> (r: Option<
    (Vec<MiResult>, usize),
>)
    requires
        i <= s@.len(),
    ensures
        results_out(r) == results_from(s@, i as int, close, results_view(acc@)),
        r matches Some((_, e)) ==> i < e <= s@.len(),
    decreases s@.len() - i, 2nat,
{
    if i >= s.len() {
        return None;
    }
    match parse_result_at(s, i) {
        Some((res, e)) => {
            if e >= s.len() {
                return None;
            }
            let mut acc = acc;
            proof {
                lemma_results_push(acc@, res);
            }
            acc.push(res);
            if s[e] == ',' {
                parse_results_until(s, e + 1, close, acc)
            } else if s[e] == close {
                Some((acc, e + 1))
            } else {
                None
            }
        },
        None => None,
    }
}

/// Parses values separated by commas from `i` up to `]`.
fn parse_values_until(s: &Vec<char>, i: usize, acc: Vec<MiValue>) -> (r: Option<
    (Vec<MiValue>, usize),
>)
    requires
        i <= s@.len(),
    ensures
        values_out(r) == values_from(s@, i as int, values_view(acc@)),
        r matches Some((_, e)) ==> i < e <= s@.len(),
    decreases s@.len() - i, 1nat,
{
    if i >= s.len() {
        return None;
    }
    match parse_value_at(s, i) {
        Some((v, e)) => {
            if e >= s.len() {
                return None;
            }
            let mut acc = acc;
            proof {
                lemma_values_push(acc@, v);
            }
            acc.push(v);
            if s[e] == ',' {
                parse_values_until(s, e + 1, acc)
            } else if s[e] == ']' {
                Some((acc, e + 1))
            } else {
                None
            }
        },
        None => None,
    }
}


/// The value of the first entry named `key`.
pub open spec fn lookup(rs: Seq<(Seq<char>, VValue)>, key: Seq<char>) -> Option<VValue>
    decreases rs.len(),
{
    if rs.len() == 0 {
        None
    } else if rs[0].0 == key {
        Some(rs[0].1)
    } else {
        lookup(rs.drop_first(), key)
    }
}

/// The text of the first entry named `key`, if that entry is a constant.
pub open spec fn lookup_str(rs: Seq<(Seq<char>, VValue)>, key: Seq<char>) -> Option<Seq<char>> {
    match lookup(rs, key) {
        Some(VValue::Str(t)) => Some(t),
        _ => None,
    }
}

pub open spec fn opt_text(o: Option<String>) -> Option<Seq<char>> {
    match o {
        Some(s) => Some(s@),
        None => None,
    }
}

/// The end of the run of digits from `i`; all of them are digits.
fn scan_digits(s: &Vec<char>, i: usize) -> (j: usize)
    requires
        i <= s@.len(),
    ensures
        j as int == digits_end(s@, i as int),
        i <= j <= s@.len(),
        forall|k: int| i <= k < j ==> is_digit(#[trigger] s@[k]),
{
    let mut j = i;
    while j < s.len()
        invariant
            i <= j <= s@.len(),
            digits_end(s@, j as int) == digits_end(s@, i as int),
            forall|k: int| i <= k < j ==> is_digit(#[trigger] s@[k]),
        decreases s@.len() - j,
    {
        let c = s[j];
        if !('0' <= c && c <= '9') {
            return j;
        }
        j = j + 1;
    }
    j
}

fn result_class_from(w: &String) -> (r: Option<ResultClass>)
    ensures
        r == result_class_of(w@),
{
    if text_eq(w, "done") {
        Some(ResultClass::Done)
    } else if text_eq(w, "running") {
        Some(ResultClass::Running)
    } else if text_eq(w, "connected") {
        Some(ResultClass::Connected)
    } else if text_eq(w, "error") {
        Some(ResultClass::Error)
    } else if text_eq(w, "exit") {
        Some(ResultClass::Exit)
    } else {
        None
    }
}

fn async_class_from(w: &String) -> (r: Option<AsyncClass>)
    ensures
        r == async_class_of(w@),
{
    if text_eq(w, "stopped") {
        Some(AsyncClass::Stopped)
    } else if text_eq(w, "running") {
        Some(AsyncClass::Running)
    } else {
        None
    }
}

fn notification_class_from(w: &String) -> (r: Option<NotificationClass>)
    ensures
        r == notification_class_of(w@),
{
    if text_eq(w, "breakpoint-created") {
        Some(NotificationClass::BreakpointCreated)
    } else if text_eq(w, "breakpoint-modified") {
        Some(NotificationClass::BreakpointModified)
    } else if text_eq(w, "breakpoint-deleted") {
        Some(NotificationClass::BreakpointDeleted)
    } else if text_eq(w, "thread-group-added") {
        Some(NotificationClass::ThreadGroupAdded)
    } else if text_eq(w, "thread-group-started") {
        Some(NotificationClass::ThreadGroupStarted)
    } else if text_eq(w, "thread-group-exited") {
        Some(NotificationClass::ThreadGroupExited)
    } else if text_eq(w, "thread-created") {
        Some(NotificationClass::ThreadCreated)
    } else if text_eq(w, "thread-selected") {
        Some(NotificationClass::ThreadSelected)
    } else if text_eq(w, "thread-exited") {
        Some(NotificationClass::ThreadExited)
    } else if text_eq(w, "library-loaded") {
        Some(NotificationClass::LibraryLoaded)
    } else if text_eq(w, "library-unloaded") {
        Some(NotificationClass::LibraryUnloaded)
    } else if text_eq(w, "cmd-param-changed") {
        Some(NotificationClass::CmdParamChanged)
    } else if text_eq(w, "param-changed") {
        Some(NotificationClass::ParamChanged)
    } else if text_eq(w, "memory-changed") {
        Some(NotificationClass::MemoryChanged)
    } else {
        None
    }
}

/// Parses named values separated by commas from `i` to the end of `s`.
fn parse_results_to_end(s: &Vec<char>, i: usize, acc: Vec<MiResult>) -> (r: Option<Vec<MiResult>>)
    requires
        i <= s@.len(),
    ensures
        match r {
            Some(v) => Some(results_view(v@)),
            None => None,
        } == results_to_end(s@, i as int, results_view(acc@)),
    decreases s@.len() - i,
{
    if i >= s.len() {
        return None;
    }
    match parse_result_at(s, i) {
        Some((res, e)) => {
            let mut acc = acc;
            proof {
                lemma_results_push(acc@, res);
            }
            acc.push(res);
            if e == s.len() {
                Some(acc)
            } else if s[e] == ',' {
                parse_results_to_end(s, e + 1, acc)
            } else {
                None
            }
        },
        None => None,
    }
}

/// Gathers leading named values separated by commas from `i`, stopping at
/// the first that does not parse.
fn gather_results(s: &Vec<char>, i: usize, acc: Vec<MiResult>) -> (r: Vec<MiResult>)
    requires
        i <= s@.len(),
    ensures
        results_view(r@) == leading_results(s@, i as int, results_view(acc@)),
    decreases s@.len() - i,
{
    if i >= s.len() {
        return acc;
    }
    match parse_result_at(s, i) {
        Some((res, e)) => {
            let mut acc = acc;
            proof {
                lemma_results_push(acc@, res);
            }
            acc.push(res);
            if e >= s.len() || s[e] != ',' {
                acc
            } else {
                gather_results(s, e + 1, acc)
            }
        },
        None => acc,
    }
}

fn parse_error() -> (e: GdbError)
    ensures
        e.kind == GdbErrorKind::ParseError,
{
    GdbError::new(GdbErrorKind::ParseError, "malformed MI record")
}

/// Parses a trimmed line whose record prefix (`^`, `*`, `=`, `+`) stands at `d`.
fn parse_keyed(t: &Vec<char>, d: usize) -> (r: Result<Option<MiOutputRecord>, GdbError>)
    requires
        d < t@.len(),
        d as int == digits_end(t@, 0),
        forall|k: int| 0 <= k < d ==> is_digit(#[trigger] t@[k]),
        is_record_prefix(t@[d as int]),
    ensures
        match keyed_record(t@, d as int) {
            LineOutcome::Record(v) => r matches Ok(Some(rec)) && rec@ == v,
            _ => r matches Err(e) && e.kind == GdbErrorKind::ParseError,
        },
{
    let n = t.len();
    let p = t[d];
    let w = scan_name(t, d + 1);
    let word = string_of_range(t, d + 1, w);
    let token: Option<u64> = if d == 0 {
        None
    } else {
        assert(all_digits(t@.subrange(0, d as int))) by {
            assert forall|k: int| 0 <= k < d implies is_digit(#[trigger] t@.subrange(0, d as int)[k]) by {
                assert(t@.subrange(0, d as int)[k] == t@[k]);
            }
        }
        match digits_value(t, 0, d) {
            Some(n) => Some(n),
            None => {
                return Err(parse_error());
            },
        }
    };
    let results: Vec<MiResult> = if w == t.len() {
        let rs: Vec<MiResult> = Vec::new();
        assert(results_view(rs@) =~= seq![]);
        rs
    } else if t[w] == ',' {
        proof {
            assert(results_view(Seq::<MiResult>::empty()) =~= seq![]);
        }
        match parse_results_to_end(t, w + 1, Vec::new()) {
            Some(rs) => rs,
            None => {
                return Err(parse_error());
            },
        }
    } else {
        return Err(parse_error());
    };
    if p == '^' {
        match result_class_from(&word) {
            Some(class) => Ok(Some(MiOutputRecord::Result { token, class, results })),
            None => Err(parse_error()),
        }
    } else if p == '*' {
        match async_class_from(&word) {
            Some(class) => Ok(Some(MiOutputRecord::Async { token, class, results })),
            None => Err(parse_error()),
        }
    } else {
        match notification_class_from(&word) {
            Some(class) => Ok(Some(MiOutputRecord::Notification { class, results })),
            None => Err(parse_error()),
        }
    }
}

/// Parses a trimmed line that starts with a stream prefix.
fn parse_stream(t: &Vec<char>) -> (r: Result<Option<MiOutputRecord>, GdbError>)
    requires
        t@.len() > 0,
        is_stream_prefix(t@[0]),
    ensures
        match stream_record(t@) {
            LineOutcome::Record(v) => r matches Ok(Some(rec)) && rec@ == v,
            _ => r matches Err(e) && e.kind == GdbErrorKind::ParseError,
        },
{
    if t.len() < 2 || t[1] != '"' {
        return Err(parse_error());
    }
    match parse_const(t, 2) {
        Some((text, e)) => {
            if e != t.len() {
                Err(parse_error())
            } else if t[0] == '~' {
                Ok(Some(MiOutputRecord::Console(text)))
            } else if t[0] == '@' {
                Ok(Some(MiOutputRecord::Target(text)))
            } else {
                Ok(Some(MiOutputRecord::Log(text)))
            }
        },
        None => Err(parse_error()),
    }
}

fn is_space_char(c: char) -> (r: bool)
    ensures
        r == is_space(c),
{
    c == ' ' || c == '\t' || c == '\n' || c == '\r'
}

/// The value of the first of `rs` named `key`.
pub open spec fn entry_named(rs: Seq<MiResult>, key: Seq<char>) -> Option<MiValue>
    decreases rs.len(),
{
    if rs.len() == 0 {
        None
    } else if rs[0].variable@ == key {
        Some(rs[0].value)
    } else {
        entry_named(rs.drop_first(), key)
    }
}

/// The text of the first of `rs` named `key`, if it is a constant.
pub open spec fn entry_text(rs: Seq<MiResult>, key: Seq<char>) -> Option<String> {
    match entry_named(rs, key) {
        Some(MiValue::String(s)) => Some(s),
        _ => None,
    }
}

/// The value of the first of `rs` named `key`.
pub fn find_entry<'a>(rs: &'a [MiResult], key: &str) -> (r: Option<&'a MiValue>)
    ensures
        match r {
            Some(v) => lookup(results_view(rs@), key@) == Some(v@) && entry_named(rs@, key@) == Some(
                *v,
            ),
            None => lookup(results_view(rs@), key@) is None && entry_named(rs@, key@) is None,
        },
{
    let ghost rv = results_view(rs@);
    assert(rv.subrange(0, rv.len() as int) =~= rv);
    assert(rs@.subrange(0, rs@.len() as int) =~= rs@);
    let mut i: usize = 0;
    while i < rs.len()
        invariant
            i <= rs@.len(),
            rv == results_view(rs@),
            lookup(rv, key@) == lookup(rv.subrange(i as int, rv.len() as int), key@),
            entry_named(rs@, key@) == entry_named(rs@.subrange(i as int, rs@.len() as int), key@),
        decreases rs@.len() - i,
    {
        let ghost rest = rv.subrange(i as int, rv.len() as int);
        let ghost erest = rs@.subrange(i as int, rs@.len() as int);
        assert(rest[0] == rs@[i as int]@);
        assert(erest[0] == rs@[i as int]);
        if text_eq(&rs[i].variable, key) {
            return Some(&rs[i].value);
        }
        assert(rest.drop_first() =~= rv.subrange(i + 1, rv.len() as int));
        assert(erest.drop_first() =~= rs@.subrange(i + 1, rs@.len() as int));
        i = i + 1;
    }
    None
}

/// The text of the first of `rs` named `key`, if it is a constant.
pub fn find_text(rs: &[MiResult], key: &str) -> (r: Option<String>)
    ensures
        opt_text(r) == lookup_str(results_view(rs@), key@),
        r == entry_text(rs@, key@),
{
    match find_entry(rs, key) {
        Some(v) => MiParser::extract_string(v),
        None => None,
    }
}

/// The MI line parser. It keeps no state between lines.
pub struct MiParser {}

impl MiParser {
    pub fn new() -> (r: MiParser) {
        MiParser {}
    }

    /// Parses one line of MI output. A blank line or the prompt gives
    /// `Ok(None)`; a line without a record prefix is console text; a record
    /// prefix followed by text the grammar refuses is a `ParseError`.
    pub fn parse_line(&self, line: &str) -> (r: Result<Option<MiOutputRecord>, GdbError>)
        ensures
            match line_outcome(line@) {
                LineOutcome::Blank => r matches Ok(None),
                LineOutcome::Record(v) => r matches Ok(Some(rec)) && rec@ == v,
                LineOutcome::Malformed => r matches Err(e) && e.kind == GdbErrorKind::ParseError,
            },
    {
        let cs = chars_of(line);
        let n = cs.len();
        let mut a: usize = 0;
        while a < n && is_space_char(cs[a])
            invariant
                a <= n == cs@.len(),
                trim_start_at(cs@, a as int) == trim_start_at(cs@, 0),
            decreases n - a,
        {
            a = a + 1;
        }
        assert(trim_start_at(cs@, a as int) == a);
        let mut b: usize = n;
        while b > 0 && is_space_char(cs[b - 1])
            invariant
                b <= n == cs@.len(),
                trim_end_at(cs@, b as int) == trim_end_at(cs@, n as int),
            decreases b,
        {
            b = b - 1;
        }
        assert(trim_end_at(cs@, b as int) == b);
        if a >= b {
            return Ok(None);
        }
        let t = vstd::slice::slice_to_vec(vstd::slice::slice_subrange(cs.as_slice(), a, b));
        assert(t@ =~= trimmed(line@));
        let ts = string_of(t.as_slice());
        if text_eq(&ts, "(gdb)") {
            return Ok(None);
        }
        let d = scan_digits(&t, 0);
        if d < t.len() && (t[d] == '^' || t[d] == '*' || t[d] == '=' || t[d] == '+') {
            parse_keyed(&t, d)
        } else if d == 0 && (t[0] == '~' || t[0] == '@' || t[0] == '&') {
            parse_stream(&t)
        } else {
            Ok(Some(MiOutputRecord::Console(ts)))
        }
    }

    /// Parses `name=value` pairs separated by commas, stopping at the first
    /// that does not parse.
    pub fn parse_results(&self, input: &str) -> (r: Vec<MiResult>)
        ensures
            results_view(r@) == leading_results(input@, 0, seq![]),
    {
        let s = chars_of(input);
        proof {
            assert(results_view(Seq::<MiResult>::empty()) =~= seq![]);
        }
        gather_results(&s, 0, Vec::new())
    }

    /// The text of a constant value.
    pub fn extract_string(value: &MiValue) -> (r: Option<String>)
        ensures
            match value@ {
                VValue::Str(t) => r matches Some(s) && s@ == t,
                _ => r is None,
            },
            match value {
                MiValue::String(s) => r == Some(*s),
                _ => r is None,
            },
    {
        match value {
            MiValue::String(s) => Some(s.clone()),
            _ => None,
        }
    }

    /// The entries of a tuple value.
    pub fn extract_tuple(value: &MiValue) -> (r: Option<&Vec<MiResult>>)
        ensures
            match value {
                MiValue::Tuple(t) => r == Some(t),
                _ => r is None,
            },
    {
        match value {
            MiValue::Tuple(t) => Some(t),
            _ => None,
        }
    }

    /// The elements of a list of values.
    pub fn extract_list(value: &MiValue) -> (r: Option<&Vec<MiValue>>)
        ensures
            match value {
                MiValue::List(l) => r == Some(l),
                _ => r is None,
            },
    {
        match value {
            MiValue::List(l) => Some(l),
            _ => None,
        }
    }

    /// The value of the first entry named `key`.
    pub fn get_tuple_value<'a>(tuple: &'a Vec<MiResult>, key: &str) -> (r: Option<&'a MiValue>)
        ensures
            match r {
                Some(v) => lookup(results_view(tuple@), key@) == Some(v@),
                None => lookup(results_view(tuple@), key@) is None,
            },
    {
        find_entry(tuple.as_slice(), key)
    }

    /// The text of the first entry named `key`, if that entry is a constant.
    pub fn get_tuple_string(tuple: &Vec<MiResult>, key: &str) -> (r: Option<String>)
        ensures
            opt_text(r) == lookup_str(results_view(tuple@), key@),
    {
        match MiParser::get_tuple_value(tuple, key) {
            Some(v) => MiParser::extract_string(v),
            None => None,
        }
    }
}

} // verus!
