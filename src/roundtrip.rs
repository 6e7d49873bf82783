//! The MI writer, as a specification, and the parser's agreement with it:
//! every well-formed value that the writer renders is read back as itself.
use vstd::prelude::*;
use crate::parser::{
    LineOutcome, keyed_record, stream_record, is_record_prefix, is_stream_prefix, async_class_of, const_body, digits_end, is_name_char, is_space, line_outcome,
    name_end, notification_class_of, opens_value, result_at, result_class_of, results_from,
    results_to_end, trim_end_at, trim_start_at, trimmed, value_at, values_from,
};
use crate::text::{decimal_text, decimal_value, digit_char, digit_value, is_digit};
use crate::types::{AsyncClass, NotificationClass, ResultClass, VRecord, VValue};

verus! {

broadcast use vstd::seq::axiom_seq_index_decreases;

/// How the writer escapes one character inside a quoted constant.
pub open spec fn escape_char(c: char) -> Seq<char> {
    if c == '"' {
        seq!['\\', '"']
    } else if c == '\\' {
        seq!['\\', '\\']
    } else if c == '\n' {
        seq!['\\', 'n']
    } else if c == '\t' {
        seq!['\\', 't']
    } else if c == '\r' {
        seq!['\\', 'r']
    } else {
        seq![c]
    }
}

/// The escaped body of a quoted constant.
pub open spec fn escape_text(t: Seq<char>) -> Seq<char>
    decreases t.len(),
{
    if t.len() == 0 {
        seq![]
    } else {
        escape_char(t[0]) + escape_text(t.drop_first())
    }
}

/// A name the grammar accepts.
pub open spec fn wf_name(n: Seq<char>) -> bool {
    n.len() > 0 && forall|k: int| 0 <= k < n.len() ==> is_name_char(#[trigger] n[k])
}

/// A value the writer can render so that it reads back: no empty value,
/// names made of name characters, and no empty list of named values (which
/// would read as an empty list of values).
pub open spec fn wf_value(v: VValue) -> bool
    decreases v, 0nat,
{
    match v {
        VValue::Str(_) => true,
        VValue::Tuple(rs) => wf_entries(rs, 0),
        VValue::List(vs) => wf_values(vs, 0),
        VValue::ResultList(rs) => rs.len() > 0 && wf_entries(rs, 0),
        VValue::Nothing => false,
    }
}

pub open spec fn wf_entries(rs: Seq<(Seq<char>, VValue)>, k: int) -> bool
    decreases rs, rs.len() - k,
{
    if k < 0 || k >= rs.len() {
        true
    } else {
        wf_name(rs[k].0) && wf_value(rs[k].1) && wf_entries(rs, k + 1)
    }
}

pub open spec fn wf_values(vs: Seq<VValue>, k: int) -> bool
    decreases vs, vs.len() - k,
{
    if k < 0 || k >= vs.len() {
        true
    } else {
        wf_value(vs[k]) && wf_values(vs, k + 1)
    }
}

/// The text of a value.
pub open spec fn render_value(v: VValue) -> Seq<char>
    decreases v, 0nat,
{
    match v {
        VValue::Str(t) => seq!['"'] + escape_text(t) + seq!['"'],
        VValue::Tuple(rs) => seq!['{'] + render_entries(rs, 0) + seq!['}'],
        VValue::List(vs) => seq!['['] + render_values(vs, 0) + seq![']'],
        VValue::ResultList(rs) => seq!['['] + render_entries(rs, 0) + seq![']'],
        VValue::Nothing => seq![],
    }
}

/// The text of the named values from the `k`-th on, separated by commas.
pub open spec fn render_entries(rs: Seq<(Seq<char>, VValue)>, k: int) -> Seq<char>
    decreases rs, rs.len() - k,
{
    if k < 0 || k >= rs.len() {
        seq![]
    } else if k == rs.len() - 1 {
        rs[k].0 + seq!['='] + render_value(rs[k].1)
    } else {
        rs[k].0 + seq!['='] + render_value(rs[k].1) + seq![','] + render_entries(rs, k + 1)
    }
}

/// The text of the values from the `k`-th on, separated by commas.
pub open spec fn render_values(vs: Seq<VValue>, k: int) -> Seq<char>
    decreases vs, vs.len() - k,
{
    if k < 0 || k >= vs.len() {
        seq![]
    } else if k == vs.len() - 1 {
        render_value(vs[k])
    } else {
        render_value(vs[k]) + seq![','] + render_values(vs, k + 1)
    }
}

/// `s` holds `t` from position `i` on.
pub open spec fn holds_at(s: Seq<char>, i: int, t: Seq<char>) -> bool {
    0 <= i && i + t.len() <= s.len() && s.subrange(i, i + t.len()) == t
}

proof fn lemma_holds_split(s: Seq<char>, i: int, a: Seq<char>, b: Seq<char>)
    requires
        holds_at(s, i, a + b),
    ensures
        holds_at(s, i, a),
        holds_at(s, i + a.len(), b),
{
    let ab = a + b;
    assert forall|k: int| 0 <= k < a.len() implies #[trigger] s.subrange(i, i + a.len())[k]
        == a[k] by {
        assert(s.subrange(i, i + ab.len())[k] == ab[k]);
    }
    assert(s.subrange(i, i + a.len()) =~= a);
    assert forall|k: int| 0 <= k < b.len() implies #[trigger] s.subrange(
        i + a.len(),
        i + a.len() + b.len(),
    )[k] == b[k] by {
        assert(s.subrange(i, i + ab.len())[a.len() + k] == ab[a.len() + k]);
    }
    assert(s.subrange(i + a.len(), i + a.len() + b.len()) =~= b);
}

proof fn lemma_holds_char(s: Seq<char>, i: int, t: Seq<char>, k: int)
    requires
        holds_at(s, i, t),
        0 <= k < t.len(),
    ensures
        s[i + k] == t[k],
{
    assert(s.subrange(i, i + t.len())[k] == s[i + k]);
}

/// A quoted constant's escaped body, followed by the closing quote, decodes
/// to the text it stands for.
proof fn lemma_const(t: Seq<char>, s: Seq<char>, i: int, acc: Seq<char>)
    requires
        holds_at(s, i, escape_text(t) + seq!['"']),
    ensures
        const_body(s, i, acc) == Some((acc + t, i + escape_text(t).len() + 1)),
    decreases t.len(),
{
    if t.len() == 0 {
        lemma_holds_char(s, i, escape_text(t) + seq!['"'], 0);
        assert(acc + t =~= acc);
    } else {
        let c = t[0];
        let e = escape_char(c);
        let rest = t.drop_first();
        assert(escape_text(t) + seq!['"'] =~= e + (escape_text(rest) + seq!['"']));
        lemma_holds_split(s, i, e, escape_text(rest) + seq!['"']);
        lemma_holds_char(s, i, e, 0);
        if e.len() == 2 {
            lemma_holds_char(s, i, e, 1);
            lemma_const(rest, s, i + 2, acc + seq![c]);
        } else {
            lemma_const(rest, s, i + 1, acc.push(c));
            assert(acc.push(c) =~= acc + seq![c]);
        }
        assert(acc + seq![c] + rest =~= acc + t);
    }
}

proof fn lemma_name_end(s: Seq<char>, i: int, j: int)
    requires
        0 <= i <= j <= s.len(),
        forall|k: int| i <= k < j ==> is_name_char(#[trigger] s[k]),
        j == s.len() || !is_name_char(s[j]),
    ensures
        name_end(s, i) == j,
    decreases j - i,
{
    if i < j {
        lemma_name_end(s, i + 1, j);
    }
}

proof fn lemma_render_starts(v: VValue)
    requires
        wf_value(v),
    ensures
        render_value(v).len() > 0,
        opens_value(render_value(v)[0]),
        !is_name_char(render_value(v)[0]),
{
}

/// A well-formed value read at the start of its text.
proof fn lemma_value(v: VValue, s: Seq<char>, i: int)
    requires
        wf_value(v),
        holds_at(s, i, render_value(v)),
    ensures
        value_at(s, i) == Some((v, i + render_value(v).len())),
    decreases v, 0nat,
{
    let r = render_value(v);
    lemma_holds_char(s, i, r, 0);
    match v {
        VValue::Str(t) => {
            assert(r =~= seq!['"'] + (escape_text(t) + seq!['"']));
            lemma_holds_split(s, i, seq!['"'], escape_text(t) + seq!['"']);
            lemma_const(t, s, i + 1, seq![]);
            assert(seq![] + t =~= t);
        },
        VValue::Tuple(rs) => {
            let body = render_entries(rs, 0);
            assert(r =~= seq!['{'] + (body + seq!['}']));
            lemma_holds_split(s, i, seq!['{'], body + seq!['}']);
            lemma_holds_split(s, i + 1, body, seq!['}']);
            lemma_holds_char(s, i + 1 + body.len(), seq!['}'], 0);
            if rs.len() == 0 {
                assert(rs =~= seq![]);
            } else {
                lemma_entries_first(rs, 0, s, i + 1);
                lemma_entries(rs, 0, s, i + 1, '}', seq![]);
                assert(seq![] + rs.subrange(0, rs.len() as int) =~= rs);
            }
        },
        VValue::List(vs) => {
            let body = render_values(vs, 0);
            assert(r =~= seq!['['] + (body + seq![']']));
            lemma_holds_split(s, i, seq!['['], body + seq![']']);
            lemma_holds_split(s, i + 1, body, seq![']']);
            lemma_holds_char(s, i + 1 + body.len(), seq![']'], 0);
            if vs.len() == 0 {
                assert(vs =~= seq![]);
            } else {
                lemma_values_first(vs, 0, s, i + 1);
                lemma_values(vs, 0, s, i + 1, seq![]);
                assert(seq![] + vs.subrange(0, vs.len() as int) =~= vs);
            }
        },
        VValue::ResultList(rs) => {
            let body = render_entries(rs, 0);
            assert(r =~= seq!['['] + (body + seq![']']));
            lemma_holds_split(s, i, seq!['['], body + seq![']']);
            lemma_holds_split(s, i + 1, body, seq![']']);
            lemma_holds_char(s, i + 1 + body.len(), seq![']'], 0);
            lemma_entries_first(rs, 0, s, i + 1);
            lemma_entries(rs, 0, s, i + 1, ']', seq![]);
            assert(seq![] + rs.subrange(0, rs.len() as int) =~= rs);
        },
        VValue::Nothing => {},
    }
}

/// The text of a list of named values begins with a name character.
proof fn lemma_entries_first(rs: Seq<(Seq<char>, VValue)>, k: int, s: Seq<char>, i: int)
    requires
        0 <= k < rs.len(),
        wf_entries(rs, k),
        holds_at(s, i, render_entries(rs, k)),
    ensures
        i < s.len(),
        is_name_char(s[i]),
        s[i] != ']' && s[i] != '}',
        !opens_value(s[i]),
{
    let n = rs[k].0;
    assert(render_entries(rs, k)[0] == n[0]);
    lemma_holds_char(s, i, render_entries(rs, k), 0);
}

/// The text of a list of values begins with a character that opens a value.
proof fn lemma_values_first(vs: Seq<VValue>, k: int, s: Seq<char>, i: int)
    requires
        0 <= k < vs.len(),
        wf_values(vs, k),
        holds_at(s, i, render_values(vs, k)),
    ensures
        i < s.len(),
        opens_value(s[i]),
{
    lemma_render_starts(vs[k]);
    assert(render_values(vs, k)[0] == render_value(vs[k])[0]);
    lemma_holds_char(s, i, render_values(vs, k), 0);
}

/// The value of a named value's text stands after its name and `=`.
proof fn lemma_entry_value(n: Seq<char>, v: VValue, s: Seq<char>, i: int)
    requires
        holds_at(s, i, n + seq!['='] + render_value(v)),
    ensures
        holds_at(s, i + n.len() + 1, render_value(v)),
        holds_at(s, i, n),
        s[i + n.len()] == '=',
{
    let rv = render_value(v);
    assert(n + seq!['='] + rv =~= n + (seq!['='] + rv));
    lemma_holds_split(s, i, n, seq!['='] + rv);
    lemma_holds_split(s, i + n.len(), seq!['='], rv);
    lemma_holds_char(s, i + n.len(), seq!['='], 0);
}

/// One named value read at the start of its text, given that its value is
/// read after the `=`.
proof fn lemma_entry(n: Seq<char>, v: VValue, s: Seq<char>, i: int)
    requires
        wf_name(n),
        wf_value(v),
        holds_at(s, i, n + seq!['='] + render_value(v)),
        value_at(s, i + n.len() + 1) == Some((v, i + n.len() + 1 + render_value(v).len())),
    ensures
        result_at(s, i) == Some(((n, v), i + n.len() + 1 + render_value(v).len())),
{
    lemma_entry_value(n, v, s, i);
    assert forall|k: int| i <= k < i + n.len() implies is_name_char(#[trigger] s[k]) by {
        lemma_holds_char(s, i, n, k - i);
    }
    lemma_name_end(s, i, i + n.len());
}

/// Named values from the `k`-th on, followed by `close`, read back.
proof fn lemma_entries(
    rs: Seq<(Seq<char>, VValue)>,
    k: int,
    s: Seq<char>,
    i: int,
    close: char,
    acc: Seq<(Seq<char>, VValue)>,
)
    requires
        0 <= k < rs.len(),
        wf_entries(rs, k),
        holds_at(s, i, render_entries(rs, k) + seq![close]),
        close == '}' || close == ']',
    ensures
        results_from(s, i, close, acc) == Some(
            (acc + rs.subrange(k, rs.len() as int), i + render_entries(rs, k).len() + 1),
        ),
    decreases rs, rs.len() - k,
{
    let n = rs[k].0;
    let v = rs[k].1;
    let head = n + seq!['='] + render_value(v);
    if k == rs.len() - 1 {
        assert(render_entries(rs, k) + seq![close] =~= head + seq![close]);
        lemma_holds_split(s, i, head, seq![close]);
        lemma_holds_char(s, i + head.len(), seq![close], 0);
        lemma_entry_value(n, v, s, i);
        lemma_value(v, s, i + n.len() + 1);
        lemma_entry(n, v, s, i);
        assert(rs.subrange(k, rs.len() as int) =~= seq![rs[k]]);
        assert(acc.push((n, v)) =~= acc + seq![rs[k]]);
    } else {
        let tail = render_entries(rs, k + 1);
        assert(render_entries(rs, k) + seq![close] =~= head + (seq![','] + (tail + seq![close])));
        lemma_holds_split(s, i, head, seq![','] + (tail + seq![close]));
        lemma_holds_split(s, i + head.len(), seq![','], tail + seq![close]);
        lemma_holds_char(s, i + head.len(), seq![','], 0);
        lemma_entry_value(n, v, s, i);
        lemma_value(v, s, i + n.len() + 1);
        lemma_entry(n, v, s, i);
        lemma_entries(rs, k + 1, s, i + head.len() + 1, close, acc.push((n, v)));
        assert(acc.push((n, v)) + rs.subrange(k + 1, rs.len() as int) =~= acc + rs.subrange(
            k,
            rs.len() as int,
        ));
    }
}

/// Values from the `k`-th on, followed by `]`, read back.
proof fn lemma_values(vs: Seq<VValue>, k: int, s: Seq<char>, i: int, acc: Seq<VValue>)
    requires
        0 <= k < vs.len(),
        wf_values(vs, k),
        holds_at(s, i, render_values(vs, k) + seq![']']),
    ensures
        values_from(s, i, acc) == Some(
            (acc + vs.subrange(k, vs.len() as int), i + render_values(vs, k).len() + 1),
        ),
    decreases vs, vs.len() - k,
{
    let v = vs[k];
    let head = render_value(v);
    lemma_render_starts(v);
    if k == vs.len() - 1 {
        assert(render_values(vs, k) + seq![']'] =~= head + seq![']']);
        lemma_holds_split(s, i, head, seq![']']);
        lemma_holds_char(s, i + head.len(), seq![']'], 0);
        lemma_value(v, s, i);
        assert(vs.subrange(k, vs.len() as int) =~= seq![v]);
        assert(acc.push(v) =~= acc + seq![v]);
    } else {
        let tail = render_values(vs, k + 1);
        assert(render_values(vs, k) + seq![']'] =~= head + (seq![','] + (tail + seq![']'])));
        lemma_holds_split(s, i, head, seq![','] + (tail + seq![']']));
        lemma_holds_split(s, i + head.len(), seq![','], tail + seq![']']);
        lemma_holds_char(s, i + head.len(), seq![','], 0);
        lemma_value(v, s, i);
        lemma_values(vs, k + 1, s, i + head.len() + 1, acc.push(v));
        assert(acc.push(v) + vs.subrange(k + 1, vs.len() as int) =~= acc + vs.subrange(
            k,
            vs.len() as int,
        ));
    }
}

/// Reading a well-formed value's text gives the value back, and ends just
/// after the text.
pub proof fn lemma_value_round_trip(v: VValue)
    requires
        wf_value(v),
    ensures
        value_at(render_value(v), 0) == Some((v, render_value(v).len() as int)),
{
    let r = render_value(v);
    assert(r.subrange(0, r.len() as int) =~= r);
    lemma_value(v, r, 0);
}

pub open spec fn result_class_text(c: ResultClass) -> Seq<char> {
    match c {
        ResultClass::Done => seq!['d', 'o', 'n', 'e'],
        ResultClass::Running => seq!['r', 'u', 'n', 'n', 'i', 'n', 'g'],
        ResultClass::Connected => seq!['c', 'o', 'n', 'n', 'e', 'c', 't', 'e', 'd'],
        ResultClass::Error => seq!['e', 'r', 'r', 'o', 'r'],
        ResultClass::Exit => seq!['e', 'x', 'i', 't'],
    }
}

pub open spec fn async_class_text(c: AsyncClass) -> Seq<char> {
    match c {
        AsyncClass::Stopped => seq!['s', 't', 'o', 'p', 'p', 'e', 'd'],
        AsyncClass::Running => seq!['r', 'u', 'n', 'n', 'i', 'n', 'g'],
    }
}

pub open spec fn notification_class_text(c: NotificationClass) -> Seq<char> {
    match c {
        NotificationClass::BreakpointCreated => seq![
            'b', 'r', 'e', 'a', 'k', 'p', 'o', 'i', 'n', 't', '-', 'c', 'r', 'e', 'a', 't', 'e', 'd',
        ],
        NotificationClass::BreakpointModified => seq![
            'b', 'r', 'e', 'a', 'k', 'p', 'o', 'i', 'n', 't', '-', 'm', 'o', 'd', 'i', 'f', 'i', 'e', 'd',
        ],
        NotificationClass::BreakpointDeleted => seq![
            'b', 'r', 'e', 'a', 'k', 'p', 'o', 'i', 'n', 't', '-', 'd', 'e', 'l', 'e', 't', 'e', 'd',
        ],
        NotificationClass::ThreadGroupAdded => seq![
            't', 'h', 'r', 'e', 'a', 'd', '-', 'g', 'r', 'o', 'u', 'p', '-', 'a', 'd', 'd', 'e', 'd',
        ],
        NotificationClass::ThreadGroupStarted => seq![
            't', 'h', 'r', 'e', 'a', 'd', '-', 'g', 'r', 'o', 'u', 'p', '-', 's', 't', 'a', 'r', 't', 'e', 'd',
        ],
        NotificationClass::ThreadGroupExited => seq![
            't', 'h', 'r', 'e', 'a', 'd', '-', 'g', 'r', 'o', 'u', 'p', '-', 'e', 'x', 'i', 't', 'e', 'd',
        ],
        NotificationClass::ThreadCreated => seq![
            't', 'h', 'r', 'e', 'a', 'd', '-', 'c', 'r', 'e', 'a', 't', 'e', 'd',
        ],
        NotificationClass::ThreadSelected => seq![
            't', 'h', 'r', 'e', 'a', 'd', '-', 's', 'e', 'l', 'e', 'c', 't', 'e', 'd',
        ],
        NotificationClass::ThreadExited => seq![
            't', 'h', 'r', 'e', 'a', 'd', '-', 'e', 'x', 'i', 't', 'e', 'd',
        ],
        NotificationClass::LibraryLoaded => seq![
            'l', 'i', 'b', 'r', 'a', 'r', 'y', '-', 'l', 'o', 'a', 'd', 'e', 'd',
        ],
        NotificationClass::LibraryUnloaded => seq![
            'l', 'i', 'b', 'r', 'a', 'r', 'y', '-', 'u', 'n', 'l', 'o', 'a', 'd', 'e', 'd',
        ],
        NotificationClass::CmdParamChanged => seq![
            'c', 'm', 'd', '-', 'p', 'a', 'r', 'a', 'm', '-', 'c', 'h', 'a', 'n', 'g', 'e', 'd',
        ],
        NotificationClass::MemoryChanged => seq![
            'm', 'e', 'm', 'o', 'r', 'y', '-', 'c', 'h', 'a', 'n', 'g', 'e', 'd',
        ],
        NotificationClass::ParamChanged => seq![
            'p', 'a', 'r', 'a', 'm', '-', 'c', 'h', 'a', 'n', 'g', 'e', 'd',
        ],
    }
}

proof fn lemma_result_class_text(c: ResultClass)
    ensures
        result_class_of(result_class_text(c)) == Some(c),
        wf_name(result_class_text(c)),
{
    reveal_strlit("done");
    reveal_strlit("running");
    reveal_strlit("connected");
    reveal_strlit("error");
    reveal_strlit("exit");
    let w = result_class_text(c);
    match c {
        ResultClass::Done => assert("done"@ =~= w),
        ResultClass::Running => assert("running"@ =~= w),
        ResultClass::Connected => assert("connected"@ =~= w),
        ResultClass::Error => assert("error"@ =~= w),
        ResultClass::Exit => {
            assert("exit"@ =~= w);
            assert("done"@[0] != w[0]);
        },
    }
}

proof fn lemma_async_class_text(c: AsyncClass)
    ensures
        async_class_of(async_class_text(c)) == Some(c),
        wf_name(async_class_text(c)),
{
    reveal_strlit("stopped");
    reveal_strlit("running");
    let w = async_class_text(c);
    match c {
        AsyncClass::Stopped => assert("stopped"@ =~= w),
        AsyncClass::Running => {
            assert("running"@ =~= w);
            assert("stopped"@[0] != w[0]);
        },
    }
}

proof fn lemma_notification_class_text(c: NotificationClass)
    ensures
        notification_class_of(notification_class_text(c)) == Some(c),
        wf_name(notification_class_text(c)),
{
    reveal_strlit("breakpoint-created");
    reveal_strlit("breakpoint-modified");
    reveal_strlit("breakpoint-deleted");
    reveal_strlit("thread-group-added");
    reveal_strlit("thread-group-started");
    reveal_strlit("thread-group-exited");
    reveal_strlit("thread-created");
    reveal_strlit("thread-selected");
    reveal_strlit("thread-exited");
    reveal_strlit("library-loaded");
    reveal_strlit("library-unloaded");
    reveal_strlit("cmd-param-changed");
    reveal_strlit("param-changed");
    reveal_strlit("memory-changed");
    let w = notification_class_text(c);
    match c {
        NotificationClass::BreakpointCreated => assert("breakpoint-created"@ =~= w),
        NotificationClass::BreakpointModified => assert("breakpoint-modified"@ =~= w),
        NotificationClass::BreakpointDeleted => {
            assert("breakpoint-deleted"@ =~= w);
            assert("breakpoint-created"@[11] != w[11]);
        },
        NotificationClass::ThreadGroupAdded => {
            assert("thread-group-added"@ =~= w);
            assert("breakpoint-created"@[0] != w[0]);
            assert("breakpoint-deleted"@[0] != w[0]);
        },
        NotificationClass::ThreadGroupStarted => assert("thread-group-started"@ =~= w),
        NotificationClass::ThreadGroupExited => {
            assert("thread-group-exited"@ =~= w);
            assert("breakpoint-modified"@[0] != w[0]);
        },
        NotificationClass::ThreadCreated => assert("thread-created"@ =~= w),
        NotificationClass::ThreadSelected => assert("thread-selected"@ =~= w),
        NotificationClass::ThreadExited => assert("thread-exited"@ =~= w),
        NotificationClass::LibraryLoaded => {
            assert("library-loaded"@ =~= w);
            assert("thread-created"@[0] != w[0]);
        },
        NotificationClass::LibraryUnloaded => assert("library-unloaded"@ =~= w),
        NotificationClass::CmdParamChanged => assert("cmd-param-changed"@ =~= w),
        NotificationClass::ParamChanged => {
            assert("param-changed"@ =~= w);
            assert("thread-exited"@[0] != w[0]);
        },
        NotificationClass::MemoryChanged => {
            assert("memory-changed"@ =~= w);
            assert("thread-created"@[0] != w[0]);
            assert("library-loaded"@[0] != w[0]);
        },
    }
}

proof fn lemma_decimal(n: nat)
    ensures
        decimal_text(n).len() > 0,
        forall|k: int| 0 <= k < decimal_text(n).len() ==> is_digit(#[trigger] decimal_text(n)[k]),
        decimal_value(decimal_text(n)) == n,
    decreases n,
{
    let d = digit_char(n % 10);
    assert(is_digit(d) && digit_value(d) == n % 10);
    if n < 10 {
        assert(decimal_text(n).drop_last() =~= Seq::<char>::empty());
        assert(decimal_value(Seq::<char>::empty()) == 0);
    } else {
        lemma_decimal(n / 10);
        let t = decimal_text(n / 10);
        assert(decimal_text(n).drop_last() =~= t);
        assert((n / 10) * 10 + n % 10 == n);
        assert forall|k: int| 0 <= k < decimal_text(n).len() implies is_digit(
            #[trigger] decimal_text(n)[k],
        ) by {
            if k < t.len() {
                assert(decimal_text(n)[k] == t[k]);
            }
        }
    }
}

proof fn lemma_digits_end(s: Seq<char>, i: int, j: int)
    requires
        0 <= i <= j < s.len(),
        forall|k: int| i <= k < j ==> is_digit(#[trigger] s[k]),
        !is_digit(s[j]),
    ensures
        digits_end(s, i) == j,
    decreases j - i,
{
    if i < j {
        lemma_digits_end(s, i + 1, j);
    }
}

/// The last character of a well-formed value's text closes it.
proof fn lemma_render_ends(v: VValue)
    requires
        wf_value(v),
    ensures
        render_value(v).len() > 0,
        render_value(v).last() == '"' || render_value(v).last() == '}' || render_value(v).last() == ']',
{
}

proof fn lemma_entries_ends(rs: Seq<(Seq<char>, VValue)>, k: int)
    requires
        0 <= k < rs.len(),
        wf_entries(rs, k),
    ensures
        render_entries(rs, k).len() > 0,
        !is_space(render_entries(rs, k).last()),
    decreases rs.len() - k,
{
    lemma_render_ends(rs[k].1);
    if k < rs.len() - 1 {
        lemma_entries_ends(rs, k + 1);
    }
}

/// Named values from the `k`-th on that end the text read back.
proof fn lemma_entries_to_end(
    rs: Seq<(Seq<char>, VValue)>,
    k: int,
    s: Seq<char>,
    i: int,
    acc: Seq<(Seq<char>, VValue)>,
)
    requires
        0 <= k < rs.len(),
        wf_entries(rs, k),
        holds_at(s, i, render_entries(rs, k)),
        i + render_entries(rs, k).len() == s.len(),
    ensures
        results_to_end(s, i, acc) == Some(acc + rs.subrange(k, rs.len() as int)),
    decreases rs.len() - k,
{
    let n = rs[k].0;
    let v = rs[k].1;
    let head = n + seq!['='] + render_value(v);
    if k == rs.len() - 1 {
        assert(render_entries(rs, k) == head);
        lemma_entry_value(n, v, s, i);
        lemma_value(v, s, i + n.len() + 1);
        lemma_entry(n, v, s, i);
        assert(rs.subrange(k, rs.len() as int) =~= seq![rs[k]]);
        assert(acc.push((n, v)) =~= acc + seq![rs[k]]);
    } else {
        let tail = render_entries(rs, k + 1);
        assert(render_entries(rs, k) =~= head + (seq![','] + tail));
        lemma_holds_split(s, i, head, seq![','] + tail);
        lemma_holds_split(s, i + head.len(), seq![','], tail);
        lemma_holds_char(s, i + head.len(), seq![','], 0);
        lemma_entry_value(n, v, s, i);
        lemma_value(v, s, i + n.len() + 1);
        lemma_entry(n, v, s, i);
        lemma_entries_to_end(rs, k + 1, s, i + head.len() + 1, acc.push((n, v)));
        assert(acc.push((n, v)) + rs.subrange(k + 1, rs.len() as int) =~= acc + rs.subrange(
            k,
            rs.len() as int,
        ));
    }
}

/// The text of an optional token.
pub open spec fn token_text(t: Option<u64>) -> Seq<char> {
    match t {
        Some(n) => decimal_text(n as nat),
        None => seq![],
    }
}

/// The text of a record's named values, after its class.
pub open spec fn results_tail(rs: Seq<(Seq<char>, VValue)>) -> Seq<char> {
    if rs.len() == 0 {
        seq![]
    } else {
        seq![','] + render_entries(rs, 0)
    }
}

pub open spec fn keyed_line(token: Option<u64>, p: char, word: Seq<char>, rs: Seq<(Seq<char>, VValue)>) -> Seq<char> {
    token_text(token) + seq![p] + word + results_tail(rs)
}

/// The line the debugger writes for a record.
pub open spec fn render_line(r: VRecord) -> Seq<char> {
    match r {
        VRecord::Result { token, class, results } => keyed_line(
            token,
            '^',
            result_class_text(class),
            results,
        ),
        VRecord::Async { token, class, results } => keyed_line(
            token,
            '*',
            async_class_text(class),
            results,
        ),
        VRecord::Notification { class, results } => keyed_line(
            None,
            '=',
            notification_class_text(class),
            results,
        ),
        VRecord::Console(t) => seq!['~'] + render_value(VValue::Str(t)),
        VRecord::Target(t) => seq!['@'] + render_value(VValue::Str(t)),
        VRecord::Log(t) => seq!['&'] + render_value(VValue::Str(t)),
    }
}

/// A record whose line reads back: its named values are well formed.
pub open spec fn wf_record(r: VRecord) -> bool {
    match r {
        VRecord::Result { results, .. } => wf_entries(results, 0),
        VRecord::Async { results, .. } => wf_entries(results, 0),
        VRecord::Notification { results, .. } => wf_entries(results, 0),
        _ => true,
    }
}

proof fn lemma_trimmed_whole(s: Seq<char>)
    requires
        s.len() > 0,
        !is_space(s[0]),
        !is_space(s.last()),
    ensures
        trimmed(s) == s,
{
    assert(trim_start_at(s, 0) == 0);
    assert(trim_end_at(s, s.len() as int) == s.len());
    assert(s.subrange(0, s.len() as int) =~= s);
}

proof fn lemma_not_prompt(s: Seq<char>)
    requires
        s.len() > 0,
        s[0] != '(',
    ensures
        s != "(gdb)"@,
{
    reveal_strlit("(gdb)");
    if s == "(gdb)"@ {
        assert(s[0] == "(gdb)"@[0]);
    }
}

proof fn lemma_keyed_split(token: Option<u64>, p: char, word: Seq<char>, rs: Seq<(Seq<char>, VValue)>)
    ensures
        ({
            let l = keyed_line(token, p, word, rs);
            let d = token_text(token).len() as int;
            &&& holds_at(l, 0, token_text(token))
            &&& holds_at(l, d + 1, word)
            &&& holds_at(l, d + 1 + word.len(), results_tail(rs))
            &&& l.len() == d + 1 + word.len() + results_tail(rs).len()
            &&& l[d] == p
        }),
{
    let tt = token_text(token);
    let l = keyed_line(token, p, word, rs);
    let d = tt.len() as int;
    let tail = results_tail(rs);
    assert(l =~= tt + (seq![p] + (word + tail)));
    assert(l.subrange(0, l.len() as int) =~= l);
    lemma_holds_split(l, 0, tt, seq![p] + (word + tail));
    lemma_holds_split(l, d, seq![p], word + tail);
    lemma_holds_split(l, d + 1, word, tail);
    lemma_holds_char(l, d, seq![p], 0);
}

proof fn lemma_keyed_head(token: Option<u64>, p: char, word: Seq<char>, rs: Seq<(Seq<char>, VValue)>)
    requires
        wf_name(word),
        wf_entries(rs, 0),
        !is_digit(p),
    ensures
        ({
            let l = keyed_line(token, p, word, rs);
            let d = token_text(token).len() as int;
            let w = d + 1 + word.len();
            &&& digits_end(l, 0) == d
            &&& d < l.len()
            &&& l[d] == p
            &&& name_end(l, d + 1) == w
            &&& l.subrange(d + 1, w) == word
            &&& (d == 0 <==> token is None)
            &&& (token matches Some(n) ==> decimal_value(l.subrange(0, d)) == n)
        }),
{
    let tt = token_text(token);
    let l = keyed_line(token, p, word, rs);
    let d = tt.len() as int;
    let w = d + 1 + word.len();
    lemma_keyed_split(token, p, word, rs);
    if let Some(n) = token {
        lemma_decimal(n as nat);
    }
    assert forall|k: int| 0 <= k < d implies is_digit(#[trigger] l[k]) by {
        lemma_holds_char(l, 0, tt, k);
    }
    lemma_digits_end(l, 0, d);
    assert forall|k: int| d + 1 <= k < w implies is_name_char(#[trigger] l[k]) by {
        lemma_holds_char(l, d + 1, word, k - d - 1);
    }
    if rs.len() > 0 {
        lemma_holds_char(l, w, results_tail(rs), 0);
    }
    lemma_name_end(l, d + 1, w);
}

proof fn lemma_keyed_tail(token: Option<u64>, p: char, word: Seq<char>, rs: Seq<(Seq<char>, VValue)>)
    requires
        wf_entries(rs, 0),
        rs.len() > 0,
    ensures
        ({
            let l = keyed_line(token, p, word, rs);
            let w = token_text(token).len() + 1 + word.len() as int;
            &&& w < l.len()
            &&& l[w] == ','
            &&& results_to_end(l, w + 1, seq![]) == Some(rs)
            &&& !is_space(l.last())
        }),
{
    let l = keyed_line(token, p, word, rs);
    let w = token_text(token).len() + 1 + word.len() as int;
    let body = render_entries(rs, 0);
    lemma_keyed_split(token, p, word, rs);
    lemma_holds_split(l, w, seq![','], body);
    lemma_holds_char(l, w, seq![','], 0);
    lemma_entries_to_end(rs, 0, l, w + 1, seq![]);
    assert(seq![] + rs.subrange(0, rs.len() as int) =~= rs);
    lemma_entries_ends(rs, 0);
    lemma_holds_char(l, w + 1, body, body.len() - 1);
}

proof fn lemma_keyed_whole(token: Option<u64>, p: char, word: Seq<char>, rs: Seq<(Seq<char>, VValue)>)
    requires
        wf_name(word),
        wf_entries(rs, 0),
        p == '^' || p == '*' || p == '=',
    ensures
        trimmed(keyed_line(token, p, word, rs)) == keyed_line(token, p, word, rs),
        keyed_line(token, p, word, rs) != "(gdb)"@,
{
    let tt = token_text(token);
    let l = keyed_line(token, p, word, rs);
    let d = tt.len() as int;
    lemma_keyed_split(token, p, word, rs);
    if let Some(n) = token {
        lemma_decimal(n as nat);
        lemma_holds_char(l, 0, tt, 0);
    }
    if rs.len() == 0 {
        lemma_holds_char(l, d + 1, word, word.len() - 1);
    } else {
        lemma_keyed_tail(token, p, word, rs);
    }
    lemma_trimmed_whole(l);
    lemma_not_prompt(l);
}

/// The outcome of a keyed line, from the facts above.
proof fn lemma_keyed(token: Option<u64>, p: char, word: Seq<char>, rs: Seq<(Seq<char>, VValue)>)
    requires
        wf_name(word),
        wf_entries(rs, 0),
        p == '^' || p == '*' || p == '=',
    ensures
        line_outcome(keyed_line(token, p, word, rs)) == keyed_record(
            keyed_line(token, p, word, rs),
            token_text(token).len() as int,
        ),
        ({
            let l = keyed_line(token, p, word, rs);
            let d = token_text(token).len() as int;
            let w = d + 1 + word.len();
            &&& name_end(l, d + 1) == w
            &&& l.subrange(d + 1, w) == word
            &&& (d == 0 <==> token is None)
            &&& (token matches Some(n) ==> decimal_value(l.subrange(0, d)) == n)
            &&& if rs.len() == 0 {
                w == l.len()
            } else {
                w < l.len() && l[w] == ',' && results_to_end(l, w + 1, seq![]) == Some(rs)
            }
        }),
{
    lemma_keyed_split(token, p, word, rs);
    lemma_keyed_head(token, p, word, rs);
    lemma_keyed_whole(token, p, word, rs);
    if rs.len() > 0 {
        lemma_keyed_tail(token, p, word, rs);
    } else {
        assert(results_tail(rs).len() == 0);
    }
}

proof fn lemma_result_line(token: Option<u64>, class: ResultClass, results: Seq<(Seq<char>, VValue)>)
    requires
        wf_entries(results, 0),
    ensures
        line_outcome(render_line(VRecord::Result { token, class, results })) == LineOutcome::Record(
            VRecord::Result { token, class, results },
        ),
{
    let word = result_class_text(class);
    let l = keyed_line(token, '^', word, results);
    let d = token_text(token).len() as int;
    lemma_result_class_text(class);
    lemma_keyed(token, '^', word, results);
    if results.len() == 0 {
        assert(results =~= seq![]);
    }
    assert(l.subrange(d + 1, name_end(l, d + 1)) == word);
}

proof fn lemma_async_line(token: Option<u64>, class: AsyncClass, results: Seq<(Seq<char>, VValue)>)
    requires
        wf_entries(results, 0),
    ensures
        line_outcome(render_line(VRecord::Async { token, class, results })) == LineOutcome::Record(
            VRecord::Async { token, class, results },
        ),
{
    let word = async_class_text(class);
    let l = keyed_line(token, '*', word, results);
    let d = token_text(token).len() as int;
    lemma_async_class_text(class);
    lemma_keyed(token, '*', word, results);
    if results.len() == 0 {
        assert(results =~= seq![]);
    }
    assert(l.subrange(d + 1, name_end(l, d + 1)) == word);
}

proof fn lemma_notification_line(class: NotificationClass, results: Seq<(Seq<char>, VValue)>)
    requires
        wf_entries(results, 0),
    ensures
        line_outcome(render_line(VRecord::Notification { class, results })) == LineOutcome::Record(
            VRecord::Notification { class, results },
        ),
{
    let word = notification_class_text(class);
    let l = keyed_line(None, '=', word, results);
    lemma_notification_class_text(class);
    lemma_keyed(None, '=', word, results);
    if results.len() == 0 {
        assert(results =~= seq![]);
    }
    assert(l.subrange(1, name_end(l, 1)) == word);
}

proof fn lemma_stream_line(r: VRecord)
    requires
        r is Console || r is Target || r is Log,
    ensures
        line_outcome(render_line(r)) == LineOutcome::Record(r),
{
    let l = render_line(r);
    let t = match r {
        VRecord::Console(t) => t,
        VRecord::Target(t) => t,
        VRecord::Log(t) => t,
        _ => seq![],
    };
    let p = l[0];
    let body = escape_text(t) + seq!['"'];
    assert(l =~= seq![p] + (seq!['"'] + body));
    assert(l.subrange(0, l.len() as int) =~= l);
    lemma_holds_split(l, 0, seq![p], seq!['"'] + body);
    lemma_holds_split(l, 1, seq!['"'], body);
    lemma_holds_char(l, 1, seq!['"'], 0);
    lemma_const(t, l, 2, seq![]);
    assert(seq![] + t =~= t);
    assert(l.last() == '"');
    lemma_trimmed_whole(l);
    lemma_not_prompt(l);
    assert(digits_end(l, 0) == 0);
}

/// Every well-formed record's line parses back to that record, so the
/// record's kind is the one its prefix character names: `^` a result, `*`
/// an exec-async record, `=` a notification, `~` console, `@` target and
/// `&` log output.
pub proof fn lemma_line_round_trip(r: VRecord)
    requires
        wf_record(r),
    ensures
        line_outcome(render_line(r)) == LineOutcome::Record(r),
{
    match r {
        VRecord::Result { token, class, results } => lemma_result_line(token, class, results),
        VRecord::Async { token, class, results } => lemma_async_line(token, class, results),
        VRecord::Notification { class, results } => lemma_notification_line(class, results),
        _ => lemma_stream_line(r),
    }
}

} // verus!
