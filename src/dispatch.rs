//! The token dispatcher: token allocation, the table of callers waiting for
//! a reply, and the routing of each line the debugger writes.
use vstd::prelude::*;
use std::collections::HashMap;
use crate::parser::{LineOutcome, MiParser, line_outcome};
use crate::session::{bus_step, handle_async_record};
use crate::text::{decimal_string, decimal_text};
use crate::types::{
    GdbEvent, GdbSessionState, MiOutputRecord, OutputChannel, ResultClass, VRecord,
};

verus! {

broadcast use vstd::std_specs::hash::group_hash_axioms;

/// The callers waiting for a reply, each under the token of its command,
/// and the next token to hand out. `C` is how a reply reaches its caller.
pub struct PendingTable<C> {
    next_token: u64,
    entries: HashMap<u64, C>,
}

impl<C> PendingTable<C> {
    /// The waiting callers, by token.
    pub closed spec fn waiting(&self) -> Map<u64, C> {
        self.entries@
    }

    /// The next token to hand out.
    pub closed spec fn next(&self) -> u64 {
        self.next_token
    }

    /// Tokens start at 1, and every waiting token was handed out before.
    pub closed spec fn wf(&self) -> bool {
        &&& self.next_token >= 1
        &&& forall|t: u64| #[trigger] self.entries@.contains_key(t) ==> 1 <= t < self.next_token
    }

    /// An empty table whose first token is 1.
    pub fn new() -> (r: PendingTable<C>)
        ensures
            r.wf(),
            r.next() == 1,
            r.waiting() == Map::<u64, C>::empty(),
    {
        PendingTable { next_token: 1, entries: HashMap::new() }
    }

    /// The next token to hand out.
    pub fn peek_next(&self) -> (r: u64)
        ensures
            r == self.next(),
    {
        self.next_token
    }

    /// Hands out a token for a command whose reply nobody waits for.
    pub fn skip_token(&mut self) -> (t: u64)
        requires
            old(self).wf(),
            old(self).next() < u64::MAX,
        ensures
            final(self).wf(),
            t == old(self).next(),
            final(self).next() == t + 1,
            final(self).waiting() == old(self).waiting(),
    {
        let t = self.next_token;
        self.next_token = t + 1;
        t
    }

    /// Hands out a token and registers `reply` as the caller waiting under
    /// it. The token is fresh: no caller waits under it yet.
    pub fn register(&mut self, reply: C) -> (t: u64)
        requires
            old(self).wf(),
            old(self).next() < u64::MAX,
        ensures
            final(self).wf(),
            t == old(self).next(),
            !old(self).waiting().contains_key(t),
            final(self).next() == t + 1,
            final(self).waiting() == old(self).waiting().insert(t, reply),
    {
        let t = self.next_token;
        self.entries.insert(t, reply);
        self.next_token = t + 1;
        t
    }

    /// Whether a caller waits under `t`.
    pub fn is_waiting(&self, t: u64) -> (r: bool)
        ensures
            r == self.waiting().contains_key(t),
    {
        self.entries.contains_key(&t)
    }

    /// The caller waiting under `t`.
    pub fn get(&self, t: u64) -> (r: Option<&C>)
        ensures
            match r {
                Some(c) => self.waiting().contains_key(t) && self.waiting()[t] == *c,
                None => !self.waiting().contains_key(t),
            },
    {
        self.entries.get(&t)
    }

    /// Removes the caller waiting under `t`, once its reply came or its
    /// time ran out.
    pub fn remove(&mut self, t: u64) -> (r: Option<C>)
        requires
            old(self).wf(),
        ensures
            final(self).wf(),
            final(self).next() == old(self).next(),
            final(self).waiting() == old(self).waiting().remove(t),
            match r {
                Some(c) => old(self).waiting().contains_key(t) && old(self).waiting()[t] == c,
                None => !old(self).waiting().contains_key(t),
            },
    {
        self.entries.remove(&t)
    }
}

/// The caller that a record goes to: a result record whose token a caller
/// waits under goes to that caller; every other record goes to the bus.
pub open spec fn reply_target(waiting: Set<u64>, rec: VRecord) -> Option<u64> {
    match rec {
        VRecord::Result { token: Some(t), .. } => if waiting.contains(t) {
            Some(t)
        } else {
            None
        },
        _ => None,
    }
}

/// Where a record goes.
#[derive(Debug, Clone, Copy, PartialEq, Eq, Structural)]
pub enum Route {
    /// To the caller waiting under this token.
    Deliver(u64),
    /// To the event bus.
    Publish,
}

/// Routes a record: to the caller whose token it bears, or to the bus.
pub fn route<C>(table: &PendingTable<C>, record: &MiOutputRecord) -> (r: Route)
    ensures
        match reply_target(table.waiting().dom(), record@) {
            Some(t) => r == Route::Deliver(t),
            None => r == Route::Publish,
        },
{
    match record {
        MiOutputRecord::Result { token: Some(t), .. } => if table.is_waiting(*t) {
            Route::Deliver(*t)
        } else {
            Route::Publish
        },
        _ => Route::Publish,
    }
}

/// What the reader does with one line.
#[derive(Debug)]
pub enum PumpAction {
    /// Hand the record to the caller waiting under the token.
    Deliver { token: u64, record: MiOutputRecord },
    /// Publish the event.
    Publish(GdbEvent),
    /// Nothing to do.
    Ignore,
}

/// Handles one line the debugger wrote: parses it, hands a reply to the
/// caller that waits for it, and otherwise applies the record to the session
/// state and gives the event to publish. A line the grammar refuses is
/// published whole as console output. A `^running` reply sets the running
/// flag before it is handed over, so that a `*stopped` that follows it is
/// never overwritten.
pub fn pump_line<C>(
    parser: &MiParser,
    table: &PendingTable<C>,
    state: &mut GdbSessionState,
    line: &str,
) -> (r: PumpAction)
    ensures
        match line_outcome(line@) {
            LineOutcome::Blank => r is Ignore && *final(state) == *old(state),
            LineOutcome::Malformed => *final(state) == *old(state) && (r matches PumpAction::Publish(
                GdbEvent::Output { channel: OutputChannel::Console, content },
            ) && content@ == line@),
            LineOutcome::Record(v) => match reply_target(table.waiting().dom(), v) {
                Some(t) => (r matches PumpAction::Deliver { token, record } && token == t
                    && record@ == v) && *final(state) == (if v->Result_class == ResultClass::Running {
                    GdbSessionState { running: true, ..*old(state) }
                } else {
                    *old(state)
                }),
                None => exists|rec: MiOutputRecord, ev: Option<GdbEvent>|
                    rec@ == v && bus_step(rec, *old(state), *final(state), ev) && match ev {
                        Some(e) => r == PumpAction::Publish(e),
                        None => r is Ignore,
                    },
            },
        },
{
    match parser.parse_line(line) {
        Ok(None) => PumpAction::Ignore,
        Err(_) => PumpAction::Publish(
            GdbEvent::Output { channel: OutputChannel::Console, content: String::from_str(line) },
        ),
        Ok(Some(record)) => {
            match route(table, &record) {
                Route::Deliver(token) => {
                    match &record {
                        MiOutputRecord::Result { class: ResultClass::Running, .. } => {
                            state.running = true;
                        },
                        _ => {},
                    }
                    PumpAction::Deliver { token, record }
                },
                Route::Publish => {
                    let ev = handle_async_record(record, state);
                    match ev {
                        Some(e) => PumpAction::Publish(e),
                        None => PumpAction::Ignore,
                    }
                },
            }
        },
    }
}

/// The bytes written for a command: its token, a dash, the command, a newline.
pub open spec fn framed(token: u64, command: Seq<char>) -> Seq<char> {
    decimal_text(token as nat) + "-"@ + command + "\n"@
}

/// Frames a command for the debugger's input.
pub fn frame_command(token: u64, command: &str) -> (r: String)
    ensures
        r@ == framed(token, command@),
{
    let mut s = decimal_string(token);
    s.append("-");
    s.append(command);
    s.append("\n");
    s
}

/// The waiting callers after `cs` registered one after the other, from
/// token `first` on.
pub open spec fn registered<C>(cs: Seq<C>, first: int) -> Map<u64, C>
    decreases cs.len(),
{
    if cs.len() == 0 {
        Map::empty()
    } else {
        registered(cs.drop_last(), first).insert((first + cs.len() - 1) as u64, cs.last())
    }
}

proof fn lemma_registered<C>(cs: Seq<C>, first: int)
    requires
        0 < first,
        first + cs.len() <= u64::MAX,
    ensures
        forall|t: u64| #[trigger] registered(cs, first).contains_key(t) <==> first <= t < first + cs.len(),
        forall|i: int| 0 <= i < cs.len() ==> #[trigger] registered(cs, first)[(first + i) as u64] == cs[i],
    decreases cs.len(),
{
    if cs.len() > 0 {
        let n = cs.len() as int;
        let r0 = registered(cs.drop_last(), first);
        let k = (first + n - 1) as u64;
        lemma_registered(cs.drop_last(), first);
        assert(k == first + n - 1);
        assert(registered(cs, first) == r0.insert(k, cs.last()));
        assert forall|t: u64| #[trigger] registered(cs, first).contains_key(t) <==> first <= t < first
            + n by {
            if t != k {
                assert(r0.contains_key(t) <==> first <= t < first + n - 1);
            }
        }
        assert forall|i: int| 0 <= i < n implies #[trigger] registered(cs, first)[(first + i) as u64]
            == cs[i] by {
            if i < n - 1 {
                assert((first + i) as u64 != k);
                assert(cs.drop_last()[i] == cs[i]);
                assert(r0[(first + i) as u64] == cs.drop_last()[i]);
            }
        }
    }
}

/// A reply reaches the caller whose token it bears, whatever the order in
/// which replies arrive: with callers `cs` waiting under tokens `first`,
/// `first + 1`, ..., each of `replies` that is a result record bearing one
/// of those tokens goes to the caller registered under it, and no other
/// record goes to any caller.
pub proof fn lemma_replies_reach_their_callers<C>(cs: Seq<C>, first: int, replies: Seq<VRecord>)
    requires
        0 < first,
        first + cs.len() <= u64::MAX,
    ensures
        forall|i: int|
            0 <= i < replies.len() ==> match #[trigger] replies[i] {
                VRecord::Result { token: Some(t), .. } => if first <= t < first + cs.len() {
                    reply_target(registered(cs, first).dom(), replies[i]) == Some(t) && registered(
                        cs,
                        first,
                    )[t] == cs[t - first]
                } else {
                    reply_target(registered(cs, first).dom(), replies[i]) is None
                },
                _ => reply_target(registered(cs, first).dom(), replies[i]) is None,
            },
{
    lemma_registered(cs, first);
    assert forall|i: int| 0 <= i < replies.len() implies match #[trigger] replies[i] {
        VRecord::Result { token: Some(t), .. } => if first <= t < first + cs.len() {
            reply_target(registered(cs, first).dom(), replies[i]) == Some(t) && registered(
                cs,
                first,
            )[t] == cs[t - first]
        } else {
            reply_target(registered(cs, first).dom(), replies[i]) is None
        },
        _ => reply_target(registered(cs, first).dom(), replies[i]) is None,
    } by {
        if let VRecord::Result { token: Some(t), .. } = replies[i] {
            if first <= t < first + cs.len() {
                assert(((first + (t - first)) as u64) == t);
            }
        }
    }
}

/// Once a caller's entry is removed (its reply came, or its time ran out), a
/// reply that arrives late bearing its token goes to no caller.
pub proof fn lemma_late_reply_goes_to_bus<C>(before: PendingTable<C>, after: PendingTable<C>, t: u64, rec: VRecord)
    requires
        after.waiting() == before.waiting().remove(t),
        rec matches VRecord::Result { token: Some(u), .. } && u == t,
    ensures
        !after.waiting().contains_key(t),
        reply_target(after.waiting().dom(), rec) is None,
{
}

/// Stream records never go to a waiting caller.
pub proof fn lemma_streams_go_to_bus(waiting: Set<u64>, text: Seq<char>)
    ensures
        reply_target(waiting, VRecord::Console(text)) is None,
        reply_target(waiting, VRecord::Target(text)) is None,
        reply_target(waiting, VRecord::Log(text)) is None,
{
}

} // verus!
