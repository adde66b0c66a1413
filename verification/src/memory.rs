//! The memory agent's short-term memory: the last turns of a conversation,
//! what is found in them for a query, and how results from long-term
//! storage join them.
use vstd::prelude::*;
use crate::agents::{ConversationTurn, Capability, CapabilityLevel, capability_names, is_capability};
use crate::json::{Json, JsonValue, jv, jv_fields, json_get, push_field, object, jstr, jstr_array};
use crate::records::join_nl;
use crate::text::{contains, concat2, decimal, decimal_string, own, push_str, str_contains, str_eq, to_lowercase, unicode_lowercase};

verus! {

broadcast use vstd::std_specs::vec::group_vec_axioms;

/// How many turns short-term memory keeps.
pub const SHORT_TERM_MEMORY_SIZE: usize = 50;

/// The model of a turn.
pub struct TurnView {
    pub id: Seq<char>,
    pub session_id: Seq<char>,
    pub role: Seq<char>,
    pub content: Seq<char>,
    pub agent_name: Option<Seq<char>>,
    pub created_at: Seq<char>,
}

impl View for ConversationTurn {
    type V = TurnView;

    open spec fn view(&self) -> TurnView {
        TurnView {
            id: self.id@,
            session_id: self.session_id@,
            role: self.role@,
            content: self.content@,
            agent_name: crate::task::opt_str(self.agent_name),
            created_at: self.created_at@,
        }
    }
}

/// The models of a list of turns.
pub open spec fn turn_views(v: Seq<ConversationTurn>) -> Seq<TurnView> {
    v.map_values(|t: ConversationTurn| t@)
}

/// `turns` with `t` added, the oldest dropped when memory was full.
pub open spec fn remembered(turns: Seq<TurnView>, t: TurnView) -> Seq<TurnView> {
    if turns.len() >= SHORT_TERM_MEMORY_SIZE {
        turns.skip(1).push(t)
    } else {
        turns.push(t)
    }
}

/// The last `limit` turns, oldest first.
pub open spec fn last_turns(turns: Seq<TurnView>, limit: nat) -> Seq<TurnView> {
    if turns.len() <= limit {
        turns
    } else {
        turns.skip(turns.len() - limit)
    }
}

/// How a turn is shown: its role in brackets, then its content.
pub open spec fn turn_line(t: TurnView) -> Seq<char> {
    "["@ + t.role + "] "@ + t.content
}

/// Whether a turn's content holds the query, both lower-cased.
pub open spec fn turn_matches(t: TurnView, query: Seq<char>) -> bool {
    contains(unicode_lowercase(t.content), unicode_lowercase(query))
}

/// The lines of the turns that hold the query, newest first.
pub open spec fn matching_lines(turns: Seq<TurnView>, query: Seq<char>) -> Seq<Seq<char>>
    decreases turns.len(),
{
    if turns.len() == 0 {
        Seq::empty()
    } else {
        (if turn_matches(turns.last(), query) {
            seq![turn_line(turns.last())]
        } else {
            Seq::empty()
        }) + matching_lines(turns.drop_last(), query)
    }
}

/// At most the first `n` items of `s`.
pub open spec fn first_n(s: Seq<Seq<char>>, n: nat) -> Seq<Seq<char>> {
    if s.len() <= n {
        s
    } else {
        s.take(n as int)
    }
}

/// `found` followed by the long-term results not already among them, in
/// order, each once.
pub open spec fn merged(found: Seq<Seq<char>>, long_term: Seq<Seq<char>>) -> Seq<Seq<char>>
    decreases long_term.len(),
{
    if long_term.len() == 0 {
        found
    } else {
        let before = merged(found, long_term.drop_last());
        if before.contains(long_term.last()) {
            before
        } else {
            before.push(long_term.last())
        }
    }
}

/// How many results a retrieval asks for: the context's `limit` when it is
/// an unsigned integer, kept between 1 and 50; 5 otherwise.
pub open spec fn retrieval_limit_of(context: Json) -> int {
    match json_get(context, "limit"@) {
        Some(Json::Int(n)) => if 0 <= n <= u64::MAX {
            if n < 1 {
                1
            } else if n > 50 {
                50
            } else {
                n
            }
        } else {
            5
        },
        _ => 5,
    }
}

/// How many results a retrieval asks for (see `retrieval_limit_of`).
pub fn retrieval_limit(context: &JsonValue) -> (r: usize)
    ensures
        r as int == retrieval_limit_of(jv(*context)),
        1 <= r <= 50,
{
    let n: Option<u64> = match context.get("limit") {
        Some(JsonValue::Int(n)) => if *n >= 0 {
            Some(*n as u64)
        } else {
            None
        },
        Some(JsonValue::UInt(n)) => Some(*n),
        _ => None,
    };
    match n {
        Some(n) => if n < 1 {
            1
        } else if n > 50 {
            50
        } else {
            n as usize
        },
        None => 5,
    }
}

/// The memory agent: short-term memory of the last turns of its session.
/// Long-term storage lives with whoever runs the agent.
#[derive(Debug)]
pub struct MemoryAgent {
    short_term: Vec<ConversationTurn>,
    session_id: String,
    count: u64,
}

impl MemoryAgent {
    /// The turns in short-term memory, oldest first.
    pub closed spec fn turns(&self) -> Seq<TurnView> {
        turn_views(self.short_term@)
    }

    /// The session the agent records turns under.
    pub closed spec fn session(&self) -> Seq<char> {
        self.session_id@
    }

    /// How many messages it has handled.
    pub closed spec fn handled(&self) -> u64 {
        self.count
    }

    /// Short-term memory never holds more than `SHORT_TERM_MEMORY_SIZE` turns.
    pub closed spec fn wf(&self) -> bool {
        self.short_term@.len() <= SHORT_TERM_MEMORY_SIZE
    }

    /// An agent with empty memory and a fresh session id.
    pub fn new() -> (a: Self)
        ensures
            a.wf(),
            a.turns() == Seq::<TurnView>::empty(),
            a.handled() == 0,
    {
        let a = MemoryAgent { short_term: Vec::new(), session_id: crate::clock::new_uuid(), count: 0 };
        assert(turn_views(a.short_term@) =~= Seq::<TurnView>::empty());
        a
    }

    /// Its name.
    pub fn name(&self) -> (r: &'static str)
        ensures
            r@ == "Memory"@,
    {
        "Memory"
    }

    /// What it can do: memory and retrieval.
    pub fn capabilities(&self) -> (r: Vec<Capability>)
        ensures
            capability_names(r@) == seq!["memory"@, "retrieval"@],
            is_capability(r@[0], "memory"@, "管理对话历史和长期记忆"@, CapabilityLevel::Basic),
    {
        let mut v = Vec::new();
        v.push(Capability::memory());
        v.push(Capability::retrieval());
        assert(capability_names(v@) =~= seq!["memory"@, "retrieval"@]);
        v
    }

    /// Its session id.
    pub fn session_id(&self) -> (r: &str)
        ensures
            r@ == self.session(),
    {
        self.session_id.as_str()
    }

    /// Remembers `turn`, dropping the oldest turn when memory is full.
    pub fn store_in_short_term(&mut self, turn: ConversationTurn)
        requires
            old(self).wf(),
        ensures
            final(self).wf(),
            final(self).turns() == remembered(old(self).turns(), turn@),
            final(self).session() == old(self).session(),
            final(self).handled() == old(self).handled(),
    {
        let ghost before = self.short_term@;
        let ghost tv = turn@;
        if self.short_term.len() >= SHORT_TERM_MEMORY_SIZE {
            self.short_term.remove(0);
            assert(turn_views(self.short_term@) =~= turn_views(before).skip(1));
        } else {
            assert(turn_views(self.short_term@) =~= turn_views(before));
        }
        let ghost mid = self.short_term@;
        self.short_term.push(turn);
        assert(turn_views(self.short_term@) =~= turn_views(mid).push(tv));
    }

    /// The last `limit` turns, oldest first.
    pub fn recent_turns(&self, limit: usize) -> (r: Vec<&ConversationTurn>)
        ensures
            r@.map_values(|t: &ConversationTurn| t@) == last_turns(self.turns(), limit as nat),
    {
        let n = self.short_term.len();
        let start: usize = if n <= limit {
            0
        } else {
            n - limit
        };
        let mut out: Vec<&ConversationTurn> = Vec::new();
        let mut i: usize = start;
        while i < n
            invariant
                n == self.short_term@.len(),
                start <= i <= n,
                out@.map_values(|t: &ConversationTurn| t@) == self.turns().subrange(start as int, i as int),
            decreases n - i,
        {
            let ghost before = out@;
            out.push(&self.short_term[i]);
            proof {
                assert(out@.map_values(|t: &ConversationTurn| t@) =~= before.map_values(|t: &ConversationTurn| t@).push(
                    self.short_term@[i as int]@,
                ));
                assert(self.turns().subrange(start as int, i + 1) =~= self.turns().subrange(start as int, i as int).push(
                    self.turns()[i as int],
                ));
            }
            i += 1;
        }
        assert(self.turns().subrange(start as int, n as int) =~= last_turns(self.turns(), limit as nat));
        out
    }

    /// Counts one handled message.
    pub fn note_message(&mut self)
        requires
            old(self).handled() < u64::MAX,
        ensures
            final(self).handled() == old(self).handled() + 1,
            final(self).turns() == old(self).turns(),
            final(self).session() == old(self).session(),
            final(self).wf() == old(self).wf(),
    {
        self.count = self.count + 1;
    }

    /// Stores a message it was asked to remember: a turn of the sender, named
    /// as its agent, in short-term memory. Returns the turn, for long-term
    /// storage.
    pub fn store_message(&mut self, from: &str, content: &str) -> (t: ConversationTurn)
        requires
            old(self).wf(),
        ensures
            final(self).wf(),
            t@.session_id == old(self).session(),
            t@.role == from@,
            t@.content == content@,
            t@.agent_name == Some(from@),
            final(self).turns() == remembered(old(self).turns(), t@),
            final(self).session() == old(self).session(),
            final(self).handled() == old(self).handled(),
    {
        let turn = ConversationTurn {
            id: crate::clock::new_uuid(),
            session_id: self.session_id.clone(),
            role: own(from),
            content: own(content),
            agent_name: Some(own(from)),
            created_at: crate::clock::now_rfc3339(),
        };
        let copy = ConversationTurn {
            id: turn.id.clone(),
            session_id: turn.session_id.clone(),
            role: turn.role.clone(),
            content: turn.content.clone(),
            agent_name: turn.agent_name.clone(),
            created_at: turn.created_at.clone(),
        };
        self.store_in_short_term(copy);
        turn
    }

    /// Records any other message as a user turn without agent, in
    /// short-term memory. Returns the turn, for long-term storage, and the
    /// reply context: the session and the last five turns, shown as lines.
    pub fn auto_store_message(&mut self, content: &str) -> (r: (ConversationTurn, JsonValue))
        requires
            old(self).wf(),
        ensures
            final(self).wf(),
            r.0@.session_id == old(self).session(),
            r.0@.role == "user"@,
            r.0@.content == content@,
            r.0@.agent_name is None,
            final(self).turns() == remembered(old(self).turns(), r.0@),
            final(self).session() == old(self).session(),
            final(self).handled() == old(self).handled(),
            jv(r.1) == Json::Object(
                seq![
                    ("session_id"@, Json::Str(old(self).session())),
                    (
                        "recent_conversations"@,
                        Json::Array(
                            last_turns(final(self).turns(), 5).map_values(|t: TurnView| Json::Str(turn_line(t))),
                        ),
                    ),
                ],
            ),
    {
        let turn = ConversationTurn {
            id: crate::clock::new_uuid(),
            session_id: self.session_id.clone(),
            role: own("user"),
            content: own(content),
            agent_name: None,
            created_at: crate::clock::now_rfc3339(),
        };
        let copy = ConversationTurn {
            id: turn.id.clone(),
            session_id: turn.session_id.clone(),
            role: turn.role.clone(),
            content: turn.content.clone(),
            agent_name: None,
            created_at: turn.created_at.clone(),
        };
        self.store_in_short_term(copy);
        let recent = self.recent_turns(5);
        let ghost rv = recent@.map_values(|t: &ConversationTurn| t@);
        let mut lines: Vec<String> = Vec::new();
        let mut i: usize = 0;
        while i < recent.len()
            invariant
                i <= recent@.len(),
                rv == recent@.map_values(|t: &ConversationTurn| t@),
                lines@.map_values(|s: String| s@) == rv.take(i as int).map_values(|t: TurnView| turn_line(t)),
            decreases recent.len() - i,
        {
            let t = recent[i];
            let mut line = concat2("[", t.role.as_str());
            push_str(&mut line, "] ");
            push_str(&mut line, t.content.as_str());
            let ghost before = lines@;
            lines.push(line);
            proof {
                assert(rv[i as int] == t@);
                assert(lines@.map_values(|s: String| s@) =~= before.map_values(|s: String| s@).push(turn_line(t@)));
                assert(rv.take(i + 1).map_values(|t: TurnView| turn_line(t)) =~= rv.take(i as int).map_values(
                    |t: TurnView| turn_line(t),
                ).push(turn_line(rv[i as int])));
            }
            i += 1;
        }
        assert(rv.take(recent@.len() as int) =~= rv);
        let arr = jstr_array(&lines);
        proof {
            let lv = lines@.map_values(|s: String| s@);
            assert(lv =~= rv.map_values(|t: TurnView| turn_line(t)));
            assert forall|k: int| 0 <= k < lines@.len() implies #[trigger] lines@[k]@ == turn_line(rv[k]) by {
                assert(lv[k] == lines@[k]@);
            }
            assert(Seq::new(lines@.len(), |k: int| Json::Str(lines@[k]@)) =~= rv.map_values(
                |t: TurnView| Json::Str(turn_line(t)),
            ));
        }
        let mut f: Vec<(String, JsonValue)> = Vec::new();
        assert(jv_fields(f@) =~= Seq::empty());
        push_field(&mut f, "session_id", jstr(self.session_id.as_str()));
        push_field(&mut f, "recent_conversations", arr);
        assert(jv_fields(f@) =~= seq![
            ("session_id"@, Json::Str(old(self).session())),
            ("recent_conversations"@, Json::Array(rv.map_values(|t: TurnView| Json::Str(turn_line(t))))),
        ]);
        (turn, object(f))
    }

    /// The lines of the remembered turns that hold `query` (ignoring case),
    /// newest first, at most `limit` of them.
    pub fn short_term_matches(&self, query: &str, limit: usize) -> (r: Vec<String>)
        ensures
            r@.map_values(|s: String| s@) == first_n(matching_lines(self.turns(), query@), limit as nat),
    {
        let q = to_lowercase(query);
        let mut out: Vec<String> = Vec::new();
        let mut i: usize = self.short_term.len();
        let ghost tv = self.turns();
        assert(tv.take(tv.len() as int) =~= tv);
        assert(first_n(matching_lines(tv, query@), limit as nat) == first_n(
            Seq::<Seq<char>>::empty() + matching_lines(tv.take(i as int), query@),
            limit as nat,
        ));
        while i > 0 && out.len() < limit
            invariant
                i <= tv.len(),
                tv == self.turns(),
                tv.len() == self.short_term@.len(),
                q@ == unicode_lowercase(query@),
                out@.len() <= limit,
                first_n(matching_lines(tv, query@), limit as nat) == first_n(
                    out@.map_values(|s: String| s@) + matching_lines(tv.take(i as int), query@),
                    limit as nat,
                ),
            decreases i,
        {
            let t = &self.short_term[i - 1];
            let ghost prefix = tv.take(i as int);
            let ghost before = out@.map_values(|s: String| s@);
            assert(prefix.drop_last() =~= tv.take(i - 1));
            assert(prefix.last() == t@);
            let c = to_lowercase(t.content.as_str());
            if str_contains(c.as_str(), q.as_str()) {
                let mut line = concat2("[", t.role.as_str());
                push_str(&mut line, "] ");
                push_str(&mut line, t.content.as_str());
                out.push(line);
                assert(out@.map_values(|s: String| s@) =~= before.push(turn_line(t@)));
                assert(before + matching_lines(prefix, query@) =~= before.push(turn_line(t@)) + matching_lines(
                    tv.take(i - 1),
                    query@,
                ));
            } else {
                assert(before + matching_lines(prefix, query@) =~= before + matching_lines(tv.take(i - 1), query@));
            }
            i -= 1;
        }
        proof {
            let o = out@.map_values(|s: String| s@);
            let rest = matching_lines(tv.take(i as int), query@);
            if i == 0 {
                assert(tv.take(0) =~= Seq::<TurnView>::empty());
                assert(o + rest =~= o);
            } else {
                assert((o + rest).take(limit as int) =~= o);
            }
        }
        out
    }
}

/// How many more results long-term storage should give when `found` were
/// found in short-term memory and `limit` are wanted.
pub fn long_term_budget(found: usize, limit: usize) -> (r: usize)
    ensures
        r == if found < limit {
            (limit - found) as usize
        } else {
            0
        },
{
    if found < limit {
        limit - found
    } else {
        0
    }
}

fn has_line(v: &Vec<String>, s: &str) -> (b: bool)
    ensures
        b == v@.map_values(|x: String| x@).contains(s@),
{
    let mut i: usize = 0;
    while i < v.len()
        invariant
            i <= v@.len(),
            forall|k: int| 0 <= k < i ==> v@[k]@ != s@,
        decreases v.len() - i,
    {
        if str_eq(v[i].as_str(), s) {
            assert(v@.map_values(|x: String| x@)[i as int] == s@);
            return true;
        }
        i += 1;
    }
    proof {
        let m = v@.map_values(|x: String| x@);
        if m.contains(s@) {
            let k = choose|k: int| 0 <= k < m.len() && m[k] == s@;
            assert(v@[k]@ == s@);
        }
    }
    false
}

/// Adds to the short-term results the long-term ones not already there
/// (see `merged`); returns how many were added.
pub fn merge_long_term(relevant: &mut Vec<String>, long_term: Vec<String>) -> (added: usize)
    requires
        old(relevant)@.len() + long_term@.len() <= usize::MAX,
    ensures
        final(relevant)@.map_values(|s: String| s@) == merged(
            old(relevant)@.map_values(|s: String| s@),
            long_term@.map_values(|s: String| s@),
        ),
        added == final(relevant)@.len() - old(relevant)@.len(),
{
    let ghost start = relevant@.map_values(|s: String| s@);
    let ghost lt = long_term@.map_values(|s: String| s@);
    let n0 = relevant.len();
    let mut i: usize = 0;
    assert(lt.take(0) =~= Seq::<Seq<char>>::empty());
    while i < long_term.len()
        invariant
            i <= long_term@.len(),
            lt == long_term@.map_values(|s: String| s@),
            n0 <= relevant@.len() <= n0 + i,
            n0 + long_term@.len() <= usize::MAX,
            relevant@.map_values(|s: String| s@) == merged(start, lt.take(i as int)),
        decreases long_term.len() - i,
    {
        let item = &long_term[i];
        assert(lt.take(i + 1).drop_last() =~= lt.take(i as int));
        assert(lt.take(i + 1).last() == item@);
        if !has_line(relevant, item.as_str()) {
            let ghost before = relevant@.map_values(|s: String| s@);
            relevant.push(item.clone());
            assert(relevant@.map_values(|s: String| s@) =~= before.push(item@));
        }
        i += 1;
    }
    assert(lt.take(long_term@.len() as int) =~= lt);
    relevant.len() - n0
}

/// The reply to a retrieval: that nothing was found, or how many results
/// and the results, one per line.
pub open spec fn retrieval_text(results: Seq<Seq<char>>) -> Seq<char> {
    if results.len() == 0 {
        "未找到相关记忆"@
    } else {
        "找到 "@ + decimal(results.len()) + " 条相关记忆:\n"@ + join_nl(results)
    }
}

/// The reply to a retrieval and its context: the number of results, how
/// many came from short-term and from long-term memory, and the results.
pub fn retrieval_reply(results: &Vec<String>, short_term_count: usize, long_term_count: usize) -> (r: (String, JsonValue))
    ensures
        r.0@ == retrieval_text(results@.map_values(|s: String| s@)),
        jv(r.1) == Json::Object(
            seq![
                ("count"@, Json::Int(results@.len() as int)),
                ("shortTermCount"@, Json::Int(short_term_count as int)),
                ("longTermCount"@, Json::Int(long_term_count as int)),
                ("results"@, Json::Array(results@.map_values(|s: String| Json::Str(s@)))),
            ],
        ),
{
    let ghost rs = results@.map_values(|s: String| s@);
    let text = if results.len() == 0 {
        own("未找到相关记忆")
    } else {
        let mut t = own("找到 ");
        let d = decimal_string(results.len() as u64);
        push_str(&mut t, d.as_str());
        push_str(&mut t, " 条相关记忆:\n");
        let mut i: usize = 0;
        while i < results.len()
            invariant
                i <= results@.len(),
                rs == results@.map_values(|s: String| s@),
                results@.len() > 0,
                t@ == "找到 "@ + decimal(results@.len()) + " 条相关记忆:\n"@ + join_nl(rs.take(i as int)),
            decreases results.len() - i,
        {
            let ghost before = t@;
            assert(rs.take(i + 1).drop_last() =~= rs.take(i as int));
            if i > 0 {
                push_str(&mut t, "\n");
            } else {
                assert(rs.take(0) =~= Seq::<Seq<char>>::empty());
            }
            push_str(&mut t, results[i].as_str());
            proof {
                assert(rs.take(i + 1)[0] == rs[0]);
                if i == 0 {
                    assert(join_nl(rs.take(1)) == rs[0]);
                    assert(t@ =~= "找到 "@ + decimal(results@.len()) + " 条相关记忆:\n"@ + join_nl(rs.take(1)));
                } else {
                    assert(join_nl(rs.take(i + 1)) == join_nl(rs.take(i as int)) + "\n"@ + rs[i as int]);
                    assert(t@ =~= "找到 "@ + decimal(results@.len()) + " 条相关记忆:\n"@ + join_nl(rs.take(i + 1)));
                }
            }
            i += 1;
        }
        assert(rs.take(results@.len() as int) =~= rs);
        t
    };
    let arr = jstr_array(results);
    assert(Seq::new(results@.len(), |k: int| Json::Str(results@[k]@)) =~= results@.map_values(
        |s: String| Json::Str(s@),
    ));
    let mut f: Vec<(String, JsonValue)> = Vec::new();
    assert(jv_fields(f@) =~= Seq::empty());
    push_field(&mut f, "count", JsonValue::UInt(results.len() as u64));
    push_field(&mut f, "shortTermCount", JsonValue::UInt(short_term_count as u64));
    push_field(&mut f, "longTermCount", JsonValue::UInt(long_term_count as u64));
    push_field(&mut f, "results", arr);
    assert(jv_fields(f@) =~= seq![
        ("count"@, Json::Int(results@.len() as int)),
        ("shortTermCount"@, Json::Int(short_term_count as int)),
        ("longTermCount"@, Json::Int(long_term_count as int)),
        ("results"@, Json::Array(results@.map_values(|s: String| Json::Str(s@)))),
    ]);
    (text, object(f))
}

/// What the memory agent does with a message of a given type.
#[derive(Debug, PartialEq, Eq, Structural)]
pub enum MemoryAction {
    /// Remember the message as a turn of its sender (`store`, `remember`).
    Store,
    /// Look up remembered turns (`query`, `recall`, `retrieve`).
    Retrieve,
    /// Record the message as a user turn (any other type).
    AutoStore,
}

/// What the memory agent does with a message of type `msg_type`.
pub fn memory_action(msg_type: &str) -> (r: MemoryAction)
    ensures
        r == if msg_type@ == "store"@ || msg_type@ == "remember"@ {
            MemoryAction::Store
        } else if msg_type@ == "query"@ || msg_type@ == "recall"@ || msg_type@ == "retrieve"@ {
            MemoryAction::Retrieve
        } else {
            MemoryAction::AutoStore
        },
{
    if str_eq(msg_type, "store") || str_eq(msg_type, "remember") {
        MemoryAction::Store
    } else if str_eq(msg_type, "query") || str_eq(msg_type, "recall") || str_eq(msg_type, "retrieve") {
        MemoryAction::Retrieve
    } else {
        MemoryAction::AutoStore
    }
}

/// The reply to a retrieval whose short-term search found `found` and whose
/// long-term search gave `long_term`: the long-term results not already
/// found join them (see `merged`), then the reply and its context (see
/// `retrieval_reply`) count both parts.
pub fn retrieval_outcome(found: Vec<String>, long_term: Vec<String>) -> (r: (String, JsonValue))
    requires
        found@.len() + long_term@.len() <= usize::MAX,
    ensures
        ({
            let all = merged(found@.map_values(|s: String| s@), long_term@.map_values(|s: String| s@));
            &&& r.0@ == retrieval_text(all)
            &&& jv(r.1) == Json::Object(
                seq![
                    ("count"@, Json::Int(all.len() as int)),
                    ("shortTermCount"@, Json::Int(found@.len() as int)),
                    ("longTermCount"@, Json::Int(all.len() - found@.len())),
                    ("results"@, Json::Array(all.map_values(|s: Seq<char>| Json::Str(s)))),
                ],
            )
        }),
{
    let short_count = found.len();
    let mut relevant = found;
    let added = merge_long_term(&mut relevant, long_term);
    let r = retrieval_reply(&relevant, short_count, added);
    assert(relevant@.map_values(|s: String| Json::Str(s@)) =~= relevant@.map_values(|s: String| s@).map_values(
        |s: Seq<char>| Json::Str(s),
    ));
    r
}

} // verus!
