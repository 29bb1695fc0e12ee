//! The tool loop of a conversation turn, as a state machine.
//!
//! The runner sends the user's message to the model; each tool call the
//! model makes is looked up, carried out and its result either fed back to
//! the model or streamed to the client, until the model answers in text.
//! Sending to the model and executing a tool are outside work: the runner
//! performs each step this machine asks for and hands back what came of it.
use vstd::prelude::*;

use crate::engine::{
    executions_view, BackendResponse, DeltaEvent, DoneEvent, ExecutionSpec, IncomingMessage,
    Response, SessionEvent, ToolExecution,
};
use crate::executor::{clock_form, date_form, local_now, LocalTime};
use crate::json::Json;
use crate::model_manager::string_views;
use crate::text::{
    append_chars, char_width, char_width_exec, chars_of, decimal, decimal_exec, utf8_len_exec,
    starts_with, starts_with_exec, string_of, utf8_len,
};
use crate::registry::tool_views;
use crate::tools::{ResponseMode, ToolDefinition, ToolSpec};

verus! {

/// The most tool calls one turn may make.
pub const MAX_TOOL_TURNS: usize = 10;

/// Tool results longer than this many bytes are cut.
pub const MAX_RESULT_CHARS: usize = 1500;

/// The instructions every conversation starts with.
pub open spec fn base_prompt() -> Seq<char> {
    "You are a helpful assistant. Use the get_datetime tool whenever the user asks for the current date or time. After every tool call, always reply to the user with a short text message summarising the result."@
}

/// Each remembered fact on a line of its own, as a list item.
pub open spec fn memory_lines(memories: Seq<Seq<char>>) -> Seq<char>
    decreases memories.len(),
{
    if memories.len() == 0 {
        Seq::empty()
    } else {
        memory_lines(memories.drop_last()) + "\n- "@ + memories.last()
    }
}

/// The remembered facts that bear on the request, after a heading; nothing
/// when there are none.
pub open spec fn memory_note(memories: Seq<Seq<char>>) -> Seq<char> {
    if memories.len() == 0 {
        Seq::empty()
    } else {
        "\n\nWhat you remember that may help:"@ + memory_lines(memories)
    }
}

/// The system prompt at a given time: the date, time and zone, then the
/// instructions, then the remembered facts.
pub open spec fn system_message(
    date: Seq<char>,
    clock: Seq<char>,
    zone: Seq<char>,
    memories: Seq<Seq<char>>,
) -> Seq<char> {
    "Today is "@ + date + ". The current time is "@ + clock + " "@ + zone + ". "@ + base_prompt()
        + memory_note(memories)
}

/// The system prompt at the given time: the current date and time are put
/// in front of the instructions, and the remembered facts after them.
pub fn build_system_message(now: &LocalTime, memories: &Vec<String>) -> (s: String)
    ensures
        s@ == system_message(now.date@, now.clock@, now.zone@, string_views(memories@)),
{
    let mut m = chars_of("Today is ");
    let d = chars_of(now.date.as_str());
    append_chars(&mut m, &d);
    let a = chars_of(". The current time is ");
    append_chars(&mut m, &a);
    let c = chars_of(now.clock.as_str());
    append_chars(&mut m, &c);
    let sp = chars_of(" ");
    append_chars(&mut m, &sp);
    let z = chars_of(now.zone.as_str());
    append_chars(&mut m, &z);
    let b = chars_of(". ");
    append_chars(&mut m, &b);
    let p = chars_of("You are a helpful assistant. Use the get_datetime tool whenever the user asks for the current date or time. After every tool call, always reply to the user with a short text message summarising the result.");
    append_chars(&mut m, &p);
    if memories.len() > 0 {
        let h = chars_of("\n\nWhat you remember that may help:");
        append_chars(&mut m, &h);
        let ghost base = m@;
        let ghost mv = string_views(memories@);
        let mut i: usize = 0;
        while i < memories.len()
            invariant
                i <= memories.len(),
                mv == string_views(memories@),
                mv.len() == memories.len(),
                m@ == base + memory_lines(mv.take(i as int)),
            decreases memories.len() - i,
        {
            proof {
                assert(mv.take(i + 1).drop_last() =~= mv.take(i as int));
                assert(mv.take(i + 1).last() == memories@[i as int]@);
            }
            let dash = chars_of("\n- ");
            append_chars(&mut m, &dash);
            let f = chars_of(memories[i].as_str());
            append_chars(&mut m, &f);
            i += 1;
        }
        assert(mv.take(memories.len() as int) =~= mv);
    } else {
        assert(string_views(memories@) =~= Seq::<Seq<char>>::empty());
    }
    string_of(&m)
}

/// The system prompt for a conversation starting now, with the remembered
/// facts that bear on it.
pub fn current_system_message(memories: &Vec<String>) -> (s: String)
    ensures
        exists|date: Seq<char>, clock: Seq<char>, zone: Seq<char>|
            #![trigger system_message(date, clock, zone, string_views(memories@))]
            date_form(date) && clock_form(clock) && s@ == system_message(
                date,
                clock,
                zone,
                string_views(memories@),
            ),
{
    let now = local_now();
    let s = build_system_message(&now, memories);
    assert(s@ == system_message(now.date@, now.clock@, now.zone@, string_views(memories@)));
    s
}

// ── Tool results ─────────────────────────────────────────────────────────────

/// The characters of `s` whose UTF-8 encodings fit, in order, in `n` bytes.
pub open spec fn byte_prefix(s: Seq<char>, n: nat) -> Seq<char>
    decreases s.len(),
{
    if s.len() == 0 {
        Seq::empty()
    } else if char_width(s[0]) <= n {
        seq![s[0]] + byte_prefix(s.drop_first(), (n - char_width(s[0])) as nat)
    } else {
        Seq::empty()
    }
}

/// Byte `n` of `s`'s encoding falls between two characters.
pub open spec fn is_boundary(s: Seq<char>, n: nat) -> bool {
    utf8_len(byte_prefix(s, n)) == n
}

/// The text a tool's outcome is reported as: its output, or `error: ` and
/// the error's message.
pub open spec fn outcome_text(outcome: Result<Seq<char>, Seq<char>>) -> Seq<char> {
    match outcome {
        Ok(s) => s,
        Err(e) => "error: "@ + e,
    }
}

/// A result cut to its first `MAX_RESULT_CHARS` bytes, with a note of the
/// full length in bytes, when it is longer.
pub open spec fn capped_result(s: Seq<char>) -> Seq<char> {
    if utf8_len(s) > MAX_RESULT_CHARS {
        byte_prefix(s, MAX_RESULT_CHARS as nat) + "…[truncated "@ + decimal(utf8_len(s))
            + " chars]"@
    } else {
        s
    }
}

/// Whether the result can be cut where `capped_result` cuts it.
pub open spec fn cut_allowed(s: Seq<char>) -> bool {
    utf8_len(s) > MAX_RESULT_CHARS ==> is_boundary(s, MAX_RESULT_CHARS as nat)
}

/// The characters kept by `byte_prefix` start `s` and fit in `n` bytes.
proof fn lemma_byte_prefix(s: Seq<char>, n: nat)
    ensures
        utf8_len(byte_prefix(s, n)) <= n,
        byte_prefix(s, n).len() <= s.len(),
        s.take(byte_prefix(s, n).len() as int) == byte_prefix(s, n),
    decreases s.len(),
{
    if s.len() > 0 && char_width(s[0]) <= n {
        let m = (n - char_width(s[0])) as nat;
        lemma_byte_prefix(s.drop_first(), m);
        let rest = byte_prefix(s.drop_first(), m);
        let bp = seq![s[0]] + rest;
        assert(bp.drop_first() =~= rest);
        assert(utf8_len(bp) == char_width(s[0]) + utf8_len(rest));
        assert(s.take(bp.len() as int) =~= bp) by {
            assert(s.drop_first().take(rest.len() as int) == rest);
        }
    } else {
        assert(byte_prefix(s, n) =~= Seq::<char>::empty());
        assert(s.take(0) =~= Seq::<char>::empty());
    }
}

/// A tool result within `MAX_RESULT_CHARS` bytes is kept whole; a longer one
/// keeps a prefix of at most `MAX_RESULT_CHARS` bytes, which the capped text
/// starts with.
pub proof fn law_capped_result_prefix(s: Seq<char>)
    ensures
        utf8_len(s) <= MAX_RESULT_CHARS ==> capped_result(s) == s,
        utf8_len(s) > MAX_RESULT_CHARS ==> {
            let kept = byte_prefix(s, MAX_RESULT_CHARS as nat);
            &&& utf8_len(kept) <= MAX_RESULT_CHARS
            &&& s.take(kept.len() as int) == kept
            &&& capped_result(s).take(kept.len() as int) == kept
        },
{
    lemma_byte_prefix(s, MAX_RESULT_CHARS as nat);
    if utf8_len(s) > MAX_RESULT_CHARS {
        let kept = byte_prefix(s, MAX_RESULT_CHARS as nat);
        assert(capped_result(s).take(kept.len() as int) =~= kept);
    }
}

/// The characters of `s` that fit in `n` bytes.
pub fn byte_prefix_exec(s: &Vec<char>, n: usize) -> (r: Vec<char>)
    ensures
        r@ == byte_prefix(s@, n as nat),
{
    let mut out: Vec<char> = Vec::new();
    let mut budget = n;
    let mut i: usize = 0;
    assert(s@.subrange(0, s.len() as int) =~= s@);
    while i < s.len() && char_width_exec(s[i]) <= budget
        invariant
            i <= s.len(),
            budget <= n,
            out@ + byte_prefix(s@.subrange(i as int, s.len() as int), budget as nat) == byte_prefix(
                s@,
                n as nat,
            ),
        decreases s.len() - i,
    {
        let w = char_width_exec(s[i]);
        proof {
            let rest = s@.subrange(i as int, s.len() as int);
            assert(rest[0] == s@[i as int]);
            assert(rest.drop_first() =~= s@.subrange(i + 1, s.len() as int));
            assert(out@.push(s@[i as int]) + byte_prefix(
                s@.subrange(i + 1, s.len() as int),
                (budget - w) as nat,
            ) =~= out@ + (seq![s@[i as int]] + byte_prefix(rest.drop_first(), (budget - w) as nat)));
        }
        out.push(s[i]);
        budget -= w;
        i += 1;
    }
    proof {
        let rest = s@.subrange(i as int, s.len() as int);
        assert(byte_prefix(rest, budget as nat) =~= Seq::<char>::empty());
        assert(out@ + Seq::<char>::empty() =~= out@);
    }
    out
}

/// The result a tool's outcome is recorded and reported as.
pub fn tool_result_text(outcome: Result<String, String>) -> (r: Vec<char>)
    ensures
        r@ == outcome_text(
            match outcome {
                Ok(s) => Ok(s@),
                Err(e) => Err(e@),
            },
        ),
{
    match outcome {
        Ok(s) => chars_of(s.as_str()),
        Err(e) => {
            let mut r = chars_of("error: ");
            let m = chars_of(e.as_str());
            append_chars(&mut r, &m);
            r
        },
    }
}

/// Caps a tool result at `MAX_RESULT_CHARS` bytes to keep it from
/// overflowing the context window.
pub fn cap_result(s: &Vec<char>) -> (r: Vec<char>)
    requires
        cut_allowed(s@),
    ensures
        r@ == capped_result(s@),
{
    let len = utf8_len_exec(s);
    if len > MAX_RESULT_CHARS as u128 {
        let mut r = byte_prefix_exec(s, MAX_RESULT_CHARS);
        let a = chars_of("…[truncated ");
        append_chars(&mut r, &a);
        let d = decimal_exec(len);
        append_chars(&mut r, &d);
        let b = chars_of(" chars]");
        append_chars(&mut r, &b);
        r
    } else {
        s.clone()
    }
}

// ── The loop ─────────────────────────────────────────────────────────────────

/// Why a turn ends without an answer.
pub enum SessionError {
    /// The model asked for more than `MAX_TOOL_TURNS` tool calls.
    TooManyToolTurns,
    /// The model called a tool that is not offered to it.
    UnknownTool(String),
}

impl SessionError {
    pub open spec fn text(&self) -> Seq<char> {
        match self {
            SessionError::TooManyToolTurns => "Exceeded maximum tool turns ("@ + decimal(
                MAX_TOOL_TURNS as nat,
            ) + "); aborting"@,
            SessionError::UnknownTool(n) => "Model called unknown tool: "@ + n@,
        }
    }

    /// The error's message.
    pub fn message(&self) -> (r: String)
        ensures
            r@ == self.text(),
    {
        let m = match self {
            SessionError::TooManyToolTurns => {
                let mut h = chars_of("Exceeded maximum tool turns (");
                let d = decimal_exec(MAX_TOOL_TURNS as u128);
                append_chars(&mut h, &d);
                let t = chars_of("); aborting");
                append_chars(&mut h, &t);
                h
            },
            SessionError::UnknownTool(n) => {
                let mut h = chars_of("Model called unknown tool: ");
                let t = chars_of(n.as_str());
                append_chars(&mut h, &t);
                h
            },
        };
        string_of(&m)
    }
}

/// What the runner does next.
pub enum LoopStep {
    /// Send this message to the conversation and report the model's response.
    Send(IncomingMessage),
    /// Execute `tools[tool_index]` with these arguments and report the outcome.
    Execute { tool_index: usize, name: String, arguments: Json },
    /// Stream these events to the client; the turn is over.
    Finish(Vec<SessionEvent>),
    /// The turn fails.
    Fail(SessionError),
}

/// The state of one turn: how many tool calls the model has made, and the
/// executions recorded so far.
pub struct ToolLoop {
    pub tool_turns: usize,
    pub tool_executions: Vec<ToolExecution>,
}

/// The first tool with the given name.
pub open spec fn find_tool(tools: Seq<ToolSpec>, name: Seq<char>) -> Option<int>
    decreases tools.len(),
{
    if tools.len() == 0 {
        None
    } else if tools.last().name == name && find_tool(tools.drop_last(), name) is None {
        Some(tools.len() - 1)
    } else {
        find_tool(tools.drop_last(), name)
    }
}

pub proof fn lemma_find_tool(tools: Seq<ToolSpec>, name: Seq<char>)
    ensures
        find_tool(tools, name) matches Some(i) ==> 0 <= i < tools.len() && tools[i].name == name
            && forall|j: int| 0 <= j < i ==> (#[trigger] tools[j]).name != name,
        find_tool(tools, name) is None ==> forall|j: int|
            0 <= j < tools.len() ==> (#[trigger] tools[j]).name != name,
    decreases tools.len(),
{
    if tools.len() > 0 {
        lemma_find_tool(tools.drop_last(), name);
        assert forall|j: int| 0 <= j < tools.len() - 1 implies tools.drop_last()[j] == tools[j] by {}
    }
}

/// Index of the first tool with the given name.
pub fn find_tool_exec(tools: &Vec<ToolDefinition>, name: &String) -> (r: Option<usize>)
    ensures
        r matches Some(i) ==> find_tool(tool_views(tools@), name@) == Some(i as int),
        r is None ==> find_tool(tool_views(tools@), name@) is None,
{
    let mut i: usize = 0;
    while i < tools.len()
        invariant
            i <= tools.len(),
            forall|j: int| 0 <= j < i ==> (#[trigger] tool_views(tools@)[j]).name != name@,
        decreases tools.len() - i,
    {
        if tools[i].name == *name {
            proof {
                assert(tool_views(tools@)[i as int].name == name@);
                lemma_find_tool(tool_views(tools@), name@);
            }
            return Some(i);
        }
        i += 1;
    }
    proof {
        lemma_find_tool(tool_views(tools@), name@);
    }
    None
}

/// The events that end a turn normally: the executions so far.
pub open spec fn done_events(events: Seq<SessionEvent>, executions: Seq<ExecutionSpec>) -> bool {
    &&& events.len() == 1
    &&& events[0] matches SessionEvent::Done(d) && d.delta@ == Seq::<char>::empty() && d.done
        && executions_view(d.tool_executions@) == executions
}

/// The events that end a turn with a result streamed as is.
pub open spec fn direct_events(
    events: Seq<SessionEvent>,
    result: Seq<char>,
    executions: Seq<ExecutionSpec>,
) -> bool {
    &&& events.len() == 2
    &&& events[0] matches SessionEvent::Delta(d) && d.delta@ == result && !d.done
    &&& events[1] matches SessionEvent::Done(d) && d.delta@ == Seq::<char>::empty() && d.done
        && executions_view(d.tool_executions@) == executions
}

/// The result recorded and reported for a tool's outcome.
pub open spec fn reported_result(outcome: Result<String, String>) -> Seq<char> {
    capped_result(
        outcome_text(
            match outcome {
                Ok(s) => Ok(s@),
                Err(e) => Err(e@),
            },
        ),
    )
}

/// The response mode that applies to a result: `on_error` for one that
/// starts with `error:`, else `on_success`.
pub open spec fn mode_for(tool: ToolSpec, result: Seq<char>) -> ResponseMode {
    if starts_with(result, "error:"@) {
        tool.response.on_error
    } else {
        tool.response.on_success
    }
}

impl ToolLoop {
    /// A turn that has made no tool call yet.
    pub fn new() -> (r: ToolLoop)
        ensures
            r.tool_turns == 0,
            r.tool_executions@ == Seq::<ToolExecution>::empty(),
    {
        ToolLoop { tool_turns: 0, tool_executions: Vec::new() }
    }

    /// The first step: send the user's message.
    pub fn start(user_message: &str) -> (r: LoopStep)
        ensures
            r matches LoopStep::Send(IncomingMessage::User(t)) && t@ == user_message@,
    {
        LoopStep::Send(IncomingMessage::User(user_message.to_owned()))
    }

    fn finish_done(&mut self) -> (r: Vec<SessionEvent>)
        ensures
            done_events(r@, executions_view(old(self).tool_executions@)),
            final(self).tool_turns == old(self).tool_turns,
            final(self).tool_executions@.len() == 0,
    {
        let mut executions: Vec<ToolExecution> = Vec::new();
        std::mem::swap(&mut executions, &mut self.tool_executions);
        let mut events: Vec<SessionEvent> = Vec::new();
        events.push(
            SessionEvent::Done(
                DoneEvent { delta: String::new(), done: true, tool_executions: executions },
            ),
        );
        events
    }

    /// The model's response to the last message. A text answer ends the
    /// turn; a tool call is counted and, while the count allows it and the
    /// tool is offered, carried out.
    pub fn on_response(&mut self, tools: &Vec<ToolDefinition>, response: BackendResponse) -> (r:
        LoopStep)
        requires
            old(self).tool_turns <= MAX_TOOL_TURNS,
        ensures
            match response@ {
                Response::Text(_) => {
                    &&& r matches LoopStep::Finish(events) && done_events(
                        events@,
                        executions_view(old(self).tool_executions@),
                    )
                    &&& final(self).tool_turns == old(self).tool_turns
                },
                Response::ToolCall(name, arguments) => {
                    &&& final(self).tool_turns == old(self).tool_turns + 1
                    &&& r is Execute ==> final(self).tool_turns <= MAX_TOOL_TURNS
                    &&& final(self).tool_executions@ == old(self).tool_executions@
                    &&& if old(self).tool_turns + 1 > MAX_TOOL_TURNS {
                        r matches LoopStep::Fail(SessionError::TooManyToolTurns)
                    } else {
                        match find_tool(tool_views(tools@), name) {
                            None => r matches LoopStep::Fail(SessionError::UnknownTool(n)) && n@
                                == name,
                            Some(i) => r matches LoopStep::Execute {
                                tool_index,
                                name: n,
                                arguments: a,
                            } && tool_index == i && n@ == name && a == arguments,
                        }
                    }
                },
            },
    {
        match response {
            BackendResponse::Text(_) => LoopStep::Finish(self.finish_done()),
            BackendResponse::ToolCall { name, arguments } => {
                self.tool_turns = self.tool_turns + 1;
                if self.tool_turns > MAX_TOOL_TURNS {
                    return LoopStep::Fail(SessionError::TooManyToolTurns);
                }
                match find_tool_exec(tools, &name) {
                    None => LoopStep::Fail(SessionError::UnknownTool(name)),
                    Some(i) => LoopStep::Execute { tool_index: i, name, arguments },
                }
            },
        }
    }

    /// The outcome of executing `tools[tool_index]`. The result (or
    /// `error: ` and the error) is capped and recorded; then, by the tool's
    /// response mode for a success or an error, it is streamed to the client
    /// and the turn ends, or it goes back to the model.
    pub fn on_tool_result(
        &mut self,
        tools: &Vec<ToolDefinition>,
        tool_index: usize,
        name: String,
        arguments: Json,
        outcome: Result<String, String>,
    ) -> (r: LoopStep)
        requires
            tool_index < tools.len(),
            cut_allowed(
                outcome_text(
                    match outcome {
                        Ok(s) => Ok(s@),
                        Err(e) => Err(e@),
                    },
                ),
            ),
        ensures
            ({
                let result = reported_result(outcome);
                let recorded = executions_view(old(self).tool_executions@).push(
                    ExecutionSpec { tool: name@, args: arguments, result },
                );
                &&& final(self).tool_turns == old(self).tool_turns
                &&& match mode_for(tools@[tool_index as int]@, result) {
                    ResponseMode::Direct => {
                        &&& r matches LoopStep::Finish(events) && direct_events(
                            events@,
                            result,
                            recorded,
                        )
                        &&& final(self).tool_executions@.len() == 0
                    },
                    ResponseMode::Llm => {
                        &&& r matches LoopStep::Send(
                            IncomingMessage::ToolResult { tool_name, result: res },
                        ) && tool_name@ == name@ && res@ == result
                        &&& executions_view(final(self).tool_executions@) == recorded
                    },
                }
            }),
    {
        let text = tool_result_text(outcome);
        let capped = cap_result(&text);
        let result = string_of(&capped);
        let prefix = chars_of("error:");
        let is_error = starts_with_exec(&capped, &prefix);
        let mode = if is_error {
            tools[tool_index].response.on_error.clone()
        } else {
            tools[tool_index].response.on_success.clone()
        };
        let ghost before = self.tool_executions@;
        let ghost ghost_args = arguments;
        self.tool_executions.push(
            ToolExecution { tool: name.clone(), args: arguments, result: result.clone() },
        );
        proof {
            assert(executions_view(self.tool_executions@) =~= executions_view(before).push(
                ExecutionSpec { tool: name@, args: ghost_args, result: capped@ },
            ));
        }
        match mode {
            ResponseMode::Direct => {
                let mut events: Vec<SessionEvent> = Vec::new();
                events.push(SessionEvent::Delta(DeltaEvent { delta: result, done: false }));
                let ghost first = events@;
                let mut done = self.finish_done();
                let ghost done_seq = done@;
                events.append(&mut done);
                assert(events@ == first + done_seq);
                assert(events@[1] == done_seq[0]);
                LoopStep::Finish(events)
            },
            ResponseMode::Llm => LoopStep::Send(
                IncomingMessage::ToolResult { tool_name: name, result },
            ),
        }
    }
}

} // verus!
