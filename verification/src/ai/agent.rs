//! The decisions of one turn of the chat agent: ask the model, run the
//! tool calls it makes against the timeline, and repeat until it answers
//! in plain text, for at most eight requests.

use vstd::prelude::*;
use vstd::string::StringExecFns;

use crate::ai::tools::ToolError;
use crate::text::{decimal, push_decimal};

verus! {

/// Why a request to the AI provider failed.
#[derive(Debug, PartialEq, Eq)]
pub enum AiError {
    /// The request failed; the text says why.
    Request(String),
    /// The provider answered without any choice.
    NoChoices,
}

/// Why a turn of the agent failed.
#[derive(Debug, PartialEq, Eq)]
pub enum AgentError {
    Ai(AiError),
    Tool(ToolError),
    /// The model kept calling tools for this many requests without
    /// answering.
    TooManyIterations(usize),
    MessageBuild(String),
}

/// The most requests one turn makes.
pub const MAX_TOOL_ITERATIONS: usize = 8;

/// What the model answered: no choice at all, or its first choice's text
/// and the number of tool calls it makes (`None` when the field is
/// absent).
#[derive(Debug)]
pub enum ModelReply {
    NoChoices,
    Choice { content: Option<String>, tool_calls: Option<usize> },
}

/// What the agent does after a reply.
#[derive(Debug)]
pub enum AgentStep {
    /// The turn ends with this answer.
    Finish(String),
    /// Run the tool calls, report their results to the model, and ask
    /// again.
    CallTools,
    /// The turn fails.
    Fail(AgentError),
}

/// The progress of one turn: how many requests it has made.
#[derive(Debug)]
pub struct AgentTurn {
    requests: usize,
}

impl AgentTurn {
    /// A turn never makes more requests than it is allowed.
    #[verifier::type_invariant]
    spec fn within_budget(self) -> bool {
        self.requests <= MAX_TOOL_ITERATIONS
    }

    /// The number of requests made so far.
    pub closed spec fn requests_made(&self) -> nat {
        self.requests as nat
    }

    /// A turn that has made no request yet.
    pub fn new() -> (t: AgentTurn)
        ensures
            t.requests_made() == 0,
    {
        AgentTurn { requests: 0 }
    }

    /// Accounts for the next request to the model: allowed while fewer
    /// than [`MAX_TOOL_ITERATIONS`] have been made, refused with
    /// [`AgentError::TooManyIterations`] after that, so that a turn never
    /// makes more than [`MAX_TOOL_ITERATIONS`] requests.
    pub fn begin_request(&mut self) -> (r: Result<(), AgentError>)
        ensures
            old(self).requests_made() < MAX_TOOL_ITERATIONS ==> r is Ok && final(self).requests_made()
                == old(self).requests_made() + 1,
            old(self).requests_made() >= MAX_TOOL_ITERATIONS ==> r == Err::<(), AgentError>(
                AgentError::TooManyIterations(MAX_TOOL_ITERATIONS),
            ) && final(self).requests_made() == old(self).requests_made(),
            final(self).requests_made() <= MAX_TOOL_ITERATIONS,
    {
        proof {
            use_type_invariant(&*self);
        }
        if self.requests < MAX_TOOL_ITERATIONS {
            self.requests = self.requests + 1;
            Ok(())
        } else {
            Err(AgentError::TooManyIterations(MAX_TOOL_ITERATIONS))
        }
    }
}

/// What a step is, as a value: the answer's text, a call of the tools, or
/// the error that fails the turn.
pub enum StepView {
    Finish(Seq<char>),
    CallTools,
    Fail(AgentError),
}

/// The value of a step.
pub open spec fn step_view(s: AgentStep) -> StepView {
    match s {
        AgentStep::Finish(t) => StepView::Finish(t@),
        AgentStep::CallTools => StepView::CallTools,
        AgentStep::Fail(e) => StepView::Fail(e),
    }
}

/// Whether a reply asks for at least one tool call.
pub open spec fn calls_tools(reply: ModelReply) -> bool {
    reply matches ModelReply::Choice { tool_calls: Some(n), .. } && n > 0
}

/// The step a reply leads to: a reply without choices fails the turn; one
/// with at least one tool call runs the tools; any other ends the turn
/// with its text (empty when it has none).
pub open spec fn reply_step(reply: ModelReply) -> StepView {
    match reply {
        ModelReply::NoChoices => StepView::Fail(AgentError::Ai(AiError::NoChoices)),
        ModelReply::Choice { content, tool_calls } => if calls_tools(reply) {
            StepView::CallTools
        } else {
            StepView::Finish(
                match content {
                    Some(c) => c@,
                    None => Seq::<char>::empty(),
                },
            )
        },
    }
}

/// The step a reply leads to (see [`reply_step`]).
pub fn on_reply(reply: ModelReply) -> (s: AgentStep)
    ensures
        step_view(s) == reply_step(reply),
{
    match reply {
        ModelReply::NoChoices => AgentStep::Fail(AgentError::Ai(AiError::NoChoices)),
        ModelReply::Choice { content, tool_calls } => match tool_calls {
            Some(n) if n > 0 => AgentStep::CallTools,
            _ => AgentStep::Finish(
                match content {
                    Some(c) => c,
                    None => String::new(),
                },
            ),
        },
    }
}

/// Where a turn stands.
pub enum TurnEnd {
    /// The turn ended with this answer after this many requests.
    Answer { requests: nat, text: Seq<char> },
    /// The turn failed with this error after this many requests.
    Failed { requests: nat, error: AgentError },
    /// This many requests were made and the last is not answered yet.
    Waiting { requests: nat },
}

/// The number of requests a turn has made.
pub open spec fn turn_requests(t: TurnEnd) -> nat {
    match t {
        TurnEnd::Answer { requests, .. } => requests,
        TurnEnd::Failed { requests, .. } => requests,
        TurnEnd::Waiting { requests } => requests,
    }
}

/// A turn driven by its steps, after `made` requests, when the model
/// answers the next requests with `replies` in order: each request is
/// first accounted for by [`AgentTurn::begin_request`] (refused once
/// [`MAX_TOOL_ITERATIONS`] were made), then its reply is stepped by
/// [`on_reply`]; a call of the tools leads to the next request whatever
/// the tools answered.
pub open spec fn turn_run(replies: Seq<ModelReply>, made: nat) -> TurnEnd
    decreases replies.len(),
{
    if made >= MAX_TOOL_ITERATIONS {
        TurnEnd::Failed { requests: made, error: AgentError::TooManyIterations(MAX_TOOL_ITERATIONS) }
    } else if replies.len() == 0 {
        TurnEnd::Waiting { requests: made + 1 }
    } else {
        match reply_step(replies[0]) {
            StepView::CallTools => turn_run(replies.drop_first(), made + 1),
            StepView::Finish(text) => TurnEnd::Answer { requests: made + 1, text },
            StepView::Fail(error) => TurnEnd::Failed { requests: made + 1, error },
        }
    }
}

/// The turn law, from a fresh turn: at most [`MAX_TOOL_ITERATIONS`]
/// requests are made; when the first eight replies all call tools the turn
/// fails with [`AgentError::TooManyIterations`] after eight requests; and
/// the first reply among the first eight that calls no tool ends the turn
/// after that request, with that reply's step (its text, or the failure of
/// a reply without choices).
pub proof fn lemma_turn_law(replies: Seq<ModelReply>)
    ensures
        turn_requests(turn_run(replies, 0)) <= MAX_TOOL_ITERATIONS,
        replies.len() >= MAX_TOOL_ITERATIONS && (forall|j: int|
            0 <= j < MAX_TOOL_ITERATIONS ==> calls_tools(#[trigger] replies[j])) ==> turn_run(replies, 0)
            == (TurnEnd::Failed {
            requests: MAX_TOOL_ITERATIONS as nat,
            error: AgentError::TooManyIterations(MAX_TOOL_ITERATIONS),
        }),
        forall|i: int|
            0 <= i < MAX_TOOL_ITERATIONS && i < replies.len() && !calls_tools(#[trigger] replies[i]) && (forall|j: int|
                0 <= j < i ==> calls_tools(replies[j])) ==> turn_run(replies, 0) == match reply_step(replies[i]) {
                StepView::Finish(text) => TurnEnd::Answer { requests: (i + 1) as nat, text },
                StepView::Fail(error) => TurnEnd::Failed { requests: (i + 1) as nat, error },
                StepView::CallTools => TurnEnd::Waiting { requests: 0 },
            },
{
    lemma_turn_run(replies, 0);
}

/// The turn law from any point of a turn with `made` requests made.
proof fn lemma_turn_run(replies: Seq<ModelReply>, made: nat)
    requires
        made <= MAX_TOOL_ITERATIONS,
    ensures
        turn_requests(turn_run(replies, made)) <= MAX_TOOL_ITERATIONS,
        made + replies.len() >= MAX_TOOL_ITERATIONS && (forall|j: int|
            0 <= j < MAX_TOOL_ITERATIONS - made ==> calls_tools(#[trigger] replies[j])) ==> turn_run(replies, made)
            == (TurnEnd::Failed {
            requests: MAX_TOOL_ITERATIONS as nat,
            error: AgentError::TooManyIterations(MAX_TOOL_ITERATIONS),
        }),
        forall|i: int|
            0 <= i < MAX_TOOL_ITERATIONS - made && i < replies.len() && !calls_tools(#[trigger] replies[i]) && (
            forall|j: int| 0 <= j < i ==> calls_tools(replies[j])) ==> turn_run(replies, made) == match reply_step(
                replies[i],
            ) {
                StepView::Finish(text) => TurnEnd::Answer { requests: (made + i + 1) as nat, text },
                StepView::Fail(error) => TurnEnd::Failed { requests: (made + i + 1) as nat, error },
                StepView::CallTools => TurnEnd::Waiting { requests: 0 },
            },
    decreases replies.len(),
{
    if made < MAX_TOOL_ITERATIONS && replies.len() > 0 {
        let rest = replies.drop_first();
        if calls_tools(replies[0]) {
            lemma_turn_run(rest, made + 1);
            if made + replies.len() >= MAX_TOOL_ITERATIONS && (forall|k: int|
                0 <= k < MAX_TOOL_ITERATIONS - made ==> calls_tools(#[trigger] replies[k])) {
                assert forall|j: int| 0 <= j < MAX_TOOL_ITERATIONS - (made + 1) implies calls_tools(
                    #[trigger] rest[j],
                ) by {
                    assert(rest[j] == replies[j + 1]);
                }
            }
            assert forall|i: int|
                0 <= i < MAX_TOOL_ITERATIONS - made && i < replies.len() && !calls_tools(#[trigger] replies[i]) && (
                forall|j: int| 0 <= j < i ==> calls_tools(replies[j])) implies turn_run(replies, made) == match reply_step(
                    replies[i],
                ) {
                    StepView::Finish(text) => TurnEnd::Answer { requests: (made + i + 1) as nat, text },
                    StepView::Fail(error) => TurnEnd::Failed { requests: (made + i + 1) as nat, error },
                    StepView::CallTools => TurnEnd::Waiting { requests: 0 },
                } by {
                assert(i > 0);
                assert(rest[i - 1] == replies[i]);
                assert forall|j: int| 0 <= j < i - 1 implies calls_tools(rest[j]) by {
                    assert(rest[j] == replies[j + 1]);
                }
            }
        }
    }
}

impl AiError {
    /// What the error says.
    pub open spec fn message_text(&self) -> Seq<char> {
        match self {
            AiError::Request(m) => "request to AI provider failed: "@ + m@,
            AiError::NoChoices => "provider returned no choices"@,
        }
    }

    /// What the error says.
    pub fn message(&self) -> (s: String)
        ensures
            s@ == self.message_text(),
    {
        match self {
            AiError::Request(m) => {
                let mut s = String::from_str("request to AI provider failed: ");
                s.append(m.as_str());
                s
            },
            AiError::NoChoices => String::from_str("provider returned no choices"),
        }
    }
}

impl AgentError {
    /// What the error says.
    pub open spec fn message_text(&self) -> Seq<char> {
        match self {
            AgentError::Ai(e) => e.message_text(),
            AgentError::Tool(e) => e.message_text(),
            AgentError::TooManyIterations(n) => "agent exceeded "@ + decimal(*n as nat)
                + " tool-call iterations without a final answer"@,
            AgentError::MessageBuild(m) => "message build error: "@ + m@,
        }
    }

    /// What the error says.
    pub fn message(&self) -> (s: String)
        ensures
            s@ == self.message_text(),
    {
        match self {
            AgentError::Ai(e) => e.message(),
            AgentError::Tool(e) => e.message(),
            AgentError::TooManyIterations(n) => {
                let mut s = String::from_str("agent exceeded ");
                push_decimal(&mut s, *n as u64);
                s.append(" tool-call iterations without a final answer");
                s
            },
            AgentError::MessageBuild(m) => {
                let mut s = String::from_str("message build error: ");
                s.append(m.as_str());
                s
            },
        }
    }
}

} // verus!
