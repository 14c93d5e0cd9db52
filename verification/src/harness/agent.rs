//! The agent loop: ask the model, run the tools that it calls, feed the results
//! back, until it answers without calling any.
//!
//! The loop is a machine without a clock of its own. [`Agent::run`] gives the
//! first request; whoever talks to the model hands each reply to
//! [`AgentRun::advance`] and gets the next request or the outcome.

use vstd::prelude::*;
use crate::harness::error::HarnessError;
use crate::harness::error::HarnessErrorView;
use crate::harness::llm::BlockView;
use crate::harness::llm::CompletionRequest;
use crate::harness::llm::CompletionResponse;
use crate::harness::llm::ContentBlock;
use crate::harness::llm::Message;
use crate::harness::llm::MessageView;
use crate::harness::llm::no_usage;
use crate::harness::llm::RequestView;
use crate::harness::llm::ResponseView;
use crate::harness::llm::Role;
use crate::harness::llm::Usage;
use crate::harness::llm::usage_sum;
use crate::harness::tool::called;
use crate::harness::tool::offers;
use crate::harness::tool::Tool;
use crate::harness::tool::ToolRegistry;
use crate::harness::tool::tools_in_order;
use crate::json::JsonView;
use crate::text::join;
use crate::text::joined;
use crate::views::result_view;
use crate::views::seq_views;

verus! {

/// How an agent runs.
#[derive(Clone, Debug)]
pub struct AgentConfig {
    pub system_prompt: String,
    pub max_turns: usize,
    pub max_tokens: u32,
}

/// The mathematical counterpart of [`AgentConfig`].
pub struct ConfigView {
    pub system_prompt: Seq<char>,
    pub max_turns: usize,
    pub max_tokens: u32,
}

impl View for AgentConfig {
    type V = ConfigView;

    open spec fn view(&self) -> ConfigView {
        ConfigView {
            system_prompt: self.system_prompt@,
            max_turns: self.max_turns,
            max_tokens: self.max_tokens,
        }
    }
}

/// What a finished run leaves behind.
#[derive(Clone, Debug, PartialEq)]
pub struct TurnOutcome {
    /// The text of the last answer, which called no tool.
    pub text: String,
    /// The whole conversation, with every tool call and result.
    pub messages: Vec<Message>,
    /// The tokens of every call of the run.
    pub usage: Usage,
}

/// The mathematical counterpart of [`TurnOutcome`].
#[verifier::ext_equal]
pub struct OutcomeView {
    pub text: Seq<char>,
    pub messages: Seq<MessageView>,
    pub usage: Usage,
}

impl View for TurnOutcome {
    type V = OutcomeView;

    open spec fn view(&self) -> OutcomeView {
        OutcomeView { text: self.text@, messages: seq_views(self.messages@), usage: self.usage }
    }
}

/// A failed run: what failed, and what had been spent by then.
#[derive(Debug)]
pub struct RunError {
    pub source: HarnessError,
    pub usage: Usage,
}

/// The mathematical counterpart of [`RunError`].
pub struct RunErrorView {
    pub source: HarnessErrorView,
    pub usage: Usage,
}

impl View for RunError {
    type V = RunErrorView;

    open spec fn view(&self) -> RunErrorView {
        RunErrorView { source: self.source@, usage: self.usage }
    }
}

/// A call of a tool, as the model wrote it.
pub struct CallView {
    pub id: Seq<char>,
    pub name: Seq<char>,
    pub input: JsonView,
}

/// The tool calls of an answer, in order.
pub open spec fn tool_calls(content: Seq<BlockView>) -> Seq<CallView>
    decreases content.len(),
{
    if content.len() == 0 {
        Seq::empty()
    } else {
        match content.last() {
            BlockView::ToolUse { id, name, input } => tool_calls(content.drop_last()).push(
                CallView { id, name, input },
            ),
            _ => tool_calls(content.drop_last()),
        }
    }
}

/// The texts of an answer, in order.
pub open spec fn text_blocks(content: Seq<BlockView>) -> Seq<Seq<char>>
    decreases content.len(),
{
    if content.len() == 0 {
        Seq::empty()
    } else {
        match content.last() {
            BlockView::Text { text } => text_blocks(content.drop_last()).push(text),
            _ => text_blocks(content.drop_last()),
        }
    }
}

/// What the model is told of a tool's result. A failure is a result too.
pub open spec fn result_block(
    id: Seq<char>,
    r: Result<Seq<char>, HarnessErrorView>,
) -> BlockView {
    match r {
        Ok(content) => BlockView::ToolResult { tool_use_id: id, content, is_error: false },
        Err(e) => BlockView::ToolResult { tool_use_id: id, content: e.message(), is_error: true },
    }
}

/// What the model is told of all calls, in their order.
pub open spec fn result_blocks(
    calls: Seq<CallView>,
    results: Seq<Result<Seq<char>, HarnessErrorView>>,
) -> Seq<BlockView> {
    Seq::new(calls.len(), |i: int| result_block(calls[i].id, results[i]))
}

/// The calls were made one after another, each on the tools and the environment
/// that the one before left.
pub open spec fn calls_made<T: Tool>(
    calls: Seq<CallView>,
    tools: Seq<Seq<T>>,
    envs: Seq<T::Env>,
    results: Seq<Result<Seq<char>, HarnessErrorView>>,
) -> bool {
    &&& tools.len() == calls.len() + 1
    &&& envs.len() == calls.len() + 1
    &&& results.len() == calls.len()
    &&& forall|i: int|
        0 <= i < calls.len() ==> called(
            tools[i],
            envs[i],
            (#[trigger] calls[i]).name,
            calls[i].input,
            tools[i + 1],
            envs[i + 1],
            results[i],
        )
}

/// An agent: its tools and how it runs.
pub struct Agent<T> {
    tools: ToolRegistry<T>,
    config: AgentConfig,
}

/// A run that waits for the model's reply.
pub struct AgentRun<T> {
    tools: ToolRegistry<T>,
    request: CompletionRequest,
    usage: Usage,
    turns: usize,
    max_turns: usize,
}

/// A run, as far as it has come.
pub struct RunView<T> {
    pub tools: Seq<T>,
    pub config: ConfigView,
    pub messages: Seq<MessageView>,
    pub usage: Usage,
    /// Replies so far.
    pub turns: int,
}

/// What to do next.
pub enum AgentStep<T> {
    /// Send the run's request to the model and hand back the reply.
    Ask(AgentRun<T>),
    /// The run is over.
    Done { tools: ToolRegistry<T>, outcome: Result<TurnOutcome, RunError> },
}

/// What to do next, over views.
pub enum StepView<T> {
    Ask(RunView<T>),
    Done { tools: Seq<T>, outcome: Result<OutcomeView, RunErrorView> },
}

impl<T: Tool> View for AgentRun<T> {
    type V = RunView<T>;

    closed spec fn view(&self) -> RunView<T> {
        RunView {
            tools: self.tools@,
            config: ConfigView {
                system_prompt: self.request.system@,
                max_turns: self.max_turns,
                max_tokens: self.request.max_tokens,
            },
            messages: seq_views(self.request.messages@),
            usage: self.usage,
            turns: self.turns as int,
        }
    }
}

impl<T: Tool> View for AgentStep<T> {
    type V = StepView<T>;

    open spec fn view(&self) -> StepView<T> {
        match self {
            AgentStep::Ask(run) => StepView::Ask(run@),
            AgentStep::Done { tools, outcome } => StepView::Done {
                tools: tools@,
                outcome: result_view(*outcome),
            },
        }
    }
}

/// The request that a run sends.
pub open spec fn request_of<T: Tool>(run: RunView<T>) -> RequestView {
    RequestView {
        system: run.config.system_prompt,
        messages: run.messages,
        tools: offers(run.tools),
        max_tokens: run.config.max_tokens,
        tool_choice: None,
    }
}

/// The first step: ask, unless no turn is allowed at all.
pub open spec fn begun<T: Tool>(
    tools: Seq<T>,
    config: ConfigView,
    messages: Seq<MessageView>,
) -> StepView<T> {
    if config.max_turns == 0 {
        StepView::Done {
            tools,
            outcome: Err(
                RunErrorView { source: HarnessErrorView::MaxTurns(0), usage: no_usage() },
            ),
        }
    } else {
        StepView::Ask(RunView { tools, config, messages, usage: no_usage(), turns: 0 })
    }
}

/// The step after a reply, given the results of the tools that it called. A
/// failed call of the model ends the run with what was spent before it; an
/// answer without tool calls ends it well; otherwise the results go back to the
/// model, while turns are left.
pub open spec fn advanced<T: Tool>(
    run: RunView<T>,
    reply: Result<ResponseView, HarnessErrorView>,
    tools: Seq<T>,
    results: Seq<Result<Seq<char>, HarnessErrorView>>,
) -> StepView<T> {
    match reply {
        Err(e) => StepView::Done {
            tools: run.tools,
            outcome: Err(RunErrorView { source: e, usage: run.usage }),
        },
        Ok(resp) => {
            let usage = usage_sum(run.usage, resp.usage);
            let calls = tool_calls(resp.content);
            let heard = run.messages.push(
                MessageView { role: Role::Assistant, content: resp.content },
            );
            if calls.len() == 0 {
                StepView::Done {
                    tools: run.tools,
                    outcome: Ok(
                        OutcomeView {
                            text: joined(text_blocks(resp.content), "\n"@),
                            messages: heard,
                            usage,
                        },
                    ),
                }
            } else if run.turns + 1 >= run.config.max_turns {
                StepView::Done {
                    tools,
                    outcome: Err(
                        RunErrorView {
                            source: HarnessErrorView::MaxTurns(run.config.max_turns as int),
                            usage,
                        },
                    ),
                }
            } else {
                StepView::Ask(
                    RunView {
                        tools,
                        messages: heard.push(
                            MessageView {
                                role: Role::User,
                                content: result_blocks(calls, results),
                            },
                        ),
                        usage,
                        turns: run.turns + 1,
                        ..run
                    },
                )
            }
        },
    }
}

/// The calls of a reply: none when the model could not be reached.
pub open spec fn calls_of(reply: Result<ResponseView, HarnessErrorView>) -> Seq<CallView> {
    match reply {
        Ok(resp) => tool_calls(resp.content),
        Err(_) => Seq::empty(),
    }
}

/// What a reply does to a run: the tools that it calls run one after another, and
/// their results decide the next step.
pub open spec fn reply_taken<T: Tool>(
    run: RunView<T>,
    env: T::Env,
    reply: Result<ResponseView, HarnessErrorView>,
    env_after: T::Env,
    step: StepView<T>,
) -> bool {
    exists|
        tools: Seq<Seq<T>>,
        envs: Seq<T::Env>,
        results: Seq<Result<Seq<char>, HarnessErrorView>>,
    | #[trigger]
        calls_made(calls_of(reply), tools, envs, results) && tools[0] == run.tools && envs[0] == env
            && envs.last() == env_after && step == advanced(run, reply, tools.last(), results)
}

impl<T: Tool> Agent<T> {
    /// The agent's tools.
    pub closed spec fn tools(&self) -> Seq<T> {
        self.tools@
    }

    /// How the agent runs.
    pub closed spec fn config(&self) -> ConfigView {
        self.config@
    }

    /// The tools are in order.
    pub open spec fn wf(&self) -> bool {
        tools_in_order(self.tools())
    }

    /// An agent with these tools.
    pub fn new(tools: ToolRegistry<T>, config: AgentConfig) -> (r: Agent<T>)
        requires
            tools.wf(),
        ensures
            r.wf(),
            r.tools() == tools@,
            r.config() == config@,
    {
        Agent { tools, config }
    }

    /// Begins a run on a conversation.
    pub fn run(self, messages: Vec<Message>) -> (r: AgentStep<T>)
        requires
            self.wf(),
        ensures
            r.wf(),
            r@ == begun(self.tools(), self.config(), seq_views(messages@)),
    {
        let specs = self.tools.specs();
        if self.config.max_turns == 0 {
            return AgentStep::Done {
                tools: self.tools,
                outcome: Err(
                    RunError { source: HarnessError::MaxTurns(0), usage: Usage::default() },
                ),
            };
        }
        AgentStep::Ask(
            AgentRun {
                tools: self.tools,
                request: CompletionRequest {
                    system: self.config.system_prompt,
                    messages,
                    tools: specs,
                    max_tokens: self.config.max_tokens,
                    tool_choice: None,
                },
                usage: Usage::default(),
                turns: 0,
                max_turns: self.config.max_turns,
            },
        )
    }
}

impl<T: Tool> AgentStep<T> {
    /// A step that can be taken.
    pub open spec fn wf(&self) -> bool {
        match self {
            AgentStep::Ask(run) => run.wf(),
            AgentStep::Done { tools, .. } => tools.wf(),
        }
    }
}

/// Runs the tool calls of an answer, in order.
fn run_calls<T: Tool>(
    tools: &mut ToolRegistry<T>,
    env: &mut T::Env,
    content: &Vec<ContentBlock>,
) -> (r: (Vec<ContentBlock>, Ghost<Seq<Seq<T>>>, Ghost<Seq<T::Env>>, Ghost<
    Seq<Result<Seq<char>, HarnessErrorView>>,
>))
    requires
        old(tools).wf(),
        T::ready(*old(env)),
    ensures
        final(tools).wf(),
        T::ready(*final(env)),
        offers(final(tools)@) == offers(old(tools)@),
        calls_made(tool_calls(seq_views(content@)), r.1@, r.2@, r.3@),
        r.1@[0] == old(tools)@,
        r.1@.last() == final(tools)@,
        r.2@[0] == *old(env),
        r.2@.last() == *final(env),
        seq_views(r.0@) == result_blocks(tool_calls(seq_views(content@)), r.3@),
{
    let ghost all = seq_views(content@);
    let ghost mut ts: Seq<Seq<T>> = seq![tools@];
    let ghost mut es: Seq<T::Env> = seq![*env];
    let ghost mut rs: Seq<Result<Seq<char>, HarnessErrorView>> = Seq::empty();
    let mut out: Vec<ContentBlock> = Vec::new();
    let mut i: usize = 0;
    assert(all.take(0) =~= Seq::<BlockView>::empty());
    assert(seq_views(out@) =~= result_blocks(tool_calls(all.take(0)), rs));
    while i < content.len()
        invariant
            i <= content.len(),
            all == seq_views(content@),
            tools.wf(),
            T::ready(*env),
            offers(tools@) == offers(old(tools)@),
            calls_made(tool_calls(all.take(i as int)), ts, es, rs),
            ts[0] == old(tools)@,
            ts.last() == tools@,
            es[0] == *old(env),
            es.last() == *env,
            seq_views(out@) == result_blocks(tool_calls(all.take(i as int)), rs),
        decreases content.len() - i,
    {
        let ghost calls = tool_calls(all.take(i as int));
        proof {
            assert(all.take(i + 1).drop_last() =~= all.take(i as int));
            assert(all.take(i + 1).last() == content@[i as int]@);
        }
        match &content[i] {
            ContentBlock::ToolUse { id, name, input } => {
                let ghost before = out@;
                let r = tools.execute(env, name.as_str(), input);
                let ghost rv = result_view(r);
                let ghost call = CallView { id: id@, name: name@, input: input@ };
                let block = match r {
                    Ok(text) => ContentBlock::ToolResult {
                        tool_use_id: id.clone(),
                        content: text,
                        is_error: false,
                    },
                    Err(e) => ContentBlock::ToolResult {
                        tool_use_id: id.clone(),
                        content: e.to_text(),
                        is_error: true,
                    },
                };
                assert(block@ == result_block(id@, rv));
                out.push(block);
                proof {
                    let ts1 = ts.push(tools@);
                    let es1 = es.push(*env);
                    let rs1 = rs.push(rv);
                    let calls1 = calls.push(call);
                    assert(tool_calls(all.take(i + 1)) == calls1);
                    assert forall|k: int| 0 <= k < calls1.len() implies called(
                        ts1[k],
                        es1[k],
                        (#[trigger] calls1[k]).name,
                        calls1[k].input,
                        ts1[k + 1],
                        es1[k + 1],
                        rs1[k],
                    ) by {
                        if k < calls.len() {
                            assert(calls[k] == calls1[k]);
                        }
                    }
                    assert(seq_views(out@) =~= seq_views(before).push(result_block(id@, rv)));
                    assert(seq_views(out@) =~= result_blocks(calls1, rs1));
                    ts = ts1;
                    es = es1;
                    rs = rs1;
                }
            },
            _ => {},
        }
        i = i + 1;
    }
    assert(all.take(all.len() as int) =~= all);
    (out, Ghost(ts), Ghost(es), Ghost(rs))
}

/// The texts of an answer, one below the other.
fn answer_text(content: &Vec<ContentBlock>) -> (r: String)
    ensures
        r@ == joined(text_blocks(seq_views(content@)), "\n"@),
{
    let ghost all = seq_views(content@);
    let mut parts: Vec<String> = Vec::new();
    let mut i: usize = 0;
    assert(all.take(0) =~= Seq::<BlockView>::empty());
    assert(seq_views(parts@) =~= text_blocks(all.take(0)));
    while i < content.len()
        invariant
            i <= content.len(),
            all == seq_views(content@),
            seq_views(parts@) == text_blocks(all.take(i as int)),
        decreases content.len() - i,
    {
        proof {
            assert(all.take(i + 1).drop_last() =~= all.take(i as int));
            assert(all.take(i + 1).last() == content@[i as int]@);
        }
        match &content[i] {
            ContentBlock::Text { text } => {
                let ghost before = parts@;
                parts.push(text.clone());
                assert(seq_views(parts@) =~= seq_views(before).push(text@));
            },
            _ => {},
        }
        i = i + 1;
    }
    assert(all.take(all.len() as int) =~= all);
    join(&parts, "\n")
}

/// Whether an answer calls any tool.
fn has_calls(content: &Vec<ContentBlock>) -> (r: bool)
    ensures
        r == (tool_calls(seq_views(content@)).len() > 0),
{
    let ghost all = seq_views(content@);
    let mut i: usize = 0;
    let mut found = false;
    assert(all.take(0) =~= Seq::<BlockView>::empty());
    while i < content.len()
        invariant
            i <= content.len(),
            all == seq_views(content@),
            found == (tool_calls(all.take(i as int)).len() > 0),
        decreases content.len() - i,
    {
        proof {
            assert(all.take(i + 1).drop_last() =~= all.take(i as int));
            assert(all.take(i + 1).last() == content@[i as int]@);
        }
        match &content[i] {
            ContentBlock::ToolUse { .. } => {
                found = true;
            },
            _ => {},
        }
        i = i + 1;
    }
    assert(all.take(all.len() as int) =~= all);
    found
}

impl<T: Tool> AgentRun<T> {
    /// A run that waits for a reply has a turn left for it.
    pub closed spec fn wf(&self) -> bool {
        &&& self.tools.wf()
        &&& self.turns < self.max_turns
        &&& seq_views(self.request.tools@) == offers(self.tools@)
        &&& self.request.tool_choice is None
    }

    /// The request to send.
    pub fn request(&self) -> (r: &CompletionRequest)
        requires
            self.wf(),
        ensures
            r@ == request_of(self@),
    {
        &self.request
    }

    /// Takes the model's reply: runs the tools that it calls and says what to
    /// do next.
    pub fn advance(
        self,
        env: &mut T::Env,
        reply: Result<CompletionResponse, HarnessError>,
    ) -> (r: AgentStep<T>)
        requires
            self.wf(),
            T::ready(*old(env)),
        ensures
            r.wf(),
            T::ready(*final(env)),
            reply_taken(self@, *old(env), result_view(reply), *final(env), r@),
    {
        let mut tools = self.tools;
        let mut request = self.request;
        let mut usage = self.usage;
        let ghost tools0: Seq<Seq<T>> = seq![tools@];
        let ghost envs0: Seq<T::Env> = seq![*env];
        let ghost none: Seq<Result<Seq<char>, HarnessErrorView>> = Seq::empty();
        match reply {
            Err(e) => {
                assert(calls_made(calls_of(result_view(reply)), tools0, envs0, none));
                AgentStep::Done { tools, outcome: Err(RunError { source: e, usage }) }
            },
            Ok(resp) => {
                usage.add(&resp.usage);
                if !has_calls(&resp.content) {
                    let text = answer_text(&resp.content);
                    request.messages.push(
                        Message { role: Role::Assistant, content: resp.content },
                    );
                    let outcome = TurnOutcome { text, messages: request.messages, usage };
                    proof {
                        assert(calls_of(result_view(reply)) =~= Seq::<CallView>::empty());
                        assert(calls_made(calls_of(result_view(reply)), tools0, envs0, none));
                        assert(outcome@.messages =~= self@.messages.push(
                            MessageView { role: Role::Assistant, content: reply->Ok_0@.content },
                        ));
                    }
                    return AgentStep::Done { tools, outcome: Ok(outcome) };
                }
                let (results, Ghost(ts), Ghost(es), Ghost(rs)) = run_calls(
                    &mut tools,
                    env,
                    &resp.content,
                );
                proof {
                    assert(calls_made(calls_of(result_view(reply)), ts, es, rs));
                }
                if self.turns + 1 >= self.max_turns {
                    return AgentStep::Done {
                        tools,
                        outcome: Err(
                            RunError { source: HarnessError::MaxTurns(self.max_turns), usage },
                        ),
                    };
                }
                request.messages.push(Message { role: Role::Assistant, content: resp.content });
                request.messages.push(Message { role: Role::User, content: results });
                let run = AgentRun {
                    tools,
                    request,
                    usage,
                    turns: self.turns + 1,
                    max_turns: self.max_turns,
                };
                proof {
                    let heard = self@.messages.push(
                        MessageView { role: Role::Assistant, content: reply->Ok_0@.content },
                    );
                    assert(run@.messages =~= heard.push(
                        MessageView {
                            role: Role::User,
                            content: result_blocks(calls_of(result_view(reply)), rs),
                        },
                    ));
                }
                AgentStep::Ask(run)
            },
        }
    }
}

/// A run that goes on has used a turn and spent what the reply cost; its
/// conversation only grew.
pub proof fn law_run_only_grows<T: Tool>(
    run: RunView<T>,
    reply: Result<ResponseView, HarnessErrorView>,
    tools: Seq<T>,
    results: Seq<Result<Seq<char>, HarnessErrorView>>,
)
    requires
        advanced(run, reply, tools, results) is Ask,
    ensures
        ({
            let next = advanced(run, reply, tools, results)->Ask_0;
            &&& next.turns == run.turns + 1
            &&& next.turns < run.config.max_turns
            &&& next.usage == usage_sum(run.usage, reply->Ok_0.usage)
            &&& run.messages.is_prefix_of(next.messages)
            &&& next.config == run.config
        }),
{
}

/// What was spent is never lost: the usage of a failed run holds every reply
/// that came before the failure, the last one with it when it was answered.
pub proof fn law_failure_carries_the_cost<T: Tool>(
    run: RunView<T>,
    reply: Result<ResponseView, HarnessErrorView>,
    tools: Seq<T>,
    results: Seq<Result<Seq<char>, HarnessErrorView>>,
)
    ensures
        advanced(run, reply, tools, results) matches StepView::Done { outcome: Err(e), .. }
            ==> e.usage == (match reply {
            Ok(resp) => usage_sum(run.usage, resp.usage),
            Err(_) => run.usage,
        }),
{
}

/// A tool that fails does not end the run: the model hears of the failure and
/// goes on, while turns are left.
pub proof fn law_tool_failure_is_a_result<T: Tool>(
    run: RunView<T>,
    resp: ResponseView,
    tools: Seq<T>,
    results: Seq<Result<Seq<char>, HarnessErrorView>>,
)
    requires
        tool_calls(resp.content).len() > 0,
        run.turns + 1 < run.config.max_turns,
    ensures
        advanced(run, Ok(resp), tools, results) matches StepView::Ask(next) && next.messages.last()
            == (MessageView {
            role: Role::User,
            content: result_blocks(tool_calls(resp.content), results),
        }),
{
}

/// What a reply cost: nothing when the model could not be reached.
pub open spec fn cost_of(reply: Result<ResponseView, HarnessErrorView>) -> Usage {
    match reply {
        Ok(resp) => resp.usage,
        Err(_) => no_usage(),
    }
}

/// What all replies cost together.
pub open spec fn total_cost(replies: Seq<Result<ResponseView, HarnessErrorView>>) -> Usage
    decreases replies.len(),
{
    if replies.len() == 0 {
        no_usage()
    } else {
        usage_sum(total_cost(replies.drop_last()), cost_of(replies.last()))
    }
}

/// A run from its beginning: every reply was taken by the step before it.
pub open spec fn run_through<T: Tool>(
    tools: Seq<T>,
    config: ConfigView,
    messages: Seq<MessageView>,
    replies: Seq<Result<ResponseView, HarnessErrorView>>,
    envs: Seq<T::Env>,
    steps: Seq<StepView<T>>,
) -> bool {
    &&& steps.len() == replies.len() + 1
    &&& envs.len() == replies.len() + 1
    &&& steps[0] == begun(tools, config, messages)
    &&& forall|i: int|
        0 <= i < replies.len() ==> ((#[trigger] steps[i]) matches StepView::Ask(run)
            && reply_taken(run, envs[i], replies[i], envs[i + 1], steps[i + 1]))
}

/// The conversation holds the input first, and then every answer with the results
/// that went back for it.
pub open spec fn conversation_of(
    messages: Seq<MessageView>,
    replies: Seq<Result<ResponseView, HarnessErrorView>>,
    all: Seq<MessageView>,
) -> bool {
    &&& messages.is_prefix_of(all)
    &&& forall|i: int|
        0 <= i < replies.len() ==> #[trigger] replies[i] is Ok && messages.len() + 2 * i < all.len()
            && all[messages.len() + 2 * i] == (MessageView {
            role: Role::Assistant,
            content: replies[i]->Ok_0.content,
        })
}

/// What holds of a whole run. It makes at most as many requests as it may take
/// turns. While it goes on, and when it ends well, its conversation begins with
/// the input and holds every answer. Its usage is that of all replies together,
/// however it ends. It fails with the model's failure, or else because no turn
/// is left.
pub proof fn law_whole_run<T: Tool>(
    tools: Seq<T>,
    config: ConfigView,
    messages: Seq<MessageView>,
    replies: Seq<Result<ResponseView, HarnessErrorView>>,
    envs: Seq<T::Env>,
    steps: Seq<StepView<T>>,
)
    requires
        run_through(tools, config, messages, replies, envs, steps),
    ensures
        replies.len() <= config.max_turns,
        match steps.last() {
            StepView::Ask(run) => {
                &&& replies.len() < config.max_turns
                &&& run.turns == replies.len()
                &&& run.config == config
                &&& run.usage == total_cost(replies)
                &&& run.messages.len() == messages.len() + 2 * replies.len()
                &&& conversation_of(messages, replies, run.messages)
            },
            StepView::Done { outcome: Ok(outcome), .. } => {
                &&& replies.len() > 0
                &&& outcome.usage == total_cost(replies)
                &&& outcome.messages.len() == messages.len() + 2 * replies.len() - 1
                &&& conversation_of(messages, replies, outcome.messages)
                &&& calls_of(replies.last()).len() == 0
                &&& outcome.text == joined(text_blocks(replies.last()->Ok_0.content), "\n"@)
            },
            StepView::Done { outcome: Err(e), .. } => {
                &&& e.usage == total_cost(replies)
                &&& e.source == if replies.len() > 0 && replies.last() is Err {
                    replies.last()->Err_0
                } else {
                    HarnessErrorView::MaxTurns(config.max_turns as int)
                }
                &&& replies.len() == 0 || replies.last() is Ok ==> replies.len()
                    == config.max_turns
            },
        },
    decreases replies.len(),
{
    if replies.len() > 0 {
        let n = replies.len() - 1;
        let before = replies.drop_last();
        let earlier = steps.drop_last();
        assert forall|i: int| 0 <= i < before.len() implies ((#[trigger] earlier[i])
            matches StepView::Ask(run) && reply_taken(
            run,
            envs.drop_last()[i],
            before[i],
            envs.drop_last()[i + 1],
            earlier[i + 1],
        )) by {
            assert(steps[i] is Ask);
        }
        law_whole_run(tools, config, messages, before, envs.drop_last(), earlier);
        assert(steps[n] is Ask);
        assert(earlier.last() == steps[n]);
        let run = steps[n]->Ask_0;
        assert(reply_taken(run, envs[n], replies[n], envs[n + 1], steps[n + 1]));
        let (ts, es, rs) = choose|
            ts: Seq<Seq<T>>,
            es: Seq<T::Env>,
            rs: Seq<Result<Seq<char>, HarnessErrorView>>,
        | #[trigger]
            calls_made(calls_of(replies[n]), ts, es, rs) && ts[0] == run.tools && es[0] == envs[n]
                && es.last() == envs[n + 1] && steps[n + 1] == advanced(
                run,
                replies[n],
                ts.last(),
                rs,
            );
        if replies[n] is Ok {
            let heard = run.messages.push(
                MessageView { role: Role::Assistant, content: replies[n]->Ok_0.content },
            );
            lemma_conversation_grows(messages, replies, run.messages, heard);
            if steps.last() is Ask {
                lemma_conversation_goes_on(
                    messages,
                    replies,
                    heard,
                    steps.last()->Ask_0.messages.last(),
                );
            }
        } else {
            lemma_nothing_more(total_cost(before));
        }
    }
}

proof fn lemma_nothing_more(a: Usage)
    ensures
        usage_sum(a, no_usage()) == a,
{
}

proof fn lemma_conversation_grows(
    messages: Seq<MessageView>,
    replies: Seq<Result<ResponseView, HarnessErrorView>>,
    all: Seq<MessageView>,
    heard: Seq<MessageView>,
)
    requires
        replies.len() > 0,
        replies.last() is Ok,
        conversation_of(messages, replies.drop_last(), all),
        all.len() == messages.len() + 2 * (replies.len() - 1),
        heard == all.push(
            MessageView { role: Role::Assistant, content: replies.last()->Ok_0.content },
        ),
    ensures
        conversation_of(messages, replies, heard),
{
    let before = replies.drop_last();
    assert forall|i: int| 0 <= i < replies.len() implies #[trigger] replies[i] is Ok
        && messages.len() + 2 * i < heard.len() && heard[messages.len() + 2 * i] == (MessageView {
        role: Role::Assistant,
        content: replies[i]->Ok_0.content,
    }) by {
        if i < before.len() {
            assert(before[i] == replies[i]);
        }
    }
}

proof fn lemma_conversation_goes_on(
    messages: Seq<MessageView>,
    replies: Seq<Result<ResponseView, HarnessErrorView>>,
    all: Seq<MessageView>,
    next: MessageView,
)
    requires
        conversation_of(messages, replies, all),
    ensures
        conversation_of(messages, replies, all.push(next)),
{
}

} // verus!
