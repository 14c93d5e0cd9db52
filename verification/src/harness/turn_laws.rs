//! What an agent makes of an answer, said of the answer itself.

use vstd::prelude::*;
use crate::harness::agent::advanced;
use crate::harness::agent::Agent;
use crate::harness::agent::AgentRun;
use crate::harness::agent::AgentStep;
use crate::harness::agent::calls_made;
use crate::harness::agent::calls_of;
use crate::harness::agent::CallView;
use crate::harness::agent::result_block;
use crate::harness::agent::result_blocks;
use crate::harness::agent::StepView;
use crate::harness::agent::text_blocks;
use crate::harness::agent::tool_calls;
use crate::harness::error::HarnessError;
use crate::harness::error::HarnessErrorView;
use crate::harness::llm::BlockView;
use crate::harness::llm::CompletionRequest;
use crate::harness::llm::CompletionResponse;
use crate::harness::llm::Message;
use crate::harness::llm::MessageView;
use crate::harness::llm::Role;
use crate::harness::llm::saturating_sum;
use crate::harness::tool::Tool;
use crate::views::result_view;
use crate::views::seq_views;

verus! {

/// Every tool use of an answer is a call, in their order, and nothing else is.
pub proof fn law_calls_one_by_one(content: Seq<BlockView>, block: BlockView)
    ensures
        tool_calls(Seq::empty()).len() == 0,
        block matches BlockView::ToolUse { id, name, input } ==> tool_calls(content.push(block))
            == tool_calls(content).push(CallView { id, name, input }),
        !(block is ToolUse) ==> tool_calls(content.push(block)) == tool_calls(content),
        block matches BlockView::Text { text } ==> text_blocks(content.push(block)) == text_blocks(
            content,
        ).push(text),
        !(block is Text) ==> text_blocks(content.push(block)) == text_blocks(content),
        text_blocks(Seq::empty()).len() == 0,
{
    assert(content.push(block).drop_last() =~= content);
}

/// An answer has a call exactly when one of its blocks is a tool use.
pub proof fn law_no_tool_use_no_call(content: Seq<BlockView>)
    ensures
        tool_calls(content).len() == 0 <==> forall|i: int|
            0 <= i < content.len() ==> !((#[trigger] content[i]) is ToolUse),
    decreases content.len(),
{
    if content.len() > 0 {
        let part = content.drop_last();
        law_no_tool_use_no_call(part);
        assert forall|i: int| 0 <= i < part.len() implies #[trigger] part[i] == content[i] by {}
        if tool_calls(content).len() == 0 {
            assert forall|i: int| 0 <= i < content.len() implies !((
            #[trigger] content[i]) is ToolUse) by {
                if i < part.len() {
                    assert(!(part[i] is ToolUse));
                }
            }
        } else if !(content.last() is ToolUse) {
            let k = choose|k: int| 0 <= k < part.len() && ((#[trigger] part[k]) is ToolUse);
            assert(content[k] is ToolUse);
        } else {
            assert(content[content.len() - 1] is ToolUse);
        }
    }
}

/// A run asks the model at once with its tools and its instructions, unless it may
/// not ask at all.
pub proof fn law_run<T: Tool>(agent: Agent<T>, messages: Vec<Message>, r: AgentStep<T>)
    requires
        agent.wf(),
        call_ensures(Agent::<T>::run, (agent, messages), r),
    ensures
        agent.config().max_turns > 0 ==> (r@ matches StepView::Ask(run) && run.tools
            == agent.tools() && run.messages == seq_views(messages@) && run.turns == 0
            && run.usage.input_tokens == 0 && run.usage.output_tokens == 0 && run.config
            == agent.config()),
        agent.config().max_turns == 0 ==> (r@ matches StepView::Done { outcome: Err(e), .. }
            && e.source == HarnessErrorView::MaxTurns(0) && e.usage.input_tokens == 0
            && e.usage.output_tokens == 0),
{
}

/// What a run sends: its instructions, the whole conversation, and every tool, of
/// which none is forced.
pub proof fn law_run_request<T: Tool>(run: &AgentRun<T>, r: &CompletionRequest, i: int)
    requires
        run.wf(),
        call_ensures(AgentRun::<T>::request, (run,), r),
    ensures
        r@.system == run@.config.system_prompt,
        r@.messages == run@.messages,
        r@.max_tokens == run@.config.max_tokens,
        r@.tool_choice is None,
        r@.tools.len() == run@.tools.len(),
        0 <= i < run@.tools.len() ==> r@.tools[i] == run@.tools[i].offered(),
{
}

/// An answer without a tool use ends the run with the answer; any other goes on,
/// while turns are left, with a result for every call under the id of the call. A
/// failure of the model ends the run at the cost so far.
pub proof fn law_advance<T: Tool>(
    run: AgentRun<T>,
    env: &mut T::Env,
    reply: Result<CompletionResponse, HarnessError>,
    r: AgentStep<T>,
)
    requires
        run.wf(),
        call_ensures(AgentRun::<T>::advance, (run, env, reply), r),
    ensures
        reply matches Err(e) ==> *final(env) == *old(env) && (r@ matches StepView::Done {
            outcome: Err(f),
            ..
        } && f.source == e@ && f.usage == run@.usage),
        reply matches Ok(resp) ==> {
            let content = resp@.content;
            let quiet = forall|i: int|
                0 <= i < content.len() ==> !((#[trigger] content[i]) is ToolUse);
            let heard = run@.messages.push(MessageView { role: Role::Assistant, content });
            &&& quiet ==> *final(env) == *old(env) && (r@ matches StepView::Done {
                outcome: Ok(o),
                ..
            } && o.messages == heard && o.usage.input_tokens == saturating_sum(
                run@.usage.input_tokens,
                resp.usage.input_tokens,
            ) && o.usage.output_tokens == saturating_sum(
                run@.usage.output_tokens,
                resp.usage.output_tokens,
            ))
            &&& !quiet && run@.turns + 1 < run@.config.max_turns ==> (r@ matches StepView::Ask(next)
                && next.turns == run@.turns + 1 && next.config == run@.config
                && next.messages.len() == run@.messages.len() + 2 && next.messages.take(
                heard.len() as int,
            ) == heard && next.messages.last().role == Role::User
                && next.messages.last().content.len() == tool_calls(content).len() && forall|i: int|
                0 <= i < tool_calls(content).len() ==> ((
                #[trigger] next.messages.last().content[i]) matches BlockView::ToolResult {
                    tool_use_id,
                    ..
                } && tool_use_id == tool_calls(content)[i].id))
            &&& !quiet && run@.turns + 1 >= run@.config.max_turns ==> (r@ matches StepView::Done {
                outcome: Err(f),
                ..
            } && f.source == HarnessErrorView::MaxTurns(run@.config.max_turns as int)
                && f.usage.input_tokens == saturating_sum(
                run@.usage.input_tokens,
                resp.usage.input_tokens,
            ))
        },
{
    let heard_reply = result_view(reply);
    let (tools, envs, results) = choose|
        tools: Seq<Seq<T>>,
        envs: Seq<T::Env>,
        results: Seq<Result<Seq<char>, HarnessErrorView>>,
    | #[trigger]
        calls_made(calls_of(heard_reply), tools, envs, results) && tools[0] == run@.tools && envs[0]
            == *old(env) && envs.last() == *final(env) && r@ == advanced(
            run@,
            heard_reply,
            tools.last(),
            results,
        );
    match reply {
        Err(e) => {
            assert(envs.len() == 1);
        },
        Ok(resp) => {
            law_no_tool_use_no_call(resp@.content);
            if tool_calls(resp@.content).len() == 0 {
                assert(envs.len() == 1);
            } else if run@.turns + 1 < run@.config.max_turns {
                let heard = run@.messages.push(
                    MessageView { role: Role::Assistant, content: resp@.content },
                );
                let next = r@->Ask_0;
                assert(next.messages.take(heard.len() as int) =~= heard);
            }
        },
    }
}

/// A result is told under the id of its call: the tool's answer, or the message of
/// its failure, marked as one.
pub proof fn law_result_block(id: Seq<char>, r: Result<Seq<char>, HarnessErrorView>)
    ensures
        result_block(id, r) matches BlockView::ToolResult { tool_use_id, content, is_error }
            && tool_use_id == id && is_error == (r is Err) && content == (match r {
            Ok(answer) => answer,
            Err(e) => e.message(),
        }),
{
}

/// The results of several calls are told in the order of the calls.
pub proof fn law_result_blocks(
    calls: Seq<CallView>,
    results: Seq<Result<Seq<char>, HarnessErrorView>>,
    i: int,
)
    requires
        0 <= i < calls.len(),
    ensures
        result_blocks(calls, results).len() == calls.len(),
        result_blocks(calls, results)[i] matches BlockView::ToolResult {
            tool_use_id,
            content,
            is_error,
        } && tool_use_id == calls[i].id && is_error == (results[i] is Err) && (
        results[i] matches Ok(answer) ==> content == answer),
{
}

} // verus!
