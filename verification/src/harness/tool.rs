//! Tools that the agent can call, and the registry that finds them by name.

use vstd::prelude::*;
use crate::harness::error::HarnessError;
use crate::harness::error::HarnessErrorView;
use crate::harness::llm::ToolSpec;
use crate::harness::llm::ToolSpecView;
use crate::json::Json;
use crate::json::json_parse;
use crate::json::JsonView;
use crate::text::lemma_lex_irreflexive;
use crate::text::lemma_lex_total;
use crate::text::lemma_lex_transitive;
use crate::text::lex_lt;
use crate::text::text_eq;
use crate::text::text_lt;
use crate::views::result_view;
use crate::views::seq_views;

verus! {

/// A capability that the agent can invoke. A tool turns its own errors into
/// [`HarnessError`] at this boundary.
pub trait Tool: Sized {
    /// What the tool works on.
    type Env;

    /// The environment is fit to run a tool in: any is, unless a tool says more.
    open spec fn ready(env: Self::Env) -> bool {
        true
    }

    /// How the tool is offered to the model.
    spec fn offered(self) -> ToolSpecView;

    /// What one run of the tool may do: from a tool, an environment and an
    /// input to the tool, the environment and the result after it. Anything may
    /// come of it, unless a tool says more.
    open spec fn runs(
        before: Self,
        env: Self::Env,
        input: JsonView,
        after: Self,
        env_after: Self::Env,
        result: Result<Seq<char>, HarnessErrorView>,
    ) -> bool {
        true
    }

    /// The name that the model calls.
    fn name(&self) -> (r: &str)
        ensures
            r@ == self.offered().name,
    ;

    /// What the tool is for, in words for the model.
    fn description(&self) -> (r: &str)
        ensures
            r@ == self.offered().description,
    ;

    /// The JSON schema of the input.
    fn input_schema(&self) -> (r: Json)
        ensures
            r@ == self.offered().input_schema,
    ;

    /// Runs the tool once.
    fn execute(&mut self, env: &mut Self::Env, input: &Json) -> (r: Result<String, HarnessError>)
        requires
            Self::ready(*old(env)),
        ensures
            Self::ready(*final(env)),
            final(self).offered() == old(self).offered(),
            Self::runs(
                *old(self),
                *old(env),
                input@,
                *final(self),
                *final(env),
                result_view(r),
            ),
    ;
}

/// The JSON that a schema text holds, null for a text that holds none.
pub open spec fn schema_view(text: Seq<char>) -> JsonView {
    match json_parse(text) {
        Ok(v) => v,
        Err(_) => JsonView::Null,
    }
}

/// Reads a schema.
pub(crate) fn schema_of(text: &str) -> (r: Json)
    ensures
        r@ == schema_view(text@),
{
    match Json::parse(text) {
        Ok(v) => v,
        Err(_) => Json::Null,
    }
}

/// The registered tools, in the order of their names.
pub struct ToolRegistry<T> {
    tools: Vec<T>,
}

impl<T: Tool> View for ToolRegistry<T> {
    type V = Seq<T>;

    closed spec fn view(&self) -> Seq<T> {
        self.tools@
    }
}

/// The tools stand in the strict order of their names.
pub open spec fn tools_in_order<T: Tool>(tools: Seq<T>) -> bool {
    forall|i: int, j: int|
        0 <= i < j < tools.len() ==> lex_lt(
            (#[trigger] tools[i]).offered().name,
            (#[trigger] tools[j]).offered().name,
        )
}

/// The tool at this position has the name.
pub open spec fn tool_at<T: Tool>(tools: Seq<T>, i: int, name: Seq<char>) -> bool {
    0 <= i < tools.len() && tools[i].offered().name == name
}

/// Some tool has the name.
pub open spec fn knows_tool<T: Tool>(tools: Seq<T>, name: Seq<char>) -> bool {
    exists|i: int| tool_at(tools, i, name)
}

/// Registering a tool: it takes the place of one with the same name, or goes to
/// its own place in the order of names. No other tool changes.
pub open spec fn registered<T: Tool>(before: Seq<T>, tool: T, after: Seq<T>) -> bool {
    let name = tool.offered().name;
    &&& tools_in_order(after)
    &&& if knows_tool(before, name) {
        exists|i: int| #[trigger] tool_at(before, i, name) && after == before.update(i, tool)
    } else {
        exists|i: int| 0 <= i <= before.len() && after == #[trigger] before.insert(i, tool)
    }
}

/// How the tools are offered to the model.
pub open spec fn offers<T: Tool>(tools: Seq<T>) -> Seq<ToolSpecView> {
    Seq::new(tools.len(), |i: int| tools[i].offered())
}

/// A call of a tool by name: the tool runs, or the name is unknown and nothing
/// happens.
pub open spec fn called<T: Tool>(
    before: Seq<T>,
    env: T::Env,
    name: Seq<char>,
    input: JsonView,
    after: Seq<T>,
    env_after: T::Env,
    result: Result<Seq<char>, HarnessErrorView>,
) -> bool {
    if knows_tool(before, name) {
        exists|i: int| #[trigger]
            tool_at(before, i, name) && after.len() == before.len() && after =~= before.update(
                i,
                after[i],
            ) && T::runs(before[i], env, input, after[i], env_after, result)
    } else {
        after == before && env_after == env && result == Err::<Seq<char>, HarnessErrorView>(
            HarnessErrorView::UnknownTool(name),
        )
    }
}

impl<T: Tool> ToolRegistry<T> {
    /// The tools are in order.
    pub open spec fn wf(&self) -> bool {
        tools_in_order(self@)
    }

    /// An empty registry.
    pub fn new() -> (r: ToolRegistry<T>)
        ensures
            r.wf(),
            r@ == Seq::<T>::empty(),
    {
        ToolRegistry { tools: Vec::new() }
    }

    /// Where a name is, or would be.
    fn position(&self, name: &str) -> (r: (usize, bool))
        requires
            self.wf(),
        ensures
            r.0 <= self@.len(),
            r.1 ==> tool_at(self@, r.0 as int, name@),
            !r.1 ==> !knows_tool(self@, name@),
            forall|i: int| 0 <= i < r.0 ==> lex_lt((#[trigger] self@[i]).offered().name, name@),
            forall|i: int|
                r.0 < i < self@.len() ==> lex_lt(name@, (#[trigger] self@[i]).offered().name),
            !r.1 && r.0 < self@.len() ==> lex_lt(name@, self@[r.0 as int].offered().name),
    {
        let mut i: usize = 0;
        while i < self.tools.len() && text_lt(self.tools[i].name(), name)
            invariant
                i <= self.tools.len(),
                forall|j: int|
                    0 <= j < i ==> lex_lt((#[trigger] self.tools@[j]).offered().name, name@),
            decreases self.tools.len() - i,
        {
            i = i + 1;
        }
        let found = i < self.tools.len() && text_eq(self.tools[i].name(), name);
        proof {
            if i < self@.len() {
                let first = self@[i as int].offered().name;
                lemma_lex_total(first, name@);
                assert forall|k: int| i < k < self@.len() implies lex_lt(
                    name@,
                    (#[trigger] self@[k]).offered().name,
                ) by {
                    assert(lex_lt(first, self@[k].offered().name));
                    if first != name@ {
                        lemma_lex_transitive(name@, first, self@[k].offered().name);
                    }
                }
            }
            lemma_lex_irreflexive(name@);
        }
        (i, found)
    }

    /// Registers a tool under its name. Registering a name again replaces the
    /// earlier tool.
    pub fn register(&mut self, tool: T)
        requires
            old(self).wf(),
        ensures
            final(self).wf(),
            registered(old(self)@, tool, final(self)@),
    {
        let (at, found) = self.position(tool.name());
        if found {
            self.tools.set(at, tool);
            assert(tool_at(old(self)@, at as int, tool.offered().name));
        } else {
            self.tools.insert(at, tool);
            proof {
                let before = old(self)@;
                let after = self@;
                assert(after == before.insert(at as int, tool));
                assert forall|i: int, j: int| 0 <= i < j < after.len() implies lex_lt(
                    (#[trigger] after[i]).offered().name,
                    (#[trigger] after[j]).offered().name,
                ) by {
                    let x = if i < at {
                        i
                    } else {
                        i - 1
                    };
                    let y = if j < at {
                        j
                    } else {
                        j - 1
                    };
                    if i != at && j != at {
                        assert(after[i] == before[x] && after[j] == before[y]);
                    } else if i == at {
                        assert(after[j] == before[y]);
                    } else {
                        assert(after[i] == before[x]);
                    }
                }
            }
        }
    }

    /// How the tools are offered to the model, in the order of their names.
    pub fn specs(&self) -> (r: Vec<ToolSpec>)
        ensures
            seq_views(r@) == offers(self@),
    {
        let mut out: Vec<ToolSpec> = Vec::new();
        let mut i: usize = 0;
        while i < self.tools.len()
            invariant
                i <= self.tools.len(),
                out.len() == i,
                forall|j: int| 0 <= j < i ==> (#[trigger] out@[j])@ == self.tools@[j].offered(),
            decreases self.tools.len() - i,
        {
            let tool = &self.tools[i];
            out.push(
                ToolSpec {
                    name: tool.name().to_string(),
                    description: tool.description().to_string(),
                    input_schema: tool.input_schema(),
                },
            );
            i = i + 1;
        }
        assert(seq_views(out@) =~= offers(self@));
        out
    }

    /// Calls the named tool.
    pub fn execute(&mut self, env: &mut T::Env, name: &str, input: &Json) -> (r: Result<
        String,
        HarnessError,
    >)
        requires
            old(self).wf(),
            T::ready(*old(env)),
        ensures
            final(self).wf(),
            T::ready(*final(env)),
            called(
                old(self)@,
                *old(env),
                name@,
                input@,
                final(self)@,
                *final(env),
                result_view(r),
            ),
            offers(final(self)@) == offers(old(self)@),
    {
        let (at, found) = self.position(name);
        if !found {
            return Err(HarnessError::UnknownTool(name.to_string()));
        }
        let tool = &mut self.tools[at];
        let r = tool.execute(env, input);
        proof {
            let before = old(self)@;
            let after = self@;
            assert(tool_at(before, at as int, name@));
            assert(after =~= before.update(at as int, after[at as int]));
            assert(offers(after) =~= offers(before));
            assert forall|i: int, j: int| 0 <= i < j < after.len() implies lex_lt(
                (#[trigger] after[i]).offered().name,
                (#[trigger] after[j]).offered().name,
            ) by {
                assert(after[i].offered() == before[i].offered());
                assert(after[j].offered() == before[j].offered());
            }
        }
        r
    }

    /// The tools themselves, in the order of their names.
    pub fn tools(&self) -> (r: &Vec<T>)
        ensures
            r@ == self@,
    {
        &self.tools
    }
}

} // verus!
