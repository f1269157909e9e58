//! The steps around a local tool call: arguments, policy, hooks, permissions.

use vstd::prelude::*;

use crate::json;
use crate::json::{Json, JsonView};
use crate::services::policy;
use crate::services::policy::{PolicyEnforcer, PolicyError, ToolExecutionPolicy};
use crate::string_map::StringMap;
use crate::text;
use crate::tools::{ToolCall, ToolResult, ToolResultView};

verus! {

/// A gate blocked a tool before dispatch.
#[derive(Debug, Clone, PartialEq, Eq)]
pub struct ToolExecutionBlock {
    /// The reason, as the user and the model see it.
    pub content: String,
}

impl ToolExecutionBlock {
    /// The block as a tool result.
    pub fn into_tool_result(self, tool_call_id: String) -> (r: ToolResult)
        ensures
            r@ == (ToolResultView {
                tool_call_id: tool_call_id@,
                content: self.content@,
                is_error: true,
            }),
    {
        ToolResult { tool_call_id, content: self.content, is_error: true }
    }
}

/// The kind of a JSON value in words.
pub open spec fn kind_name(j: JsonView) -> Seq<char> {
    match j {
        JsonView::Null => "null"@,
        JsonView::Bool(_) => "boolean"@,
        JsonView::Number(_) => "number"@,
        JsonView::Str(_) => "string"@,
        JsonView::Array(_) => "array"@,
        JsonView::Object(_) => "object"@,
    }
}

/// The kind of a JSON value in words.
pub fn json_value_type_name(value: &Json) -> (name: &'static str)
    ensures
        name@ == kind_name(value@),
{
    match value {
        Json::Null => "null",
        Json::Bool(_) => "boolean",
        Json::Number(_) => "number",
        Json::Str(_) => "string",
        Json::Array(_) => "array",
        Json::Object(_) => "object",
    }
}

/// What the message about bad arguments begins with.
pub open spec fn bad_arguments(tool: Seq<char>) -> Seq<char> {
    "Invalid tool arguments JSON for '"@ + tool + "': "@
}

/// The arguments of a tool, which must be an object.
pub open spec fn arguments_of(tool: Seq<char>, parsed: Result<JsonView, Seq<char>>) -> Result<
    JsonView,
    Seq<char>,
> {
    match parsed {
        Err(e) => Err(bad_arguments(tool) + e),
        Ok(j) => if j is Object {
            Ok(j)
        } else {
            Err(bad_arguments(tool) + "expected a JSON object, got "@ + kind_name(j))
        },
    }
}

/// The values of an object by name. Of members with one name the last one counts.
pub open spec fn member_map(members: Seq<(Seq<char>, JsonView)>) -> Map<Seq<char>, JsonView>
    decreases members.len(),
{
    if members.len() == 0 {
        Map::empty()
    } else {
        member_map(members.drop_last()).insert(members.last().0, members.last().1)
    }
}

/// What a map of JSON values says.
pub open spec fn json_map(m: Map<Seq<char>, Json>) -> Map<Seq<char>, JsonView> {
    m.map_values(|j: Json| j@)
}

/// What the caller does with a tool call.
#[derive(Debug)]
pub enum ToolDispatch {
    /// Nothing: this is the result.
    Blocked(ToolResult),
    /// Runs the tool, within the session if there is one, and consults the permissions
    /// first if they are not settled yet.
    Run { check_permissions: bool },
}

/// What is to be known of one local tool execution.
pub struct ToolExecutorRequest<'a> {
    /// Tool call to execute.
    pub tool_call: &'a ToolCall,
    /// An outer prompt already made the permission decision.
    pub permission_already_checked: bool,
    /// Session the call belongs to.
    pub session_id: Option<&'a str>,
    /// Policy enforcer. With a session, the tool cap is checked and counted.
    pub policy_enforcer: Option<&'a mut PolicyEnforcer>,
}

/// Why the policy blocks a request.
pub open spec fn policy_block(
    enforcer: Option<policy::EnforcerView>,
    session: Option<Seq<char>>,
    call: ToolCall,
) -> Option<ToolResultView> {
    match policy::gate_refusal(enforcer, session, call.function.name@) {
        Some(e) => Some(
            ToolResultView {
                tool_call_id: call.id@,
                content: "Blocked by policy: "@ + policy::policy_error_text(e),
                is_error: true,
            },
        ),
        None => None,
    }
}

/// Shared local tool executor.
pub struct ToolExecutor;

impl ToolExecutor {
    /// The arguments of a tool, given what parsing their text came to.
    pub fn checked_arguments(tool_name: &str, parsed: Result<Json, String>) -> (r: Result<
        Json,
        String,
    >)
        ensures
            json::parse_view(r) == arguments_of(tool_name@, json::parse_view(parsed)),
    {
        let mut message = "Invalid tool arguments JSON for '".to_owned();
        message.append(tool_name);
        message.append("': ");
        match parsed {
            Err(e) => {
                message.append(e.as_str());
                Err(message)
            },
            Ok(value) => {
                if let Json::Object(_) = &value {
                    return Ok(value);
                }
                message.append("expected a JSON object, got ");
                message.append(json_value_type_name(&value));
                Err(message)
            },
        }
    }

    /// Parses tool arguments as a JSON object.
    pub fn parse_arguments(tool_name: &str, arguments: &str) -> (r: Result<Json, String>)
        ensures
            json::parse_view(r) == arguments_of(tool_name@, json::parsed(arguments@)),
    {
        Self::checked_arguments(tool_name, json::parse(arguments))
    }

    /// The values of an object by name.
    pub fn argument_map(value: &Json) -> (args: StringMap<Json>)
        requires
            value is Object,
        ensures
            json_map(args@) == member_map(value@->Object_0),
    {
        let mut args: StringMap<Json> = StringMap::new();
        assert(json_map(args@) =~= Map::<Seq<char>, JsonView>::empty());
        if let Json::Object(members) = value {
            let ghost views = json::members_view(members@);
            proof {
                json::lemma_members_view(members@);
                assert(views.take(0) =~= seq![]);
            }
            let mut i: usize = 0;
            while i < members.len()
                invariant
                    0 <= i <= members@.len(),
                    views == json::members_view(members@),
                    views.len() == members@.len(),
                    forall|j: int|
                        0 <= j < members@.len() ==> #[trigger] views[j] == (
                            members@[j].0@,
                            json::value_view(members@[j].1),
                        ),
                    json_map(args@) == member_map(views.take(i as int)),
                decreases members@.len() - i,
            {
                let ghost before = args@;
                let copied = members[i].1.copy();
                args.insert(members[i].0.clone(), copied);
                proof {
                    assert(views[i as int] == (
                        members@[i as int].0@,
                        json::value_view(members@[i as int].1),
                    ));
                    assert(views.take(i + 1).drop_last() =~= views.take(i as int));
                    assert(json_map(args@) =~= json_map(before).insert(
                        members@[i as int].0@,
                        copied@,
                    ));
                }
                i += 1;
            }
            assert(views.take(i as int) =~= views);
        }
        args
    }

    /// Parses tool arguments as a map and as the object itself.
    pub fn parse_arguments_map(tool_name: &str, arguments: &str) -> (r: Result<
        (StringMap<Json>, Json),
        String,
    >)
        ensures
            match (r, arguments_of(tool_name@, json::parsed(arguments@))) {
                (Ok((args, value)), Ok(j)) => value@ == j && json_map(args@) == member_map(
                    j->Object_0,
                ),
                (Err(e), Err(text)) => e@ == text,
                _ => false,
            },
    {
        match Self::parse_arguments(tool_name, arguments) {
            Ok(value) => {
                let args = Self::argument_map(&value);
                Ok((args, value))
            },
            Err(e) => Err(e),
        }
    }

    /// Checks the policy before a gate that the user sees, such as a permission prompt.
    /// Nothing is counted: [`ToolExecutor::execute`] does that.
    pub fn check_policy_before_prompt(
        policy_enforcer: Option<&PolicyEnforcer>,
        session_id: Option<&str>,
        tool_name: &str,
    ) -> (r: Result<(), PolicyError>)
        ensures
            policy::checked(
                policy::gate_refusal(
                    (match policy_enforcer {
                        Some(e) => Some(e@),
                        None => None,
                    }),
                    json::str_view(session_id),
                    tool_name@,
                ),
                r,
            ),
    {
        match (policy_enforcer, session_id) {
            (Some(enforcer), Some(session_id)) => enforcer.check_tool(session_id, tool_name),
            _ => Ok(()),
        }
    }

    /// What a hook's answer before a tool means: a reason blocks the tool.
    pub fn run_pre_tool_use(tool_name: &str, reason: Option<&str>) -> (r: Result<
        (),
        ToolExecutionBlock,
    >)
        ensures
            match (reason, r) {
                (None, Ok(_)) => true,
                (Some(reason), Err(block)) => block.content@ == "Tool '"@ + tool_name@
                    + "' blocked by PreToolUse hook: "@ + reason@,
                _ => false,
            },
    {
        match reason {
            None => Ok(()),
            Some(reason) => {
                let mut content = "Tool '".to_owned();
                content.append(tool_name);
                content.append("' blocked by PreToolUse hook: ");
                content.append(reason);
                Err(ToolExecutionBlock { content })
            },
        }
    }

    /// Decides on a local tool call. A call that the policy allows is counted.
    pub fn execute(request: ToolExecutorRequest<'_>) -> (step: ToolDispatch)
        requires
            request.policy_enforcer matches Some(e) ==> request.session_id matches Some(session)
                ==> policy::tool_refusal((*e)@, session@, request.tool_call.function.name@) is None
                ==> ((*e)@.counts)(session@, request.tool_call.function.name@) < usize::MAX,
        ensures
            match (
                policy_block(
                    (match request.policy_enforcer {
                        Some(e) => Some((*e)@),
                        None => None,
                    }),
                    json::str_view(request.session_id),
                    *request.tool_call,
                ),
                step,
            ) {
                (Some(block), ToolDispatch::Blocked(r)) => r@ == block,
                (None, ToolDispatch::Run { check_permissions }) => check_permissions
                    == !request.permission_already_checked,
                _ => false,
            },
            request.policy_enforcer matches Some(e) ==> (*final(e))@ == (match (
                request.session_id,
                step,
            ) {
                (Some(session), ToolDispatch::Run { check_permissions }) => policy::EnforcerView {
                    counts: policy::bumped(
                        (*e)@.counts,
                        session@,
                        request.tool_call.function.name@,
                    ),
                    ..(*e)@
                },
                _ => (*e)@,
            }),
    {
        let mut gate = ToolExecutionPolicy::new(request.policy_enforcer, request.session_id);
        match gate.check_and_record_tool(request.tool_call.function.name.as_str()) {
            Err(e) => {
                let mut content = "Blocked by policy: ".to_owned();
                content.append(e.message().as_str());
                ToolDispatch::Blocked(
                    ToolResult {
                        tool_call_id: request.tool_call.id.clone(),
                        content,
                        is_error: true,
                    },
                )
            },
            Ok(_) => ToolDispatch::Run { check_permissions: !request.permission_already_checked },
        }
    }
}

/// Arguments are an object and nothing else; the error names the tool and says what is wrong.
pub proof fn arguments_are_objects(
    tool: Seq<char>,
    members: Seq<(Seq<char>, JsonView)>,
    other: JsonView,
    error: Seq<char>,
)
    requires
        !(other is Object),
    ensures
        arguments_of(tool, Ok(JsonView::Object(members))) == Ok::<JsonView, Seq<char>>(
            JsonView::Object(members),
        ),
        arguments_of(tool, Ok(other)) matches Err(told) && crate::scan::occurs(told, tool)
            && kind_name(other).is_suffix_of(told),
        arguments_of(tool, Err(error)) matches Err(told) && crate::scan::occurs(told, tool)
            && error.is_suffix_of(told),
{
    let head = "Invalid tool arguments JSON for '"@;
    let rest = "': "@ + "expected a JSON object, got "@ + kind_name(other);
    let a = bad_arguments(tool) + "expected a JSON object, got "@ + kind_name(other);
    assert(a =~= head + tool + rest);
    crate::scan::lemma_part_occurs(head, tool, rest);
    assert(a.subrange(a.len() - kind_name(other).len(), a.len() as int) =~= kind_name(other));
    let b = bad_arguments(tool) + error;
    assert(b =~= head + tool + ("': "@ + error));
    crate::scan::lemma_part_occurs(head, tool, "': "@ + error);
    assert(b.subrange(b.len() - error.len(), b.len() as int) =~= error);
}

/// Every argument is in the map under its name; of one name the last counts, and nothing is in
/// the map that is not among the arguments.
pub proof fn every_argument_is_in_the_map(members: Seq<(Seq<char>, JsonView)>, i: int, key: Seq<char>)
    ensures
        0 <= i < members.len() && (forall|j: int|
            i < j < members.len() ==> (#[trigger] members[j]).0 != members[i].0) ==> member_map(
            members,
        ).dom().contains(members[i].0) && member_map(members)[members[i].0] == members[i].1,
        member_map(members).dom().contains(key) <==> exists|j: int|
            0 <= j < members.len() && (#[trigger] members[j]).0 == key,
    decreases members.len(),
{
    if members.len() > 0 {
        let rest = members.drop_last();
        every_argument_is_in_the_map(rest, i, key);
        if 0 <= i < rest.len() && forall|j: int|
            i < j < members.len() ==> (#[trigger] members[j]).0 != members[i].0 {
            assert(members[members.len() - 1].0 != members[i].0);
            assert forall|j: int| i < j < rest.len() implies (#[trigger] rest[j]).0
                != rest[i].0 by {
                assert(rest[j] == members[j]);
            }
            assert(rest[i] == members[i]);
        }
        if exists|j: int| 0 <= j < rest.len() && (#[trigger] rest[j]).0 == key {
            let j = choose|j: int| 0 <= j < rest.len() && (#[trigger] rest[j]).0 == key;
            assert(members[j].0 == key);
        }
        if exists|j: int| 0 <= j < members.len() && (#[trigger] members[j]).0 == key {
            let j = choose|j: int| 0 <= j < members.len() && (#[trigger] members[j]).0 == key;
            if j < rest.len() {
                assert(rest[j].0 == key);
            }
        }
    }
}

/// A call that the policy refuses is answered with an error that belongs to the call and tells
/// the refusal; any other call is not answered by the policy.
pub proof fn refused_calls_are_answered(
    e: policy::EnforcerView,
    session: Seq<char>,
    call: ToolCall,
)
    ensures
        match (
            policy::tool_refusal(e, session, call.function.name@),
            policy_block(Some(e), Some(session), call),
        ) {
            (Some(refusal), Some(answer)) => answer.tool_call_id == call.id@ && answer.is_error
                && policy::policy_error_text(refusal).is_suffix_of(answer.content),
            (None, None) => true,
            _ => false,
        },
{
    if let Some(refusal) = policy::tool_refusal(e, session, call.function.name@) {
        let told = policy::policy_error_text(refusal);
        let all = "Blocked by policy: "@ + told;
        assert(all.subrange(all.len() - told.len(), all.len() as int) =~= told);
    }
}

} // verus!
