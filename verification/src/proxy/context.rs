//! What is put into a request before it is sent: the outcome of hooks, rules, tools,
//! commands, the context of the session and an advisory of the last review.
//!
//! A [`Preparation`] says what is to be done next. The caller does it and comes back with
//! the answer.

use vstd::prelude::*;

use crate::json;
use crate::json::{Json, JsonView};
use crate::proxy::errors::{ErrorView, ProxyError};
use crate::proxy::extensions;
use crate::proxy::message::{self, ChatMessage, NamedCall, NamedCallView};
use crate::text;

verus! {

/// A command of a plugin.
#[derive(Debug)]
pub struct PluginCommand {
    pub plugin: String,
    pub command: String,
}

/// What a plugin's command says.
pub struct CommandView {
    pub plugin: Seq<char>,
    pub command: Seq<char>,
}

impl View for PluginCommand {
    type V = CommandView;

    open spec fn view(&self) -> CommandView {
        CommandView { plugin: self.plugin@, command: self.command@ }
    }
}

/// What a list of commands says.
pub open spec fn command_views(list: Seq<PluginCommand>) -> Seq<CommandView> {
    Seq::new(list.len(), |i: int| list[i]@)
}

/// How a command is announced.
pub open spec fn command_text(c: CommandView) -> Seq<char> {
    "/"@ + c.plugin + ":"@ + c.command + " (from "@ + c.plugin + ")"@
}

/// How commands are announced.
pub open spec fn commands_text(list: Seq<CommandView>) -> Seq<char> {
    "Available plugin commands: "@ + text::joined(
        Seq::new(list.len(), |i: int| command_text(list[i])),
        ", "@,
    )
}

/// How commands are announced.
pub fn commands_context(list: &Vec<PluginCommand>) -> (out: String)
    ensures
        out@ == commands_text(command_views(list@)),
{
    let ghost v = command_views(list@);
    let ghost all = Seq::new(v.len(), |i: int| command_text(v[i]));
    let mut lines: Vec<String> = Vec::new();
    let mut i: usize = 0;
    while i < list.len()
        invariant
            0 <= i <= list@.len(),
            v == command_views(list@),
            all == Seq::new(v.len(), |i: int| command_text(v[i])),
            text::views(lines@) =~= all.take(i as int),
        decreases list@.len() - i,
    {
        let mut line = "/".to_owned();
        line.append(list[i].plugin.as_str());
        line.append(":");
        line.append(list[i].command.as_str());
        line.append(" (from ");
        line.append(list[i].plugin.as_str());
        line.append(")");
        assert(line@ == command_text(v[i as int]));
        let ghost before = text::views(lines@);
        lines.push(line);
        assert(text::views(lines@) =~= before.push(line@));
        i += 1;
    }
    assert(all.take(i as int) =~= all);
    let mut out = "Available plugin commands: ".to_owned();
    out.append(text::join(&lines, ", ").as_str());
    out
}

/// What the hook on a prompt said.
#[derive(Debug)]
pub struct HookReply {
    pub allowed: bool,
    /// The reason in its first output.
    pub reason: Option<String>,
}

/// What the hook on a tool call said.
#[derive(Debug)]
pub enum ToolVerdict {
    Allowed,
    /// Blocked, for this reason.
    Blocked(String),
    /// The hook failed in a way that blocks.
    Failed,
}

/// What is to be done.
#[derive(Debug)]
pub enum ContextAction {
    /// Run the hook on the prompt.
    RunPromptHook(String),
    /// Rewrite the prompt as the hook says, and put its output into the request.
    ApplyHook,
    /// Put together the rules for files with these extensions.
    CombineRules(Vec<String>),
    /// Put a text at the start of the system prompt.
    InjectPrefix(String),
    /// List the tools of the connected servers.
    ListTools,
    /// Put tools into the request, behind those it has.
    AddTools(Vec<Json>),
    /// List the commands of the plugins.
    ListCommands,
    /// Put a text at the end of the system prompt.
    InjectSuffix(String),
    /// Read the context of the session.
    ReadSession,
    /// Put the context of the session into the request.
    InjectContext(String),
    /// Take the advisory that the last review left.
    TakeAdvisory,
    /// Come back with the request as it is now.
    LookAtCalls,
    /// Run the hook on a tool call.
    RunToolHook(NamedCall),
    /// Send the request.
    Finish,
}

/// What an action says.
pub enum ActionView {
    RunPromptHook(Seq<char>),
    ApplyHook,
    CombineRules(Seq<Seq<char>>),
    InjectPrefix(Seq<char>),
    ListTools,
    AddTools(Seq<JsonView>),
    ListCommands,
    InjectSuffix(Seq<char>),
    ReadSession,
    InjectContext(Seq<char>),
    TakeAdvisory,
    LookAtCalls,
    RunToolHook(NamedCallView),
    Finish,
}

impl View for ContextAction {
    type V = ActionView;

    open spec fn view(&self) -> ActionView {
        match self {
            ContextAction::RunPromptHook(s) => ActionView::RunPromptHook(s@),
            ContextAction::ApplyHook => ActionView::ApplyHook,
            ContextAction::CombineRules(list) => ActionView::CombineRules(text::views(list@)),
            ContextAction::InjectPrefix(s) => ActionView::InjectPrefix(s@),
            ContextAction::ListTools => ActionView::ListTools,
            ContextAction::AddTools(tools) => ActionView::AddTools(json::items_view(tools@)),
            ContextAction::ListCommands => ActionView::ListCommands,
            ContextAction::InjectSuffix(s) => ActionView::InjectSuffix(s@),
            ContextAction::ReadSession => ActionView::ReadSession,
            ContextAction::InjectContext(s) => ActionView::InjectContext(s@),
            ContextAction::TakeAdvisory => ActionView::TakeAdvisory,
            ContextAction::LookAtCalls => ActionView::LookAtCalls,
            ContextAction::RunToolHook(call) => ActionView::RunToolHook(call@),
            ContextAction::Finish => ActionView::Finish,
        }
    }
}

/// What a list of actions says.
pub open spec fn action_views(list: Seq<ContextAction>) -> Seq<ActionView> {
    Seq::new(list.len(), |i: int| list[i]@)
}

/// What came of the last thing that was to be done.
#[derive(Debug)]
pub enum ContextAnswer {
    /// It is done, or there was nothing to do.
    Done,
    PromptHook(HookReply),
    Rules(String),
    Tools(Vec<Json>),
    Commands(Vec<PluginCommand>),
    Session(Option<String>),
    Advisory(Option<String>),
    ToolHook(ToolVerdict),
}

/// What a preparation waits for.
#[derive(Debug)]
enum Phase {
    Start,
    PromptHook,
    Applied,
    Rules,
    Tools,
    Commands,
    Session,
    Advisory,
    Calls,
    ToolHook { calls: Vec<NamedCall>, at: usize },
    Finished,
}

/// What a preparation waits for. Under a hook on a tool call: the calls, and which one it
/// is.
pub enum PhaseView {
    Start,
    PromptHook,
    Applied,
    Rules,
    Tools,
    Commands,
    Session,
    Advisory,
    Calls,
    ToolHook { calls: Seq<NamedCallView>, at: int },
    Finished,
}

/// The answer is one to what the preparation waits for.
pub open spec fn answers(phase: PhaseView, answer: ContextAnswer) -> bool {
    match phase {
        PhaseView::Start => answer is Done,
        PhaseView::PromptHook => answer is PromptHook,
        PhaseView::Applied => answer is Done,
        PhaseView::Rules => answer is Rules,
        PhaseView::Tools => answer is Tools,
        PhaseView::Commands => answer is Commands,
        PhaseView::Session => answer is Session,
        PhaseView::Advisory => answer is Advisory,
        PhaseView::Calls => answer is Done,
        PhaseView::ToolHook { .. } => answer is ToolHook,
        PhaseView::Finished => false,
    }
}

/// What is done next, and what is waited for then.
pub struct Step {
    pub phase: PhaseView,
    pub actions: Seq<ActionView>,
}

/// One thing to do.
pub open spec fn one(a: ActionView) -> Seq<ActionView> {
    Seq::<ActionView>::empty().push(a)
}

/// A text is put in, if there is any, and then something is done.
pub open spec fn put_first(put: bool, a: ActionView, b: ActionView) -> Seq<ActionView> {
    if put {
        one(a).push(b)
    } else {
        one(b)
    }
}

/// The reason why a prompt is blocked.
pub open spec fn prompt_refusal(reply: HookReply) -> Option<ErrorView> {
    if reply.allowed {
        None
    } else {
        Some(
            ErrorView::HookBlocked(
                match reply.reason {
                    Some(reason) => reason@,
                    None => "Request blocked by hook"@,
                },
            ),
        )
    }
}

/// The reason why a tool call is blocked.
pub open spec fn call_refusal(name: Seq<char>, verdict: ToolVerdict) -> Option<ErrorView> {
    match verdict {
        ToolVerdict::Allowed => None,
        ToolVerdict::Blocked(reason) => Some(
            ErrorView::HookBlocked("Tool '"@ + name + "' blocked: "@ + reason@),
        ),
        ToolVerdict::Failed => Some(
            ErrorView::HookBlocked("Tool '"@ + name + "' blocked: "@ + "PreToolUse hook blocked"@),
        ),
    }
}

/// The extensions of the files that messages mention.
pub open spec fn mentioned(messages: Seq<ChatMessage>) -> Seq<Seq<char>> {
    if extensions::compiles(extensions::EXTENSION_PATTERN_SOURCE@) {
        extensions::extensions_in(extensions::EXTENSION_PATTERN_SOURCE@, messages)
    } else {
        Seq::empty()
    }
}

/// The hook on the call at `at` is run, or the request is sent where there is none.
pub open spec fn call_step(calls: Seq<NamedCallView>, at: int) -> Step {
    if at < calls.len() {
        Step {
            phase: PhaseView::ToolHook { calls, at },
            actions: one(ActionView::RunToolHook(calls[at])),
        }
    } else {
        Step { phase: PhaseView::Finished, actions: one(ActionView::Finish) }
    }
}

/// The step that follows an answer: the prompt's hook, its outcome, rules for the files that
/// are mentioned, tools, commands, the session's context, the advisory, and the hooks on the
/// tool calls. A hook that blocks ends it.
pub open spec fn next_step(
    phase: PhaseView,
    answer: ContextAnswer,
    messages: Seq<ChatMessage>,
) -> Result<Step, ErrorView> {
    match (phase, answer) {
        (PhaseView::Start, _) => Ok(
            Step {
                phase: PhaseView::PromptHook,
                actions: one(
                    ActionView::RunPromptHook(message::last_said(messages, messages.len() as int)),
                ),
            },
        ),
        (PhaseView::PromptHook, ContextAnswer::PromptHook(reply)) => match prompt_refusal(reply) {
            Some(e) => Err(e),
            None => Ok(Step { phase: PhaseView::Applied, actions: one(ActionView::ApplyHook) }),
        },
        (PhaseView::Applied, _) => if mentioned(messages).len() == 0 {
            Ok(Step { phase: PhaseView::Tools, actions: one(ActionView::ListTools) })
        } else {
            Ok(
                Step {
                    phase: PhaseView::Rules,
                    actions: one(ActionView::CombineRules(mentioned(messages))),
                },
            )
        },
        (PhaseView::Rules, ContextAnswer::Rules(rules)) => Ok(
            Step {
                phase: PhaseView::Tools,
                actions: put_first(
                    rules@.len() > 0,
                    ActionView::InjectPrefix(rules@),
                    ActionView::ListTools,
                ),
            },
        ),
        (PhaseView::Tools, ContextAnswer::Tools(tools)) => Ok(
            Step {
                phase: PhaseView::Commands,
                actions: put_first(
                    tools@.len() > 0,
                    ActionView::AddTools(json::items_view(tools@)),
                    ActionView::ListCommands,
                ),
            },
        ),
        (PhaseView::Commands, ContextAnswer::Commands(list)) => Ok(
            Step {
                phase: PhaseView::Session,
                actions: put_first(
                    list@.len() > 0,
                    ActionView::InjectSuffix(commands_text(command_views(list@))),
                    ActionView::ReadSession,
                ),
            },
        ),
        (PhaseView::Session, ContextAnswer::Session(context)) => Ok(
            Step {
                phase: PhaseView::Advisory,
                actions: put_first(
                    context is Some,
                    ActionView::InjectContext(context->0@),
                    ActionView::TakeAdvisory,
                ),
            },
        ),
        (PhaseView::Advisory, ContextAnswer::Advisory(advisory)) => Ok(
            Step {
                phase: PhaseView::Calls,
                actions: put_first(
                    advisory is Some && advisory->0@.len() > 0,
                    ActionView::InjectSuffix(advisory->0@),
                    ActionView::LookAtCalls,
                ),
            },
        ),
        (PhaseView::Calls, _) => Ok(
            call_step(message::calls_in(messages, messages.len() as int), 0),
        ),
        (
            PhaseView::ToolHook { calls, at },
            ContextAnswer::ToolHook(verdict),
        ) => match call_refusal(calls[at].name, verdict) {
            Some(e) => Err(e),
            None => Ok(call_step(calls, at + 1)),
        },
        _ => Ok(Step { phase: PhaseView::Finished, actions: Seq::empty() }),
    }
}

/// The preparation of a request.
#[derive(Debug)]
pub struct Preparation {
    phase: Phase,
}

impl View for Preparation {
    type V = PhaseView;

    closed spec fn view(&self) -> PhaseView {
        match self.phase {
            Phase::Start => PhaseView::Start,
            Phase::PromptHook => PhaseView::PromptHook,
            Phase::Applied => PhaseView::Applied,
            Phase::Rules => PhaseView::Rules,
            Phase::Tools => PhaseView::Tools,
            Phase::Commands => PhaseView::Commands,
            Phase::Session => PhaseView::Session,
            Phase::Advisory => PhaseView::Advisory,
            Phase::Calls => PhaseView::Calls,
            Phase::ToolHook { calls, at } => PhaseView::ToolHook {
                calls: message::call_views(calls@),
                at: at as int,
            },
            Phase::Finished => PhaseView::Finished,
        }
    }
}

fn only(a: ContextAction) -> (list: Vec<ContextAction>)
    ensures
        action_views(list@) == one(a@),
{
    let mut list: Vec<ContextAction> = Vec::new();
    list.push(a);
    assert(action_views(list@) =~= one(a@));
    list
}

fn both(a: ContextAction, b: ContextAction) -> (list: Vec<ContextAction>)
    ensures
        action_views(list@) == one(a@).push(b@),
{
    let mut list = only(a);
    let ghost before = action_views(list@);
    list.push(b);
    assert(action_views(list@) =~= before.push(b@));
    list
}

/// The error of a prompt that a hook blocked.
fn refuse_prompt(reply: &HookReply) -> (e: Option<ProxyError>)
    ensures
        match e {
            Some(e) => prompt_refusal(*reply) == Some(e@),
            None => prompt_refusal(*reply) is None,
        },
{
    if reply.allowed {
        return None;
    }
    match &reply.reason {
        Some(reason) => Some(ProxyError::HookBlocked(reason.clone())),
        None => Some(ProxyError::HookBlocked("Request blocked by hook".to_owned())),
    }
}

/// The error of a tool call that a hook blocked.
fn refuse_call(name: &str, verdict: &ToolVerdict) -> (e: Option<ProxyError>)
    ensures
        match e {
            Some(e) => call_refusal(name@, *verdict) == Some(e@),
            None => call_refusal(name@, *verdict) is None,
        },
{
    let mut message = "Tool '".to_owned();
    message.append(name);
    message.append("' blocked: ");
    match verdict {
        ToolVerdict::Allowed => None,
        ToolVerdict::Blocked(reason) => {
            message.append(reason.as_str());
            Some(ProxyError::HookBlocked(message))
        },
        ToolVerdict::Failed => {
            message.append("PreToolUse hook blocked");
            Some(ProxyError::HookBlocked(message))
        },
    }
}

/// A phase and the actions that lead to it.
fn start_call(calls: Vec<NamedCall>, at: usize) -> (r: (Phase, Vec<ContextAction>))
    requires
        at <= calls@.len(),
    ensures
        ({
            let step = call_step(message::call_views(calls@), at as int);
            &&& (Preparation { phase: r.0 })@ == step.phase
            &&& action_views(r.1@) == step.actions
            &&& r.0 matches Phase::ToolHook { calls: c, at: i } ==> i < c@.len()
        }),
{
    if at < calls.len() {
        let call = NamedCall {
            name: calls[at].name.clone(),
            arguments: calls[at].arguments.copy(),
        };
        assert(call@ == message::call_views(calls@)[at as int]);
        (Phase::ToolHook { calls, at }, only(ContextAction::RunToolHook(call)))
    } else {
        (Phase::Finished, only(ContextAction::Finish))
    }
}

impl Preparation {
    #[verifier::type_invariant]
    spec fn calls_are_counted(self) -> bool {
        self.phase matches Phase::ToolHook { calls, at } ==> at < calls@.len()
    }

    /// A preparation that has not begun.
    pub fn new() -> (p: Preparation)
        ensures
            p@ == PhaseView::Start,
    {
        Preparation { phase: Phase::Start }
    }

    /// What is to be done next, given what came of the last thing and the messages of the
    /// request as they are now. An error ends the preparation.
    pub fn next(&mut self, answer: ContextAnswer, messages: &Vec<ChatMessage>) -> (r: Result<
        Vec<ContextAction>,
        ProxyError,
    >)
        requires
            answers(old(self)@, answer),
        ensures
            match (next_step(old(self)@, answer, messages@), r) {
                (Ok(step), Ok(actions)) => final(self)@ == step.phase && action_views(actions@)
                    == step.actions,
                (Err(text), Err(e)) => final(self)@ == PhaseView::Finished && e@ == text,
                _ => false,
            },
    {
        proof {
            use_type_invariant(&*self);
        }
        let mut phase = Phase::Finished;
        std::mem::swap(&mut phase, &mut self.phase);
        match (phase, answer) {
            (Phase::Start, _) => {
                self.phase = Phase::PromptHook;
                Ok(only(ContextAction::RunPromptHook(message::last_user_prompt(messages))))
            },
            (Phase::PromptHook, ContextAnswer::PromptHook(reply)) => match refuse_prompt(&reply) {
                Some(e) => Err(e),
                None => {
                    self.phase = Phase::Applied;
                    Ok(only(ContextAction::ApplyHook))
                },
            },
            (Phase::Applied, _) => {
                let list = extensions::extract_extensions_from_messages(messages);
                assert(text::views(list@) == mentioned(messages@));
                if list.len() == 0 {
                    self.phase = Phase::Tools;
                    Ok(only(ContextAction::ListTools))
                } else {
                    self.phase = Phase::Rules;
                    Ok(only(ContextAction::CombineRules(list)))
                }
            },
            (Phase::Rules, ContextAnswer::Rules(rules)) => {
                self.phase = Phase::Tools;
                if text::str_eq(rules.as_str(), "") {
                    proof {
                        reveal_strlit("");
                    }
                    Ok(only(ContextAction::ListTools))
                } else {
                    proof {
                        reveal_strlit("");
                        assert(rules@.len() == 0 ==> rules@ =~= ""@);
                    }
                    Ok(both(ContextAction::InjectPrefix(rules), ContextAction::ListTools))
                }
            },
            (Phase::Tools, ContextAnswer::Tools(tools)) => {
                self.phase = Phase::Commands;
                if tools.len() == 0 {
                    Ok(only(ContextAction::ListCommands))
                } else {
                    Ok(both(ContextAction::AddTools(tools), ContextAction::ListCommands))
                }
            },
            (Phase::Commands, ContextAnswer::Commands(list)) => {
                self.phase = Phase::Session;
                if list.len() == 0 {
                    Ok(only(ContextAction::ReadSession))
                } else {
                    Ok(
                        both(
                            ContextAction::InjectSuffix(commands_context(&list)),
                            ContextAction::ReadSession,
                        ),
                    )
                }
            },
            (Phase::Session, ContextAnswer::Session(context)) => {
                self.phase = Phase::Advisory;
                match context {
                    Some(context) => Ok(
                        both(ContextAction::InjectContext(context), ContextAction::TakeAdvisory),
                    ),
                    None => Ok(only(ContextAction::TakeAdvisory)),
                }
            },
            (Phase::Advisory, ContextAnswer::Advisory(advisory)) => {
                self.phase = Phase::Calls;
                proof {
                    reveal_strlit("");
                }
                match advisory {
                    Some(advisory) => if text::str_eq(advisory.as_str(), "") {
                        Ok(only(ContextAction::LookAtCalls))
                    } else {
                        assert(advisory@.len() == 0 ==> advisory@ =~= ""@);
                        Ok(both(ContextAction::InjectSuffix(advisory), ContextAction::LookAtCalls))
                    },
                    None => Ok(only(ContextAction::LookAtCalls)),
                }
            },
            (Phase::Calls, _) => {
                let calls = message::tool_calls_of(messages);
                let (phase, actions) = start_call(calls, 0);
                self.phase = phase;
                Ok(actions)
            },
            (Phase::ToolHook { calls, at }, ContextAnswer::ToolHook(verdict)) => {
                assert(message::call_views(calls@)[at as int].name == calls@[at as int].name@);
                match refuse_call(calls[at].name.as_str(), &verdict) {
                    Some(e) => Err(e),
                    None => {
                        let n: usize = calls.len();
                        assert(at < n);
                        let (phase, actions) = start_call(calls, at + 1);
                        self.phase = phase;
                        Ok(actions)
                    },
                }
            },
            _ => Ok(Vec::new()),
        }
    }
}

/// How far a preparation has come.
pub open spec fn progress(phase: PhaseView) -> int {
    match phase {
        PhaseView::Start => 0,
        PhaseView::PromptHook => 1,
        PhaseView::Applied => 2,
        PhaseView::Rules => 3,
        PhaseView::Tools => 4,
        PhaseView::Commands => 5,
        PhaseView::Session => 6,
        PhaseView::Advisory => 7,
        PhaseView::Calls => 8,
        PhaseView::ToolHook { .. } => 9,
        PhaseView::Finished => 10,
    }
}

/// The calls whose hooks are still to be run.
pub open spec fn calls_left(phase: PhaseView) -> int {
    match phase {
        PhaseView::ToolHook { calls, at } => calls.len() - at,
        _ => 0,
    }
}

/// A preparation goes forward with every answer: it gets to a later phase, or on to the next
/// of the tool calls. So it ends.
pub proof fn preparation_goes_forward(
    phase: PhaseView,
    answer: ContextAnswer,
    messages: Seq<ChatMessage>,
)
    requires
        answers(phase, answer),
        calls_left(phase) >= 0,
    ensures
        next_step(phase, answer, messages) matches Ok(step) ==> progress(step.phase) > progress(
            phase,
        ) || (progress(step.phase) == progress(phase) && 0 <= calls_left(step.phase) < calls_left(
            phase,
        )),
{
}

/// A request is sent only once the hooks allowed its prompt and every tool call in it.
pub proof fn blocked_requests_are_not_sent(
    phase: PhaseView,
    answer: ContextAnswer,
    messages: Seq<ChatMessage>,
)
    requires
        answers(phase, answer),
        next_step(phase, answer, messages) matches Ok(step) && step.actions.contains(
            ActionView::Finish,
        ),
    ensures
        match (phase, answer) {
            (PhaseView::Calls, _) => message::calls_in(messages, messages.len() as int).len() == 0,
            (PhaseView::ToolHook { calls, at }, ContextAnswer::ToolHook(verdict)) => verdict
                is Allowed && at + 1 >= calls.len(),
            _ => false,
        },
{
    let step = next_step(phase, answer, messages)->Ok_0;
    let i = choose|i: int| 0 <= i < step.actions.len() && step.actions[i] == ActionView::Finish;
    assert(step.actions[i] == ActionView::Finish);
    assert(step.actions.len() <= 2);
    assert(i == 0 || i == 1);
}

/// The step after `k` hooks on the calls in the messages have allowed theirs.
pub open spec fn after_allowed(messages: Seq<ChatMessage>, k: nat) -> Result<Step, ErrorView>
    decreases k,
{
    if k == 0 {
        next_step(PhaseView::Calls, ContextAnswer::Done, messages)
    } else {
        match after_allowed(messages, (k - 1) as nat) {
            Ok(step) => next_step(
                step.phase,
                ContextAnswer::ToolHook(ToolVerdict::Allowed),
                messages,
            ),
            Err(e) => Err(e),
        }
    }
}

/// The hook runs on every call in the messages, one after the other in their order, and the
/// request is sent once the last of them is allowed, not sooner.
pub proof fn hooks_run_on_every_call(messages: Seq<ChatMessage>, k: nat)
    requires
        k <= message::all_calls(messages).len(),
    ensures
        after_allowed(messages, k) matches Ok(step) && (if k < message::all_calls(messages).len() {
            step.actions == seq![ActionView::RunToolHook(message::all_calls(messages)[k as int])]
                && step.phase == (PhaseView::ToolHook {
                calls: message::all_calls(messages),
                at: k as int,
            })
        } else {
            step.actions == seq![ActionView::Finish] && step.phase == PhaseView::Finished
        }),
    decreases k,
{
    if k > 0 {
        hooks_run_on_every_call(messages, (k - 1) as nat);
    }
    let calls = message::all_calls(messages);
    assert(call_step(calls, k as int).actions =~= (if k < calls.len() {
        seq![ActionView::RunToolHook(calls[k as int])]
    } else {
        seq![ActionView::Finish]
    }));
}

/// A hook that blocks a call ends the preparation, whichever call it is, and the error names
/// the tool and tells the reason.
pub proof fn a_blocked_call_ends_the_preparation(
    calls: Seq<NamedCallView>,
    at: int,
    verdict: ToolVerdict,
    messages: Seq<ChatMessage>,
)
    requires
        0 <= at < calls.len(),
        !(verdict is Allowed),
    ensures
        next_step(
            PhaseView::ToolHook { calls, at },
            ContextAnswer::ToolHook(verdict),
            messages,
        ) matches Err(ErrorView::HookBlocked(told)) && crate::scan::occurs(told, calls[at].name)
            && (verdict matches ToolVerdict::Blocked(reason) ==> crate::scan::occurs(
            told,
            reason@,
        )),
{
    let name = calls[at].name;
    let tail = match verdict {
        ToolVerdict::Blocked(reason) => reason@,
        _ => "PreToolUse hook blocked"@,
    };
    let told = "Tool '"@ + name + "' blocked: "@ + tail;
    assert(told =~= "Tool '"@ + name + ("' blocked: "@ + tail));
    crate::scan::lemma_part_occurs("Tool '"@, name, "' blocked: "@ + tail);
    assert(told =~= ("Tool '"@ + name + "' blocked: "@) + tail + Seq::<char>::empty());
    crate::scan::lemma_part_occurs("Tool '"@ + name + "' blocked: "@, tail, Seq::empty());
}

/// A prompt that the hook does not allow is refused, for the hook's reason where it gives
/// one; an allowed one goes on with what the hook says of it.
pub proof fn the_prompt_needs_leave(reply: HookReply, messages: Seq<ChatMessage>)
    ensures
        match next_step(PhaseView::PromptHook, ContextAnswer::PromptHook(reply), messages) {
            Ok(step) => reply.allowed && step.actions == seq![ActionView::ApplyHook],
            Err(e) => !reply.allowed && (reply.reason matches Some(reason) ==> e
                == ErrorView::HookBlocked(reason@)) && (reply.reason is None ==> e
                == ErrorView::HookBlocked("Request blocked by hook"@)),
        },
{
    assert(one(ActionView::ApplyHook) =~= seq![ActionView::ApplyHook]);
}

/// What a preparation has asked for when it waits in a phase.
pub open spec fn asked_in(phase: PhaseView) -> Option<ActionView> {
    match phase {
        PhaseView::Applied => Some(ActionView::ApplyHook),
        PhaseView::Tools => Some(ActionView::ListTools),
        PhaseView::Commands => Some(ActionView::ListCommands),
        PhaseView::Session => Some(ActionView::ReadSession),
        PhaseView::Advisory => Some(ActionView::TakeAdvisory),
        PhaseView::Calls => Some(ActionView::LookAtCalls),
        PhaseView::ToolHook { calls, at } => Some(ActionView::RunToolHook(calls[at])),
        PhaseView::Finished => Some(ActionView::Finish),
        _ => None,
    }
}

/// Nothing is skipped: every step leads to the phase behind, but for the rules where no file
/// is mentioned and the hooks on the calls, and ends in what that phase waits for.
pub proof fn nothing_is_skipped(
    phase: PhaseView,
    answer: ContextAnswer,
    messages: Seq<ChatMessage>,
)
    requires
        answers(phase, answer),
        progress(phase) < 8,
    ensures
        next_step(phase, answer, messages) matches Ok(step) ==> {
            &&& progress(step.phase) == progress(phase) + (if phase == PhaseView::Applied
                && mentioned(messages).len() == 0 {
                2int
            } else {
                1int
            })
            &&& step.actions.len() > 0
            &&& asked_in(step.phase) matches Some(a) ==> step.actions.last() == a
            &&& step.phase == PhaseView::PromptHook ==> step.actions.last()
                == ActionView::RunPromptHook(message::last_said(messages, messages.len() as int))
            &&& step.phase == PhaseView::Rules ==> step.actions.last() == ActionView::CombineRules(
                mentioned(messages),
            )
        },
{
}

/// What is found is put in: rules at the start of the system prompt, tools behind the tools,
/// the announcement of commands and the advisory at its end, and the context of the session.
/// Where nothing is found nothing is put in.
pub proof fn what_is_found_is_put_in(
    rules: String,
    tools: Vec<Json>,
    commands: Vec<PluginCommand>,
    context: Option<String>,
    advisory: Option<String>,
    messages: Seq<ChatMessage>,
)
    ensures
        next_step(PhaseView::Rules, ContextAnswer::Rules(rules), messages) matches Ok(step) && (
        if rules@.len() > 0 {
            step.actions == seq![ActionView::InjectPrefix(rules@), ActionView::ListTools]
        } else {
            step.actions == seq![ActionView::ListTools]
        }),
        next_step(PhaseView::Tools, ContextAnswer::Tools(tools), messages) matches Ok(step) && (
        if tools@.len() > 0 {
            step.actions == seq![
                ActionView::AddTools(json::items_view(tools@)),
                ActionView::ListCommands,
            ]
        } else {
            step.actions == seq![ActionView::ListCommands]
        }),
        next_step(PhaseView::Commands, ContextAnswer::Commands(commands), messages) matches Ok(
            step,
        ) && (if commands@.len() > 0 {
            step.actions == seq![
                ActionView::InjectSuffix(commands_text(command_views(commands@))),
                ActionView::ReadSession,
            ]
        } else {
            step.actions == seq![ActionView::ReadSession]
        }),
        next_step(PhaseView::Session, ContextAnswer::Session(context), messages) matches Ok(step)
            && (match context {
            Some(context) => step.actions == seq![
                ActionView::InjectContext(context@),
                ActionView::TakeAdvisory,
            ],
            None => step.actions == seq![ActionView::TakeAdvisory],
        }),
        next_step(PhaseView::Advisory, ContextAnswer::Advisory(advisory), messages) matches Ok(
            step,
        ) && (match advisory {
            Some(advisory) if advisory@.len() > 0 => step.actions == seq![
                ActionView::InjectSuffix(advisory@),
                ActionView::LookAtCalls,
            ],
            _ => step.actions == seq![ActionView::LookAtCalls],
        }),
{
}

/// Every command is announced, with its plugin and its name.
pub proof fn every_command_is_announced(list: Seq<CommandView>, i: int)
    requires
        0 <= i < list.len(),
    ensures
        crate::scan::occurs(
            commands_text(list),
            "/"@ + list[i].plugin + ":"@ + list[i].command,
        ),
{
    let lines = Seq::new(list.len(), |i: int| command_text(list[i]));
    let call = "/"@ + list[i].plugin + ":"@ + list[i].command;
    let line = command_text(list[i]);
    let rest = " (from "@ + list[i].plugin + ")"@;
    assert(line =~= Seq::<char>::empty() + call + rest);
    crate::scan::lemma_part_occurs(Seq::empty(), call, rest);
    text::joined_holds_every_item(lines, ", "@, i);
    let body = text::joined(lines, ", "@);
    let (pre, post) = choose|pre: Seq<char>, post: Seq<char>|
        body == #[trigger] (pre + lines[i] + post);
    crate::scan::lemma_occurs_within(pre, line, post, call);
    let all = commands_text(list);
    assert(all =~= "Available plugin commands: "@ + body + Seq::<char>::empty());
    crate::scan::lemma_occurs_within("Available plugin commands: "@, body, Seq::empty(), call);
}

/// The extensions that messages mention are those that the pattern finds in them, where the
/// pattern can be compiled.
pub proof fn mentions_are_those_of_the_pattern(messages: Seq<ChatMessage>)
    ensures
        extensions::compiles(extensions::EXTENSION_PATTERN_SOURCE@) ==> mentioned(messages)
            == extensions::extensions_in(extensions::EXTENSION_PATTERN_SOURCE@, messages),
        !extensions::compiles(extensions::EXTENSION_PATTERN_SOURCE@) ==> mentioned(messages).len()
            == 0,
{
}

} // verus!
