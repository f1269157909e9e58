//! Chat messages and chat completion requests.

use vstd::prelude::*;

use crate::json;
use crate::json::{Json, JsonView, Number};
use crate::string_map::StringMap;
use crate::text;

verus! {

/// A part of the content of a message.
#[derive(Clone, Debug, PartialEq, Eq)]
pub struct ContentPart {
    pub content_type: String,
    pub text: Option<String>,
    pub image_url: Option<Json>,
}

/// The content of a message: a text, or parts.
#[derive(Clone, Debug, PartialEq, Eq)]
pub enum MessageContent {
    Text(String),
    Parts(Vec<ContentPart>),
}

/// A chat message.
#[derive(Clone, Debug)]
pub struct ChatMessage {
    pub role: String,
    pub content: MessageContent,
    pub name: Option<String>,
    pub tool_calls: Option<Vec<Json>>,
    pub tool_call_id: Option<String>,
    pub extra: StringMap<Json>,
}

/// A chat completion request.
#[derive(Clone, Debug)]
pub struct ChatCompletionRequest {
    pub model: String,
    pub messages: Vec<ChatMessage>,
    pub temperature: Option<Number>,
    pub max_tokens: Option<u32>,
    pub stream: Option<bool>,
    pub tools: Option<Vec<Json>>,
    pub tool_choice: Option<Json>,
    pub extra: StringMap<Json>,
}

/// The texts of a message: the text itself, or the texts of its parts.
pub open spec fn texts(content: MessageContent) -> Seq<Seq<char>> {
    match content {
        MessageContent::Text(t) => seq![t@],
        MessageContent::Parts(parts) => part_texts(parts@, parts@.len() as int),
    }
}

/// The texts of the first `n` parts that have one.
pub open spec fn part_texts(parts: Seq<ContentPart>, n: int) -> Seq<Seq<char>>
    decreases n,
{
    if n <= 0 {
        seq![]
    } else {
        match parts[n - 1].text {
            Some(t) => part_texts(parts, n - 1).push(t@),
            None => part_texts(parts, n - 1),
        }
    }
}

/// The texts of the parts that have one.
pub fn texts_of_parts(parts: &Vec<ContentPart>) -> (out: Vec<String>)
    ensures
        text::views(out@) == part_texts(parts@, parts@.len() as int),
{
    let mut out: Vec<String> = Vec::new();
    let mut i: usize = 0;
    assert(text::views(out@) =~= seq![]);
    while i < parts.len()
        invariant
            0 <= i <= parts@.len(),
            text::views(out@) == part_texts(parts@, i as int),
        decreases parts@.len() - i,
    {
        let ghost before = out@;
        if let Some(t) = &parts[i].text {
            out.push(t.clone());
            assert(text::views(out@) =~= text::views(before).push(t@));
        }
        i += 1;
    }
    out
}

/// What a message says, as one text.
pub open spec fn said(content: MessageContent) -> Seq<char> {
    match content {
        MessageContent::Text(t) => t@,
        MessageContent::Parts(parts) => text::joined(
            part_texts(parts@, parts@.len() as int),
            "\n"@,
        ),
    }
}

/// What the last message of the user among the first `n` says; nothing where there is none.
pub open spec fn last_said(messages: Seq<ChatMessage>, n: int) -> Seq<char>
    decreases n,
{
    if n <= 0 {
        seq![]
    } else if messages[n - 1].role@ == "user"@ {
        said(messages[n - 1].content)
    } else {
        last_said(messages, n - 1)
    }
}

/// What a message says, as one text.
pub fn content_text(content: &MessageContent) -> (out: String)
    ensures
        out@ == said(*content),
{
    match content {
        MessageContent::Text(t) => t.clone(),
        MessageContent::Parts(parts) => text::join(&texts_of_parts(parts), "\n"),
    }
}

/// What the user said last.
pub fn last_user_prompt(messages: &Vec<ChatMessage>) -> (out: String)
    ensures
        out@ == last_said(messages@, messages@.len() as int),
{
    let mut n: usize = messages.len();
    while n > 0
        invariant
            0 <= n <= messages@.len(),
            last_said(messages@, messages@.len() as int) == last_said(messages@, n as int),
        decreases n,
    {
        if text::str_eq(messages[n - 1].role.as_str(), "user") {
            return content_text(&messages[n - 1].content);
        }
        n -= 1;
    }
    let out = String::new();
    assert(out@ =~= seq![]);
    out
}

/// The name and the arguments of a tool call.
#[derive(Debug)]
pub struct NamedCall {
    pub name: String,
    pub arguments: Json,
}

/// What a named call says.
pub struct NamedCallView {
    pub name: Seq<char>,
    pub arguments: JsonView,
}

impl View for NamedCall {
    type V = NamedCallView;

    open spec fn view(&self) -> NamedCallView {
        NamedCallView { name: self.name@, arguments: self.arguments@ }
    }
}

/// What a list of named calls says.
pub open spec fn call_views(calls: Seq<NamedCall>) -> Seq<NamedCallView> {
    Seq::new(calls.len(), |i: int| calls[i]@)
}

/// The call that a value stands for, if it names a function and has arguments for it.
pub open spec fn named_call(call: JsonView) -> Option<NamedCallView> {
    let function = json::member(call, "function"@);
    match (
        json::str_opt(json::member_opt(function, "name"@)),
        json::member_opt(function, "arguments"@),
    ) {
        (Some(name), Some(arguments)) => Some(NamedCallView { name, arguments }),
        _ => None,
    }
}

/// The calls that the first `n` values stand for.
pub open spec fn named_calls(calls: Seq<JsonView>, n: int) -> Seq<NamedCallView>
    decreases n,
{
    if n <= 0 {
        seq![]
    } else {
        match named_call(calls[n - 1]) {
            Some(call) => named_calls(calls, n - 1).push(call),
            None => named_calls(calls, n - 1),
        }
    }
}

/// The calls in the first `n` messages, in order.
pub open spec fn calls_in(messages: Seq<ChatMessage>, n: int) -> Seq<NamedCallView>
    decreases n,
{
    if n <= 0 {
        seq![]
    } else {
        match messages[n - 1].tool_calls {
            Some(calls) => calls_in(messages, n - 1) + named_calls(
                json::items_view(calls@),
                calls@.len() as int,
            ),
            None => calls_in(messages, n - 1),
        }
    }
}

/// The call that a value stands for.
fn read_call(call: &Json) -> (c: Option<NamedCall>)
    ensures
        match c {
            Some(c) => named_call(call@) == Some(c@),
            None => named_call(call@) is None,
        },
{
    match call.get("function") {
        Some(function) => match (function.get_str("name"), function.get("arguments")) {
            (Some(name), Some(arguments)) => Some(
                NamedCall { name: name.to_owned(), arguments: arguments.copy() },
            ),
            _ => None,
        },
        None => None,
    }
}

/// Appends the calls that the values stand for.
fn push_calls(out: &mut Vec<NamedCall>, calls: &Vec<Json>)
    ensures
        call_views(final(out)@) == call_views(old(out)@) + named_calls(
            json::items_view(calls@),
            calls@.len() as int,
        ),
{
    let ghost before = call_views(out@);
    let ghost views = json::items_view(calls@);
    proof {
        json::lemma_items_view(calls@);
    }
    let mut i: usize = 0;
    while i < calls.len()
        invariant
            0 <= i <= calls@.len(),
            views == json::items_view(calls@),
            views.len() == calls@.len(),
            forall|j: int|
                0 <= j < calls@.len() ==> #[trigger] views[j] == json::value_view(calls@[j]),
            call_views(out@) =~= before + named_calls(views, i as int),
        decreases calls@.len() - i,
    {
        assert(views[i as int] == calls@[i as int]@);
        let ghost now = out@;
        if let Some(call) = read_call(&calls[i]) {
            out.push(call);
            assert(call_views(out@) =~= call_views(now).push(call@));
        }
        i += 1;
    }
}

/// The tool calls in the messages, in order.
pub fn tool_calls_of(messages: &Vec<ChatMessage>) -> (out: Vec<NamedCall>)
    ensures
        call_views(out@) == calls_in(messages@, messages@.len() as int),
{
    let mut out: Vec<NamedCall> = Vec::new();
    let mut i: usize = 0;
    assert(call_views(out@) =~= seq![]);
    while i < messages.len()
        invariant
            0 <= i <= messages@.len(),
            call_views(out@) == calls_in(messages@, i as int),
        decreases messages@.len() - i,
    {
        if let Some(calls) = &messages[i].tool_calls {
            push_calls(&mut out, calls);
        }
        i += 1;
    }
    out
}

/// What the tools of a request say.
pub open spec fn tool_views(tools: Option<Vec<Json>>) -> Option<Seq<JsonView>> {
    match tools {
        Some(tools) => Some(json::items_view(tools@)),
        None => None,
    }
}

/// The tools of a request with more tools behind them.
pub open spec fn with_tools(tools: Option<Seq<JsonView>>, more: Seq<JsonView>) -> Option<
    Seq<JsonView>,
> {
    if more.len() == 0 {
        tools
    } else {
        match tools {
            Some(tools) => Some(tools + more),
            None => Some(more),
        }
    }
}

/// The tools of a request with more tools behind them.
pub fn add_tools(tools: Option<Vec<Json>>, more: Vec<Json>) -> (all: Option<Vec<Json>>)
    ensures
        tool_views(all) == with_tools(tool_views(tools), json::items_view(more@)),
{
    proof {
        json::lemma_items_view(more@);
    }
    if more.len() == 0 {
        return tools;
    }
    let mut all: Vec<Json> = match tools {
        Some(tools) => tools,
        None => Vec::new(),
    };
    let ghost before = json::items_view(all@);
    let mut i: usize = 0;
    assert(more@.take(0) =~= seq![]);
    while i < more.len()
        invariant
            0 <= i <= more@.len(),
            json::items_view(all@) =~= before + json::items_view(more@.take(i as int)),
        decreases more@.len() - i,
    {
        let tool = more[i].copy();
        json::push_item(&mut all, tool);
        assert(more@.take(i + 1).drop_last() =~= more@.take(i as int));
        i += 1;
    }
    proof {
        assert(more@.take(i as int) =~= more@);
        if tool_views(tools) is None {
            assert(json::items_view(all@) =~= json::items_view(more@));
        }
    }
    Some(all)
}

/// All the calls in a list of messages.
pub open spec fn all_calls(messages: Seq<ChatMessage>) -> Seq<NamedCallView> {
    calls_in(messages, messages.len() as int)
}

/// The calls of the earlier messages come first and those of the later ones behind them:
/// none is lost and none is added where conversations are put together.
pub proof fn calls_of_all_messages_are_found(a: Seq<ChatMessage>, b: Seq<ChatMessage>)
    ensures
        all_calls(a + b) == all_calls(a) + all_calls(b),
    decreases b.len(),
{
    let all = a + b;
    if b.len() == 0 {
        assert(all =~= a);
        assert(all_calls(all) =~= all_calls(a) + all_calls(b));
    } else {
        let rest = b.drop_last();
        assert(all.drop_last() =~= a + rest);
        calls_of_all_messages_are_found(a, rest);
        lemma_calls_ahead(all, all.drop_last(), all.len() - 1);
        lemma_calls_ahead(b, rest, b.len() - 1);
        assert(all[all.len() - 1] == b[b.len() - 1]);
        assert(all_calls(all) =~= all_calls(a) + all_calls(b));
    }
}

proof fn lemma_calls_ahead(a: Seq<ChatMessage>, b: Seq<ChatMessage>, n: int)
    requires
        n <= a.len(),
        n <= b.len(),
        forall|i: int| 0 <= i < n ==> a[i] == b[i],
    ensures
        calls_in(a, n) == calls_in(b, n),
    decreases n,
{
    if n > 0 {
        lemma_calls_ahead(a, b, n - 1);
    }
}

/// The calls of a message are those of its values, in their order: values that are put
/// behind others add their calls behind those of the others.
pub proof fn calls_of_all_values_are_found(a: Seq<JsonView>, b: Seq<JsonView>)
    ensures
        named_calls(a + b, (a + b).len() as int) == named_calls(a, a.len() as int) + named_calls(
            b,
            b.len() as int,
        ),
    decreases b.len(),
{
    let all = a + b;
    if b.len() == 0 {
        assert(all =~= a);
        assert(named_calls(all, all.len() as int) =~= named_calls(a, a.len() as int)
            + named_calls(b, 0));
    } else {
        let rest = b.drop_last();
        assert(all.drop_last() =~= a + rest);
        calls_of_all_values_are_found(a, rest);
        lemma_values_ahead(all, all.drop_last(), all.len() - 1);
        lemma_values_ahead(b, rest, b.len() - 1);
        assert(all[all.len() - 1] == b[b.len() - 1]);
        assert(named_calls(all, all.len() as int) =~= named_calls(a, a.len() as int)
            + named_calls(b, b.len() as int));
    }
}

proof fn lemma_values_ahead(a: Seq<JsonView>, b: Seq<JsonView>, n: int)
    requires
        n <= a.len(),
        n <= b.len(),
        forall|i: int| 0 <= i < n ==> a[i] == b[i],
    ensures
        named_calls(a, n) == named_calls(b, n),
    decreases n,
{
    if n > 0 {
        lemma_values_ahead(a, b, n - 1);
    }
}

/// A value that has a function with a name and arguments is one call, with that name and
/// those arguments; any other value is none.
pub proof fn a_value_is_one_call_or_none(
    value: JsonView,
    function: JsonView,
    name: Seq<char>,
    arguments: JsonView,
)
    ensures
        json::member(value, "function"@) == Some(function) && json::member(function, "name"@)
            == Some(JsonView::Str(name)) && json::member(function, "arguments"@) == Some(arguments)
            ==> named_calls(seq![value], 1) == seq![NamedCallView { name, arguments }],
        json::member(value, "function"@) is None ==> named_calls(seq![value], 1).len() == 0,
        json::member(value, "function"@) == Some(function) && json::member(function, "arguments"@)
            is None ==> named_calls(seq![value], 1).len() == 0,
        json::member(value, "function"@) == Some(function) && !(json::member(function, "name"@)
            matches Some(JsonView::Str(_))) ==> named_calls(seq![value], 1).len() == 0,
{
    reveal_with_fuel(named_calls, 2);
}

/// A message has the calls of its values, and one without values has none.
pub proof fn a_message_has_the_calls_of_its_values(message: ChatMessage)
    ensures
        match message.tool_calls {
            Some(values) => all_calls(seq![message]) == named_calls(
                json::items_view(values@),
                values@.len() as int,
            ),
            None => all_calls(seq![message]).len() == 0,
        },
{
    reveal_with_fuel(calls_in, 2);
    if let Some(values) = message.tool_calls {
        assert(all_calls(seq![message]) =~= named_calls(
            json::items_view(values@),
            values@.len() as int,
        ));
    }
}

/// Every call in every message is found: where the value at `k` of the message at `i` names a
/// function and has arguments, a call with that name and those arguments is in the list.
pub proof fn every_call_is_found(
    messages: Seq<ChatMessage>,
    i: int,
    k: int,
    function: JsonView,
    name: Seq<char>,
    arguments: JsonView,
)
    requires
        0 <= i < messages.len(),
        messages[i].tool_calls matches Some(values) && 0 <= k < values@.len() && json::member(
            values@[k]@,
            "function"@,
        ) == Some(function),
        json::member(function, "name"@) == Some(JsonView::Str(name)),
        json::member(function, "arguments"@) == Some(arguments),
    ensures
        all_calls(messages).contains(NamedCallView { name, arguments }),
{
    let call = NamedCallView { name, arguments };
    let message = messages[i];
    let values = message.tool_calls->0@;
    let views = json::items_view(values);
    json::lemma_items_view(values);
    assert(views[k] == values[k]@);
    a_value_is_one_call_or_none(views[k], function, name, arguments);
    let found = named_calls(seq![views[k]], 1);
    assert(found[0] == call);
    let ahead = views.take(k);
    let behind = views.skip(k + 1);
    calls_of_all_values_are_found(ahead, seq![views[k]]);
    calls_of_all_values_are_found(ahead + seq![views[k]], behind);
    assert(views =~= ahead + seq![views[k]] + behind);
    let own = named_calls(views, views.len() as int);
    let at = named_calls(ahead, ahead.len() as int).len() as int;
    assert(own[at] == call);
    a_message_has_the_calls_of_its_values(message);
    let before = messages.take(i);
    let after = messages.skip(i + 1);
    calls_of_all_messages_are_found(before, seq![message]);
    calls_of_all_messages_are_found(before + seq![message], after);
    assert(messages =~= before + seq![message] + after);
    assert(all_calls(messages)[all_calls(before).len() + at] == call);
}

/// What the user said last is what the last message of the user says, whatever the others say
/// that stand behind it; where the user said nothing there is nothing.
pub proof fn the_last_prompt_is_the_users(messages: Seq<ChatMessage>, i: int)
    requires
        0 <= i < messages.len(),
        messages[i].role@ == "user"@,
        forall|j: int| i < j < messages.len() ==> (#[trigger] messages[j]).role@ != "user"@,
    ensures
        last_said(messages, messages.len() as int) == said(messages[i].content),
        messages[i].content matches MessageContent::Text(t) ==> last_said(
            messages,
            messages.len() as int,
        ) == t@,
{
    lemma_last_said(messages, messages.len() as int, i);
}

proof fn lemma_last_said(messages: Seq<ChatMessage>, n: int, i: int)
    requires
        0 <= i < n <= messages.len(),
        messages[i].role@ == "user"@,
        forall|j: int| i < j < n ==> (#[trigger] messages[j]).role@ != "user"@,
    ensures
        last_said(messages, n) == said(messages[i].content),
    decreases n,
{
    if n - 1 > i {
        lemma_last_said(messages, n - 1, i);
    }
}

/// Where no message is the user's, nothing was said.
pub proof fn without_a_user_nothing_is_said(messages: Seq<ChatMessage>, n: int)
    requires
        n <= messages.len(),
        forall|j: int| 0 <= j < n ==> (#[trigger] messages[j]).role@ != "user"@,
    ensures
        last_said(messages, n).len() == 0,
    decreases n,
{
    if n > 0 {
        without_a_user_nothing_is_said(messages, n - 1);
    }
}

/// The text of every part that has one stands in what the message says.
pub proof fn every_part_is_said(parts: Vec<ContentPart>, i: int)
    requires
        0 <= i < parts@.len(),
        parts@[i].text is Some,
    ensures
        texts(MessageContent::Parts(parts)).contains(parts@[i].text->0@),
        exists|pre: Seq<char>, post: Seq<char>|
            said(MessageContent::Parts(parts)) == #[trigger] (pre + parts@[i].text->0@ + post),
{
    let all = part_texts(parts@, parts@.len() as int);
    lemma_part_texts(parts@, parts@.len() as int, i);
    let k = choose|k: int| 0 <= k < all.len() && all[k] == parts@[i].text->0@;
    text::joined_holds_every_item(all, "\n"@, k);
}

proof fn lemma_part_texts(parts: Seq<ContentPart>, n: int, i: int)
    requires
        0 <= i < n <= parts.len(),
        parts[i].text is Some,
    ensures
        part_texts(parts, n).contains(parts[i].text->0@),
    decreases n,
{
    let all = part_texts(parts, n);
    if i == n - 1 {
        assert(all.last() == parts[i].text->0@);
    } else {
        lemma_part_texts(parts, n - 1, i);
        let before = part_texts(parts, n - 1);
        let k = choose|k: int| 0 <= k < before.len() && before[k] == parts[i].text->0@;
        assert(all[k] == before[k]);
    }
}

/// The texts of parts are listed in their order, and each part that has one adds one.
pub proof fn parts_are_said_in_order(a: Seq<ContentPart>, part: ContentPart)
    ensures
        part_texts(a.push(part), (a.len() + 1) as int) == (match part.text {
            Some(t) => part_texts(a, a.len() as int).push(t@),
            None => part_texts(a, a.len() as int),
        }),
{
    lemma_parts_ahead(a.push(part), a, a.len() as int);
}

proof fn lemma_parts_ahead(a: Seq<ContentPart>, b: Seq<ContentPart>, n: int)
    requires
        n <= a.len(),
        n <= b.len(),
        forall|i: int| 0 <= i < n ==> a[i] == b[i],
    ensures
        part_texts(a, n) == part_texts(b, n),
    decreases n,
{
    if n > 0 {
        lemma_parts_ahead(a, b, n - 1);
    }
}

/// Tools that are added stand behind those that were there, which all stay; where none are
/// added nothing changes.
pub proof fn added_tools_stand_behind(tools: Option<Seq<JsonView>>, more: Seq<JsonView>, i: int)
    requires
        0 <= i < more.len(),
    ensures
        with_tools(tools, seq![]) == tools,
        with_tools(tools, more) matches Some(all) && all.len() == (match tools {
            Some(tools) => tools.len(),
            None => 0,
        }) + more.len() && all[all.len() - more.len() + i] == more[i] && (tools matches Some(had)
            ==> forall|k: int| 0 <= k < had.len() ==> all[k] == #[trigger] had[k]),
{
}

} // verus!
