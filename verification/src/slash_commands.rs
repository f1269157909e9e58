//! The catalogues of slash commands.
//!
//! There are two: one for the line-oriented interface, and a smaller one for the full-screen
//! interface. Each lists what its own interface implements.

use vstd::prelude::*;

verus! {

/// A slash command: how it is invoked and what it does.
#[derive(Debug, Clone, Copy)]
pub struct SlashCommand {
    /// Invocation as the user would type it, with the leading `/`.
    pub invocation: &'static str,
    /// Short description on a single line.
    pub description: &'static str,
}

/// A named group of related commands.
#[derive(Clone, Debug)]
pub struct SlashSection {
    /// Heading shown above the group.
    pub title: &'static str,
    /// Commands in this section, in display order.
    pub commands: Vec<SlashCommand>,
}

/// What commands say: invocation and description.
pub open spec fn command_views(commands: Seq<SlashCommand>) -> Seq<(Seq<char>, Seq<char>)> {
    Seq::new(commands.len(), |i: int| (commands[i].invocation@, commands[i].description@))
}

/// What sections say: title and commands.
pub open spec fn section_views(sections: Seq<SlashSection>) -> Seq<
    (Seq<char>, Seq<(Seq<char>, Seq<char>)>),
> {
    Seq::new(sections.len(), |i: int| (sections[i].title@, command_views(sections[i].commands@)))
}

fn push_command(
    commands: &mut Vec<SlashCommand>,
    invocation: &'static str,
    description: &'static str,
)
    ensures
        command_views(final(commands)@) == command_views(old(commands)@).push(
            (invocation@, description@),
        ),
{
    let ghost before = command_views(commands@);
    commands.push(SlashCommand { invocation, description });
    assert(command_views(commands@) =~= before.push((invocation@, description@)));
}

fn push_section(
    sections: &mut Vec<SlashSection>,
    title: &'static str,
    commands: Vec<SlashCommand>,
)
    ensures
        section_views(final(sections)@) == section_views(old(sections)@).push(
            (title@, command_views(commands@)),
        ),
{
    let ghost before = section_views(sections@);
    sections.push(SlashSection { title, commands });
    assert(section_views(sections@) =~= before.push((title@, command_views(commands@))));
}

/// Core commands.
pub open spec fn core_commands_table() -> Seq<(Seq<char>, Seq<char>)> {
    seq![
        ("/help, /?"@, "Show this help message"@),
        ("/new, /clear"@, "Start a new conversation"@),
        ("/sessions"@, "List saved sessions"@),
        ("/continue <n>"@, "Continue session number n"@),
        ("/export"@, "Export conversation to markdown"@),
        ("/compact"@, "Summarize old messages to save context"@),
        ("/editor"@, "Open $EDITOR for composing message"@),
        ("/undo"@, "Undo last message exchange"@),
        ("/redo"@, "Redo last undone exchange"@),
        ("/exit, /quit"@, "Exit the chat"@),
        ("/history"@, "Show conversation history"@),
        ("/model"@, "Show current model and provider"@),
        ("/model list"@, "List available models for current provider"@),
        ("/model <name>"@, "Switch to a different model"@),
        ("/copy"@, "Copy last assistant response to clipboard"@),
        ("/init"@, "Initialize project config with auto-detection"@),
        ("/review"@, "Review uncommitted git changes"@),
        ("/commit"@, "Stage changes and commit with auto-generated message"@),
        ("/commit-push-pr"@, "Commit, push, and create a pull request"@),
        ("/review <branch>"@, "Compare current branch against <branch>"@),
        ("/status"@, "Show session status (model, tokens, etc.)"@),
        ("/connect"@, "Configure API keys for providers"@),
        ("/theme"@, "List available color themes"@),
        ("/theme <name>"@, "Switch to a color theme"@),
        ("/mode"@, "Show current behavioral mode and list presets"@),
        ("/mode <preset>"@, "Switch behavioral mode (create/extend/safe/refactor/...)"@),
        ("/plan"@, "Toggle between Build and Plan modes"@),
        ("/vim"@, "Toggle vim mode (show mode indicator in prompt)"@),
        ("/effort [level]"@, "Set effort level (low/medium/high/max/auto)"@),
        ("/keybindings"@, "Show configured keyboard shortcuts"@),
        ("/rename <title>"@, "Rename the current session"@),
        ("/version"@, "Show version and system information"@),
        ("/debug"@, "Show debug info (paths, env vars, config)"@),
        ("/find <query>"@, "Fuzzy-find files in the project"@),
        ("/doctor"@, "Run inline diagnostics"@),
        ("/config"@, "Show current configuration"@),
        ("/config path"@, "Show config file locations"@),
        ("/cost"@, "Show session cost estimate"@),
        ("/context"@, "Show context window usage breakdown"@),
        ("/login"@, "Check authentication status"@),
        ("/logout"@, "Show how to clear credentials manually"@),
    ]
}

fn core_commands() -> (commands: Vec<SlashCommand>)
    ensures
        command_views(commands@) == core_commands_table(),
{
    let mut commands: Vec<SlashCommand> = Vec::new();
    push_command(&mut commands, "/help, /?", "Show this help message");
    push_command(&mut commands, "/new, /clear", "Start a new conversation");
    push_command(&mut commands, "/sessions", "List saved sessions");
    push_command(&mut commands, "/continue <n>", "Continue session number n");
    push_command(&mut commands, "/export", "Export conversation to markdown");
    push_command(&mut commands, "/compact", "Summarize old messages to save context");
    push_command(&mut commands, "/editor", "Open $EDITOR for composing message");
    push_command(&mut commands, "/undo", "Undo last message exchange");
    push_command(&mut commands, "/redo", "Redo last undone exchange");
    push_command(&mut commands, "/exit, /quit", "Exit the chat");
    push_command(&mut commands, "/history", "Show conversation history");
    push_command(&mut commands, "/model", "Show current model and provider");
    push_command(&mut commands, "/model list", "List available models for current provider");
    push_command(&mut commands, "/model <name>", "Switch to a different model");
    push_command(&mut commands, "/copy", "Copy last assistant response to clipboard");
    push_command(&mut commands, "/init", "Initialize project config with auto-detection");
    push_command(&mut commands, "/review", "Review uncommitted git changes");
    push_command(&mut commands, "/commit", "Stage changes and commit with auto-generated message");
    push_command(&mut commands, "/commit-push-pr", "Commit, push, and create a pull request");
    push_command(&mut commands, "/review <branch>", "Compare current branch against <branch>");
    push_command(&mut commands, "/status", "Show session status (model, tokens, etc.)");
    push_command(&mut commands, "/connect", "Configure API keys for providers");
    push_command(&mut commands, "/theme", "List available color themes");
    push_command(&mut commands, "/theme <name>", "Switch to a color theme");
    push_command(&mut commands, "/mode", "Show current behavioral mode and list presets");
    push_command(
        &mut commands,
        "/mode <preset>",
        "Switch behavioral mode (create/extend/safe/refactor/...)",
    );
    push_command(&mut commands, "/plan", "Toggle between Build and Plan modes");
    push_command(&mut commands, "/vim", "Toggle vim mode (show mode indicator in prompt)");
    push_command(&mut commands, "/effort [level]", "Set effort level (low/medium/high/max/auto)");
    push_command(&mut commands, "/keybindings", "Show configured keyboard shortcuts");
    push_command(&mut commands, "/rename <title>", "Rename the current session");
    push_command(&mut commands, "/version", "Show version and system information");
    push_command(&mut commands, "/debug", "Show debug info (paths, env vars, config)");
    push_command(&mut commands, "/find <query>", "Fuzzy-find files in the project");
    push_command(&mut commands, "/doctor", "Run inline diagnostics");
    push_command(&mut commands, "/config", "Show current configuration");
    push_command(&mut commands, "/config path", "Show config file locations");
    push_command(&mut commands, "/cost", "Show session cost estimate");
    push_command(&mut commands, "/context", "Show context window usage breakdown");
    push_command(&mut commands, "/login", "Check authentication status");
    push_command(&mut commands, "/logout", "Show how to clear credentials manually");
    assert(command_views(commands@) =~= core_commands_table());
    commands
}

/// Commands on what was learned.
pub open spec fn memory_commands_table() -> Seq<(Seq<char>, Seq<char>)> {
    seq![
        ("/memory"@, "Show auto-learning stats"@),
        ("/memory patterns"@, "Show learned coding patterns"@),
        ("/memory errors"@, "Show known error patterns"@),
        ("/memory prefs"@, "Show learned preferences"@),
        ("/memory files"@, "Show file co-edit relationships"@),
        ("/memory reset"@, "Reset all learned data (with confirmation)"@),
    ]
}

fn memory_commands() -> (commands: Vec<SlashCommand>)
    ensures
        command_views(commands@) == memory_commands_table(),
{
    let mut commands: Vec<SlashCommand> = Vec::new();
    push_command(&mut commands, "/memory", "Show auto-learning stats");
    push_command(&mut commands, "/memory patterns", "Show learned coding patterns");
    push_command(&mut commands, "/memory errors", "Show known error patterns");
    push_command(&mut commands, "/memory prefs", "Show learned preferences");
    push_command(&mut commands, "/memory files", "Show file co-edit relationships");
    push_command(&mut commands, "/memory reset", "Reset all learned data (with confirmation)");
    assert(command_views(commands@) =~= memory_commands_table());
    commands
}

/// Commands on the activity of the session.
pub open spec fn activity_commands_table() -> Seq<(Seq<char>, Seq<char>)> {
    seq![
        ("/activity"@, "Show current session activities"@),
        ("/activity sessions"@, "Show recent session summaries"@),
        ("/activity files"@, "Show files modified this session"@),
        ("/activity issues"@, "Show issues worked this session"@),
    ]
}

fn activity_commands() -> (commands: Vec<SlashCommand>)
    ensures
        command_views(commands@) == activity_commands_table(),
{
    let mut commands: Vec<SlashCommand> = Vec::new();
    push_command(&mut commands, "/activity", "Show current session activities");
    push_command(&mut commands, "/activity sessions", "Show recent session summaries");
    push_command(&mut commands, "/activity files", "Show files modified this session");
    push_command(&mut commands, "/activity issues", "Show issues worked this session");
    assert(command_views(commands@) =~= activity_commands_table());
    commands
}

/// Commands on plugins.
pub open spec fn plugin_commands_table() -> Seq<(Seq<char>, Seq<char>)> {
    seq![
        ("/plugin"@, "List installed plugins"@),
        ("/plugin install"@, "Install a plugin"@),
        ("/plugin manage"@, "Manage installed plugins"@),
        ("/plugin help"@, "Show all plugin commands"@),
        ("/<plugin>:<cmd>"@, "Run a plugin command"@),
    ]
}

fn plugin_commands() -> (commands: Vec<SlashCommand>)
    ensures
        command_views(commands@) == plugin_commands_table(),
{
    let mut commands: Vec<SlashCommand> = Vec::new();
    push_command(&mut commands, "/plugin", "List installed plugins");
    push_command(&mut commands, "/plugin install", "Install a plugin");
    push_command(&mut commands, "/plugin manage", "Manage installed plugins");
    push_command(&mut commands, "/plugin help", "Show all plugin commands");
    push_command(&mut commands, "/<plugin>:<cmd>", "Run a plugin command");
    assert(command_views(commands@) =~= plugin_commands_table());
    commands
}

/// Commands on skills.
pub open spec fn skills_commands_table() -> Seq<(Seq<char>, Seq<char>)> {
    seq![
        ("/skill"@, "List available skills"@),
        ("/skill <name>"@, "Invoke a skill (inject prompt as next message)"@),
    ]
}

fn skills_commands() -> (commands: Vec<SlashCommand>)
    ensures
        command_views(commands@) == skills_commands_table(),
{
    let mut commands: Vec<SlashCommand> = Vec::new();
    push_command(&mut commands, "/skill", "List available skills");
    push_command(&mut commands, "/skill <name>", "Invoke a skill (inject prompt as next message)");
    assert(command_views(commands@) =~= skills_commands_table());
    commands
}

/// Commands that go back in a conversation or reshape it.
pub open spec fn time_travel_commands_table() -> Seq<(Seq<char>, Seq<char>)> {
    seq![
        ("/rewind"@, "Show turns or rewind the last N turns"@),
        ("/checkpoint"@, "Alias for /rewind"@),
        ("/teleport"@, "Restore a named /branch snapshot into the conversation"@),
        ("/thinkback"@, "Replay the latest assistant turn's saved thinking block"@),
        ("/fast"@, "Set low effort and switch to a known fast model when available"@),
    ]
}

fn time_travel_commands() -> (commands: Vec<SlashCommand>)
    ensures
        command_views(commands@) == time_travel_commands_table(),
{
    let mut commands: Vec<SlashCommand> = Vec::new();
    push_command(&mut commands, "/rewind", "Show turns or rewind the last N turns");
    push_command(&mut commands, "/checkpoint", "Alias for /rewind");
    push_command(
        &mut commands,
        "/teleport",
        "Restore a named /branch snapshot into the conversation",
    );
    push_command(
        &mut commands,
        "/thinkback",
        "Replay the latest assistant turn's saved thinking block",
    );
    push_command(
        &mut commands,
        "/fast",
        "Set low effort and switch to a known fast model when available",
    );
    assert(command_views(commands@) =~= time_travel_commands_table());
    commands
}

/// Commands that show how things are configured.
pub open spec fn management_commands_table() -> Seq<(Seq<char>, Seq<char>)> {
    seq![
        ("/mcp"@, "Show configured MCP servers"@),
        ("/mcp list"@, "List MCP servers declared by plugins and .mcp.json"@),
        ("/mcp help"@, "Show MCP command usage and lifecycle limitations"@),
        ("/permissions"@, "Show permission rules and MCP allowlists"@),
        ("/hooks"@, "Show configured lifecycle hooks"@),
    ]
}

fn management_commands() -> (commands: Vec<SlashCommand>)
    ensures
        command_views(commands@) == management_commands_table(),
{
    let mut commands: Vec<SlashCommand> = Vec::new();
    push_command(&mut commands, "/mcp", "Show configured MCP servers");
    push_command(&mut commands, "/mcp list", "List MCP servers declared by plugins and .mcp.json");
    push_command(&mut commands, "/mcp help", "Show MCP command usage and lifecycle limitations");
    push_command(&mut commands, "/permissions", "Show permission rules and MCP allowlists");
    push_command(&mut commands, "/hooks", "Show configured lifecycle hooks");
    assert(command_views(commands@) =~= management_commands_table());
    commands
}

/// Core commands of the full-screen interface.
pub open spec fn tui_core_commands_table() -> Seq<(Seq<char>, Seq<char>)> {
    seq![
        ("/help, ?"@, "Show the TUI help overlay"@),
        ("/clear"@, "Clear the visible transcript"@),
        ("/exit, /quit"@, "Exit the TUI"@),
        ("/status"@, "Show model, provider, effort, and token estimate"@),
        ("/provider [name]"@, "Show or switch provider"@),
        ("/mode"@, "Toggle between Build and Plan modes"@),
        ("/effort [low|medium|high|max|auto]"@, "Set or cycle effort level"@),
    ]
}

fn tui_core_commands() -> (commands: Vec<SlashCommand>)
    ensures
        command_views(commands@) == tui_core_commands_table(),
{
    let mut commands: Vec<SlashCommand> = Vec::new();
    push_command(&mut commands, "/help, ?", "Show the TUI help overlay");
    push_command(&mut commands, "/clear", "Clear the visible transcript");
    push_command(&mut commands, "/exit, /quit", "Exit the TUI");
    push_command(&mut commands, "/status", "Show model, provider, effort, and token estimate");
    push_command(&mut commands, "/provider [name]", "Show or switch provider");
    push_command(&mut commands, "/mode", "Toggle between Build and Plan modes");
    push_command(&mut commands, "/effort [low|medium|high|max|auto]", "Set or cycle effort level");
    assert(command_views(commands@) =~= tui_core_commands_table());
    commands
}

/// Commands of the full-screen interface on sessions.
pub open spec fn tui_sessions_commands_table() -> Seq<(Seq<char>, Seq<char>)> {
    seq![
        ("/sessions, /list"@, "List saved sessions"@),
        ("/resume, /continue"@, "Open the session picker"@),
        ("/load <id>"@, "Resume a saved session by ID prefix"@),
        ("/continue <id>"@, "Resume a saved session by ID prefix"@),
        ("/rename <title>"@, "Rename the current session"@),
        ("/export"@, "Export the current conversation to markdown"@),
        ("/undo"@, "Undo the last message exchange"@),
        ("/redo"@, "Redo the last undone message exchange"@),
        ("/rewind [N]"@, "Show turns or rewind the last N turns"@),
    ]
}

fn tui_sessions_commands() -> (commands: Vec<SlashCommand>)
    ensures
        command_views(commands@) == tui_sessions_commands_table(),
{
    let mut commands: Vec<SlashCommand> = Vec::new();
    push_command(&mut commands, "/sessions, /list", "List saved sessions");
    push_command(&mut commands, "/resume, /continue", "Open the session picker");
    push_command(&mut commands, "/load <id>", "Resume a saved session by ID prefix");
    push_command(&mut commands, "/continue <id>", "Resume a saved session by ID prefix");
    push_command(&mut commands, "/rename <title>", "Rename the current session");
    push_command(&mut commands, "/export", "Export the current conversation to markdown");
    push_command(&mut commands, "/undo", "Undo the last message exchange");
    push_command(&mut commands, "/redo", "Redo the last undone message exchange");
    push_command(&mut commands, "/rewind [N]", "Show turns or rewind the last N turns");
    assert(command_views(commands@) =~= tui_sessions_commands_table());
    commands
}

/// Commands of the full-screen interface on the state of things.
pub open spec fn tui_diagnostics_commands_table() -> Seq<(Seq<char>, Seq<char>)> {
    seq![
        ("/cost"@, "Show session cost estimate"@),
        ("/context"@, "Show context usage breakdown"@),
        ("/files [dir]"@, "List files in the current or given directory"@),
        ("/diff"@, "Show git diff summary"@),
        ("/review"@, "Show a truncated git diff for review"@),
        ("/doctor"@, "Run inline diagnostics"@),
        ("/init"@, "Initialize project config if absent"@),
    ]
}

fn tui_diagnostics_commands() -> (commands: Vec<SlashCommand>)
    ensures
        command_views(commands@) == tui_diagnostics_commands_table(),
{
    let mut commands: Vec<SlashCommand> = Vec::new();
    push_command(&mut commands, "/cost", "Show session cost estimate");
    push_command(&mut commands, "/context", "Show context usage breakdown");
    push_command(&mut commands, "/files [dir]", "List files in the current or given directory");
    push_command(&mut commands, "/diff", "Show git diff summary");
    push_command(&mut commands, "/review", "Show a truncated git diff for review");
    push_command(&mut commands, "/doctor", "Run inline diagnostics");
    push_command(&mut commands, "/init", "Initialize project config if absent");
    assert(command_views(commands@) =~= tui_diagnostics_commands_table());
    commands
}

/// Commands of the full-screen interface on skills.
pub open spec fn tui_skills_commands_table() -> Seq<(Seq<char>, Seq<char>)> {
    seq![
        ("/skill, /skills"@, "List available skills"@),
        ("/skill <name>"@, "Invoke a skill as the next prompt"@),
        ("/<skill-name>"@, "Invoke a skill by name"@),
    ]
}

fn tui_skills_commands() -> (commands: Vec<SlashCommand>)
    ensures
        command_views(commands@) == tui_skills_commands_table(),
{
    let mut commands: Vec<SlashCommand> = Vec::new();
    push_command(&mut commands, "/skill, /skills", "List available skills");
    push_command(&mut commands, "/skill <name>", "Invoke a skill as the next prompt");
    push_command(&mut commands, "/<skill-name>", "Invoke a skill by name");
    assert(command_views(commands@) =~= tui_skills_commands_table());
    commands
}

/// The sections of the line-oriented interface, in display order.
pub open spec fn slash_sections_table() -> Seq<(Seq<char>, Seq<(Seq<char>, Seq<char>)>)> {
    seq![
        ("Slash Commands"@, core_commands_table()),
        ("Memory Commands (auto-learning)"@, memory_commands_table()),
        ("Activity Commands"@, activity_commands_table()),
        ("Plugin Commands"@, plugin_commands_table()),
        ("Skill Commands"@, skills_commands_table()),
        ("Time Travel & Session Shape"@, time_travel_commands_table()),
        ("Management Overlays"@, management_commands_table()),
    ]
}

/// The sections of the line-oriented interface, in display order.
pub fn slash_sections() -> (sections: Vec<SlashSection>)
    ensures
        section_views(sections@) == slash_sections_table(),
{
    let mut sections: Vec<SlashSection> = Vec::new();
    push_section(&mut sections, "Slash Commands", core_commands());
    push_section(&mut sections, "Memory Commands (auto-learning)", memory_commands());
    push_section(&mut sections, "Activity Commands", activity_commands());
    push_section(&mut sections, "Plugin Commands", plugin_commands());
    push_section(&mut sections, "Skill Commands", skills_commands());
    push_section(&mut sections, "Time Travel & Session Shape", time_travel_commands());
    push_section(&mut sections, "Management Overlays", management_commands());
    assert(section_views(sections@) =~= slash_sections_table());
    sections
}

/// The sections of the full-screen interface, in display order.
pub open spec fn tui_slash_sections_table() -> Seq<(Seq<char>, Seq<(Seq<char>, Seq<char>)>)> {
    seq![
        ("TUI Slash Commands"@, tui_core_commands_table()),
        ("TUI Sessions"@, tui_sessions_commands_table()),
        ("TUI Diagnostics"@, tui_diagnostics_commands_table()),
        ("TUI Skills"@, tui_skills_commands_table()),
    ]
}

/// The sections of the full-screen interface, in display order.
pub fn tui_slash_sections() -> (sections: Vec<SlashSection>)
    ensures
        section_views(sections@) == tui_slash_sections_table(),
{
    let mut sections: Vec<SlashSection> = Vec::new();
    push_section(&mut sections, "TUI Slash Commands", tui_core_commands());
    push_section(&mut sections, "TUI Sessions", tui_sessions_commands());
    push_section(&mut sections, "TUI Diagnostics", tui_diagnostics_commands());
    push_section(&mut sections, "TUI Skills", tui_skills_commands());
    assert(section_views(sections@) =~= tui_slash_sections_table());
    sections
}

/// The commands of the first `n` sections, one section after the other.
pub open spec fn flattened(
    sections: Seq<(Seq<char>, Seq<(Seq<char>, Seq<char>)>)>,
    n: int,
) -> Seq<(Seq<char>, Seq<char>)>
    decreases n,
{
    if n <= 0 {
        seq![]
    } else {
        flattened(sections, n - 1) + sections[n - 1].1
    }
}

/// The commands of all sections, one section after the other.
fn commands_of(sections: &Vec<SlashSection>) -> (all: Vec<SlashCommand>)
    ensures
        command_views(all@) == flattened(section_views(sections@), sections@.len() as int),
{
    let ghost v = section_views(sections@);
    let mut all: Vec<SlashCommand> = Vec::new();
    let mut i: usize = 0;
    assert(command_views(all@) =~= seq![]);
    while i < sections.len()
        invariant
            0 <= i <= sections@.len(),
            v == section_views(sections@),
            command_views(all@) == flattened(v, i as int),
        decreases sections@.len() - i,
    {
        let ghost before = command_views(all@);
        let commands = &sections[i].commands;
        assert(v[i as int].1 == command_views(commands@));
        let mut k: usize = 0;
        while k < commands.len()
            invariant
                0 <= k <= commands@.len(),
                command_views(all@) =~= before + command_views(commands@).take(k as int),
            decreases commands@.len() - k,
        {
            let ghost now = command_views(all@);
            all.push(commands[k]);
            assert(command_views(all@) =~= now.push(command_views(commands@)[k as int]));
            k += 1;
        }
        assert(command_views(commands@).take(k as int) =~= command_views(commands@));
        i += 1;
    }
    all
}

/// Every command of the line-oriented interface.
pub fn all_commands() -> (all: Vec<SlashCommand>)
    ensures
        command_views(all@) == flattened(
            slash_sections_table(),
            slash_sections_table().len() as int,
        ),
{
    commands_of(&slash_sections())
}

/// Every command of the full-screen interface.
pub fn all_tui_commands() -> (all: Vec<SlashCommand>)
    ensures
        command_views(all@) == flattened(
            tui_slash_sections_table(),
            tui_slash_sections_table().len() as int,
        ),
{
    commands_of(&tui_slash_sections())
}

/// A command that a section lists is among all commands.
pub proof fn listed_commands_are_among_all(
    sections: Seq<(Seq<char>, Seq<(Seq<char>, Seq<char>)>)>,
    n: int,
    i: int,
    k: int,
)
    requires
        0 <= i < n <= sections.len(),
        0 <= k < sections[i].1.len(),
    ensures
        flattened(sections, n).contains(sections[i].1[k]),
    decreases n,
{
    let before = flattened(sections, n - 1);
    let all = flattened(sections, n);
    if i < n - 1 {
        listed_commands_are_among_all(sections, n - 1, i, k);
        let m = choose|m: int| 0 <= m < before.len() && before[m] == sections[i].1[k];
        assert(all[m] == sections[i].1[k]);
    } else {
        assert(all[before.len() + k] == sections[i].1[k]);
    }
}

/// All commands are those of the sections, one section behind the other.
pub proof fn sections_follow_one_another(
    sections: Seq<(Seq<char>, Seq<(Seq<char>, Seq<char>)>)>,
    more: (Seq<char>, Seq<(Seq<char>, Seq<char>)>),
)
    ensures
        flattened(seq![], 0).len() == 0,
        flattened(sections.push(more), sections.len() + 1int) == flattened(
            sections,
            sections.len() as int,
        ) + more.1,
{
    lemma_sections_ahead(sections.push(more), sections, sections.len() as int);
}

proof fn lemma_sections_ahead(
    a: Seq<(Seq<char>, Seq<(Seq<char>, Seq<char>)>)>,
    b: Seq<(Seq<char>, Seq<(Seq<char>, Seq<char>)>)>,
    n: int,
)
    requires
        n <= a.len(),
        n <= b.len(),
        forall|i: int| 0 <= i < n ==> a[i] == b[i],
    ensures
        flattened(a, n) == flattened(b, n),
    decreases n,
{
    if n > 0 {
        lemma_sections_ahead(a, b, n - 1);
    }
}

} // verus!
