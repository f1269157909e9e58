use openclaudia::slash_commands::{
    all_commands, all_tui_commands, slash_sections, tui_slash_sections, SlashSection,
};

fn check_sections(sections: Vec<SlashSection>) {
    assert!(!sections.is_empty());
    for section in sections {
        assert!(!section.title.is_empty());
        assert!(
            !section.commands.is_empty(),
            "section {} has no commands",
            section.title
        );
        for c in section.commands {
            assert!(c.invocation.starts_with('/'));
            assert!(!c.description.is_empty());
        }
    }
}

#[test]
fn sections_non_empty() {
    check_sections(slash_sections());
    check_sections(tui_slash_sections());
}

#[test]
fn table_includes_canonical_commands() {
    let invocations: Vec<&str> = all_commands().iter().map(|c| c.invocation).collect();
    for canonical in [
        "/help, /?",
        "/new, /clear",
        "/exit, /quit",
        "/model",
        "/compact",
    ] {
        assert!(
            invocations.contains(&canonical),
            "canonical command {canonical} missing from the sections"
        );
    }
}

#[test]
fn time_travel_and_management_commands_present() {
    let invocations: Vec<&str> = all_commands().iter().map(|c| c.invocation).collect();
    for canonical in [
        "/rewind",
        "/teleport",
        "/thinkback",
        "/fast",
        "/mcp",
        "/permissions",
        "/hooks",
    ] {
        assert!(
            invocations.contains(&canonical),
            "command {canonical} missing from the sections"
        );
    }
}

#[test]
fn tui_table_excludes_legacy_repl_only_commands() {
    let invocations: Vec<&str> = all_tui_commands().iter().map(|c| c.invocation).collect();
    for legacy_only in [
        "/connect",
        "/model",
        "/config path",
        "/login",
        "/plugin",
        "/mcp",
        "/permissions",
        "/hooks",
    ] {
        assert!(
            !invocations.contains(&legacy_only),
            "TUI help must not advertise unimplemented legacy command {legacy_only}"
        );
    }
    for tui_command in [
        "/help, ?",
        "/provider [name]",
        "/load <id>",
        "/doctor",
        "/skill, /skills",
    ] {
        assert!(
            invocations.contains(&tui_command),
            "TUI help missing implemented command {tui_command}"
        );
    }
}

#[test]
fn every_command_of_a_section_is_listed() {
    let all = all_commands();
    let count: usize = slash_sections().iter().map(|s| s.commands.len()).sum();
    assert_eq!(all.len(), count);
    let tui: usize = tui_slash_sections().iter().map(|s| s.commands.len()).sum();
    assert_eq!(all_tui_commands().len(), tui);
    assert_eq!(all[0].invocation, slash_sections()[0].commands[0].invocation);
}
