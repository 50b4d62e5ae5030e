//! The hooks of the agents.

use cmux::answers::Ending;
use cmux::antigravity_hook::{self, AntigravityHooksConfig, HookFile as AntigravityFile};
use cmux::codex_hook::{self, CodexHooksConfig, HookFile as CodexFile};
use cmux::hooks::{
    hooks_ending, place, refuse_symlink, removal_ending, replace_marked_block, skill_installed,
    skill_removed, strip_marked_block, write_ending, HookPart, HookRequest, Outcome,
};
use cmux::json::{parse, render_pretty, Json};
use cmux::opencode_hook::{PluginFile, SkillRemoval, MTYX_PLUGIN};
use cmux::{aider_hook, grok_hook, opencode_hook, pi_hook};

fn words(list: &[&str]) -> Vec<String> {
    list.iter().map(|w| w.to_string()).collect()
}

/// What the file of the antigravity hooks becomes where it holds this text.
fn antigravity(text: &str, uninstall: bool) -> Result<String, Ending> {
    let read = parse(text).and_then(|j| {
        AntigravityHooksConfig::from_json(&j).ok_or_else(|| "no hooks".to_string())
    });
    let config = antigravity_hook::run_install(AntigravityFile::Text(read), "/p", uninstall)?;
    Ok(render_pretty(&config.to_json()))
}

/// What the file of the codex hooks becomes where it holds this text.
fn codex(text: &str, uninstall: bool) -> Result<String, Ending> {
    let read = parse(text)
        .and_then(|j| CodexHooksConfig::from_json(&j).ok_or_else(|| "no hooks".to_string()));
    let config = codex_hook::run_install(CodexFile::Text(read), "/p", uninstall)?;
    Ok(render_pretty(&config.unwrap().to_json()))
}

/// What becomes of the older grok file where it holds this text.
fn clean(text: &str) -> (grok_hook::LegacyAction, bool) {
    grok_hook::clean_legacy(parse(text).ok().and_then(|j| grok_hook::read_legacy(&j)))
}

fn home() -> Option<String> {
    Some("/home/u".to_string())
}

fn at<'a>(j: &'a Json, path: &[&str]) -> &'a Json {
    let mut j = j;
    for step in path {
        j = match step.parse::<usize>() {
            Ok(i) => &j.as_items().unwrap()[i],
            Err(_) => j.get(step).unwrap(),
        };
    }
    j
}

#[test]
fn native_hooks_use_grok_object_schema_and_hook_source() {
    let hooks = grok_hook::grok_native_hooks();
    let pre = at(&hooks, &["hooks", "PreToolUse", "0", "hooks", "0"]);
    assert_eq!(pre.field_chars("type"), Some("command"));
    let command = pre.field_chars("command").expect("command is a string");
    assert!(command.contains("--source hook"), "{command}");
    assert!(!command.contains("--source grok"), "{command}");
    assert!(command.contains("test -n \"$CMUX_MUX_SURFACE\""), "{command}");
    assert_eq!(
        at(&hooks, &["hooks", "Notification", "0"]).field_chars("matcher"),
        Some("idle_prompt|permission_prompt")
    );
}

#[test]
fn config_path_is_the_grok_hooks_directory() {
    let project = grok_hook::config_path(false, &None).expect("project path");
    assert_eq!(project, ".grok/hooks/cmux-agent-state.json");
}

#[test]
fn grok_hook_test_run_unknown_subcommand() {
    let code = grok_hook::run(&["invalid".to_string()]).unwrap_err().code;
    assert_eq!(code, 2);
}

#[test]
fn opencode_hook_test_run_unknown_subcommand() {
    let code = opencode_hook::run(&["invalid".to_string()]).unwrap_err().code;
    assert_eq!(code, 2);
}

#[test]
fn plugin_content_has_markers() {
    assert!(MTYX_PLUGIN.contains("MTYX-START"));
    assert!(MTYX_PLUGIN.contains("MTYX-END"));
}

#[test]
fn plugin_content_reports_agent_state() {
    assert!(MTYX_PLUGIN.contains("report-agent"));
    assert!(MTYX_PLUGIN.contains("working"));
    assert!(MTYX_PLUGIN.contains("idle"));
    assert!(MTYX_PLUGIN.contains("--source hook"));
}

#[test]
fn installers_read_their_part_and_flags() {
    let q = codex_hook::run(&words(&["install-hooks", "--global"])).unwrap();
    assert_eq!(q, HookRequest { part: HookPart::Hooks, uninstall: false, global: true });
    let q = pi_hook::run(&words(&["install-skill", "x", "--uninstall"])).unwrap();
    assert_eq!(q, HookRequest { part: HookPart::Skill, uninstall: true, global: false });
    let q = antigravity_hook::run(&words(&["install-hooks"])).unwrap();
    assert_eq!(q, HookRequest { part: HookPart::Hooks, uninstall: false, global: false });
    let e = aider_hook::run(&words(&["install-skill"])).unwrap_err();
    assert_eq!(e.code, 2);
    assert_eq!(
        e.err.as_deref(),
        Some("cmux-mux: usage: cmux-mux aider install-hooks [--uninstall] [--global]")
    );
    assert!(grok_hook::run(&[]).is_err());
}

#[test]
fn paths_lie_in_the_project_or_at_home() {
    assert_eq!(place(true, &None, "x", "y"), None);
    assert_eq!(place(true, &home(), "x", "y").as_deref(), Some("/home/u/x"));
    assert_eq!(place(false, &None, "x", "y").as_deref(), Some("y"));
    assert_eq!(codex_hook::paths(false, &None), None);
    assert_eq!(
        codex_hook::paths(true, &home()),
        Some(("/home/u/.codex/hooks.json".to_string(), "/home/u/.codex/config.toml".to_string()))
    );
    assert_eq!(
        codex_hook::paths(false, &home()),
        Some((".codex/hooks.json".to_string(), ".codex/config.toml".to_string()))
    );
    assert_eq!(
        grok_hook::legacy_config_path(true, &home()).as_deref(),
        Some("/home/u/.grok/hooks.json")
    );
    assert_eq!(aider_hook::wrapper_path(true, &home()).as_deref(), Some("/home/u/.local/bin/aider"));
    assert_eq!(
        pi_hook::extension_path(true, &home()).as_deref(),
        Some("/home/u/.pi/agent/extensions/cmux.ts")
    );
    assert_eq!(
        antigravity_hook::config_path(true, &home()).as_deref(),
        Some("/home/u/.gemini/config/hooks.json")
    );
}

#[test]
fn what_is_said_of_files() {
    let done = Outcome::Done;
    let failed = Outcome::Failed("no room".to_string());
    assert_eq!(write_ending(&done, "wrote ", "/p").out, "wrote /p\n");
    let e = write_ending(&failed, "wrote ", "/p");
    assert_eq!((e.code, e.err.as_deref()), (1, Some("error writing /p: no room")));
    let e = removal_ending(&None, "removed ", "none at ", "/p");
    assert_eq!((e.code, e.out.as_str()), (0, "none at /p\n"));
    let e = removal_ending(&Some(failed), "removed ", "none at ", "/p");
    assert_eq!(e.err.as_deref(), Some("error removing /p: no room"));
    assert_eq!(
        hooks_ending(&done, true, "/p").out,
        "Successfully removed cmux hooks from /p\n"
    );
    assert_eq!(
        hooks_ending(&done, false, "/p").out,
        "Successfully installed cmux hooks into /p\n"
    );
    assert_eq!(skill_removed(&None, "/p").out, "No cmux skill found at /p\n");
    assert_eq!(skill_installed(&done, "/p").out, "Successfully installed cmux skill into /p\n");
    assert!(refuse_symlink("/p", false, grok_hook::HOOKS_ADVICE).is_none());
    let e = refuse_symlink("/p", true, grok_hook::HOOKS_ADVICE).unwrap();
    assert_eq!(
        e.err.as_deref(),
        Some("error: refusing to overwrite symlink at /p. Remove it manually if you want to install the hooks.")
    );
}

#[test]
fn the_aider_wrapper_of_a_project_comes_with_a_note() {
    let e = aider_hook::install_ending(&Outcome::Done, ".bin/aider", false);
    assert_eq!(
        e.out,
        "Successfully installed aider wrapper at .bin/aider\nNote: Remember to run your agent using .bin/aider or prepend .bin to your PATH.\n"
    );
    let e = aider_hook::install_ending(&Outcome::Done, "/x", true);
    assert_eq!(e.out, "Successfully installed aider wrapper at /x\n");
    assert_eq!(aider_hook::uninstall_ending(&None, "/x").out, "No aider wrapper found at /x\n");
}

const START: &str = "<!-- CMUX-START -->";
const END: &str = "<!-- CMUX-END -->";

#[test]
fn a_marked_block_is_replaced_and_stripped() {
    let content = "one\n<!-- CMUX-START -->\nold\n<!-- CMUX-END -->\ntwo\n\n";
    assert_eq!(strip_marked_block(content, START, END), "one\ntwo");
    let put = replace_marked_block(content, START, END, "new");
    assert_eq!(put, "one\ntwo\n<!-- CMUX-START -->\nnew\n<!-- CMUX-END -->\n");
    assert_eq!(strip_marked_block(&put, START, END), "one\ntwo");
    assert_eq!(replace_marked_block(&put, START, END, "new"), put);
    assert_eq!(
        replace_marked_block("", START, END, "new"),
        "<!-- CMUX-START -->\nnew\n<!-- CMUX-END -->\n"
    );
    assert_eq!(strip_marked_block("a\n<!-- CMUX-START -->\nb", START, END), "a");
}

#[test]
fn the_pi_skill_comes_and_goes() {
    let with = pi_hook::put_skill("mine\n", "skill");
    assert_eq!(pi_hook::remove_skill(&with).as_deref(), Some("mine\n"));
    assert_eq!(pi_hook::remove_skill(&pi_hook::put_skill("", "skill")), None);
    let e = pi_hook::skill_removal_ending(&pi_hook::SkillFile::Missing, "/p");
    assert_eq!(e.out, "No APPEND_SYSTEM.md found at /p\n");
    let e = pi_hook::skill_removal_ending(&pi_hook::SkillFile::Removed, "/p");
    assert_eq!(e.out, "Removed empty APPEND_SYSTEM.md at /p\n");
}

#[test]
fn the_opencode_plugin_and_skills_come_and_go() {
    assert_eq!(opencode_hook::remove_plugin(MTYX_PLUGIN), None);
    let mut mixed = "// mine\n".to_string();
    mixed.push_str(MTYX_PLUGIN);
    assert_eq!(opencode_hook::remove_plugin(&mixed).as_deref(), Some("// mine"));
    let e = opencode_hook::uninstall_ending(&PluginFile::Missing, "/p");
    assert_eq!(e.out, "No opencode plugin found at /p\n");
    let e = opencode_hook::uninstall_ending(&PluginFile::Removed(Outcome::Done), "/p");
    assert_eq!(e.out, "Successfully removed mtyx plugin from /p\n");
    let e = opencode_hook::skills_removed(&vec![SkillRemoval::Removed, SkillRemoval::Missing]);
    assert_eq!(e.out, "Removed 1 mtyx skill(s) from opencode\n");
    let fault = SkillRemoval::Failed { path: "/p".to_string(), why: "busy".to_string() };
    let e = opencode_hook::skills_removed(&vec![SkillRemoval::Removed, fault]);
    assert_eq!((e.code, e.err.as_deref()), (1, Some("error removing /p: busy")));
    assert_eq!(opencode_hook::skills_installed(&vec![true, false]).code, 0);
    let e = opencode_hook::skills_installed(&vec![false, false]);
    assert_eq!(e.code, 1);
    assert_eq!(e.out, "Successfully installed 0 mtyx skill(s) into opencode\n");
}

#[test]
fn antigravity_hooks_are_merged_and_taken_out() {
    let text = "{\"hooks\":[{\"event\":\"Stop\",\"command\":\"mine\"},{\"event\":\"Stop\",\"command\":\"cmux report-agent old\"}]}";
    let written = antigravity(text, false).unwrap();
    let config = AntigravityHooksConfig::from_json(&parse(&written).unwrap()).unwrap();
    let commands: Vec<&str> = config.hooks.iter().map(|h| h.command.as_str()).collect();
    assert_eq!(
        commands,
        vec![
            "mine",
            "cmux report-agent --surface \"$CMUX_MUX_SURFACE\" --state working --source antigravity",
            "cmux report-agent --surface \"$CMUX_MUX_SURFACE\" --state idle --source antigravity",
            "cmux report-agent --surface \"$CMUX_MUX_SURFACE\" --state done --source antigravity",
        ]
    );
    assert_eq!(antigravity(&written, false).unwrap(), written);
    let gone = antigravity(&written, true).unwrap();
    let config = AntigravityHooksConfig::from_json(&parse(&gone).unwrap()).unwrap();
    assert_eq!(config.hooks.len(), 1);
}

#[test]
fn antigravity_files_that_are_not_understood_are_left_alone() {
    for uninstall in [false, true] {
        let file = AntigravityFile::Text(Err("missing field `event`".to_string()));
        let e = antigravity_hook::run_install(file, "/p", uninstall).unwrap_err();
        let said = "error: malformed Antigravity config at /p: missing field `event`";
        assert_eq!((e.code, e.err.as_deref()), (1, Some(said)));
    }
    let e = antigravity_hook::run_install(AntigravityFile::Missing, "/p", true).unwrap_err();
    assert_eq!((e.code, e.out.as_str()), (0, "No Antigravity hooks file found at /p\n"));
    let file = AntigravityFile::Failed("denied".to_string());
    let e = antigravity_hook::run_install(file, "/p", true).unwrap_err();
    assert_eq!(e.err.as_deref(), Some("error reading /p: denied"));
}

#[test]
fn codex_hooks_are_merged_and_taken_out() {
    let text = "{\"hooks\":{\"Stop\":[{\"command\":\"mine\"}],\"Odd\":[{\"command\":\"cmux-mux report-agent x\"}]}}";
    let written = codex(text, false).unwrap();
    let j = parse(&written).unwrap();
    let stop = at(&j, &["hooks", "Stop"]).as_items().unwrap();
    assert_eq!(stop.len(), 2);
    assert_eq!(stop[0].field_chars("command"), Some("mine"));
    assert_eq!(
        stop[1].field_chars("command"),
        Some("cmux-mux report-agent --surface \"$CMUX_MUX_SURFACE\" --state done --source codex")
    );
    assert_eq!(stop[1].field_chars("statusMessage"), Some("Reporting state to cmux"));
    assert_eq!(at(&j, &["hooks", "PreToolUse"]).as_items().unwrap().len(), 1);
    assert_eq!(at(&j, &["hooks", "Odd"]).as_items().unwrap().len(), 0);

    assert_eq!(codex(&written, false).unwrap(), written);
    let gone = codex(&written, true).unwrap();
    let config = CodexHooksConfig::from_json(&parse(&gone).unwrap()).unwrap();
    assert_eq!(config.hooks.len(), 1);
    assert_eq!(config.hooks[0].0, "Stop");
    assert_eq!(config.hooks[0].1.len(), 1);
}

#[test]
fn codex_files_that_are_not_understood() {
    let e = codex("{\"hooks\": 3}", false).unwrap_err();
    let said = "error: malformed Codex hooks config at /p: no hooks";
    assert_eq!((e.code, e.err.as_deref()), (1, Some(said)));
    assert_eq!(codex("{\"hooks\": 3}", true).unwrap(), "{\n  \"hooks\": {}\n}");
    assert!(codex_hook::run_install(CodexFile::Missing, "/p", true).unwrap().is_none());
    let file = CodexFile::Failed("denied".to_string());
    let e = codex_hook::run_install(file, "/p", true).unwrap_err();
    assert_eq!(e.err.as_deref(), Some("error reading /p: denied"));
}

#[test]
fn codex_is_switched_on_once() {
    assert_eq!(
        codex_hook::enable_switch("").as_deref(),
        Some("\n[features]\ncodex_hooks = true\n")
    );
    assert_eq!(
        codex_hook::enable_switch("a = 1").as_deref(),
        Some("a = 1\n\n[features]\ncodex_hooks = true\n")
    );
    let text = "# [features] in a comment\n [features] \nother = 1\n";
    let on = codex_hook::enable_switch(text).unwrap();
    assert_eq!(on, "# [features] in a comment\n [features] \ncodex_hooks = true\nother = 1\n");
    assert_eq!(codex_hook::enable_switch(&on), None);
    assert_eq!(codex_hook::enable_switch("docs.codex_hooks = true").is_some(), true);
    assert_eq!(codex_hook::enable_switch("  codex_hooks = true  "), None);
}

#[test]
fn the_older_grok_file_is_cleaned() {
    let text = |hooks: &str| format!("{{\"hooks\":[{hooks}]}}");
    let own = "{\"event\":\"Stop\",\"command\":\"cmux report-agent x\"}";
    let other = "{\"event\":\"Stop\",\"command\":\"mine\"}";
    let (action, changed) = clean(&text(own));
    assert!(matches!(action, grok_hook::LegacyAction::Remove) && changed);
    let (action, changed) = clean(&text(""));
    assert!(matches!(action, grok_hook::LegacyAction::Remove) && !changed);
    let (action, changed) = clean(&text(other));
    assert!(matches!(action, grok_hook::LegacyAction::Leave) && !changed);
    let (action, changed) = clean(&text(&format!("{own},{other}")));
    assert!(changed);
    match action {
        grok_hook::LegacyAction::Save(config) => {
            let commands: Vec<&str> = config.hooks.iter().map(|h| h.command.as_str()).collect();
            assert_eq!(commands, vec!["mine"]);
        }
        other => panic!("{other:?}"),
    }
    let (action, changed) = clean("not json");
    assert!(matches!(action, grok_hook::LegacyAction::Leave) && !changed);
    let (action, changed) = clean("{\"theme\":\"dark\"}");
    assert!(matches!(action, grok_hook::LegacyAction::Leave) && !changed);
    let (action, changed) = clean("{\"hooks\":null}");
    assert!(matches!(action, grok_hook::LegacyAction::Leave) && !changed);
    let (action, changed) = clean(&format!("[[{own}]]"));
    assert!(matches!(action, grok_hook::LegacyAction::Remove) && changed);
    assert!(!grok_hook::clean_legacy(None).1);
}

#[test]
fn how_the_grok_installer_ends() {
    assert_eq!(
        grok_hook::uninstall_ending(&None, false, "/p").out,
        "No Grok hooks file found at /p\n"
    );
    assert_eq!(
        grok_hook::uninstall_ending(&None, true, "/p").out,
        "Successfully removed cmux hooks from /p\n"
    );
    let e = grok_hook::uninstall_ending(&Some(Outcome::Failed("busy".to_string())), true, "/p");
    assert_eq!((e.code, e.err.as_deref()), (1, Some("error removing /p: busy")));
    assert_eq!(
        grok_hook::directory_failed("/d", "denied").err.as_deref(),
        Some("error creating /d: denied")
    );
    assert!(grok_hook::hooks_text().contains("\"timeout\": 5"));
}

#[test]
fn hook_files_may_hold_lists_for_records() {
    let written = antigravity("[[[\"Stop\",\"mine\"]]]", true).unwrap();
    assert!(written.contains("mine"), "{written}");
    assert!(antigravity("[[],[]]", true).is_err());
    let written = codex("[{\"Stop\":[[\"mine\"]]}]", true).unwrap();
    assert!(written.contains("mine"), "{written}");
    assert_eq!(
        place(true, &Some("/home/u/".to_string()), "x", "y").as_deref(),
        Some("/home/u/x")
    );
}
