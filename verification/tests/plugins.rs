//! Plugins.

use cmux::answers::Ending;
use cmux::json::{parse, render, render_pretty};
use cmux::plugin::{
    base_dir, cmd_install, cmd_list, cmd_set_enabled, cmd_uninstall, dispatch, install_done,
    install_failed, load_registry, parse_manifest, plugins_dir, registry_path, run, InstallStep,
    ManifestFile, ManifestPlugin, PluginCommand, Registry, RegistryFile, USAGE,
};

fn manifest(name: &str, entry: &str, verbs: &[&str]) -> String {
    let verbs = verbs.iter().map(|v| format!("\"{v}\"")).collect::<Vec<_>>().join(", ");
    format!("[plugin]\nname = \"{name}\"\nentry = \"{entry}\"\nverbs = [{verbs}]\n")
}

/// What a text says as a manifest, or what is wrong with it.
fn read_manifest(text: &str) -> Result<ManifestPlugin, String> {
    let file: toml::Table = toml::from_str(text).map_err(|error| error.to_string())?;
    let plugin = file.get("plugin").ok_or_else(|| "missing field `plugin`".to_string())?;
    let field = |name: &str| plugin.get(name).ok_or_else(|| format!("missing field `{name}`"));
    let text = |v: &toml::Value| v.as_str().unwrap().to_string();
    Ok(ManifestPlugin {
        name: text(field("name")?),
        entry: text(field("entry")?),
        verbs: field("verbs")?.as_array().unwrap().iter().map(text).collect(),
    })
}

fn take_manifest(text: &str) -> Result<ManifestPlugin, String> {
    parse_manifest(read_manifest(text))
}

fn empty() -> Registry {
    load_registry(RegistryFile::Missing, "/r").unwrap()
}

fn load(content: &str) -> Result<Registry, String> {
    let read = parse(content)
        .and_then(|j| Registry::from_json(&j).ok_or_else(|| "no registry".to_string()));
    load_registry(RegistryFile::Text { content: content.to_string(), read }, "/r")
}

fn save(registry: &Registry) -> String {
    render_pretty(&registry.to_json())
}

fn list(registry: &Registry, json: bool) -> Ending {
    cmd_list(registry, &render(&registry.to_json()), json)
}

#[test]
fn parse_manifest_success() {
    let m = take_manifest(&manifest("fleet", "bin/fleet.wasm", &["deploy", "rollback"]))
        .expect("valid manifest parses");
    assert_eq!(m.name, "fleet");
    assert_eq!(m.entry, "bin/fleet.wasm");
    assert_eq!(m.verbs, vec!["deploy".to_string(), "rollback".to_string()]);
}

#[test]
fn parse_manifest_missing_name() {
    let err = take_manifest("[plugin]\nentry = \"x\"\nverbs = [\"y\"]\n").unwrap_err();
    assert!(err.contains("name"), "error should name the missing field: {err}");
}

#[test]
fn parse_manifest_missing_entry() {
    let err = take_manifest("[plugin]\nname = \"x\"\nverbs = [\"y\"]\n").unwrap_err();
    assert!(err.contains("entry"), "error should name the missing field: {err}");
}

#[test]
fn parse_manifest_missing_verbs() {
    let err = take_manifest("[plugin]\nname = \"x\"\nentry = \"y\"\n").unwrap_err();
    assert!(err.contains("verbs"), "error should name the missing field: {err}");
}

#[test]
fn parse_manifest_malformed_toml() {
    let err = take_manifest("this is not = = valid toml").unwrap_err();
    assert!(err.contains("malformed cmux-plugin.toml"), "error: {err}");
    assert!(!err.contains('\n'), "error: {err}");
}

#[test]
fn parse_manifest_empty_verbs_list() {
    let err = take_manifest("[plugin]\nname = \"x\"\nentry = \"y\"\nverbs = []\n").unwrap_err();
    assert!(err.contains("verbs"), "error: {err}");
}

#[test]
fn parse_manifest_name_must_not_be_a_path() {
    let err = take_manifest(&manifest("../evil", "x", &["y"])).unwrap_err();
    assert!(err.contains("path"), "error: {err}");
    let err = take_manifest(&manifest("a/b", "x", &["y"])).unwrap_err();
    assert!(err.contains("path"), "error: {err}");
}

fn read(text: &str) -> Registry {
    load(text).unwrap()
}

#[test]
fn install_list_uninstall_enable_disable_round_trip() {
    assert_eq!(list(&empty(), false).code, 0);
    assert_eq!(empty().plugins.len(), 0);

    let text = manifest("fleet", "bin/fleet.wasm", &["deploy", "rollback"]);
    let file = || ManifestFile::Text(read_manifest(&text));
    let plan = cmd_install("/m/cmux-plugin.toml", file(), Ok(empty())).unwrap();
    assert_eq!(install_done(&plan.plugin.name, "/m/cmux-plugin.toml").code, 0);

    let saved = save(&plan.registry);
    let reg = read(&saved);
    assert_eq!(reg.plugins.len(), 1);
    let entry = &reg.plugins[0];
    assert_eq!(entry.name, "fleet");
    assert!(entry.enabled);
    assert_eq!(entry.entry, "bin/fleet.wasm");
    assert_eq!(entry.verbs, vec!["deploy".to_string(), "rollback".to_string()]);

    let e = cmd_install("/m/cmux-plugin.toml", file(), Ok(read(&saved))).unwrap_err();
    assert_eq!(e.code, 1);

    assert_eq!(list(&reg, false).code, 0);

    let (off, _) = cmd_set_enabled(Ok(read(&saved)), "fleet", false).unwrap();
    assert!(!read(&save(&off)).plugins[0].enabled);
    let (on, _) = cmd_set_enabled(Ok(read(&save(&off))), "fleet", true).unwrap();
    assert!(read(&save(&on)).plugins[0].enabled);

    assert_eq!(cmd_set_enabled(Ok(read(&saved)), "nope", true).unwrap_err().code, 1);
    assert_eq!(cmd_uninstall(Ok(read(&saved)), "nope").unwrap_err().code, 1);

    let (gone, _) = cmd_uninstall(Ok(read(&saved)), "fleet").unwrap();
    assert_eq!(read(&save(&gone)).plugins.len(), 0);
}

#[test]
fn install_missing_manifest_arg_is_usage_error() {
    assert_eq!(dispatch("install", &[], false).unwrap_err().code, 2);
}

#[test]
fn install_nonexistent_file_is_command_error() {
    let file = ManifestFile::Failed("No such file or directory (os error 2)".to_string());
    let e = cmd_install("/nonexistent/cmux-plugin.toml", file, Ok(empty())).unwrap_err();
    assert_eq!(e.code, 1);
    assert_eq!(
        e.err.as_deref(),
        Some("cmux plugin install: cannot read \"/nonexistent/cmux-plugin.toml\": No such file or directory (os error 2)")
    );
}

#[test]
fn install_malformed_manifest_is_command_error() {
    let file = ManifestFile::Text(read_manifest("[plugin]\nname = \"x\"\n"));
    assert_eq!(cmd_install("/m", file, Ok(empty())).unwrap_err().code, 1);
}

#[test]
fn unknown_subcommand_is_usage_error() {
    assert_eq!(dispatch("frobnicate", &[], false).unwrap_err().code, 2);
}

#[test]
fn dispatch_help_prints_usage() {
    let e = dispatch("--help", &[], false).unwrap_err();
    assert_eq!(e.code, 0);
    assert!(e.out.starts_with(USAGE));
}

#[test]
fn list_empty_prints_no_plugins_installed() {
    let e = list(&empty(), false);
    assert_eq!(e.code, 0);
    assert!(e.out.contains("no plugins installed"), "{}", e.out);
    let e = list(&empty(), true);
    assert_eq!((e.code, e.out.as_str()), (0, "{\"plugins\":[]}\n"));
}

#[test]
fn words_of_the_plugin_command() {
    let words = vec!["x".to_string()];
    assert!(matches!(dispatch("list", &[], true), Ok(PluginCommand::List { json: true })));
    assert!(matches!(
        dispatch("enable", &words, false),
        Ok(PluginCommand::SetEnabled { enabled: true, .. })
    ));
    let two = vec!["x".to_string(), "y".to_string()];
    let e = dispatch("uninstall", &two, false).unwrap_err();
    assert_eq!(e.code, 2);
    assert!(e.err.unwrap().contains("unexpected extra argument \"y\""));
}

#[test]
fn a_registry_that_cannot_be_read_is_reported() {
    let e = load_registry(RegistryFile::Failed("denied".to_string()), "/r").unwrap_err();
    assert_eq!(e, "failed to read /r: denied");
    assert_eq!(load("{}").unwrap_err(), "corrupt registry /r: no registry");
    assert_eq!(read("  \n").plugins.len(), 0);
}

#[test]
fn a_failed_installation_is_taken_back() {
    let (undo, e) = install_failed(InstallStep::SaveRegistry, "/p", "full");
    assert!(undo);
    assert_eq!((e.code, e.err.as_deref()), (1, Some("cmux plugin install: full")));
}

#[test]
fn where_plugins_lie() {
    let home = Some("/home/u".to_string());
    assert_eq!(base_dir(&None, &home).unwrap(), "/home/u/.local/share/cmux");
    assert_eq!(base_dir(&Some("/data".to_string()), &home).unwrap(), "/data/cmux");
    assert_eq!(base_dir(&Some(String::new()), &home).unwrap(), "/home/u/.local/share/cmux");
    assert!(base_dir(&None, &None).is_err());
    assert_eq!(plugins_dir("/b"), "/b/plugins");
    assert_eq!(registry_path("/b"), "/b/plugins.json");
}

#[test]
fn records_may_be_given_as_lists() {
    let reg = read("[[[\"fleet\",true,\"bin/fleet.wasm\",[\"deploy\"]]]]");
    assert_eq!(reg.plugins[0].name, "fleet");
    assert_eq!(reg.plugins[0].verbs, vec!["deploy".to_string()]);
    assert!(load("[[],1]").is_err());
}

#[test]
fn the_directory_is_looked_for_before_the_command() {
    let unknown = vec!["frobnicate".to_string()];
    let there = Ok("/b".to_string());
    let gone = Err("nowhere".to_string());
    assert_eq!(run(&unknown, &there).unwrap_err().code, 2);
    let e = run(&unknown, &gone).unwrap_err();
    assert_eq!((e.code, e.err.as_deref()), (1, Some("cmux plugin: nowhere")));
    assert_eq!(run(&[], &gone).unwrap_err().out, USAGE);
}

#[test]
fn the_list_is_written_as_it_is_given() {
    let reg = read("{\"plugins\":[{\"name\":\"f\",\"enabled\":false,\"entry\":\"e\",\"verbs\":[\"v\"]}]}");
    assert_eq!(cmd_list(&reg, "{}", true).out, "{}\n");
    assert_eq!(cmd_list(&reg, "{}", false).out, "f disabled e v\n");
}

#[test]
fn no_second_slash_is_put_into_a_path() {
    assert_eq!(base_dir(&Some("/data/".to_string()), &None).unwrap(), "/data/cmux");
    assert_eq!(plugins_dir("/b/"), "/b/plugins");
}
