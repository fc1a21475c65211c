use indexmap::IndexMap;
use shaka::config::decode::{
    config_path, decode_pairs, describe_load_error, format_for_path, parse_jsonc_pairs, parse_pairs,
    parse_yaml_pairs, platform_from_os, tolerates_missing_file, ConfigError, ConfigPath, Format,
};
use shaka::config::{
    config_entries, filter_pairs, load_entries, load_into, merge_pairs, try_filtered_yaml, Conditional,
    OneOrMany, Platform, Value,
};
use shaka::document::Doc;
use shaka::render::fish::escape_single_quotes;
use shaka::render::{render, Shell};
use shaka::utils::env_expand::{expand_pwsh_env_vars, Environment};
use shaka::utils::jsonc::strip_json_comments;

fn pairs(v: &[(&str, &str)]) -> Vec<(String, String)> {
    v.iter().map(|(a, b)| (a.to_string(), b.to_string())).collect()
}

fn map_of(v: &[(&str, &str)]) -> IndexMap<String, String> {
    let mut m = IndexMap::new();
    for (a, b) in v {
        m.insert(a.to_string(), b.to_string());
    }
    m
}

fn items(m: IndexMap<String, String>) -> Vec<(String, String)> {
    m.into_iter().collect()
}

// Merging.

#[test]
fn merge_moves_merged_keys_last_and_keeps_the_rest_in_front() {
    let mut m = map_of(&[("a", "1"), ("b", "2"), ("c", "3")]);
    merge_pairs(&mut m, pairs(&[("b", "x"), ("a", "y")]));
    assert_eq!(items(m), pairs(&[("c", "3"), ("b", "x"), ("a", "y")]));
}

#[test]
fn merge_keeps_names_distinct() {
    let mut m = map_of(&[("a", "0")]);
    merge_pairs(&mut m, pairs(&[("a", "1"), ("b", "2"), ("a", "3")]));
    assert_eq!(items(m), pairs(&[("b", "2"), ("a", "3")]));
}

#[test]
fn merge_of_nothing_leaves_the_map() {
    let mut m = map_of(&[("a", "1"), ("b", "2")]);
    merge_pairs(&mut m, Vec::new());
    assert_eq!(items(m), pairs(&[("a", "1"), ("b", "2")]));
}

// Quoting.

#[test]
fn escape_closes_and_reopens_quotes() {
    assert_eq!(escape_single_quotes("it's"), "it'\\''s");
    assert_eq!(escape_single_quotes("''"), "'\\'''\\''");
    assert_eq!(escape_single_quotes("plain"), "plain");
    assert_eq!(escape_single_quotes(""), "");
}

#[test]
fn sh_alias_with_quote_is_a_single_word() {
    let entries = map_of(&[("q", "echo 'hi' there")]);
    assert_eq!(
        render(Shell::Bash, &entries, &Environment::empty()),
        "alias q='echo '\\''hi'\\'' there'\n"
    );
}

// PowerShell conflict mode.

#[test]
fn conflict_mode_differs_only_by_alias_removal() {
    let entries = map_of(&[("a", "git status"), ("b", "exit")]);
    let env = Environment::empty();
    let full = render(Shell::Pwsh, &entries, &env);
    let conflict = render(Shell::PwshConflict, &entries, &env);
    let without_removal: String = full
        .lines()
        .filter(|line| !line.starts_with("Remove-Alias "))
        .map(|line| format!("{line}\n"))
        .collect();
    assert_eq!(without_removal, conflict);
}

// Expansion.

#[test]
fn text_without_dollar_is_not_expanded() {
    let env = Environment::new(vec![("HOME".to_string(), "/h".to_string())]);
    assert_eq!(expand_pwsh_env_vars("HOME and more", &env), "HOME and more");
}

#[test]
fn empty_environment_keeps_references() {
    assert_eq!(
        expand_pwsh_env_vars("$HOME/$PATH and $1", &Environment::empty()),
        "$HOME/$PATH and $1"
    );
}

#[test]
fn non_ascii_letters_end_a_name() {
    let env = Environment::new(vec![("A".to_string(), "x".to_string())]);
    assert_eq!(expand_pwsh_env_vars("$Aé", &env), "xé");
}

// Comments.

#[test]
fn text_without_slash_is_kept() {
    assert_eq!(strip_json_comments("{\"a\": [1, 2]}"), "{\"a\": [1, 2]}");
}

#[test]
fn comments_are_removed_outside_strings() {
    assert_eq!(strip_json_comments("a /* x */ b // c\nd"), "a   b \nd");
    assert_eq!(
        strip_json_comments("{\"u\": \"http://x/*y*/\"}"),
        "{\"u\": \"http://x/*y*/\"}"
    );
    assert_eq!(strip_json_comments("\"a\\\"//\" // c"), "\"a\\\"//\" ");
    assert_eq!(strip_json_comments("1 /* open"), "1 /* open");
}

// Commands and filters.

#[test]
fn shell_specific_commands_fall_back_to_cmd() {
    let yaml = "w:\n  cmd: which\n  cmd.bash: type -a\n  cmd.pwsh: Get-Command\n";
    let get = |shell| {
        filter_pairs(parse_yaml_pairs(yaml).unwrap(), shell, Platform::Linux)
    };
    assert_eq!(get(Shell::Bash), pairs(&[("w", "type -a")]));
    assert_eq!(get(Shell::Zsh), pairs(&[("w", "which")]));
    assert_eq!(get(Shell::Fish), pairs(&[("w", "which")]));
    assert_eq!(get(Shell::Pwsh), pairs(&[("w", "Get-Command")]));
    assert_eq!(get(Shell::PwshConflict), pairs(&[("w", "Get-Command")]));

    let own = "w:\n  cmd: which\n  cmd.pwsh: Get-Command\n  cmd.pwsh-conflict: gcm\n";
    assert_eq!(
        filter_pairs(parse_yaml_pairs(own).unwrap(), Shell::PwshConflict, Platform::Linux),
        pairs(&[("w", "gcm")])
    );
}

#[test]
fn null_optional_entries_count_as_absent() {
    let json = "{\"w\": {\"cmd\": \"which\", \"cmd.bash\": null, \"shell\": null}}";
    assert_eq!(
        filter_pairs(parse_jsonc_pairs(json).unwrap(), Shell::Bash, Platform::Linux),
        pairs(&[("w", "which")])
    );
}

#[test]
fn unknown_keys_are_ignored() {
    let yaml = "w:\n  cmd: which\n  description: anything [1, 2]\n";
    assert_eq!(
        filter_pairs(parse_yaml_pairs(yaml).unwrap(), Shell::Bash, Platform::Linux),
        pairs(&[("w", "which")])
    );
}

#[test]
fn exclude_filters_are_the_complement_of_include_filters() {
    let only = "s:\n  cmd: x\n  shell: [bash, fish]\n";
    let except = "s:\n  cmd: x\n  shellExclude: [bash, fish]\n";
    for shell in [Shell::Bash, Shell::Zsh, Shell::Fish, Shell::Pwsh, Shell::PwshConflict] {
        let kept_only = !filter_pairs(parse_yaml_pairs(only).unwrap(), shell, Platform::Linux).is_empty();
        let kept_except = !filter_pairs(parse_yaml_pairs(except).unwrap(), shell, Platform::Linux).is_empty();
        assert_ne!(kept_only, kept_except);
    }
    let pl = "p:\n  cmd: x\n  platformExclude: windows\n";
    assert!(filter_pairs(parse_yaml_pairs(pl).unwrap(), Shell::Bash, Platform::Windows).is_empty());
    assert_eq!(filter_pairs(parse_yaml_pairs(pl).unwrap(), Shell::Bash, Platform::Macos).len(), 1);
}

#[test]
fn include_aliases_are_accepted() {
    let yaml = "s:\n  cmd: x\n  shellInclude: zsh\n  platformInclude: [macos]\n";
    assert_eq!(
        filter_pairs(parse_yaml_pairs(yaml).unwrap(), Shell::Zsh, Platform::Macos),
        pairs(&[("s", "x")])
    );
    assert!(filter_pairs(parse_yaml_pairs(yaml).unwrap(), Shell::Zsh, Platform::Linux).is_empty());
}

#[test]
fn conditional_given_as_its_ten_values() {
    let json = "{\"w\": [\"which\", \"type -a\", null, null, null, null, [\"bash\", \"zsh\"], null, null, \"windows\"]}";
    let get = |shell, platform| filter_pairs(parse_jsonc_pairs(json).unwrap(), shell, platform);
    assert_eq!(get(Shell::Bash, Platform::Linux), pairs(&[("w", "type -a")]));
    assert_eq!(get(Shell::Zsh, Platform::Linux), pairs(&[("w", "which")]));
    assert!(get(Shell::Fish, Platform::Linux).is_empty());
    assert!(get(Shell::Bash, Platform::Windows).is_empty());
    assert!(matches!(parse_jsonc_pairs("{\"w\": [\"which\"]}"), Err(ConfigError::Shape)));
}

#[test]
fn empty_filter_list_matches_nothing() {
    let yaml = "s:\n  cmd: x\n  shell: []\n";
    assert!(filter_pairs(parse_yaml_pairs(yaml).unwrap(), Shell::Bash, Platform::Linux).is_empty());
}

// Errors.

#[test]
fn shell_include_and_exclude_together_are_an_error() {
    let r = parse_yaml_pairs("a: x\nb:\n  cmd: y\n  shell: bash\n  shellExclude: zsh\n");
    assert!(matches!(r, Err(ConfigError::ShellFilters)));
    assert_eq!(
        r.unwrap_err().message(),
        "shell include and exclude are mutually exclusive"
    );
}

#[test]
fn platform_include_and_exclude_together_are_an_error() {
    let r = parse_jsonc_pairs(
        "{\"b\": {\"cmd\": \"y\", \"platform\": \"linux\", \"platformExclude\": \"macos\"}}",
    );
    assert!(matches!(r, Err(ConfigError::PlatformFilters)));
    assert_eq!(
        r.unwrap_err().message(),
        "platform include and exclude are mutually exclusive"
    );
}

#[test]
fn first_alias_with_conflicting_filters_decides_the_error() {
    let r = parse_yaml_pairs(
        "a:\n  cmd: y\n  platform: linux\n  platformExclude: macos\nb:\n  cmd: y\n  shell: bash\n  shellExclude: zsh\n",
    );
    assert!(matches!(r, Err(ConfigError::PlatformFilters)));
}

#[test]
fn a_field_and_its_alias_together_are_a_shape_error() {
    let r = parse_yaml_pairs("b:\n  cmd: y\n  shell: bash\n  shellInclude: zsh\n");
    assert!(matches!(r, Err(ConfigError::Shape)));
}

#[test]
fn malformed_text_is_a_syntax_error() {
    assert!(matches!(parse_jsonc_pairs("{\"a\": "), Err(ConfigError::Syntax(_))));
    assert!(matches!(parse_yaml_pairs("a: [1, 2"), Err(ConfigError::Syntax(_))));
    assert!(matches!(parse_jsonc_pairs("{} /* open"), Err(ConfigError::Syntax(_))));
}

#[test]
fn documents_of_another_shape_are_shape_errors() {
    assert!(matches!(parse_yaml_pairs("hello\n"), Err(ConfigError::Shape)));
    assert!(matches!(parse_jsonc_pairs("[[\"a\", \"b\", \"c\"]]"), Err(ConfigError::Shape)));
    assert!(matches!(parse_jsonc_pairs("{\"a\": 1}"), Err(ConfigError::Shape)));
    assert!(matches!(parse_jsonc_pairs("{\"a\": {\"cmd\": null}}"), Err(ConfigError::Shape)));
    assert!(matches!(parse_yaml_pairs(""), Err(ConfigError::Shape)));
}

#[test]
fn syntax_errors_pass_through_decoding() {
    let r = decode_pairs(Err("broken".to_string()));
    match r {
        Err(ConfigError::Syntax(m)) => assert_eq!(m, "broken"),
        _ => panic!("expected a syntax error"),
    }
    let r = decode_pairs(Ok(Doc::Mapping(vec![("a".to_string(), "\"x\"".to_string())])));
    assert_eq!(filter_pairs(r.unwrap(), Shell::Bash, Platform::Linux), pairs(&[("a", "x")]));
}

#[test]
fn platforms_of_operating_systems() {
    assert!(matches!(platform_from_os("linux"), Ok(Platform::Linux)));
    assert!(matches!(platform_from_os("macos"), Ok(Platform::Macos)));
    assert!(matches!(platform_from_os("windows"), Ok(Platform::Windows)));
    let e = platform_from_os("solaris").unwrap_err();
    assert_eq!(e.message(), "unrecognized platform: solaris");
    assert_eq!(ConfigError::NoHome.message(), "home directory not found");
}

#[test]
fn load_error_messages_name_the_file() {
    assert_eq!(
        describe_load_error(&ConfigError::Shape, "c.json", Format::Jsonc),
        "failed parsing JSON c.json: data did not match any variant of untagged enum Config"
    );
    assert_eq!(
        describe_load_error(&ConfigError::Syntax("bad".to_string()), "c.yaml", Format::Yaml),
        "failed parsing YAML c.yaml: bad"
    );
    assert_eq!(
        describe_load_error(&ConfigError::ShellFilters, "c.yaml", Format::Yaml),
        "shell include and exclude are mutually exclusive"
    );
}

// Locations and formats.

#[test]
fn configuration_locations() {
    assert!(matches!(config_path(None), ConfigPath::UnderHome(p) if p == ".config/shaka/config.json"));
    assert!(matches!(config_path(Some("~")), ConfigPath::Home));
    assert!(matches!(config_path(Some("~/a/b.json")), ConfigPath::UnderHome(p) if p == "a/b.json"));
    assert!(matches!(config_path(Some("~x")), ConfigPath::Literal(p) if p == "~x"));
    assert!(matches!(config_path(Some("/etc/s.json")), ConfigPath::Literal(p) if p == "/etc/s.json"));
    assert!(tolerates_missing_file(None));
    assert!(!tolerates_missing_file(Some("x.json")));
}

#[test]
fn formats_of_paths() {
    assert_eq!(format_for_path("global.yaml"), Format::Yaml);
    assert_eq!(format_for_path("a/b.yml"), Format::Yaml);
    assert_eq!(format_for_path("project.json"), Format::Jsonc);
    assert_eq!(format_for_path("config.jsonc"), Format::Jsonc);
    assert_eq!(format_for_path("yaml"), Format::Jsonc);
}

// Loading several documents in order.

fn load_texts(texts: &[(&str, &str)], shell: Shell, platform: Platform) -> Vec<(String, String)> {
    let mut merged = IndexMap::new();
    for (name, content) in texts {
        load_into(&mut merged, format_for_path(name), content, shell, platform).unwrap();
    }
    items(merged)
}

#[test]
fn later_files_override_earlier_files() {
    let got = load_texts(
        &[("global.yaml", "dc: docker compose\nls: eza\n"), ("project.json", "{\"dc\":\"docker compose -f dev.yml\"}")],
        Shell::Bash,
        Platform::Linux,
    );
    assert_eq!(got, pairs(&[("ls", "eza"), ("dc", "docker compose -f dev.yml")]));
}

#[test]
fn filter_before_merge_keeps_applicable_earlier_entry() {
    let got = load_texts(
        &[("global.yaml", "dc: docker compose\n"), ("project.yaml", "dc:\n  cmd: podman compose\n  platform: windows\n")],
        Shell::Bash,
        Platform::Linux,
    );
    assert_eq!(got, pairs(&[("dc", "docker compose")]));
}

#[test]
fn filtered_out_earlier_entry_does_not_block_later_applicable_one() {
    let got = load_texts(
        &[("global.yaml", "dc:\n  cmd: windows only\n  platform: windows\n"), ("project.yaml", "dc: docker compose\n")],
        Shell::Bash,
        Platform::Linux,
    );
    assert_eq!(got, pairs(&[("dc", "docker compose")]));
}

#[test]
fn merge_across_yaml_and_json_with_filters() {
    let got = load_texts(
        &[
            ("global.yaml", "gs: git status\nll:\n  cmd: eza -l\n  shell: [bash, zsh]\n"),
            ("project.json", "{ \"winonly\": { \"cmd\": \"explorer\", \"platform\": \"windows\" }, \"gs\": \"git st\" }"),
        ],
        Shell::Zsh,
        Platform::Macos,
    );
    assert_eq!(got, pairs(&[("ll", "eza -l"), ("gs", "git st")]));
}

#[test]
fn platform_specific_variants_select_correct_one_per_platform() {
    let files = [
        ("global.yaml", "ls:\n  cmd: eza\n  platform: [linux, macos]\n"),
        ("project.yaml", "ls:\n  cmd: dir\n  platform: windows\n"),
    ];
    let linux = load_texts(&files, Shell::Bash, Platform::Linux);
    assert_eq!(linux, pairs(&[("ls", "eza")]));

    let windows = load_texts(&files, Shell::Pwsh, Platform::Windows);
    assert_eq!(windows, pairs(&[("ls", "dir")]));
}

#[test]
fn failed_load_leaves_the_map() {
    let mut merged = map_of(&[("a", "1")]);
    let r = load_into(&mut merged, Format::Jsonc, "{\"b\": 2}", Shell::Bash, Platform::Linux);
    assert!(r.is_err());
    assert_eq!(items(merged), pairs(&[("a", "1")]));
}

#[test]
fn config_entries_merge_repeated_names() {
    let m = config_entries(
        Format::Yaml,
        "- [open, {cmd: open, platform: macos}]\n- [open, {cmd: xdg-open, platform: linux}]\n- [g, git]\n- [open, again]\n",
        Shell::Bash,
        Platform::Linux,
    )
    .unwrap();
    assert_eq!(items(m), pairs(&[("g", "git"), ("open", "again")]));
}

#[test]
fn names_may_be_written_as_one_entry_mappings() {
    let json = "{\"s\": {\"cmd\": \"x\", \"shell\": {\"zsh\": null}, \"platform\": [\"linux\", {\"macos\": null}]}}";
    let get = |shell, platform| filter_pairs(parse_jsonc_pairs(json).unwrap(), shell, platform);
    assert_eq!(get(Shell::Zsh, Platform::Macos), pairs(&[("s", "x")]));
    assert_eq!(get(Shell::Zsh, Platform::Linux), pairs(&[("s", "x")]));
    assert!(get(Shell::Bash, Platform::Linux).is_empty());
    assert!(get(Shell::Zsh, Platform::Windows).is_empty());
    assert!(matches!(
        parse_jsonc_pairs("{\"s\": {\"cmd\": \"x\", \"shell\": {\"zsh\": 1}}}"),
        Err(ConfigError::Shape)
    ));
    assert!(matches!(
        parse_yaml_pairs("s:\n  cmd: x\n  shell: {zsh: null, bash: null}\n"),
        Err(ConfigError::Shape)
    ));
}

#[test]
fn unknown_platform_is_reported_before_conflicting_filters() {
    let text = "{\"b\": {\"cmd\": \"y\", \"shell\": \"bash\", \"shellExclude\": \"zsh\"}}";
    assert!(matches!(
        load_entries(Format::Jsonc, text, Shell::Bash, "plan9"),
        Err(ConfigError::UnknownPlatform(p)) if p == "plan9"
    ));
    assert!(matches!(
        load_entries(Format::Jsonc, text, Shell::Bash, "linux"),
        Err(ConfigError::ShellFilters)
    ));
}

#[test]
fn load_entries_reads_before_the_platform() {
    assert!(matches!(
        load_entries(Format::Jsonc, "{", Shell::Bash, "plan9"),
        Err(ConfigError::Syntax(_))
    ));
    assert!(matches!(
        load_entries(Format::Jsonc, "{}", Shell::Bash, "plan9"),
        Err(ConfigError::UnknownPlatform(p)) if p == "plan9"
    ));
    let m = load_entries(Format::Jsonc, "{\"g\": \"git\"}", Shell::Fish, "linux").unwrap();
    assert_eq!(items(m), pairs(&[("g", "git")]));
}

#[test]
fn parse_pairs_follows_the_format() {
    assert!(parse_pairs(Format::Yaml, "a: b\n").is_ok());
    assert!(parse_pairs(Format::Jsonc, "a: b\n").is_err());
}

#[test]
fn try_filtered_yaml_reports_invalid_documents() {
    assert!(try_filtered_yaml("bad:\n  cmd: x\n  shell: powershell\n", Shell::Bash, Platform::Linux).is_none());
    assert_eq!(
        try_filtered_yaml("a: b\n", Shell::Bash, Platform::Linux),
        Some(pairs(&[("a", "b")]))
    );
}

// The model types.

#[test]
fn filter_values_name_their_items() {
    assert!(OneOrMany::One(Shell::Bash).contains(&Shell::Bash));
    assert!(!OneOrMany::One(Shell::Bash).contains(&Shell::Zsh));
    assert!(OneOrMany::Many(vec![Platform::Linux, Platform::Macos]).contains(&Platform::Macos));
    assert!(!OneOrMany::<Platform>::Many(vec![]).contains(&Platform::Macos));
}

#[test]
fn conditional_command_choice() {
    let c = Conditional {
        cmd: "which".to_string(),
        cmd_bash: None,
        cmd_fish: Some("type -a".to_string()),
        cmd_pwsh: Some("Get-Command".to_string()),
        cmd_pwsh_conflict: None,
        cmd_zsh: None,
        shell: None,
        shell_exclude: None,
        platform: None,
        platform_exclude: None,
    };
    let pairs_in = vec![("w".to_string(), Value::Conditional(Box::new(c)))];
    assert_eq!(filter_pairs(pairs_in, Shell::PwshConflict, Platform::Linux), pairs(&[("w", "Get-Command")]));
}
