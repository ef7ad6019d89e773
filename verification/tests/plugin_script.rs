use codex_api::plugin_script::path::{
    normalized_relative_path, LexicalPath, PathComponent, PathName,
};
use codex_api::plugin_script::resolve::{
    resolve_plugin_script, scripts_dir, CanonicalPaths, FirstPartyPluginRoot,
    ResolvedPluginScript, SkillLoadOutcome, SkillMetadata,
};
use codex_api::plugin_script::script_token::{
    command_tokens, script_for_program, script_token, ShellType, WordCommands,
};

/// The path that `text` writes, `/` being its root and its separator.
fn path(text: &str) -> LexicalPath {
    let mut components = Vec::new();
    if text.starts_with('/') {
        components.push(PathComponent::RootDir);
    }
    for part in text.split('/').filter(|part| !part.is_empty()) {
        components.push(match part {
            "." => PathComponent::CurDir,
            ".." => PathComponent::ParentDir,
            name => PathComponent::Normal(PathName {
                bytes: name.as_bytes().to_vec(),
                text: name.to_string(),
            }),
        });
    }
    LexicalPath { components }
}

/// The text that writes `path`.
fn written(path: &LexicalPath) -> String {
    let mut text = String::new();
    for component in &path.components {
        match component {
            PathComponent::Prefix(name) => text.push_str(&name.text),
            PathComponent::RootDir => text.push('/'),
            PathComponent::CurDir => text.push_str("./"),
            PathComponent::ParentDir => text.push_str("../"),
            PathComponent::Normal(name) => {
                text.push_str(&name.text);
                text.push('/');
            }
        }
    }
    text.trim_end_matches('/').to_string()
}

fn roots() -> Vec<FirstPartyPluginRoot> {
    vec![FirstPartyPluginRoot {
        plugin_id: "openai/demo".to_string(),
        plugin_root: path("/tmp/fixture/plugin"),
    }]
}

fn no_skills() -> SkillLoadOutcome {
    SkillLoadOutcome { skills: Vec::new() }
}

fn skill(name: &str, plugin_id: Option<&str>, dir: &str, enabled: bool) -> SkillMetadata {
    SkillMetadata {
        name: name.to_string(),
        plugin_id: plugin_id.map(|id| id.to_string()),
        path_to_skills_md: path(&format!("{dir}/SKILL.md")),
        enabled,
    }
}

fn demo_skill() -> SkillLoadOutcome {
    SkillLoadOutcome {
        skills: vec![skill("demo", Some("openai/demo"), "/tmp/fixture/plugin/skills/demo", true)],
    }
}

/// What a POSIX shell makes of a command that holds plain words alone.
fn parsed(command: &str) -> Option<WordCommands> {
    Some(
        command
            .split("&&")
            .map(|part| part.split_whitespace().map(|word| word.to_string()).collect())
            .collect(),
    )
}

/// The plugin script that `command` runs in the plugin's root, where `links`
/// leads a path to where it points.
fn resolve_linked(
    roots: &Vec<FirstPartyPluginRoot>,
    skills: &SkillLoadOutcome,
    command: &str,
    links: fn(&str) -> &str,
) -> Option<ResolvedPluginScript> {
    let script = script_token(command, ShellType::Bash, parsed(command))?;
    let script = links(script.trim_start_matches("./"));
    let script = if script.starts_with('/') {
        path(script)
    } else {
        path(&format!("/tmp/fixture/plugin/{script}"))
    };
    let paths = CanonicalPaths {
        script,
        plugin_roots: roots.iter().map(|root| Some(root.plugin_root.clone())).collect(),
        scripts_dirs: skills.skills.iter().map(scripts_dir).collect(),
    };
    resolve_plugin_script(roots, skills, &paths)
}

fn resolve(
    roots: &Vec<FirstPartyPluginRoot>,
    skills: &SkillLoadOutcome,
    command: &str,
) -> Option<ResolvedPluginScript> {
    resolve_linked(roots, skills, command, |script| script)
}

#[test]
fn resolves_interpreter_script_to_plugin_relative_path_and_skill() {
    let script = "skills/demo/scripts/run.py";
    let resolved =
        resolve(&roots(), &demo_skill(), &format!("python {script} --secret argument"))
            .expect("plugin script");

    assert_eq!(resolved.plugin_id, "openai/demo");
    assert_eq!(resolved.script_path, "skills/demo/scripts/run.py");
    let skill = resolved.skill.expect("skill");
    assert_eq!(skill.skill_name, "demo");
    assert_eq!(written(&skill.skill_path), "/tmp/fixture/plugin/skills/demo/SKILL.md");
}

#[test]
fn resolves_direct_executable_without_a_known_extension() {
    let resolved = resolve(&roots(), &no_skills(), "./bin/run").expect("plugin script");

    assert_eq!(resolved.script_path, "bin/run");
    assert!(resolved.skill.is_none());
}

#[test]
fn rejects_non_plugin_and_symlink_escape_paths() {
    assert!(resolve(&roots(), &no_skills(), "/tmp/fixture/outside.py").is_none());

    let escape = |script: &str| -> &str {
        match script {
            "escape.py" => "/tmp/fixture/outside.py",
            _ => unreachable!(),
        }
    };
    assert!(resolve_linked(&roots(), &no_skills(), "python escape.py", escape).is_none());
}

#[test]
fn resolves_node_and_shell_scripts() {
    for (command, expected) in [
        (
            "node skills/demo/scripts/run.js",
            "skills/demo/scripts/run.js",
        ),
        (
            "sh skills/demo/scripts/run.sh",
            "skills/demo/scripts/run.sh",
        ),
    ] {
        let resolved = resolve(&roots(), &no_skills(), command).expect("plugin script");
        assert_eq!(resolved.script_path, expected);
    }
}

#[test]
fn rejects_compound_commands_and_runner_options() {
    for command in [
        "python skills/demo/scripts/run.py && python skills/demo/scripts/run.py",
        "python -c skills/demo/scripts/run.py",
        "python --help skills/demo/scripts/run.py",
        "node --loader skills/demo/scripts/loader.js skills/demo/scripts/run.js",
        "env -C skills/demo python scripts/run.py",
    ] {
        assert!(
            resolve(&roots(), &no_skills(), command).is_none(),
            "unexpected lifecycle attribution for {command}"
        );
    }
}

#[test]
fn direct_executable_matching_interpreter_name_is_case_sensitive() {
    let resolved =
        resolve(&roots(), &no_skills(), "./Python").expect("case-sensitive direct executable");
    assert_eq!(resolved.script_path, "Python");
}

#[test]
fn powershell_split_preserves_paths_and_rejects_compounds() {
    assert_eq!(
        command_tokens(
            r#"pwsh.exe -File C:\Users\me\plugin\scripts\run.ps1"#,
            ShellType::PowerShell,
            None,
        ),
        Some(vec![
            "pwsh.exe".to_string(),
            "-File".to_string(),
            r#"C:\Users\me\plugin\scripts\run.ps1"#.to_string(),
        ])
    );
    assert_eq!(
        command_tokens(
            r#"& 'C:\Program Files\plugin\scripts\run.ps1'"#,
            ShellType::PowerShell,
            None,
        ),
        Some(vec![
            r#"C:\Program Files\plugin\scripts\run.ps1"#.to_string()
        ])
    );
    assert!(command_tokens("python a.py; python b.py", ShellType::PowerShell, None).is_none());
}

fn split(command: &str) -> Option<Vec<String>> {
    command_tokens(command, ShellType::PowerShell, None)
}

#[test]
fn powershell_quotes_and_backticks() {
    assert_eq!(split("a  \t b"), Some(vec!["a".to_string(), "b".to_string()]));
    assert_eq!(split("'it''s' \"say \"\"x\"\"\""), Some(vec!["it's".to_string(), "say \"x\"".to_string()]));
    assert_eq!(split("a'b c'd"), Some(vec!["ab cd".to_string()]));
    assert_eq!(split("a` b \"`\"\""), Some(vec!["a b".to_string(), "\"".to_string()]));
    assert_eq!(split("''"), Some(vec![String::new()]));
    assert_eq!(split("'a;b|c&d\n'"), Some(vec!["a;b|c&d\n".to_string()]));
    assert_eq!(split("'a\"b'"), Some(vec!["a\"b".to_string()]));
    assert_eq!(split("a`"), None);
    assert_eq!(split("'a"), None);
    assert_eq!(split("'a`"), None);
    assert_eq!(split("\"a''"), None);
}

#[test]
fn powershell_call_operator_stands_first_only() {
    assert_eq!(split("& a b"), Some(vec!["a".to_string(), "b".to_string()]));
    assert_eq!(split(" &\ta"), Some(vec!["a".to_string()]));
    assert_eq!(split("& & a"), Some(vec!["a".to_string()]));
    assert_eq!(split("&a"), None);
    assert_eq!(split("&"), None);
    assert_eq!(split("& "), None);
    assert_eq!(split("&\na"), None);
    assert_eq!(split("&\u{a0}a"), Some(vec!["\u{a0}a".to_string()]));
    assert_eq!(split("a & b"), None);
    assert_eq!(split("a&b"), None);
    assert_eq!(split("''& b"), None);
}

#[test]
fn powershell_compounds_and_blank_lines_have_no_words() {
    for command in ["", "  \t", "a | b", "a\nb", "a\r", ";", "|", "a;", "\na"] {
        assert_eq!(split(command), None, "{command:?}");
    }
}

#[test]
fn posix_shells_take_the_one_parsed_command() {
    for shell in [ShellType::Bash, ShellType::Sh, ShellType::Zsh] {
        assert_eq!(
            command_tokens("ignored", shell, parsed("python run.py")),
            Some(vec!["python".to_string(), "run.py".to_string()])
        );
        assert_eq!(command_tokens("ignored", shell, parsed("a && b")), None);
        assert_eq!(command_tokens("ignored", shell, Some(Vec::new())), None);
        assert_eq!(command_tokens("ignored", shell, None), None);
        assert_eq!(script_token("ignored", shell, Some(vec![Vec::new()])), None);
    }
    assert_eq!(command_tokens("python run.py", ShellType::Cmd, parsed("python run.py")), None);
}

fn script(command: &str) -> Option<String> {
    script_token(command, ShellType::Bash, parsed(command))
}

fn powershell_script(command: &str) -> Option<String> {
    script_token(command, ShellType::PowerShell, None)
}

#[test]
fn interpreters_run_their_first_argument() {
    for program in ["python", "python3", "node", "bash", "zsh", "sh", "/usr/bin/python3", "./sh/."] {
        assert_eq!(script(&format!("{program} a.x -v")).as_deref(), Some("a.x"), "{program}");
        assert_eq!(script(&format!("{program} -a x")), None, "{program}");
        assert_eq!(script(program), None, "{program}");
    }
}

#[test]
fn other_programs_are_scripts_where_they_have_a_path() {
    assert_eq!(script("./run x").as_deref(), Some("./run"));
    assert_eq!(script("a\\b").as_deref(), Some("a\\b"));
    assert_eq!(script("ls"), None);
    assert_eq!(script("python4 a.py"), None);
    assert_eq!(script("a/.."), None);
    assert_eq!(script("/"), None);
    assert_eq!(script("a/b/").as_deref(), Some("a/b/"));
    assert_eq!(script("Python a.py"), None);
    assert_eq!(script("python.exe a.py"), None);
}

#[test]
fn powershell_runs_what_follows_its_file_option() {
    for command in ["pwsh -File a.ps1 -x", "PwSh.EXE -f a.ps1", "powershell -FILE a.ps1"] {
        assert_eq!(powershell_script(command).as_deref(), Some("a.ps1"), "{command}");
    }
    for command in ["pwsh a.ps1", "pwsh -File", "pwsh -Command a.ps1", "pwsh", "pwsh -x -File a.ps1"] {
        assert_eq!(powershell_script(command), None, "{command}");
    }
    assert_eq!(powershell_script("PYTHON.exe a.py").as_deref(), Some("a.py"));
    assert_eq!(powershell_script("& './my run.ps1'").as_deref(), Some("./my run.ps1"));
    assert_eq!(script("pwsh -File a.ps1").as_deref(), Some("a.ps1"));
}

#[test]
fn program_names_decide_whatever_the_first_word_is() {
    let tokens = |words: &str| words.split(' ').map(|w| w.to_string()).collect::<Vec<String>>();
    let run = |words: &str, shell, name: Option<&str>| {
        script_for_program(&tokens(words), shell, name.map(|n| n.to_string()))
    };
    assert_eq!(run("C:\\py.exe a.py", ShellType::Cmd, Some("Node.EXE")).as_deref(), Some("a.py"));
    assert_eq!(run("./x a.py", ShellType::Bash, None), None);
    assert_eq!(run("./x a.py", ShellType::Bash, Some("x")).as_deref(), Some("./x"));
    assert_eq!(run("x a.py", ShellType::Cmd, Some(".exe")), None);
    assert_eq!(script_for_program(&Vec::new(), ShellType::Bash, Some("x".to_string())), None);
}

#[test]
fn a_script_may_start_with_anything_but_a_hyphen() {
    let words = Some(vec![vec!["sh".to_string(), String::new()]]);
    assert_eq!(script_token("", ShellType::Sh, words).as_deref(), Some(""));
}

fn root(id: &str, text: &str) -> FirstPartyPluginRoot {
    FirstPartyPluginRoot { plugin_id: id.to_string(), plugin_root: path(text) }
}

fn owner_of(roots: &Vec<FirstPartyPluginRoot>, script: &str) -> Option<(String, String)> {
    let paths = CanonicalPaths {
        script: path(script),
        plugin_roots: roots.iter().map(|root| Some(root.plugin_root.clone())).collect(),
        scripts_dirs: Vec::new(),
    };
    resolve_plugin_script(roots, &no_skills(), &paths)
        .map(|resolved| (resolved.plugin_id, resolved.script_path))
}

#[test]
fn the_deepest_root_owns_the_script() {
    let roots = vec![root("outer", "/p"), root("inner", "/p/q"), root("other", "/p/r")];
    let owned = |script| owner_of(&roots, script);
    assert_eq!(owned("/p/q/a.py"), Some(("inner".to_string(), "a.py".to_string())));
    assert_eq!(owned("/p/x/a.py"), Some(("outer".to_string(), "x/a.py".to_string())));
    assert_eq!(owned("/p/qq/a.py"), Some(("outer".to_string(), "qq/a.py".to_string())));
    assert_eq!(owned("/q/a.py"), None);
    assert_eq!(owned("/p"), None);
}

#[test]
fn of_two_roots_in_one_place_the_last_owns_the_script() {
    let roots = vec![root("first", "/p"), root("second", "/p")];
    assert_eq!(owner_of(&roots, "/p/a"), Some(("second".to_string(), "a".to_string())));
}

#[test]
fn a_root_itself_is_no_script_even_inside_another() {
    let roots = vec![root("outer", "/p"), root("inner", "/p/q")];
    assert_eq!(owner_of(&roots, "/p/q"), None);
}

#[test]
fn roots_and_directories_that_are_not_there_hold_nothing() {
    let roots = vec![root("a", "/p")];
    let skills =
        SkillLoadOutcome { skills: vec![skill("s", Some("a"), "/p", true), skill("t", Some("a"), "/p", true)] };
    let mut paths = CanonicalPaths {
        script: path("/p/scripts/x"),
        plugin_roots: vec![Some(path("/p"))],
        scripts_dirs: vec![None, Some(path("/p/scripts"))],
    };
    let resolved = resolve_plugin_script(&roots, &skills, &paths).unwrap();
    assert_eq!(resolved.skill.unwrap().skill_name, "t");
    paths.scripts_dirs = Vec::new();
    assert!(resolve_plugin_script(&roots, &skills, &paths).unwrap().skill.is_none());
    paths.plugin_roots = vec![None];
    assert!(resolve_plugin_script(&roots, &skills, &paths).is_none());
}

#[test]
fn the_first_enabled_skill_of_the_plugin_is_reported() {
    let roots = vec![root("a", "/p")];
    let skills = SkillLoadOutcome {
        skills: vec![
            skill("foreign", Some("b"), "/p/s", true),
            skill("free", None, "/p/s", true),
            skill("disabled", Some("a"), "/p/s", false),
            skill("elsewhere", Some("a"), "/p/t", true),
            skill("mine", Some("a"), "/p/s", true),
            skill("mine too", Some("a"), "/p/s", true),
        ],
    };
    let paths = CanonicalPaths {
        script: path("/p/s/scripts/deep/x"),
        plugin_roots: vec![Some(path("/p"))],
        scripts_dirs: skills.skills.iter().map(scripts_dir).collect(),
    };
    let resolved = resolve_plugin_script(&roots, &skills, &paths).unwrap();
    assert_eq!(resolved.skill.unwrap().skill_name, "mine");
}

#[test]
fn scripts_lie_next_to_the_description_of_a_skill() {
    let dir = scripts_dir(&skill("s", None, "/p/skills/s", true)).unwrap();
    assert_eq!(written(&dir), "/p/skills/s/scripts");
    let bare = SkillMetadata {
        name: String::new(),
        plugin_id: None,
        path_to_skills_md: path("/"),
        enabled: true,
    };
    assert!(scripts_dir(&bare).is_none());
}

#[test]
fn reported_paths_hide_the_root_and_have_slashes() {
    for place in ["/home/me/plugins/x", "/opt/x"] {
        let owned = owner_of(&vec![root("x", place)], &format!("{place}/bin/run"));
        assert_eq!(owned, Some(("x".to_string(), "bin/run".to_string())));
    }
    assert_eq!(normalized_relative_path(&path("./a/../b")), "a/b");
    assert_eq!(normalized_relative_path(&path("")), "");
}

#[test]
fn names_are_compared_by_their_bytes() {
    let name = |bytes: &[u8]| LexicalPath {
        components: vec![PathComponent::Normal(PathName {
            bytes: bytes.to_vec(),
            text: "\u{fffd}".to_string(),
        })],
    };
    assert!(name(&[0xff]).is_within(&name(&[0xff])));
    assert!(!name(&[0xff]).is_within(&name(&[0xfe])));
    assert_eq!(name(&[0xff]).strip_prefix(&name(&[0xff])).unwrap().components.len(), 0);
    assert!(path("/a").parent().unwrap().parent().is_none());
    assert!(path("").parent().is_none());
}

#[test]
fn powershell_separators_behind_quoted_commands_are_rejected() {
    for command in ["& 'a b'", "a\"b;c\"", "`;x", "''"] {
        assert!(split(command).is_some(), "{command}");
        for rest in [";", "; c", "& c", "|'c'", "\nc", "\r"] {
            assert_eq!(split(&format!("{command}{rest}")), None, "{command}{rest}");
        }
    }
}

#[test]
fn programs_written_with_backslashes_are_scripts() {
    for program in [
        "a\\b",
        "C:\\plugin\\scripts\\run.ps1",
        "C:\\Program Files\\plugin\\scripts\\run.ps1",
        ".\\run.ps1",
        "\\\\server\\share\\run.ps1",
        "//server/share/run.ps1",
        "\\\\?\\C:\\plugin\\run.ps1",
        "\\\\?\\UNC\\server\\share\\run.ps1",
    ] {
        let command = format!("& '{program}' -x");
        assert_eq!(powershell_script(&command).as_deref(), Some(program), "{program}");
        let words = Some(vec![vec![program.to_string()]]);
        assert_eq!(script_token("", ShellType::Bash, words).as_deref(), Some(program), "{program}");
    }
}

#[test]
fn reported_paths_stay_as_they_are_when_read_again() {
    for text in ["/a/b", "a//b/./c/", "./../x", "/", "", "..", "a/../../b"] {
        let reported = normalized_relative_path(&path(text));
        assert_eq!(normalized_relative_path(&path(&reported)), reported);
        assert!(!reported.starts_with('/') && !reported.ends_with('/'), "{text}");
        for segment in reported.split('/') {
            assert!(reported.is_empty() || !["", ".", ".."].contains(&segment), "{text}");
        }
    }
    assert_eq!(normalized_relative_path(&path("a//b/./c/")), "a/b/c");
}

#[test]
fn powershell_blanks_and_the_call_operator_before_a_command_do_not_count() {
    for command in ["a b", "'x y' z", "& c", "", "a;b", "'open", "&d"] {
        for before in [" ", "\t ", "& ", "&\t", " & & "] {
            assert_eq!(split(&format!("{before}{command}")), split(command), "{before}{command}");
        }
    }
}

#[test]
fn powershell_commands_that_are_left_open_are_rejected() {
    for command in ["a", "'a b'", "& \"c\" ", "d`'"] {
        assert!(split(command).is_some(), "{command}");
        for tail in ["'", "\"", "'x", "\"x'", "'x`", "'x''", "`"] {
            assert_eq!(split(&format!("{command}{tail}")), None, "{command}{tail}");
        }
    }
}

#[test]
fn powershell_words_of_two_commands_are_joined() {
    for first in ["a 'b c'", "& d", " e "] {
        for second in ["f", "  'g;' h", "`i"] {
            for blank in [" ", "\t"] {
                let mut expected = split(first).unwrap();
                expected.extend(split(second).unwrap());
                assert_eq!(split(&format!("{first}{blank}{second}")), Some(expected));
            }
        }
    }
    assert_eq!(split("a & b"), None);
}
