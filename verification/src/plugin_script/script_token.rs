//! Which script a shell command runs.

use vstd::prelude::*;

use crate::plugin_script::file_name::{
    drive_file_name, is_obscure, is_portable, may_be_file_name, path_file_name,
    portable_file_name_is_one, server_file_name, slash_file_name, starts_with_server,
};
use crate::plugin_script::windows_command::{command_words, split_windows_command};
use crate::text::{
    ascii_lowered, chars_of, contains_char, same_text, text_of, to_ascii_lower,
};

verus! {

/// The shells that commands are written for.
#[derive(Debug, Clone, Copy, PartialEq, Eq, Structural)]
pub enum ShellType {
    Zsh,
    Bash,
    PowerShell,
    Sh,
    Cmd,
}

/// The commands of a shell command line, as the words that each of them
/// consists of.
pub type WordCommands = Vec<Vec<String>>;

/// The words of a command line that is a single plain command. `parsed` holds
/// the commands to which a POSIX shell parses the line, where all of them
/// consist of plain words.
pub open spec fn command_line_words(
    command: Seq<char>,
    shell_type: ShellType,
    parsed: Option<Seq<Seq<Seq<char>>>>,
) -> Option<Seq<Seq<char>>> {
    match shell_type {
        ShellType::Bash | ShellType::Sh | ShellType::Zsh => match parsed {
            Some(commands) if commands.len() == 1 => Some(commands[0]),
            _ => None,
        },
        ShellType::PowerShell => command_words(command, 0),
        ShellType::Cmd => None,
    }
}

/// The words of `command`, where it is a single plain command. For the POSIX
/// shells, `parsed` is what the shell's grammar makes of the command: the words
/// of each of its commands, or `None` where it holds more than plain words.
pub fn command_tokens(
    command: &str,
    shell_type: ShellType,
    parsed: Option<WordCommands>,
) -> (tokens: Option<Vec<String>>)
    ensures
        tokens.deep_view() == command_line_words(command@, shell_type, parsed.deep_view()),
{
    match shell_type {
        ShellType::Bash | ShellType::Sh | ShellType::Zsh => {
            let mut commands = match parsed {
                Some(commands) => commands,
                None => {
                    return None;
                },
            };
            if commands.len() != 1 {
                return None;
            }
            assert(commands.deep_view()[0] == commands@[0].deep_view());
            commands.pop()
        },
        ShellType::PowerShell => split_windows_command(command),
        ShellType::Cmd => None,
    }
}

/// The shells whose program names are compared as Windows does.
pub open spec fn is_windows_shell(shell_type: ShellType) -> bool {
    shell_type is PowerShell || shell_type is Cmd
}

/// `s` without the ending `suffix`, where it has it.
pub open spec fn without_suffix(s: Seq<char>, suffix: Seq<char>) -> Seq<char> {
    if suffix.len() <= s.len() && s.skip(s.len() - suffix.len()) == suffix {
        s.take(s.len() - suffix.len())
    } else {
        s
    }
}

/// The name by which the program with the file name `file_name` is known: on
/// Windows shells in lower case and without `.exe`.
pub open spec fn program_name(file_name: Seq<char>, shell_type: ShellType) -> Seq<char> {
    if is_windows_shell(shell_type) {
        without_suffix(ascii_lowered(file_name), ".exe"@)
    } else {
        file_name
    }
}

/// Programs that run the script that is their first argument.
pub open spec fn is_interpreter(name: Seq<char>) -> bool {
    name == "python"@ || name == "python3"@ || name == "node"@ || name == "bash"@ || name
        == "zsh"@ || name == "sh"@
}

/// Programs that run the script that follows their file option.
pub open spec fn is_powershell(name: Seq<char>) -> bool {
    name == "pwsh"@ || name == "powershell"@
}

/// The option of PowerShell that a script follows.
pub open spec fn is_file_option(arg: Seq<char>) -> bool {
    ascii_lowered(arg) == "-file"@ || ascii_lowered(arg) == "-f"@
}

/// The word of the command `tokens` that names the script it runs, where the
/// program is known by `name`: the argument of an interpreter, unless that is
/// an option; what follows the file option of PowerShell; for any other program
/// the program itself, where it is given with a path.
pub open spec fn script_of(tokens: Seq<Seq<char>>, name: Seq<char>) -> Option<Seq<char>> {
    if is_interpreter(name) {
        if tokens.len() > 1 && !(tokens[1].len() > 0 && tokens[1][0] == '-') {
            Some(tokens[1])
        } else {
            None
        }
    } else if is_powershell(name) {
        if tokens.len() > 2 && is_file_option(tokens[1]) {
            Some(tokens[2])
        } else {
            None
        }
    } else if tokens.len() > 0 && (tokens[0].contains('/') || tokens[0].contains('\\')) {
        Some(tokens[0])
    } else {
        None
    }
}

/// The script that the command `tokens` runs, where the file name of its
/// program is `file_name`.
pub open spec fn script_for(
    tokens: Seq<Seq<char>>,
    shell_type: ShellType,
    file_name: Option<Seq<char>>,
) -> Option<Seq<char>> {
    match file_name {
        Some(file_name) => script_of(tokens, program_name(file_name, shell_type)),
        None => None,
    }
}

/// Calls `std::path::Path::is_absolute`: whether `path` starts at a root. On
/// every platform a root is written with a slash or a backslash; which paths
/// start at one depends on the platform.
#[verifier::external_body]
fn path_is_absolute(path: &str) -> (absolute: bool)
    ensures
        absolute ==> path@.contains('/') || path@.contains('\\'),
{
    std::path::Path::new(path).is_absolute()
}

/// Removes the ending `suffix` from `s`, where `s` has it.
fn strip_suffix(s: &str, suffix: &str) -> (t: String)
    ensures
        t@ == without_suffix(s@, suffix@),
{
    let chars = chars_of(s);
    let ending = chars_of(suffix);
    if ending.len() > chars.len() {
        assert(chars@.subrange(0, chars@.len() as int) =~= s@);
        return text_of(&chars, 0, chars.len());
    }
    let at = chars.len() - ending.len();
    if same_text(text_of(&chars, at, chars.len()).as_str(), suffix) {
        assert(s@.skip(at as int) =~= s@.subrange(at as int, s@.len() as int));
        assert(s@.take(at as int) =~= s@.subrange(0, at as int));
        text_of(&chars, 0, at)
    } else {
        assert(s@.skip(at as int) =~= s@.subrange(at as int, s@.len() as int));
        assert(chars@.subrange(0, chars@.len() as int) =~= s@);
        text_of(&chars, 0, chars.len())
    }
}

fn starts_with_hyphen(arg: &str) -> (yes: bool)
    ensures
        yes == (arg@.len() > 0 && arg@[0] == '-'),
{
    let chars = chars_of(arg);
    chars.len() > 0 && chars[0] == '-'
}

/// The script that the command `tokens` runs, where the file name of its
/// program is `file_name`.
pub fn script_for_program(
    tokens: &Vec<String>,
    shell_type: ShellType,
    file_name: Option<String>,
) -> (script: Option<String>)
    ensures
        script.deep_view() == script_for(tokens.deep_view(), shell_type, file_name.deep_view()),
{
    let file_name = match file_name {
        Some(file_name) => file_name,
        None => {
            return None;
        },
    };
    let windows_shell = match shell_type {
        ShellType::PowerShell | ShellType::Cmd => true,
        _ => false,
    };
    let name = if windows_shell {
        strip_suffix(to_ascii_lower(file_name.as_str()).as_str(), ".exe")
    } else {
        file_name
    };
    let name = name.as_str();
    let ghost words = tokens.deep_view();
    assert(forall|i: int| 0 <= i < words.len() ==> #[trigger] words[i] == tokens@[i]@);
    if same_text(name, "python") || same_text(name, "python3") || same_text(name, "node")
        || same_text(name, "bash") || same_text(name, "zsh") || same_text(name, "sh") {
        if tokens.len() > 1 && !starts_with_hyphen(tokens[1].as_str()) {
            Some(tokens[1].clone())
        } else {
            None
        }
    } else if same_text(name, "pwsh") || same_text(name, "powershell") {
        if tokens.len() > 2 {
            let option = to_ascii_lower(tokens[1].as_str());
            if same_text(option.as_str(), "-file") || same_text(option.as_str(), "-f") {
                Some(tokens[2].clone())
            } else {
                None
            }
        } else {
            None
        }
    } else if tokens.len() > 0 {
        let program = tokens[0].as_str();
        if path_is_absolute(program) || contains_char(program, '/') || contains_char(
            program,
            '\\',
        ) {
            Some(tokens[0].clone())
        } else {
            None
        }
    } else {
        None
    }
}

/// The script that `command` runs, where it is a single plain command that runs
/// one. `parsed` is as for [`command_tokens`]. Where the program is not given by
/// a portable path, its file name is one of those that the platforms read.
pub fn script_token(
    command: &str,
    shell_type: ShellType,
    parsed: Option<WordCommands>,
) -> (script: Option<String>)
    ensures
        match command_line_words(command@, shell_type, parsed.deep_view()) {
            Some(tokens) if tokens.len() > 0 => {
                &&& is_portable(tokens[0]) ==> script.deep_view() == script_for(
                    tokens,
                    shell_type,
                    slash_file_name(tokens[0]),
                )
                &&& !is_obscure(tokens[0]) ==> exists|file_name: Option<Seq<char>>| #[trigger]
                    may_be_file_name(tokens[0], file_name) && script.deep_view() == script_for(
                        tokens,
                        shell_type,
                        file_name,
                    )
                &&& exists|file_name: Option<Seq<char>>|
                    script.deep_view() == #[trigger] script_for(tokens, shell_type, file_name)
            },
            _ => script is None,
        },
{
    let tokens = match command_tokens(command, shell_type, parsed) {
        Some(tokens) => tokens,
        None => {
            return None;
        },
    };
    if tokens.len() == 0 {
        return None;
    }
    assert(tokens.deep_view()[0] == tokens@[0]@);
    let file_name = path_file_name(tokens[0].as_str());
    proof {
        let program = tokens.deep_view()[0];
        if is_portable(program) {
            portable_file_name_is_one(program, file_name.deep_view());
        }
    }
    script_for_program(&tokens, shell_type, file_name)
}

/// The script is a word of the command.
pub proof fn script_is_a_word(
    tokens: Seq<Seq<char>>,
    shell_type: ShellType,
    file_name: Option<Seq<char>>,
)
    ensures
        script_for(tokens, shell_type, file_name) matches Some(script) ==> tokens.contains(script),
{
}

/// What follows the script does not matter: with further arguments the command
/// runs the same script.
pub proof fn further_arguments_do_not_matter(
    tokens: Seq<Seq<char>>,
    arguments: Seq<Seq<char>>,
    shell_type: ShellType,
    file_name: Option<Seq<char>>,
)
    requires
        script_for(tokens, shell_type, file_name) is Some,
    ensures
        script_for(tokens + arguments, shell_type, file_name) == script_for(
            tokens,
            shell_type,
            file_name,
        ),
{
}

/// A line that a POSIX shell reads as several commands, or as none, and any line
/// for `cmd` have no words to attribute.
pub proof fn compound_lines_have_no_words(
    command: Seq<char>,
    shell_type: ShellType,
    parsed: Option<Seq<Seq<Seq<char>>>>,
)
    requires
        shell_type !is PowerShell,
        shell_type is Cmd || parsed is None || parsed->0.len() != 1,
    ensures
        command_line_words(command, shell_type, parsed) is None,
{
}

/// A command that runs an interpreter with an option first is not attributed to
/// a script, whatever follows.
pub proof fn runner_options_are_rejected(
    tokens: Seq<Seq<char>>,
    shell_type: ShellType,
    file_name: Seq<char>,
)
    requires
        is_interpreter(program_name(file_name, shell_type)),
        tokens.len() > 1,
        tokens[1].len() > 0,
        tokens[1][0] == '-',
    ensures
        script_for(tokens, shell_type, Some(file_name)) is None,
{
}

/// A program that is known by `file_name` is neither an interpreter nor
/// PowerShell.
pub open spec fn is_no_runner(file_name: Option<Seq<char>>, shell_type: ShellType) -> bool {
    match file_name {
        Some(file_name) => {
            let name = program_name(file_name, shell_type);
            !is_interpreter(name) && !is_powershell(name)
        },
        None => false,
    }
}

/// A program that is written with a path, be it with slashes or with
/// backslashes, is itself the script on every platform, unless on one of them it
/// is a runner or has no name.
pub proof fn written_paths_are_scripts(
    tokens: Seq<Seq<char>>,
    shell_type: ShellType,
    file_name: Option<Seq<char>>,
)
    requires
        tokens.len() > 0,
        tokens[0].contains('/') || tokens[0].contains('\\'),
        is_no_runner(slash_file_name(tokens[0]), shell_type),
        is_no_runner(drive_file_name(tokens[0]), shell_type),
        starts_with_server(tokens[0]) ==> is_no_runner(server_file_name(tokens[0]), shell_type),
        may_be_file_name(tokens[0], file_name),
    ensures
        script_for(tokens, shell_type, file_name) == Some(tokens[0]),
{
}

/// On Windows shells the case of the program's name does not matter.
pub proof fn windows_programs_ignore_case(
    tokens: Seq<Seq<char>>,
    shell_type: ShellType,
    first: Seq<char>,
    second: Seq<char>,
)
    requires
        is_windows_shell(shell_type),
        ascii_lowered(first) == ascii_lowered(second),
    ensures
        script_for(tokens, shell_type, Some(first)) == script_for(tokens, shell_type, Some(second)),
{
}

} // verus!
