//! Which word of a command names the script that it runs, said program by
//! program.

use vstd::prelude::*;

use crate::plugin_script::file_name::{
    drive_file_name, is_obscure, is_portable, last_segment, may_be_file_name, slash_file_name,
    slashed, starts_with_server, without_drive,
};
use crate::plugin_script::script_token::{command_line_words, script_for, ShellType};
use crate::plugin_script::windows_command::command_words;
use crate::text::ascii_lowered;

verus! {

/// The programs that run the script that is their first argument.
pub open spec fn runs_its_argument(name: Seq<char>) -> bool {
    ||| name == "python"@
    ||| name == "python3"@
    ||| name == "node"@
    ||| name == "bash"@
    ||| name == "zsh"@
    ||| name == "sh"@
}

/// PowerShell, by its two names.
pub open spec fn runs_its_file(name: Seq<char>) -> bool {
    name == "pwsh"@ || name == "powershell"@
}

/// A POSIX shell.
pub open spec fn is_posix(shell_type: ShellType) -> bool {
    shell_type is Bash || shell_type is Sh || shell_type is Zsh
}

/// An interpreter runs its first argument, whatever follows that, unless it is an
/// option; without an argument it runs no script, and neither does it itself
/// count as one.
pub proof fn interpreters_run_their_argument(
    tokens: Seq<Seq<char>>,
    shell_type: ShellType,
    name: Seq<char>,
)
    requires
        is_posix(shell_type),
        runs_its_argument(name),
    ensures
        ({
            let script = script_for(tokens, shell_type, Some(name));
            &&& tokens.len() < 2 ==> script is None
            &&& tokens.len() >= 2 && tokens[1].len() > 0 && tokens[1][0] == '-' ==> script is None
            &&& tokens.len() >= 2 && (tokens[1].len() == 0 || tokens[1][0] != '-') ==> script
                == Some(tokens[1])
        }),
{
}

/// PowerShell runs what follows the option `-file` or `-f`, in any case, where
/// that is its first argument, and nothing otherwise.
pub proof fn powershell_runs_its_file(
    tokens: Seq<Seq<char>>,
    shell_type: ShellType,
    name: Seq<char>,
)
    requires
        is_posix(shell_type),
        runs_its_file(name),
    ensures
        ({
            let script = script_for(tokens, shell_type, Some(name));
            &&& tokens.len() < 3 ==> script is None
            &&& tokens.len() >= 3 && (ascii_lowered(tokens[1]) == "-file"@ || ascii_lowered(
                tokens[1],
            ) == "-f"@) ==> script == Some(tokens[2])
            &&& tokens.len() >= 3 && ascii_lowered(tokens[1]) != "-file"@ && ascii_lowered(
                tokens[1],
            ) != "-f"@ ==> script is None
        }),
{
    lemma_runners_differ(name);
}

proof fn lemma_runners_differ(name: Seq<char>)
    requires
        runs_its_file(name),
    ensures
        !runs_its_argument(name),
{
    reveal_strlit("python");
    reveal_strlit("python3");
    reveal_strlit("node");
    reveal_strlit("bash");
    reveal_strlit("zsh");
    reveal_strlit("sh");
    reveal_strlit("pwsh");
    reveal_strlit("powershell");
    assert("pwsh"@[0] == 'p');
    assert("node"@[0] == 'n');
    assert("bash"@[0] == 'b');
    assert("pwsh"@.len() == 4 && "powershell"@.len() == 10);
    assert("python"@.len() == 6 && "python3"@.len() == 7);
    assert("node"@.len() == 4 && "bash"@.len() == 4);
    assert("zsh"@.len() == 3 && "sh"@.len() == 2);
}

/// Any other program is itself the script where it is written with a slash or a
/// backslash, whatever its arguments, and runs none otherwise.
pub proof fn other_programs_are_scripts_by_path(
    tokens: Seq<Seq<char>>,
    shell_type: ShellType,
    name: Seq<char>,
)
    requires
        is_posix(shell_type),
        !runs_its_argument(name),
        !runs_its_file(name),
    ensures
        ({
            let script = script_for(tokens, shell_type, Some(name));
            &&& tokens.len() > 0 && (exists|i: int|
                0 <= i < tokens[0].len() && (#[trigger] tokens[0][i] == '/' || tokens[0][i]
                    == '\\')) ==> script == Some(tokens[0])
            &&& (tokens.len() == 0 || forall|i: int|
                0 <= i < tokens[0].len() ==> #[trigger] tokens[0][i] != '/' && tokens[0][i]
                    != '\\') ==> script is None
        }),
{
    if tokens.len() > 0 {
        let program = tokens[0];
        if exists|i: int| 0 <= i < program.len() && (#[trigger] program[i] == '/' || program[i]
            == '\\') {
            let i = choose|i: int|
                0 <= i < program.len() && (#[trigger] program[i] == '/' || program[i] == '\\');
            assert(program.contains(program[i]));
        }
    }
}

/// A program without a file name runs no script.
pub proof fn nameless_programs_run_nothing(tokens: Seq<Seq<char>>, shell_type: ShellType)
    ensures
        script_for(tokens, shell_type, None) is None,
{
}

/// For PowerShell and `cmd` a program counts as the one with its name in lower
/// case, and without `.exe` where it ends in that.
pub proof fn windows_programs_count_without_case_and_ending(
    tokens: Seq<Seq<char>>,
    shell_type: ShellType,
    file_name: Seq<char>,
    name: Seq<char>,
    posix: ShellType,
)
    requires
        shell_type is PowerShell || shell_type is Cmd,
        is_posix(posix),
        ascii_lowered(file_name) == name + ".exe"@ || (ascii_lowered(file_name) == name && !(
        name.len() >= 4 && name.skip(name.len() - 4) == ".exe"@)),
    ensures
        script_for(tokens, shell_type, Some(file_name)) == script_for(tokens, posix, Some(name)),
{
    reveal_strlit(".exe");
    let lowered = ascii_lowered(file_name);
    if lowered == name + ".exe"@ {
        assert(lowered.skip(lowered.len() - 4) =~= ".exe"@);
        assert(lowered.take(lowered.len() - 4) =~= name);
    }
}

/// A command for a POSIX shell has the words of the one plain command that it
/// parses to, one for PowerShell those that it is split into, and one for `cmd`
/// has none.
pub proof fn commands_have_the_words_of_their_shell(
    command: Seq<char>,
    shell_type: ShellType,
    words: Seq<Seq<char>>,
    parsed: Option<Seq<Seq<Seq<char>>>>,
)
    ensures
        is_posix(shell_type) ==> command_line_words(command, shell_type, Some(seq![words])) == Some(
            words,
        ),
        is_posix(shell_type) && (parsed is None || parsed->0.len() != 1) ==> command_line_words(
            command,
            shell_type,
            parsed,
        ) is None,
        shell_type is PowerShell ==> command_line_words(command, shell_type, parsed)
            == command_words(command, 0),
        shell_type is Cmd ==> command_line_words(command, shell_type, parsed) is None,
{
}

/// Behind a directory and a slash, a name is the file name, with or without a
/// slash behind it; alone it is so too.
pub proof fn names_are_file_names(dir: Seq<char>, name: Seq<char>)
    requires
        name.len() > 0,
        !name.contains('/'),
        name != "."@,
        name != ".."@,
    ensures
        slash_file_name(name) == Some(name),
        slash_file_name(dir + seq!['/'] + name) == Some(name),
        slash_file_name((dir + seq!['/'] + name).push('/')) == Some(name),
{
    reveal_strlit(".");
    reveal_strlit("..");
    let path = dir + seq!['/'] + name;
    lemma_last_segment(Seq::empty(), name);
    assert(Seq::<char>::empty() + name =~= name);
    lemma_last_segment(dir + seq!['/'], name);
    assert(path.last() == name.last());
    assert(name.contains(name.last()));
    assert(path != "."@) by {
        if dir.len() == 0 {
            assert(path[0] == '/');
        } else {
            assert(path.len() > 1);
        }
    }
    let more = path.push('/');
    assert(more.drop_last() =~= path);
    assert(more != "."@) by {
        assert(more.len() > 1);
    }
}

proof fn lemma_last_segment(front: Seq<char>, name: Seq<char>)
    requires
        !name.contains('/'),
        front.len() > 0 ==> front.last() == '/',
    ensures
        last_segment(front + name) == name,
    decreases name.len(),
{
    let path = front + name;
    if name.len() == 0 {
        assert(path =~= front);
        assert(last_segment(path) =~= name);
    } else {
        let shorter = name.drop_last();
        assert(!shorter.contains('/')) by {
            if shorter.contains('/') {
                let k = choose|k: int| 0 <= k < shorter.len() && shorter[k] == '/';
                assert(name[k] == '/');
            }
        }
        lemma_last_segment(front, shorter);
        assert(path.drop_last() =~= front + shorter);
        assert(name.contains(name.last()));
        assert(shorter.push(name.last()) =~= name);
    }
}

/// A path is read alike everywhere where it holds neither a backslash nor a
/// colon and does not start with two slashes; its file name is open nowhere
/// unless it starts with two slashes or backslashes and then `?` or `.`.
pub proof fn plain_paths_are_read_plainly(path: Seq<char>)
    ensures
        (forall|i: int| 0 <= i < path.len() ==> #[trigger] path[i] != '\\' && path[i] != ':') && !(
        path.len() > 1 && path[0] == '/' && path[1] == '/') ==> is_portable(path),
        !(path.len() > 1 && (path[0] == '/' || path[0] == '\\') && (path[1] == '/' || path[1]
            == '\\')) ==> !is_obscure(path),
        path.len() > 2 && path[2] != '?' && path[2] != '.' ==> !is_obscure(path),
{
}

/// A name behind a backslash is the end of whatever file name a platform reads,
/// so that such a path has one: `name` itself, or more with `name` at its end.
pub proof fn backslash_paths_have_names(
    dir: Seq<char>,
    name: Seq<char>,
    file_name: Option<Seq<char>>,
)
    requires
        name.len() > 0,
        !name.contains('/'),
        !name.contains('\\'),
        name != "."@,
        name != ".."@,
        ({
            let path = dir + seq!['\\'] + name;
            !((path[0] == '/' || path[0] == '\\') && (path[1] == '/' || path[1] == '\\'))
        }),
        may_be_file_name(dir + seq!['\\'] + name, file_name),
    ensures
        file_name is Some,
        file_name->0.len() >= name.len(),
        file_name->0.skip(file_name->0.len() - name.len()) == name,
{
    let path = dir + seq!['\\'] + name;
    reveal_strlit(".");
    reveal_strlit("..");
    assert(!starts_with_server(path));
    // Slashes alone part the components.
    let tail = seq!['\\'] + name;
    lemma_last_segment_ends(dir, tail);
    let whole = last_segment(path);
    assert(dir + tail =~= path);
    assert(whole.skip(whole.len() - tail.len())[0] == '\\');
    assert(whole[whole.len() - tail.len()] == '\\');
    assert(whole != "."@);
    assert(whole != ".."@) by {
        if whole == ".."@ {
            assert(whole[0] == '.' && whole[1] == '.');
        }
    }
    assert(path.last() == name.last());
    assert(name.contains(name.last()));
    assert(path != "."@) by {
        assert(path.len() > 1);
    }
    assert(slash_file_name(path) == Some(whole));
    assert(whole.skip(whole.len() - name.len()) =~= name) by {
        let end = whole.skip(whole.len() - tail.len());
        assert forall|k: int| 0 <= k < name.len() implies whole[whole.len() - name.len() + k]
            == name[k] by {
            assert(end[k + 1] == tail[k + 1]);
        }
    }
    // Backslashes part them too.
    let rest = without_drive(path);
    let front = rest.take(rest.len() - tail.len());
    assert(rest.len() >= tail.len()) by {
        if rest.len() < path.len() {
            assert(path[1] == ':');
            if dir.len() == 0 {
                assert(path[0] == '\\');
            } else if dir.len() == 1 {
                assert(path[1] == '\\');
            }
        }
    }
    assert(slashed(rest) =~= slashed(front) + seq!['/'] + name) by {
        let off = path.len() - rest.len();
        assert forall|k: int| 0 <= k < rest.len() implies rest[k] == path[off + k] by {}
        assert forall|k: int| 0 <= k < name.len() implies slashed(rest)[front.len() + 1 + k]
            == name[k] by {
            assert(rest[front.len() + 1 + k] == name[k]);
            assert(name.contains(name[k]));
        }
        assert(rest[front.len() as int] == '\\');
    }
    names_are_file_names(slashed(front), name);
    assert(drive_file_name(path) == Some(name));
    assert(name.skip(0) =~= name);
}

proof fn lemma_last_segment_ends(front: Seq<char>, tail: Seq<char>)
    requires
        !tail.contains('/'),
    ensures
        last_segment(front + tail).len() >= tail.len(),
        last_segment(front + tail).skip(last_segment(front + tail).len() - tail.len()) == tail,
    decreases tail.len(),
{
    let path = front + tail;
    if tail.len() == 0 {
        let segment = last_segment(path);
        assert(segment.skip(segment.len() as int) =~= tail);
    } else {
        let shorter = tail.drop_last();
        assert(!shorter.contains('/')) by {
            if shorter.contains('/') {
                let k = choose|k: int| 0 <= k < shorter.len() && shorter[k] == '/';
                assert(tail[k] == '/');
            }
        }
        lemma_last_segment_ends(front, shorter);
        assert(path.drop_last() =~= front + shorter);
        assert(tail.contains(tail.last()));
        let less = last_segment(front + shorter);
        let segment = last_segment(path);
        assert(segment == less.push(tail.last()));
        assert(segment.skip(segment.len() - tail.len()) =~= less.skip(
            less.len() - shorter.len(),
        ).push(tail.last()));
        assert(shorter.push(tail.last()) =~= tail);
    }
}

} // verus!
