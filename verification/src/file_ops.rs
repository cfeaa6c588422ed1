use vstd::prelude::*;
use vstd::string::StringExecFns;

verus! {

/// An operation of the file menu.
pub enum FileOperation {
    /// List the files of a directory.
    List(String),
    /// Print the contents of a file.
    Display(String),
    /// Create a file (path, content).
    Create(String, String),
    /// Remove a file.
    Remove(String),
    /// Print the working directory.
    Pwd,
}

/// An entry of the menu, as the user picked it.
#[derive(Clone, Copy, Debug, PartialEq, Eq, Structural)]
pub enum MenuChoice {
    List,
    Display,
    Create,
    Remove,
    Pwd,
    Exit,
    Invalid,
}

/// The entry that the typed text selects: "1" to "5" for the operations,
/// "0" to leave, anything else is invalid.
pub open spec fn menu_choice_of(s: Seq<char>) -> MenuChoice {
    if s == seq!['1'] {
        MenuChoice::List
    } else if s == seq!['2'] {
        MenuChoice::Display
    } else if s == seq!['3'] {
        MenuChoice::Create
    } else if s == seq!['4'] {
        MenuChoice::Remove
    } else if s == seq!['5'] {
        MenuChoice::Pwd
    } else if s == seq!['0'] {
        MenuChoice::Exit
    } else {
        MenuChoice::Invalid
    }
}

/// Reads the menu entry that `choice` (already trimmed) selects.
pub fn menu_choice(choice: &str) -> (m: MenuChoice)
    ensures
        m == menu_choice_of(choice@),
{
    if choice.unicode_len() != 1 {
        return MenuChoice::Invalid;
    }
    let c = choice.get_char(0);
    proof {
        assert(choice@ =~= seq![c]);
    }
    if c == '1' {
        MenuChoice::List
    } else if c == '2' {
        MenuChoice::Display
    } else if c == '3' {
        MenuChoice::Create
    } else if c == '4' {
        MenuChoice::Remove
    } else if c == '5' {
        MenuChoice::Pwd
    } else if c == '0' {
        MenuChoice::Exit
    } else {
        MenuChoice::Invalid
    }
}

/// The shell line that writes `content` into the file `path`.
pub open spec fn create_line(path: Seq<char>, content: Seq<char>) -> Seq<char> {
    seq!['e', 'c', 'h', 'o', ' ', '\''] + content + seq!['\'', ' ', '>', ' '] + path
}

/// Builds `echo '<content>' > <path>`.
pub fn create_command_line(path: &str, content: &str) -> (line: String)
    ensures
        line@ == create_line(path@, content@),
{
    let mut line = "echo '".to_owned();
    line.append(content);
    line.append("' > ");
    line.append(path);
    proof {
        reveal_strlit("echo '");
        reveal_strlit("' > ");
        assert(line@ =~= create_line(path@, content@));
    }
    line
}

/// A program to run with its arguments. `report_outcome` asks the caller to
/// capture the output and to say whether the command succeeded.
pub struct ShellCommand {
    pub program: String,
    pub args: Vec<String>,
    pub report_outcome: bool,
}

/// The characters of each string.
pub open spec fn arg_views(args: Seq<String>) -> Seq<Seq<char>> {
    args.map_values(|a: String| a@)
}

/// The program each operation runs: `ls`, `cat`, `sh`, `rm` or `pwd`.
pub open spec fn program_of(op: FileOperation) -> Seq<char> {
    match op {
        FileOperation::List(_) => seq!['l', 's'],
        FileOperation::Display(_) => seq!['c', 'a', 't'],
        FileOperation::Create(_, _) => seq!['s', 'h'],
        FileOperation::Remove(_) => seq!['r', 'm'],
        FileOperation::Pwd => seq!['p', 'w', 'd'],
    }
}

/// The arguments each operation passes: the path, or `-c` and the shell
/// line for a creation, or none for `pwd`.
pub open spec fn args_of(op: FileOperation) -> Seq<Seq<char>> {
    match op {
        FileOperation::List(path) => seq![path@],
        FileOperation::Display(path) => seq![path@],
        FileOperation::Create(path, content) => seq![seq!['-', 'c'], create_line(path@, content@)],
        FileOperation::Remove(path) => seq![path@],
        FileOperation::Pwd => Seq::empty(),
    }
}

/// Creation and removal report whether they worked; the others do not.
pub open spec fn reports_of(op: FileOperation) -> bool {
    match op {
        FileOperation::Create(_, _) => true,
        FileOperation::Remove(_) => true,
        _ => false,
    }
}

/// The command that carries out `op`.
pub fn shell_command(op: &FileOperation) -> (c: ShellCommand)
    ensures
        c.program@ == program_of(*op),
        arg_views(c.args@) == args_of(*op),
        c.report_outcome == reports_of(*op),
{
    proof {
        reveal_strlit("ls");
        reveal_strlit("cat");
        reveal_strlit("sh");
        reveal_strlit("-c");
        reveal_strlit("rm");
        reveal_strlit("pwd");
    }
    match op {
        FileOperation::List(path) => {
            let args = vec![path.clone()];
            assert(arg_views(args@) =~= args_of(*op));
            ShellCommand { program: "ls".to_owned(), args, report_outcome: false }
        },
        FileOperation::Display(path) => {
            let args = vec![path.clone()];
            assert(arg_views(args@) =~= args_of(*op));
            ShellCommand { program: "cat".to_owned(), args, report_outcome: false }
        },
        FileOperation::Create(path, content) => {
            let line = create_command_line(path.as_str(), content.as_str());
            let dash_c = "-c".to_owned();
            assert(dash_c@ =~= seq!['-', 'c']);
            let args = vec![dash_c, line];
            assert(args@[0]@ == seq!['-', 'c']);
            assert(args@[1]@ == create_line(path@, content@));
            assert(arg_views(args@) =~= args_of(*op));
            ShellCommand { program: "sh".to_owned(), args, report_outcome: true }
        },
        FileOperation::Remove(path) => {
            let args = vec![path.clone()];
            assert(arg_views(args@) =~= args_of(*op));
            ShellCommand { program: "rm".to_owned(), args, report_outcome: true }
        },
        FileOperation::Pwd => {
            let args: Vec<String> = Vec::new();
            assert(arg_views(args@) =~= args_of(*op));
            ShellCommand { program: "pwd".to_owned(), args, report_outcome: false }
        },
    }
}

/// The line printed after a creation or removal: the file's name on
/// success, a failure notice otherwise; nothing for the other operations.
pub open spec fn report_line(op: FileOperation, succeeded: bool) -> Option<Seq<char>> {
    match op {
        FileOperation::Create(path, _) => Some(
            if succeeded {
                "File '"@ + path@ + "' created successfully."@
            } else {
                "Failed to create file."@
            },
        ),
        FileOperation::Remove(path) => Some(
            if succeeded {
                "File '"@ + path@ + "' removed successfully."@
            } else {
                "Failed to remove file."@
            },
        ),
        _ => None,
    }
}

/// The line to print once the command of `op` has run and `succeeded` says
/// whether it worked; `None` where the operation prints nothing.
pub fn report_message(op: &FileOperation, succeeded: bool) -> (m: Option<String>)
    ensures
        m matches Some(line) ==> report_line(*op, succeeded) == Some(line@),
        m is None ==> report_line(*op, succeeded) is None,
{
    match op {
        FileOperation::Create(path, _) => {
            if succeeded {
                let mut line = "File '".to_owned();
                line.append(path.as_str());
                line.append("' created successfully.");
                Some(line)
            } else {
                Some("Failed to create file.".to_owned())
            }
        },
        FileOperation::Remove(path) => {
            if succeeded {
                let mut line = "File '".to_owned();
                line.append(path.as_str());
                line.append("' removed successfully.");
                Some(line)
            } else {
                Some("Failed to remove file.".to_owned())
            }
        },
        _ => None,
    }
}

/// The line printed before the command runs: a label for `pwd`, nothing
/// for the other operations.
pub open spec fn preamble_line(op: FileOperation) -> Option<Seq<char>> {
    match op {
        FileOperation::Pwd => Some("Current working directory:"@),
        _ => None,
    }
}

/// The line to print before running the command of `op`, if any.
pub fn preamble_message(op: &FileOperation) -> (m: Option<String>)
    ensures
        m matches Some(line) ==> preamble_line(*op) == Some(line@),
        m is None ==> preamble_line(*op) is None,
{
    match op {
        FileOperation::Pwd => Some("Current working directory:".to_owned()),
        _ => None,
    }
}

/// The message of the panic when the command of `op` cannot be started.
pub open spec fn launch_failure_line(op: FileOperation) -> Seq<char> {
    match op {
        FileOperation::Create(_, _) => "Failed to execute command"@,
        _ => "Failed to execute "@ + program_of(op),
    }
}

/// The panic message for a command of `op` that cannot be started.
pub fn launch_failure_message(op: &FileOperation) -> (m: String)
    ensures
        m@ == launch_failure_line(*op),
{
    match op {
        FileOperation::Create(_, _) => "Failed to execute command".to_owned(),
        _ => {
            let c = shell_command(op);
            let mut line = "Failed to execute ".to_owned();
            line.append(c.program.as_str());
            line
        },
    }
}

/// Only single characters select an entry: any longer or empty text is
/// invalid, "0" is the one way out, and the five digits "1" to "5" select
/// five different operations.
pub proof fn lemma_menu_law(s: Seq<char>, c: char)
    ensures
        s.len() != 1 ==> menu_choice_of(s) == MenuChoice::Invalid,
        menu_choice_of(s) == MenuChoice::Exit <==> s == seq!['0'],
        !('0' <= c <= '5') ==> menu_choice_of(seq![c]) == MenuChoice::Invalid,
        menu_choice_of(seq!['1']) != menu_choice_of(seq!['2']),
        menu_choice_of(seq!['2']) != menu_choice_of(seq!['3']),
        menu_choice_of(seq!['3']) != menu_choice_of(seq!['4']),
        menu_choice_of(seq!['4']) != menu_choice_of(seq!['5']),
        menu_choice_of(seq!['5']) != MenuChoice::Invalid,
{
    if s.len() != 1 {
        assert(s != seq!['1'] && s != seq!['2'] && s != seq!['3'] && s != seq!['4'] && s != seq!['5']
            && s != seq!['0']) by {
            assert(seq!['1'].len() == 1);
        }
    }
    if menu_choice_of(s) == MenuChoice::Exit {
        assert(s == seq!['0']);
    }
    if !('0' <= c <= '5') {
        let t = seq![c];
        assert(t != seq!['0']) by { assert(t[0] != seq!['0'][0]); }
        assert(t != seq!['1']) by { assert(t[0] != seq!['1'][0]); }
        assert(t != seq!['2']) by { assert(t[0] != seq!['2'][0]); }
        assert(t != seq!['3']) by { assert(t[0] != seq!['3'][0]); }
        assert(t != seq!['4']) by { assert(t[0] != seq!['4'][0]); }
        assert(t != seq!['5']) by { assert(t[0] != seq!['5'][0]); }
    }
    assert(seq!['1'] != seq!['2']) by { assert(seq!['1'][0] != seq!['2'][0]); }
    assert(seq!['2'] != seq!['3']) by { assert(seq!['2'][0] != seq!['3'][0]); }
    assert(seq!['3'] != seq!['4']) by { assert(seq!['3'][0] != seq!['4'][0]); }
    assert(seq!['4'] != seq!['5']) by { assert(seq!['4'][0] != seq!['5'][0]); }
    assert(seq!['1'] != seq!['0']) by { assert(seq!['1'][0] != seq!['0'][0]); }
    assert(seq!['2'] != seq!['0']) by { assert(seq!['2'][0] != seq!['0'][0]); }
    assert(seq!['3'] != seq!['0']) by { assert(seq!['3'][0] != seq!['0'][0]); }
    assert(seq!['4'] != seq!['0']) by { assert(seq!['4'][0] != seq!['0'][0]); }
    assert(seq!['5'] != seq!['0']) by { assert(seq!['5'][0] != seq!['0'][0]); }
    assert(seq!['3'] != seq!['1']) by { assert(seq!['3'][0] != seq!['1'][0]); }
    assert(seq!['4'] != seq!['1']) by { assert(seq!['4'][0] != seq!['1'][0]); }
    assert(seq!['5'] != seq!['1']) by { assert(seq!['5'][0] != seq!['1'][0]); }
    assert(seq!['4'] != seq!['2']) by { assert(seq!['4'][0] != seq!['2'][0]); }
    assert(seq!['5'] != seq!['2']) by { assert(seq!['5'][0] != seq!['2'][0]); }
    assert(seq!['5'] != seq!['3']) by { assert(seq!['5'][0] != seq!['3'][0]); }
}

} // verus!
