//! The decisions of the shell's command dispatch: which command a trimmed
//! line of input names, with which argument, and what `echo` does with its
//! text.  The prompt, the messages and the calls into the filesystem stay
//! with the shell itself; the parsing is verified here.

use vstd::prelude::*;
use vstd::string::StrSliceExecFns;

verus! {

/// ASCII whitespace, as console input can contain it.
pub open spec fn is_ws(c: char) -> bool {
    c == ' ' || c == '\t' || c == '\n' || c == '\r'
}

/// The line without leading and trailing whitespace.
pub open spec fn spec_trim(s: Seq<char>) -> Seq<char>
    decreases s.len(),
{
    if s.len() == 0 {
        s
    } else if is_ws(s[0]) {
        spec_trim(s.skip(1))
    } else if is_ws(s.last()) {
        spec_trim(s.drop_last())
    } else {
        s
    }
}

/// Strip leading and trailing whitespace, as `spec_trim` states.
pub fn trim_line<'a>(s: &'a str) -> (r: &'a str)
    ensures
        r@ == spec_trim(s@),
    decreases s@.len(),
{
    let n = s.unicode_len();
    if n == 0 {
        s
    } else if is_ws_exec(s.get_char(0)) {
        let rest = s.substring_char(1, n);
        proof {
            assert(rest@ =~= s@.skip(1));
        }
        trim_line(rest)
    } else if is_ws_exec(s.get_char(n - 1)) {
        let rest = s.substring_char(0, n - 1);
        proof {
            assert(rest@ =~= s@.drop_last());
        }
        trim_line(rest)
    } else {
        s
    }
}

/// ASCII whitespace, as console input can contain it.
#[verifier::when_used_as_spec(is_ws)]
fn is_ws_exec(c: char) -> (r: bool)
    ensures
        r == is_ws(c),
{
    c == ' ' || c == '\t' || c == '\n' || c == '\r'
}

/// Whether two strings hold the same characters.
fn chars_eq(s: &str, t: &str) -> (b: bool)
    ensures
        b == (s@ == t@),
{
    let n = s.unicode_len();
    if n != t.unicode_len() {
        return false;
    }
    let mut i: usize = 0;
    while i < n
        invariant
            i <= n,
            n == s@.len(),
            n == t@.len(),
            forall|k: int| 0 <= k < i ==> s@[k] == t@[k],
        decreases n - i,
    {
        if s.get_char(i) != t.get_char(i) {
            return false;
        }
        i = i + 1;
    }
    proof {
        assert(s@ =~= t@);
    }
    true
}

/// Whether `s` begins with the characters of `p`.
fn has_prefix(s: &str, p: &str) -> (b: bool)
    ensures
        b == (s@.len() >= p@.len() && s@.subrange(0, p@.len() as int) == p@),
{
    let n = s.unicode_len();
    let m = p.unicode_len();
    if n < m {
        return false;
    }
    let mut i: usize = 0;
    while i < m
        invariant
            i <= m,
            m <= n,
            n == s@.len(),
            m == p@.len(),
            forall|k: int| 0 <= k < i ==> s@[k] == p@[k],
        decreases m - i,
    {
        if s.get_char(i) != p.get_char(i) {
            return false;
        }
        i = i + 1;
    }
    proof {
        assert(s@.subrange(0, p@.len() as int) =~= p@);
    }
    true
}

/// The shape of a parsed command line.
pub ghost enum CommandModel {
    Help,
    Exit,
    Shutdown,
    Ls,
    Pwd,
    Touch(Seq<char>),
    Cat(Seq<char>),
    Echo(Seq<char>),
    Mkdir(Seq<char>),
    Cd(Seq<char>),
    Unknown,
}

/// Which command a trimmed line names: the five bare words, or a command
/// word followed by a space and its argument, which is the rest of the
/// line as it stands; anything else is unknown.
pub open spec fn spec_parse(cmd: Seq<char>) -> CommandModel {
    if cmd == "help"@ {
        CommandModel::Help
    } else if cmd == "exit"@ {
        CommandModel::Exit
    } else if cmd.len() >= 6 && cmd.subrange(0, 6) == "touch "@ {
        CommandModel::Touch(cmd.skip(6))
    } else if cmd == "shutdown"@ {
        CommandModel::Shutdown
    } else if cmd == "ls"@ {
        CommandModel::Ls
    } else if cmd.len() >= 4 && cmd.subrange(0, 4) == "cat "@ {
        CommandModel::Cat(cmd.skip(4))
    } else if cmd.len() >= 5 && cmd.subrange(0, 5) == "echo "@ {
        CommandModel::Echo(cmd.skip(5))
    } else if cmd.len() >= 6 && cmd.subrange(0, 6) == "mkdir "@ {
        CommandModel::Mkdir(cmd.skip(6))
    } else if cmd.len() >= 3 && cmd.subrange(0, 3) == "cd "@ {
        CommandModel::Cd(cmd.skip(3))
    } else if cmd == "pwd"@ {
        CommandModel::Pwd
    } else {
        CommandModel::Unknown
    }
}

/// A parsed command line; argument slices borrow from the input line.
pub enum ShellCommand<'a> {
    Help,
    Exit,
    Shutdown,
    Ls,
    Pwd,
    Touch(&'a str),
    Cat(&'a str),
    Echo(&'a str),
    Mkdir(&'a str),
    Cd(&'a str),
    Unknown,
}

impl<'a> ShellCommand<'a> {
    /// The shape of this command.
    pub open spec fn model(self) -> CommandModel {
        match self {
            ShellCommand::Help => CommandModel::Help,
            ShellCommand::Exit => CommandModel::Exit,
            ShellCommand::Shutdown => CommandModel::Shutdown,
            ShellCommand::Ls => CommandModel::Ls,
            ShellCommand::Pwd => CommandModel::Pwd,
            ShellCommand::Touch(a) => CommandModel::Touch(a@),
            ShellCommand::Cat(a) => CommandModel::Cat(a@),
            ShellCommand::Echo(a) => CommandModel::Echo(a@),
            ShellCommand::Mkdir(a) => CommandModel::Mkdir(a@),
            ShellCommand::Cd(a) => CommandModel::Cd(a@),
            ShellCommand::Unknown => CommandModel::Unknown,
        }
    }
}

/// Parse a trimmed command line, as `spec_parse` states.
pub fn parse_command<'a>(cmd: &'a str) -> (r: ShellCommand<'a>)
    ensures
        r.model() == spec_parse(cmd@),
{
    let n = cmd.unicode_len();
    if chars_eq(cmd, "help") {
        ShellCommand::Help
    } else if chars_eq(cmd, "exit") {
        ShellCommand::Exit
    } else if has_prefix(cmd, "touch ") {
        proof {
            reveal_strlit("touch ");
        }
        let rest = cmd.substring_char(6, n);
        proof {
            assert(rest@ =~= cmd@.skip(6));
        }
        ShellCommand::Touch(rest)
    } else if chars_eq(cmd, "shutdown") {
        ShellCommand::Shutdown
    } else if chars_eq(cmd, "ls") {
        ShellCommand::Ls
    } else if has_prefix(cmd, "cat ") {
        proof {
            reveal_strlit("cat ");
        }
        let rest = cmd.substring_char(4, n);
        proof {
            assert(rest@ =~= cmd@.skip(4));
        }
        ShellCommand::Cat(rest)
    } else if has_prefix(cmd, "echo ") {
        proof {
            reveal_strlit("echo ");
        }
        let rest = cmd.substring_char(5, n);
        proof {
            assert(rest@ =~= cmd@.skip(5));
        }
        ShellCommand::Echo(rest)
    } else if has_prefix(cmd, "mkdir ") {
        proof {
            reveal_strlit("mkdir ");
        }
        let rest = cmd.substring_char(6, n);
        proof {
            assert(rest@ =~= cmd@.skip(6));
        }
        ShellCommand::Mkdir(rest)
    } else if has_prefix(cmd, "cd ") {
        proof {
            reveal_strlit("cd ");
        }
        let rest = cmd.substring_char(3, n);
        proof {
            assert(rest@ =~= cmd@.skip(3));
        }
        ShellCommand::Cd(rest)
    } else if chars_eq(cmd, "pwd") {
        ShellCommand::Pwd
    } else {
        ShellCommand::Unknown
    }
}

/// The whitespace-separated words of a line, as `str::split_whitespace`
/// produces them; the result depends on the characters alone.
pub uninterp spec fn words_of(s: Seq<char>) -> Seq<Seq<char>>;

/// Relies on str::split_whitespace: the words of the line, in order, with
/// no whitespace and no empty word among them.
#[verifier::external_body]
fn split_words<'a>(s: &'a str) -> (r: Vec<&'a str>)
    ensures
        r@.map_values(|w: &str| w@) == words_of(s@),
        s@.len() == 0 ==> r@.len() == 0,
{
    s.split_whitespace().collect()
}

/// The words joined with single spaces.
pub open spec fn spec_join(ws: Seq<Seq<char>>) -> Seq<char>
    decreases ws.len(),
{
    if ws.len() == 0 {
        Seq::<char>::empty()
    } else if ws.len() == 1 {
        ws[0]
    } else {
        ws[0] + seq![' '] + spec_join(ws.skip(1))
    }
}

/// Joining one more word appends a space and the word.
proof fn lemma_join_push(ws: Seq<Seq<char>>, w: Seq<char>)
    ensures
        ws.len() == 0 ==> spec_join(ws.push(w)) == w,
        ws.len() > 0 ==> spec_join(ws.push(w)) == spec_join(ws) + seq![' '] + w,
    decreases ws.len(),
{
    if ws.len() == 0 {
        assert(spec_join(ws.push(w)) == ws.push(w)[0]);
        assert(ws.push(w)[0] == w);
    } else {
        lemma_join_push(ws.skip(1), w);
        assert(ws.push(w).skip(1) =~= ws.skip(1).push(w));
        assert(ws.push(w)[0] == ws[0]);
        if ws.len() == 1 {
            assert(spec_join(ws.push(w)) == ws[0] + seq![' '] + w);
        } else {
            assert(spec_join(ws) + seq![' '] + w =~= ws[0] + seq![' '] + (spec_join(ws.skip(1))
                + seq![' '] + w));
        }
    }
}

/// What `echo` does with the rest of its line: fewer than two words print
/// the text as it stands; three or more words write all but the last two,
/// joined with single spaces, to the file named by the last word; exactly
/// two words are a usage error.
pub ghost enum EchoModel {
    Print(Seq<char>),
    WriteTo { file: Seq<char>, data: Seq<char> },
    Usage,
}

/// The `echo` decision over the words of the text.
pub open spec fn spec_echo(rest: Seq<char>) -> EchoModel {
    let ws = words_of(rest);
    if ws.len() < 2 {
        EchoModel::Print(rest)
    } else if ws.len() >= 3 {
        EchoModel::WriteTo { file: ws.last(), data: spec_join(ws.subrange(0, ws.len() - 2)) }
    } else {
        EchoModel::Usage
    }
}

/// What the shell does with an `echo` argument.
pub enum EchoAction<'a> {
    /// Print the text as it stands.
    Print(&'a str),
    /// Write the data to the named file.
    WriteTo { file: &'a str, data: String },
    /// Report the usage line.
    Usage,
}

impl<'a> EchoAction<'a> {
    /// The shape of this action.
    pub open spec fn model(self) -> EchoModel {
        match self {
            EchoAction::Print(t) => EchoModel::Print(t@),
            EchoAction::WriteTo { file, data } => EchoModel::WriteTo {
                file: file@,
                data: data@,
            },
            EchoAction::Usage => EchoModel::Usage,
        }
    }
}

/// Decide what `echo` does with the rest of its line, as `spec_echo`
/// states.
pub fn echo_action<'a>(rest: &'a str) -> (r: EchoAction<'a>)
    ensures
        r.model() == spec_echo(rest@),
{
    let parts = split_words(rest);
    let ghost ws = words_of(rest@);
    proof {
        assert(ws.len() == parts@.len());
    }
    if parts.len() < 2 {
        EchoAction::Print(rest)
    } else if parts.len() >= 3 {
        let idx = parts.len() - 1;
        let file = parts[idx];
        let mut data = String::new();
        let mut k: usize = 0;
        proof {
            assert(data@ =~= spec_join(ws.subrange(0, 0)));
        }
        while k < idx - 1
            invariant
                k <= idx - 1,
                idx == parts@.len() - 1,
                3 <= parts@.len(),
                ws == words_of(rest@),
                ws.len() == parts@.len(),
                ws == parts@.map_values(|w: &str| w@),
                data@ == spec_join(ws.subrange(0, k as int)),
            decreases idx - 1 - k,
        {
            if k > 0 {
                data.append(" ");
                proof {
                    reveal_strlit(" ");
                    assert(" "@ =~= seq![' ']);
                }
            }
            data.append(parts[k]);
            proof {
                let taken = ws.subrange(0, k as int);
                lemma_join_push(taken, ws[k as int]);
                assert(ws.subrange(0, k + 1) =~= taken.push(ws[k as int]));
                if k > 0 {
                    assert(data@ =~= spec_join(taken) + seq![' '] + ws[k as int]);
                } else {
                    assert(data@ =~= ws[0]);
                }
            }
            k = k + 1;
        }
        EchoAction::WriteTo { file, data }
    } else {
        EchoAction::Usage
    }
}

} // verus!
