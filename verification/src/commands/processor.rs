//! The dispatcher: trims one input line, records it, splits it into command
//! and arguments, and routes it through the fixed handler table. Every input
//! yields a result; an unknown command yields the shell-style error text.

use vstd::prelude::*;

use crate::ascii_art::{get_ascii_spec, AsciiArt, MATRIX_EFFECT};
use crate::commands::filesystem;
use crate::commands::filesystem::{display_spec, list_spec};
use crate::commands::misc;
use crate::commands::misc::{echo_spec, make_spec, sudo_panics, HACK_TEXT, SUDO_DENIED};
use crate::commands::network;
use crate::commands::network::{netcat_spec, telnet_spec};
use crate::commands::system;
use crate::commands::system::{
    DATE_TEXT, HELP_TEXT, NEOFETCH_TEXT, PS_TEXT, TOP_TEXT, UPTIME_TEXT, WHOAMI_TEXT,
};
use crate::commands::CommandResult;
use crate::text::{
    dec_spec, lemma_trim_tokens_nonempty, push_char, str_eq, tokenize, tokens_spec, trim,
    trim_spec, u64_to_dec,
};

verus! {

pub const HOME_DIR: &'static str = "/home/objz";

pub const NO_HISTORY: &'static str = "No commands in history yet.";

/// The numbered history listing from entry `i` on: two spaces, the one-based
/// index, two spaces, the command, one line per entry.
pub open spec fn history_fmt(hist: Seq<Seq<char>>, i: int) -> Seq<char>
    decreases hist.len() - i,
        when 0 <= i <= hist.len()
{
    if i >= hist.len() {
        Seq::empty()
    } else {
        "  "@ + dec_spec(i + 1) + "  "@ + hist[i] + (if i + 1 < hist.len() {
            seq!['\n']
        } else {
            Seq::<char>::empty()
        }) + history_fmt(hist, i + 1)
    }
}

/// What `history` prints: the numbered entries in the order they were given,
/// or the fixed no-history message.
pub open spec fn history_text(hist: Seq<Seq<char>>) -> Seq<char> {
    if hist.len() == 0 {
        NO_HISTORY@
    } else {
        history_fmt(hist, 0)
    }
}

/// Where `cd` goes: home for no argument, `~`, or `..`; the current directory
/// for `.`; the fixed virtual directories by either spelling; nothing for an
/// unknown path.
pub open spec fn cd_target(args: Seq<Seq<char>>, cwd: Seq<char>) -> Option<Seq<char>> {
    if args.len() == 0 {
        Option::Some(HOME_DIR@)
    } else {
        let p = args[0];
        if p == "~"@ || p == ".."@ {
            Option::Some(HOME_DIR@)
        } else if p == "."@ {
            Option::Some(cwd)
        } else if p == "~/projects"@ || p == "projects"@ {
            Option::Some("/home/objz/projects"@)
        } else if p == "~/skills"@ || p == "skills"@ {
            Option::Some("/home/objz/skills"@)
        } else if p == "~/contact"@ || p == "contact"@ {
            Option::Some("/home/objz/contact"@)
        } else {
            Option::None
        }
    }
}

/// The command clears the screen.
pub open spec fn is_clear(toks: Seq<Seq<char>>) -> bool {
    toks[0] == "clear"@
}

/// The command triggers the panic skit.
pub open spec fn is_panic(toks: Seq<Seq<char>>) -> bool {
    toks[0] == "sudo"@ && sudo_panics(toks.skip(1))
}

/// The command changes the working directory.
pub open spec fn is_chdir(toks: Seq<Seq<char>>, cwd: Seq<char>) -> bool {
    toks[0] == "cd"@ && cd_target(toks.skip(1), cwd) is Some
}

/// The text a dispatched command prints, given the tokens, the history as it
/// stands after recording the command, and the working directory. Commands
/// whose whole effect is a control signal print nothing.
pub open spec fn dispatch_output(toks: Seq<Seq<char>>, hist: Seq<Seq<char>>, cwd: Seq<char>) -> Seq<
    char,
> {
    let cmd = toks[0];
    let args = toks.skip(1);
    if cmd == "clear"@ {
        Seq::empty()
    } else if cmd == "sudo"@ {
        if sudo_panics(args) {
            Seq::empty()
        } else {
            SUDO_DENIED@
        }
    } else if cmd == "cd"@ {
        if cd_target(args, cwd) is Some {
            Seq::empty()
        } else {
            "bash: cd: "@ + args[0] + ": No such file or directory"@
        }
    } else if cmd == "help"@ {
        HELP_TEXT@
    } else if cmd == "whoami"@ {
        WHOAMI_TEXT@
    } else if cmd == "date"@ {
        DATE_TEXT@
    } else if cmd == "uptime"@ {
        UPTIME_TEXT@
    } else if cmd == "top"@ {
        TOP_TEXT@
    } else if cmd == "ps"@ {
        PS_TEXT@
    } else if cmd == "neofetch"@ {
        NEOFETCH_TEXT@
    } else if cmd == "ls"@ {
        list_spec(args)
    } else if cmd == "cat"@ {
        display_spec(args)
    } else if cmd == "ascii"@ {
        get_ascii_spec(args)
    } else if cmd == "matrix"@ {
        MATRIX_EFFECT@
    } else if cmd == "telnet"@ {
        telnet_spec(args)
    } else if cmd == "nc"@ || cmd == "netcat"@ {
        netcat_spec(args)
    } else if cmd == "echo"@ {
        echo_spec(args)
    } else if cmd == "make"@ {
        make_spec(args)
    } else if cmd == "hack"@ {
        HACK_TEXT@
    } else if cmd == "history"@ {
        history_text(hist)
    } else if cmd == "pwd"@ {
        cwd
    } else {
        "bash: "@ + cmd + ": command not found"@
    }
}

/// How the prompt shows a directory: home as `~`, paths under home with `~`
/// for the home prefix, anything else verbatim.
pub open spec fn display_path_spec(cwd: Seq<char>) -> Seq<char> {
    if cwd == HOME_DIR@ {
        "~"@
    } else if cwd.len() >= 11 && cwd.take(11) == "/home/objz/"@ {
        "~"@ + cwd.skip(10)
    } else {
        cwd
    }
}

/// The prompt for a working directory.
pub open spec fn prompt_spec(cwd: Seq<char>) -> Seq<char> {
    "objz@objz:"@ + display_path_spec(cwd) + "$ "@
}

/// The session's dispatcher: the commands entered so far, the art source and
/// the working directory.
pub struct CommandHandler {
    pub history: Vec<String>,
    pub ascii_art: AsciiArt,
    pub current_directory: String,
}

impl CommandHandler {
    /// The models of the recorded commands, in the order they were entered.
    pub open spec fn hist_strs(self) -> Seq<Seq<char>> {
        self.history.deep_view()
    }

    /// A fresh session: no history, home as the working directory.
    pub fn new() -> (r: CommandHandler)
        ensures
            r.hist_strs() == Seq::<Seq<char>>::empty(),
            r.current_directory@ == HOME_DIR@,
    {
        let r = CommandHandler {
            history: Vec::new(),
            ascii_art: AsciiArt::new(),
            current_directory: String::from_str(HOME_DIR),
        };
        proof {
            assert(r.hist_strs() =~= Seq::<Seq<char>>::empty());
        }
        r
    }

    /// Dispatches one input line. A blank line prints nothing and records
    /// nothing; anything else is recorded, then routed: `clear` clears the
    /// screen, `sudo rm -rf /` panics, a valid `cd` moves the working
    /// directory, and every other command — known or not — prints exactly the
    /// text `dispatch_output` gives.
    pub fn handle(&mut self, input: &str) -> (r: CommandResult)
        ensures
            final(self).hist_strs() == if trim_spec(input@).len() == 0 {
                old(self).hist_strs()
            } else {
                old(self).hist_strs().push(trim_spec(input@))
            },
            trim_spec(input@).len() == 0 ==> (r matches CommandResult::Text(s) && s@
                == Seq::<char>::empty() && final(self).current_directory == old(
                self,
            ).current_directory),
            trim_spec(input@).len() > 0 ==> ({
                let toks = tokens_spec(trim_spec(input@));
                let hist2 = old(self).hist_strs().push(trim_spec(input@));
                if is_clear(toks) {
                    r is ClearScreen && final(self).current_directory == old(
                        self,
                    ).current_directory
                } else if is_panic(toks) {
                    r is SystemPanic && final(self).current_directory == old(
                        self,
                    ).current_directory
                } else if is_chdir(toks, old(self).current_directory@) {
                    r is DirectoryChanged && Option::Some(final(self).current_directory@)
                        == cd_target(toks.skip(1), old(self).current_directory@)
                } else {
                    (r matches CommandResult::Text(s) && s@ == dispatch_output(
                        toks,
                        hist2,
                        old(self).current_directory@,
                    )) && final(self).current_directory == old(self).current_directory
                }
            }),
    {
        let trimmed: String = trim(input);
        if trimmed.as_str().unicode_len() == 0 {
            return CommandResult::Text(String::new());
        }
        proof {
            lemma_trim_tokens_nonempty(input@);
        }
        let ghost before = self.hist_strs();
        self.history.push(trimmed.clone());
        proof {
            assert(self.hist_strs() =~= before.push(trim_spec(input@)));
        }
        let parts: Vec<String> = tokenize(trimmed.as_str());
        let ghost toks = tokens_spec(trim_spec(input@));
        let mut args: Vec<String> = Vec::new();
        let mut i: usize = 1;
        while i < parts.len()
            invariant
                1 <= i <= parts@.len(),
                parts.deep_view() == toks,
                args@.len() == i - 1,
                forall|k: int| 0 <= k < i - 1 ==> (#[trigger] args@[k])@ == toks[k + 1],
            decreases parts@.len() - i,
        {
            args.push(parts[i].clone());
            i = i + 1;
        }
        proof {
            assert(args.deep_view() =~= toks.skip(1));
            assert(parts.deep_view()[0] == parts@[0]@);
        }
        let cmd: &str = parts[0].as_str();
        if str_eq(cmd, "clear") {
            system::clear(&args)
        } else if str_eq(cmd, "sudo") {
            proof {
                reveal_strlit("sudo");
                reveal_strlit("cd");
                assert("sudo"@.len() == 4 && "cd"@.len() == 2);
            }
            misc::sudo(&args)
        } else if str_eq(cmd, "cd") {
            proof {
                reveal_strlit("sudo");
                reveal_strlit("cd");
                assert("sudo"@.len() == 4 && "cd"@.len() == 2);
            }
            match self.cd_resolve(&args) {
                Option::Some(dest) => {
                    self.current_directory = dest;
                    CommandResult::DirectoryChanged
                },
                Option::None => {
                    proof {
                        assert(args.deep_view().len() > 0);
                        assert(args.deep_view()[0] == args@[0]@);
                    }
                    let mut msg: String = String::from_str("bash: cd: ");
                    msg.append(args[0].as_str());
                    msg.append(": No such file or directory");
                    CommandResult::Text(msg)
                },
            }
        } else if str_eq(cmd, "help") {
            CommandResult::Text(system::help(&args))
        } else if str_eq(cmd, "whoami") {
            CommandResult::Text(system::whoami(&args))
        } else if str_eq(cmd, "date") {
            CommandResult::Text(system::date(&args))
        } else if str_eq(cmd, "uptime") {
            CommandResult::Text(system::uptime(&args))
        } else if str_eq(cmd, "top") {
            CommandResult::Text(system::top(&args))
        } else if str_eq(cmd, "ps") {
            CommandResult::Text(system::ps(&args))
        } else if str_eq(cmd, "neofetch") {
            CommandResult::Text(system::neofetch(&args))
        } else if str_eq(cmd, "ls") {
            CommandResult::Text(filesystem::list(&args))
        } else if str_eq(cmd, "cat") {
            CommandResult::Text(filesystem::display(&args))
        } else if str_eq(cmd, "ascii") {
            CommandResult::Text(self.ascii_art.get_ascii(&args))
        } else if str_eq(cmd, "matrix") {
            CommandResult::Text(self.ascii_art.get_matrix_effect())
        } else if str_eq(cmd, "telnet") {
            CommandResult::Text(network::telnet(&args))
        } else if str_eq(cmd, "nc") || str_eq(cmd, "netcat") {
            CommandResult::Text(network::netcat(&args))
        } else if str_eq(cmd, "echo") {
            CommandResult::Text(misc::echo(&args))
        } else if str_eq(cmd, "make") {
            CommandResult::Text(misc::make(&args))
        } else if str_eq(cmd, "hack") {
            CommandResult::Text(misc::hack(&args))
        } else if str_eq(cmd, "history") {
            CommandResult::Text(self.show_history(&args))
        } else if str_eq(cmd, "pwd") {
            CommandResult::Text(self.current_directory.clone())
        } else {
            let mut msg: String = String::from_str("bash: ");
            msg.append(cmd);
            msg.append(": command not found");
            CommandResult::Text(msg)
        }
    }

    /// The numbered listing of the commands entered so far.
    pub fn show_history(&self, _args: &Vec<String>) -> (r: String)
        ensures
            r@ == history_text(self.hist_strs()),
    {
        let len: usize = self.history.len();
        if len == 0 {
            return String::from_str(NO_HISTORY);
        }
        let ghost h = self.hist_strs();
        let mut out: String = String::new();
        let mut i: usize = 0;
        proof {
            assert(out@ + history_fmt(h, 0) =~= history_fmt(h, 0));
        }
        while i < len
            invariant
                0 <= i <= len,
                len == self.history@.len(),
                h == self.hist_strs(),
                history_fmt(h, 0) == out@ + history_fmt(h, i as int),
            decreases len - i,
        {
            let ghost before = out@;
            out.append("  ");
            let digits: String = u64_to_dec((i as u64) + 1);
            out.append(digits.as_str());
            out.append("  ");
            out.append(self.history[i].as_str());
            proof {
                assert(self.history@[i as int]@ == h[i as int]);
            }
            if i + 1 < len {
                push_char(&mut out, '\n');
                proof {
                    assert(out@ =~= before + ("  "@ + dec_spec(i + 1) + "  "@ + h[i as int] + seq![
                        '\n',
                    ]));
                    assert(before + ("  "@ + dec_spec(i + 1) + "  "@ + h[i as int] + seq!['\n'])
                        + history_fmt(h, i + 1) =~= before + ("  "@ + dec_spec(i + 1) + "  "@ + h[i as int]
                        + seq!['\n'] + history_fmt(h, i + 1)));
                }
            } else {
                proof {
                    assert(out@ =~= before + ("  "@ + dec_spec(i + 1) + "  "@ + h[i as int]
                        + Seq::<char>::empty()));
                    assert(before + ("  "@ + dec_spec(i + 1) + "  "@ + h[i as int]
                        + Seq::<char>::empty()) + history_fmt(h, i + 1) =~= before + ("  "@
                        + dec_spec(i + 1) + "  "@ + h[i as int] + Seq::<char>::empty()
                        + history_fmt(h, i + 1)));
                }
            }
            i = i + 1;
        }
        proof {
            assert(history_fmt(h, len as int) =~= Seq::<char>::empty());
            assert(out@ + Seq::<char>::empty() =~= out@);
        }
        out
    }

    /// The session's working directory.
    pub fn get_current_directory(&self) -> (r: String)
        ensures
            r@ == self.current_directory@,
    {
        self.current_directory.clone()
    }

    /// The prompt for the session's working directory.
    pub fn get_current_prompt(&self) -> (r: String)
        ensures
            r@ == prompt_spec(self.current_directory@),
    {
        let cwd: &str = self.current_directory.as_str();
        let mut r: String = String::from_str("objz@objz:");
        if str_eq(cwd, HOME_DIR) {
            r.append("~");
        } else {
            let len: usize = cwd.unicode_len();
            if len >= 11 {
                let head: &str = cwd.substring_char(0, 11);
                if str_eq(head, "/home/objz/") {
                    proof {
                        assert(cwd@.subrange(0, 11) =~= cwd@.take(11));
                        assert(cwd@.subrange(10, len as int) =~= cwd@.skip(10));
                    }
                    r.append("~");
                    r.append(cwd.substring_char(10, len));
                } else {
                    proof {
                        assert(cwd@.subrange(0, 11) =~= cwd@.take(11));
                    }
                    r.append(cwd);
                }
            } else {
                r.append(cwd);
            }
        }
        r.append("$ ");
        r
    }

    /// Resolves a `cd` argument to its destination, if the path is known.
    fn cd_resolve(&self, args: &Vec<String>) -> (r: Option<String>)
        ensures
            (r is Some) == (cd_target(args.deep_view(), self.current_directory@) is Some),
            r is Some ==> Option::Some(r.unwrap()@) == cd_target(
                args.deep_view(),
                self.current_directory@,
            ),
    {
        proof {
            assert(forall|i: int|
                0 <= i < args@.len() ==> args.deep_view()[i] == #[trigger] args@[i]@);
        }
        if args.len() == 0 {
            return Option::Some(String::from_str(HOME_DIR));
        }
        let p: &str = args[0].as_str();
        if str_eq(p, "~") || str_eq(p, "..") {
            Option::Some(String::from_str(HOME_DIR))
        } else if str_eq(p, ".") {
            Option::Some(self.current_directory.clone())
        } else if str_eq(p, "~/projects") || str_eq(p, "projects") {
            Option::Some(String::from_str("/home/objz/projects"))
        } else if str_eq(p, "~/skills") || str_eq(p, "skills") {
            Option::Some(String::from_str("/home/objz/skills"))
        } else if str_eq(p, "~/contact") || str_eq(p, "contact") {
            Option::Some(String::from_str("/home/objz/contact"))
        } else {
            Option::None
        }
    }
}

impl Clone for CommandHandler {
    /// A clone carries the same history and working directory.
    fn clone(&self) -> (r: Self)
        ensures
            r.hist_strs() == self.hist_strs(),
            r.current_directory@ == self.current_directory@,
    {
        let mut history: Vec<String> = Vec::new();
        let mut i: usize = 0;
        while i < self.history.len()
            invariant
                0 <= i <= self.history@.len(),
                history@.len() == i,
                forall|k: int| 0 <= k < i ==> (#[trigger] history@[k])@ == self.history@[k]@,
            decreases self.history@.len() - i,
        {
            history.push(self.history[i].clone());
            i = i + 1;
        }
        proof {
            assert(history.deep_view() =~= self.history.deep_view());
        }
        CommandHandler {
            history,
            ascii_art: AsciiArt,
            current_directory: self.current_directory.clone(),
        }
    }
}

} // verus!
