//! Easter-egg commands: `echo` with its user-card shortcut, the guarded
//! `sudo`, `make coffee`, and the hacking skit.

use vstd::prelude::*;

use crate::ascii_art::{AsciiArt, USER_CARD};
use crate::commands::CommandResult;
use crate::text::{join_spaces, join_spaces_spec, str_eq};

verus! {

pub const SUDO_DENIED: &'static str = "[sudo] password for objz: \n\nSorry, try again.\n[sudo] password for objz: \n\nSudo access denied for portfolio demo.";

pub const COFFEE_418: &'static str = r#"
      (  )   (   )  )
       ) (   )  (  (
       ( )  (    ) )
       _____________
      <_____________> ___
      |             |/ _ \
      |      ☕      | | |
      |               |_| |
   ___|_______________|___|___
  |_______________________|

ERROR 418: I'm a teapot

The requested entity body is short and stout.
Tip me over and pour me out.

RFC 2324 - Hyper Text Coffee Pot Control Protocol
"#;

pub const MAKE_FAIL: &'static str = "make: *** No targets specified and no makefile found. Stop.";

pub const HACK_TEXT: &'static str = r#"Initializing hacking sequence...

[████████████████████████████████] 100%

⚠️  WARNING: Hacking detected! ⚠️

Just kidding! This is a portfolio website.
Try exploring with commands like:
- ls ~/projects
- cat ~/projects/commandbridge.md
- ascii matrix
- make coffee

No actual hacking happening here! 😄"#;

/// What `echo` prints: nothing for no arguments, the user card for `$USER`,
/// else the arguments joined with single spaces.
pub open spec fn echo_spec(args: Seq<Seq<char>>) -> Seq<char> {
    if args.len() == 0 {
        Seq::empty()
    } else if args[0] == "$USER"@ {
        USER_CARD@
    } else {
        join_spaces_spec(args)
    }
}

/// Echoes the arguments; `$USER` as the first argument prints the user card.
pub fn echo(args: &Vec<String>) -> (r: String)
    ensures
        r@ == echo_spec(args.deep_view()),
{
    if args.len() == 0 {
        String::new()
    } else if str_eq(args[0].as_str(), "$USER") {
        proof {
            assert(args.deep_view()[0] == args@[0]@);
        }
        AsciiArt::get_user_ascii()
    } else {
        proof {
            assert(args.deep_view()[0] == args@[0]@);
            assert(args.deep_view().skip(0) =~= args.deep_view());
        }
        join_spaces(args, 0)
    }
}

/// True exactly for the three-token invocation `rm -rf /`.
pub open spec fn sudo_panics(args: Seq<Seq<char>>) -> bool {
    args.len() == 3 && args[0] == "rm"@ && args[1] == "-rf"@ && args[2] == "/"@
}

/// `rm -rf /` triggers the system panic skit; everything else is denied.
pub fn sudo(args: &Vec<String>) -> (r: CommandResult)
    ensures
        sudo_panics(args.deep_view()) ==> r is SystemPanic,
        !sudo_panics(args.deep_view()) ==> (r matches CommandResult::Text(s) && s@
            == SUDO_DENIED@),
{
    proof {
        assert(forall|i: int|
            0 <= i < args@.len() ==> args.deep_view()[i] == #[trigger] args@[i]@);
    }
    if args.len() == 3 && str_eq(args[0].as_str(), "rm") && str_eq(args[1].as_str(), "-rf")
        && str_eq(args[2].as_str(), "/") {
        CommandResult::SystemPanic
    } else {
        CommandResult::Text(String::from_str(SUDO_DENIED))
    }
}

/// What `make` prints: the teapot for the `coffee` target, else the failure.
pub open spec fn make_spec(args: Seq<Seq<char>>) -> Seq<char> {
    if args.len() >= 1 && args[0] == "coffee"@ {
        COFFEE_418@
    } else {
        MAKE_FAIL@
    }
}

/// Brews coffee, or fails for want of a makefile.
pub fn make(args: &Vec<String>) -> (r: String)
    ensures
        r@ == make_spec(args.deep_view()),
{
    proof {
        assert(forall|i: int|
            0 <= i < args@.len() ==> args.deep_view()[i] == #[trigger] args@[i]@);
    }
    if args.len() >= 1 && str_eq(args[0].as_str(), "coffee") {
        String::from_str(COFFEE_418)
    } else {
        String::from_str(MAKE_FAIL)
    }
}

/// The canned hacking skit; arguments are ignored.
pub fn hack(_args: &Vec<String>) -> (r: String)
    ensures
        r@ == HACK_TEXT@,
{
    String::from_str(HACK_TEXT)
}

} // verus!
