//! The virtual filesystem commands: `ls` over the fixed path table and `cat`
//! over the fixed file table.

use vstd::prelude::*;

use crate::ascii_art::{get_project_ascii, project_ascii_spec};
use crate::text::str_eq;

verus! {

pub const LS_HOME: &'static str = "projects/  skills/  contact/  README.md";

pub const LS_PROJECTS: &'static str = "commandbridge.md  mcl.md  notenmanager.md  dots.md  README.md";

pub const LS_SKILLS: &'static str = "languages.txt  frameworks.txt  tools.txt";

pub const README_TEXT: &'static str = r#"# objz's Portfolio Terminal

Welcome to my interactive portfolio! This terminal simulates a Linux environment
where you can explore my projects and skills.

## Quick Navigation:
- `ls ~/projects` - View my projects
- `cat ~/projects/<project>.md` - Read project details  
- `whoami` - Learn about me
- `help` - See all commands

Enjoy exploring!"#;

pub const COMMANDBRIDGE_TEXT: &'static str = r#"# CommandBridge
A powerful bridge system between Paper and Velocity Minecraft servers.

## Features:
- Cross-server command execution
- Permission synchronization  
- Real-time player communication
- Plugin API for extensions

## Tech Stack: Java, Paper API, Velocity API
## Status: Active Development
## GitHub: https://github.com/objz/commandbridge

"The bridge between worlds of Minecraft servers.""#;

pub const MCL_TEXT: &'static str = r#"# mcl - Minecraft CLI Launcher
A fast, efficient Minecraft launcher written in Rust.

## Features:
- Lightning-fast startup
- Multiple profile management
- Mod support
- Cross-platform compatibility

## Tech Stack: Rust, Tokio, CLI
## Status: Beta
## GitHub: https://github.com/objz/mcl

"Because launching Minecraft should be as fast as Rust.""#;

pub const NOTENMANAGER_TEXT: &'static str = r#"# Notenmanager
Firebase-powered school grade tracking application.

## Features:
- Real-time grade synchronization
- Statistical analysis
- Multi-user support
- Offline capabilities

## Tech Stack: Firebase, JavaScript, PWA
## Status: Production
## Use Case: Academic grade management

"Keeping track of academic success, one grade at a time.""#;

pub const DOTS_TEXT: &'static str = r#"# dots - Hyprland Dotfiles
Automated dotfiles setup for Hyprland window manager.

## Features:
- One-command installation
- Hyprland configuration
- Custom theming
- Backup system

## Tech Stack: Shell, Hyprland, Linux
## Status: Maintained
## GitHub: https://github.com/objz/dots

"Making Linux beautiful, one config at a time.""#;

/// What `ls` prints: the listing for a recognised virtual path (the home
/// directory when no path is given), else the access error naming the path.
pub open spec fn list_spec(args: Seq<Seq<char>>) -> Seq<char> {
    let path = if args.len() == 0 {
        "~"@
    } else {
        args[0]
    };
    if path == "~"@ || path == "."@ {
        LS_HOME@
    } else if path == "~/projects"@ || path == "projects"@ {
        LS_PROJECTS@
    } else if path == "~/skills"@ || path == "skills"@ {
        LS_SKILLS@
    } else {
        "ls: cannot access '"@ + path + "': No such file or directory"@
    }
}

/// Lists a virtual directory.
pub fn list(args: &Vec<String>) -> (r: String)
    ensures
        r@ == list_spec(args.deep_view()),
{
    proof {
        assert(forall|i: int|
            0 <= i < args@.len() ==> args.deep_view()[i] == #[trigger] args@[i]@);
    }
    if args.len() == 0 {
        return String::from_str(LS_HOME);
    }
    let path: &str = args[0].as_str();
    if str_eq(path, "~") || str_eq(path, ".") {
        String::from_str(LS_HOME)
    } else if str_eq(path, "~/projects") || str_eq(path, "projects") {
        String::from_str(LS_PROJECTS)
    } else if str_eq(path, "~/skills") || str_eq(path, "skills") {
        String::from_str(LS_SKILLS)
    } else {
        let mut r: String = String::from_str("ls: cannot access '");
        r.append(path);
        r.append("': No such file or directory");
        r
    }
}

/// A project page: its banner, a blank line, then its text.
pub open spec fn project_page_spec(topic: Seq<char>, text: Seq<char>) -> Seq<char> {
    project_ascii_spec(topic) + "\n\n"@ + text
}

/// What `cat` prints: the missing-operand error for no argument, the page for
/// a recognised virtual file, else the not-found error naming the file.
pub open spec fn display_spec(args: Seq<Seq<char>>) -> Seq<char> {
    if args.len() == 0 {
        "cat: missing file operand"@
    } else {
        let f = args[0];
        if f == "README.md"@ || f == "~/README.md"@ {
            README_TEXT@
        } else if f == "~/projects/commandbridge.md"@ || f == "projects/commandbridge.md"@ || f
            == "commandbridge.md"@ {
            project_page_spec("bridge"@, COMMANDBRIDGE_TEXT@)
        } else if f == "~/projects/mcl.md"@ || f == "projects/mcl.md"@ || f == "mcl.md"@ {
            project_page_spec("rust"@, MCL_TEXT@)
        } else if f == "~/projects/notenmanager.md"@ || f == "projects/notenmanager.md"@ || f
            == "notenmanager.md"@ {
            project_page_spec("firebase"@, NOTENMANAGER_TEXT@)
        } else if f == "~/projects/dots.md"@ || f == "projects/dots.md"@ || f == "dots.md"@ {
            project_page_spec("linux"@, DOTS_TEXT@)
        } else {
            "cat: "@ + f + ": No such file or directory"@
        }
    }
}

fn project_page(topic: &str, text: &str) -> (r: String)
    ensures
        r@ == project_page_spec(topic@, text@),
{
    let mut r: String = get_project_ascii(topic);
    r.append("\n\n");
    r.append(text);
    r
}

/// Shows a virtual file.
pub fn display(args: &Vec<String>) -> (r: String)
    ensures
        r@ == display_spec(args.deep_view()),
{
    proof {
        assert(forall|i: int|
            0 <= i < args@.len() ==> args.deep_view()[i] == #[trigger] args@[i]@);
    }
    if args.len() == 0 {
        return String::from_str("cat: missing file operand");
    }
    let f: &str = args[0].as_str();
    if str_eq(f, "README.md") || str_eq(f, "~/README.md") {
        String::from_str(README_TEXT)
    } else if str_eq(f, "~/projects/commandbridge.md") || str_eq(f, "projects/commandbridge.md")
        || str_eq(f, "commandbridge.md") {
        project_page("bridge", COMMANDBRIDGE_TEXT)
    } else if str_eq(f, "~/projects/mcl.md") || str_eq(f, "projects/mcl.md") || str_eq(
        f,
        "mcl.md",
    ) {
        project_page("rust", MCL_TEXT)
    } else if str_eq(f, "~/projects/notenmanager.md") || str_eq(f, "projects/notenmanager.md")
        || str_eq(f, "notenmanager.md") {
        project_page("firebase", NOTENMANAGER_TEXT)
    } else if str_eq(f, "~/projects/dots.md") || str_eq(f, "projects/dots.md") || str_eq(
        f,
        "dots.md",
    ) {
        project_page("linux", DOTS_TEXT)
    } else {
        let mut r: String = String::from_str("cat: ");
        r.append(f);
        r.append(": No such file or directory");
        r
    }
}

} // verus!
