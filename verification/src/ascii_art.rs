//! Canned ASCII art: per-topic project banners, the matrix effect and the
//! user card, each pinned to its text by contract.

use vstd::prelude::*;

use crate::text::str_eq;

verus! {

pub const BRIDGE_ART: &'static str = r#"
╔══════════════════════════════════╗
║  🌉 CommandBridge Network 🌉     ║
║                                  ║
║  [Paper] ←→ [Bridge] ←→ [Velocity] ║
║     ↓         ↓         ↓       ║
║  Player1   Commands   Player2    ║
╚══════════════════════════════════╝
"#;

pub const RUST_ART: &'static str = r#"
⚡ RUST POWERED ⚡

██████╗ ██╗   ██╗███████╗████████╗
██╔══██╗██║   ██║██╔════╝╚══██╔══╝
██████╔╝██║   ██║███████╗   ██║   
██╔══██╗██║   ██║╚════██║   ██║   
██║  ██║╚██████╔╝███████║   ██║   
╚═╝  ╚═╝ ╚═════╝ ╚══════╝   ╚═╝   

🦀 Fast • Safe • Concurrent 🦀
"#;

pub const FIREBASE_ART: &'static str = r#"
🔥 Firebase Powered 🔥

░░░░░░░░░░░░░░░░░░░░░░░░░░░░░░░░
░  REALTIME DATABASE  ░
░   ┌─────────────┐   ░
░   │ Notenmanager│   ░
░   │     📊      │   ░
░   │   Grades    │   ░
░   └─────────────┘   ░
░░░░░░░░░░░░░░░░░░░░░░░░░░░░░░░░
"#;

pub const LINUX_ART: &'static str = r#"
🐧 LINUX CONFIGURATION 🐧

 ██╗     ██╗███╗   ██╗██╗   ██╗██╗  ██╗
 ██║     ██║████╗  ██║██║   ██║╚██╗██╔╝
 ██║     ██║██╔██╗ ██║██║   ██║ ╚███╔╝ 
 ██║     ██║██║╚██╗██║██║   ██║ ██╔██╗ 
 ███████╗██║██║ ╚████║╚██████╔╝██╔╝ ██╗
 ╚══════╝╚═╝╚═╝  ╚═══╝ ╚═════╝ ╚═╝  ╚═╝

 Hyprland • Dotfiles • Automation
"#;

pub const HACKER_ART: &'static str = r#"
░█▀▀█ ░█─░█ ░█▀▀▄ ░█▀▀▀ ░█▀▀█ 　 ░█─░█ ░█▀▀█ ░█▀▀█ ░█─▄▀ ░█▀▀▀ ░█▀▀█ 
░█─── ░█▄▄█ ░█▀▀▄ ░█▀▀▀ ░█▄▄▀ 　 ░█▀▀█ ░█▄▄█ ░█─── ░█▀▄─ ░█▀▀▀ ░█▄▄▀ 
░█▄▄█ ─▀─▀─ ░█▄▄▀ ░█▄▄▄ ░█─░█ 　 ░█─░█ ░█─░█ ░█▄▄█ ░█─░█ ░█▄▄▄ ░█─░█

[ACCESSING MAINFRAME...] ████████████ 100%
[BYPASSING FIREWALL...]  ██████████░░  83%
[DECRYPTING DATA...]     ████████░░░░  67%

> Just kidding! This is just ASCII art :)
"#;

pub const COFFEE_ART: &'static str = r#"
☕ COFFEE.EXE LOADING ☕

 (  )   (   )  )
  ) (   )  (  (
  ( )  (    ) )
  _____________
 <_____________> ___
 |             |/ _ \
 |      ☕      | | |
 |               |_| |
___|_______________|___|___
|_______________________|

Caffeine levels: ████████████ 100%
Productivity boost: +42%
"#;

pub const MATRIX_EFFECT: &'static str = r#"
░░▒▒▓▓██ ENTERING THE MATRIX ██▓▓▒▒░░

01001000 01100101 01101100 01101100 01101111

░█▀▀█ ░█▀▀█ ░█▀▀█ ▀▀█▀▀ ░█▀▀▀ ░█▀▀█ ░█─── ▀█▀ ░█▀▀█ 
░█▄▄█ ░█▄▄█ ░█▄▄▀ ─░█── ░█▀▀▀ ░█▄▄█ ░█─── ░█─ ░█▄▄█ 
░█─── ░█─░█ ░█─░█ ─░█── ░█─── ░█─░█ ░█▄▄█ ▄█▄ ░█─░█

01010111 01101111 01110010 01101100 01100100

> Wake up, developer... The portfolio has you.
> There is no spoon... only code.
> Follow the white rabbit (🐰) to ~/projects

Matrix connection established.
Red pill or blue pill? Type 'help' to choose.
    "#;

pub const USER_CARD: &'static str = r#"
  ___  ___ ___  ____
 / _ \| _ ) _ \|_  /
| (_) | _ \   / / / 
 \___/|___/_|_\/___|
                    
    [ objz@portfolio ]
    
    "Code is poetry in motion"
        "#;

pub const ASCII_USAGE: &'static str = "Usage: ascii <topic>\nAvailable topics: bridge, rust, firebase, linux, hacker, coffee";

/// The banner for a known topic, or the not-found message naming the known
/// topics.
pub open spec fn project_ascii_spec(topic: Seq<char>) -> Seq<char> {
    if topic == "bridge"@ {
        BRIDGE_ART@
    } else if topic == "rust"@ {
        RUST_ART@
    } else if topic == "firebase"@ {
        FIREBASE_ART@
    } else if topic == "linux"@ {
        LINUX_ART@
    } else if topic == "hacker"@ {
        HACKER_ART@
    } else if topic == "coffee"@ {
        COFFEE_ART@
    } else {
        "ASCII art for '"@ + topic
            + "' not found. Try: bridge, rust, firebase, linux, hacker, coffee"@
    }
}

/// What the `ascii` command prints: usage without a topic, else the banner.
pub open spec fn get_ascii_spec(args: Seq<Seq<char>>) -> Seq<char> {
    if args.len() == 0 {
        ASCII_USAGE@
    } else {
        project_ascii_spec(args[0])
    }
}

/// The banner for `topic`, or the not-found message.
pub fn get_project_ascii(topic: &str) -> (r: String)
    ensures
        r@ == project_ascii_spec(topic@),
{
    if str_eq(topic, "bridge") {
        String::from_str(BRIDGE_ART)
    } else if str_eq(topic, "rust") {
        String::from_str(RUST_ART)
    } else if str_eq(topic, "firebase") {
        String::from_str(FIREBASE_ART)
    } else if str_eq(topic, "linux") {
        String::from_str(LINUX_ART)
    } else if str_eq(topic, "hacker") {
        String::from_str(HACKER_ART)
    } else if str_eq(topic, "coffee") {
        String::from_str(COFFEE_ART)
    } else {
        let mut r: String = String::from_str("ASCII art for '");
        r.append(topic);
        r.append("' not found. Try: bridge, rust, firebase, linux, hacker, coffee");
        r
    }
}

/// The matrix effect text.
pub fn get_matrix_effect() -> (r: String)
    ensures
        r@ == MATRIX_EFFECT@,
{
    String::from_str(MATRIX_EFFECT)
}

/// Serves the canned art.
pub struct AsciiArt;

impl AsciiArt {
    pub fn new() -> (r: AsciiArt) {
        AsciiArt
    }

    /// Usage text without a topic, else the banner for the first argument.
    pub fn get_ascii(&self, args: &Vec<String>) -> (r: String)
        ensures
            r@ == get_ascii_spec(args.deep_view()),
    {
        if args.len() == 0 {
            String::from_str(ASCII_USAGE)
        } else {
            proof {
                assert(args.deep_view()[0] == args@[0]@);
            }
            get_project_ascii(args[0].as_str())
        }
    }

    /// The matrix effect text.
    pub fn get_matrix_effect(&self) -> (r: String)
        ensures
            r@ == MATRIX_EFFECT@,
    {
        get_matrix_effect()
    }

    /// The user card `echo $USER` prints.
    pub fn get_user_ascii() -> (r: String)
        ensures
            r@ == USER_CARD@,
    {
        String::from_str(USER_CARD)
    }

    /// The banner for `topic`, or the not-found message.
    pub fn get_project_ascii(topic: &str) -> (r: String)
        ensures
            r@ == project_ascii_spec(topic@),
    {
        get_project_ascii(topic)
    }
}

impl Clone for AsciiArt {
    fn clone(&self) -> (r: Self) {
        AsciiArt
    }
}

} // verus!
