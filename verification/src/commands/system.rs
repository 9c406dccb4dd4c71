//! The static system commands: canned usage, identity and process listings,
//! the fixed date, and the screen-clear control result.

use vstd::prelude::*;

use crate::commands::CommandResult;

verus! {

pub const HELP_TEXT: &'static str = r#"Available commands:

NAVIGATION:
  ls [path]           - List directory contents
  cat <file>          - Display file contents
  pwd                 - Show current directory
  
SYSTEM:
  whoami              - Display current user
  uptime              - Show system uptime
  top                 - Display running processes
  ps                  - Show process list
  history             - Show command history
  clear               - Clear the terminal
  neofetch            - System information
  date                - Show current date
  
PORTFOLIO:
  ascii <topic>       - Display ASCII art
  matrix              - Enter the matrix
  
NETWORK:
  telnet <host>       - Connect to host
  nc <host> <port>    - Netcat connection
  
EASTER EGGS:
  sudo rm -rf /       - Don't try this at home!
  make coffee         - Brew some coffee
  hack                - Initiate hacking sequence
  echo <text>         - Display text (try echo $USER)
  
Type any command to get started!"#;

pub const WHOAMI_TEXT: &'static str = r#"objz (Object-Oriented Developer)
Software Engineer & System Architect
Currently based in Germany

Specializing in: Rust, Java, TypeScript, System Design
Working on: CommandBridge, MCL, Portfolio projects

"Code is like humor. When you have to explain it, it's bad." - Cory House"#;

pub const TOP_TEXT: &'static str = r#"  PID USER      %CPU  %MEM  COMMAND
 1337 objz      12.3   4.2  ./portfolio_server
 1338 objz       8.7   2.1  ./command_processor  
 1339 objz       5.4   1.8  ./ascii_engine
 1340 objz       3.2   0.9  ./animation_handler
 1341 objz       0.5   0.3  ./project_showcase
 1342 objz       0.1   0.1  ./coffee_maker"#;

pub const PS_TEXT: &'static str = r#"  PID TTY          TIME CMD
 1337 pts/0    00:00:42 portfolio
 1338 pts/0    00:00:21 wasm-runtime
 1339 pts/0    00:00:18 terminal-emu
 1340 pts/0    00:00:12 animation-sys
 1341 pts/0    00:00:05 ascii-render"#;

pub const NEOFETCH_TEXT: &'static str = r#"                   -`                    objz@portfolio
                  .o+`                   -----------------
                 `ooo/                   OS: Portfolio Linux x86_64
                `+oooo:                  Host: GitHub Pages
               `+oooooo:                 Kernel: WASM 6.6.6-portfolio
               -+oooooo+:                Uptime: 17 days, 13 hours, 28 mins
             `/:-:++oooo+:               Packages: 42 (rust), 13 (npm)
            `/++++/+++++++:              Shell: portfolio-shell 3.0.0
           `/++++++++++++++:             Resolution: 1920x1080
          `/+++ooooooooo++++/            WM: Terminal Emulator
         ./ooosssso++osssssso+`          Theme: Matrix-Dark
        .oossssso-````/ossssss+`         Icons: ASCII Art Pack
       -osssssso.      :ssssssso.        Terminal: portfolio-term
      :osssssss/        +sssso+++.
     /ossssssss/        +ssssooo/-       Memory: 521MiB / ∞GiB
   `/ossssso+/:-        -:/+osssso+-     
  `+sso+:-`                 `.-/+oso:    
 `++:.                           `-/+/   
 .`                                 `/   "#;

pub const DATE_TEXT: &'static str = "Mon May 27 13:28:47 UTC 2025";

pub const UPTIME_TEXT: &'static str = "Portfolio uptime: 17 days, 13:28, load average: 0.42, 0.13, 0.37";

/// The usage text; arguments are ignored.
pub fn help(_args: &Vec<String>) -> (r: String)
    ensures
        r@ == HELP_TEXT@,
{
    String::from_str(HELP_TEXT)
}

/// The user card text; arguments are ignored.
pub fn whoami(_args: &Vec<String>) -> (r: String)
    ensures
        r@ == WHOAMI_TEXT@,
{
    String::from_str(WHOAMI_TEXT)
}

/// The screen-clear control result; arguments are ignored.
pub fn clear(_args: &Vec<String>) -> (r: CommandResult)
    ensures
        r is ClearScreen,
{
    CommandResult::ClearScreen
}

/// The fixed date; arguments are ignored.
pub fn date(_args: &Vec<String>) -> (r: String)
    ensures
        r@ == DATE_TEXT@,
{
    String::from_str(DATE_TEXT)
}

/// The fixed uptime line; arguments are ignored.
pub fn uptime(_args: &Vec<String>) -> (r: String)
    ensures
        r@ == UPTIME_TEXT@,
{
    String::from_str(UPTIME_TEXT)
}

/// The canned process monitor; arguments are ignored.
pub fn top(_args: &Vec<String>) -> (r: String)
    ensures
        r@ == TOP_TEXT@,
{
    String::from_str(TOP_TEXT)
}

/// The canned process list; arguments are ignored.
pub fn ps(_args: &Vec<String>) -> (r: String)
    ensures
        r@ == PS_TEXT@,
{
    String::from_str(PS_TEXT)
}

/// The canned system information; arguments are ignored.
pub fn neofetch(_args: &Vec<String>) -> (r: String)
    ensures
        r@ == NEOFETCH_TEXT@,
{
    String::from_str(NEOFETCH_TEXT)
}

} // verus!
