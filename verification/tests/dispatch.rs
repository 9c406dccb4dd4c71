use termsim::commands::processor::CommandHandler;
use termsim::commands::CommandResult;

fn text(r: CommandResult) -> String {
    match r {
        CommandResult::Text(s) => s,
        _ => panic!("expected plain text output"),
    }
}

#[test]
fn empty_input_prints_nothing_and_records_nothing() {
    let mut h = CommandHandler::new();
    assert_eq!(text(h.handle("")), "");
    assert_eq!(text(h.handle("   ")), "");
    assert!(h.history.is_empty());
}

#[test]
fn known_scenario_ls_projects() {
    let mut h = CommandHandler::new();
    assert_eq!(
        text(h.handle("ls ~/projects")),
        "commandbridge.md  mcl.md  notenmanager.md  dots.md  README.md"
    );
}

#[test]
fn known_scenario_cat_missing() {
    let mut h = CommandHandler::new();
    assert_eq!(text(h.handle("cat missing.md")), "cat: missing.md: No such file or directory");
}

#[test]
fn known_scenario_sudo_rm_rf_panics() {
    let mut h = CommandHandler::new();
    assert!(matches!(h.handle("sudo rm -rf /"), CommandResult::SystemPanic));
}

#[test]
fn known_scenario_clear() {
    let mut h = CommandHandler::new();
    assert!(matches!(h.handle("clear"), CommandResult::ClearScreen));
}

#[test]
fn known_scenario_nc_usage() {
    let mut h = CommandHandler::new();
    assert_eq!(text(h.handle("nc")), "usage: nc [-options] hostname port");
}

#[test]
fn known_scenario_echo_hello_world() {
    let mut h = CommandHandler::new();
    assert_eq!(text(h.handle("echo hello world")), "hello world");
}

#[test]
fn unknown_command_reports_not_found() {
    let mut h = CommandHandler::new();
    assert_eq!(text(h.handle("frobnicate now")), "bash: frobnicate: command not found");
}

#[test]
fn whitespace_around_input_is_ignored() {
    let mut h = CommandHandler::new();
    assert_eq!(text(h.handle("  echo   a\tb  ")), "a b");
    assert_eq!(h.history, vec!["echo   a\tb".to_string()]);
}

#[test]
fn ls_paths_and_errors() {
    let mut h = CommandHandler::new();
    assert_eq!(text(h.handle("ls")), "projects/  skills/  contact/  README.md");
    assert_eq!(text(h.handle("ls ~")), "projects/  skills/  contact/  README.md");
    assert_eq!(text(h.handle("ls skills")), "languages.txt  frameworks.txt  tools.txt");
    assert_eq!(
        text(h.handle("ls /etc")),
        "ls: cannot access '/etc': No such file or directory"
    );
}

#[test]
fn cat_errors_and_pages() {
    let mut h = CommandHandler::new();
    assert_eq!(text(h.handle("cat")), "cat: missing file operand");
    let page = text(h.handle("cat mcl.md"));
    assert!(page.contains("RUST POWERED"));
    assert!(page.contains("# mcl - Minecraft CLI Launcher"));
    let readme = text(h.handle("cat README.md"));
    assert!(readme.starts_with("# objz's Portfolio Terminal"));
}

#[test]
fn sudo_without_the_magic_words_is_denied() {
    let mut h = CommandHandler::new();
    let denied = text(h.handle("sudo ls"));
    assert!(denied.contains("Sudo access denied for portfolio demo."));
    // four tokens after sudo: not the exact three-token match
    let denied = text(h.handle("sudo rm -rf / tmp"));
    assert!(denied.contains("Sudo access denied"));
}

#[test]
fn make_coffee_and_make_fail() {
    let mut h = CommandHandler::new();
    assert!(text(h.handle("make coffee")).contains("ERROR 418: I'm a teapot"));
    assert_eq!(
        text(h.handle("make")),
        "make: *** No targets specified and no makefile found. Stop."
    );
}

#[test]
fn telnet_host_handling() {
    let mut h = CommandHandler::new();
    assert!(text(h.handle("telnet")).contains("Connected to localhost."));
    assert!(text(h.handle("telnet 127.0.0.1")).contains("SECURE TERMINAL ACCESS GRANTED"));
    assert_eq!(
        text(h.handle("telnet example.com")),
        "telnet: could not resolve example.com/telnet: Name or service not known"
    );
}

#[test]
fn netcat_host_handling() {
    let mut h = CommandHandler::new();
    assert!(text(h.handle("nc hacker.net 1337")).contains("Welcome to the hacker matrix..."));
    assert!(text(h.handle("netcat my.hacker.org 1337")).contains("hacker matrix"));
    assert_eq!(
        text(h.handle("nc example.com 80")),
        "nc: connect to example.com port 80: Connection refused"
    );
    assert_eq!(
        text(h.handle("nc hacker.net 80")),
        "nc: connect to hacker.net port 80: Connection refused"
    );
}

#[test]
fn echo_user_card_and_empty() {
    let mut h = CommandHandler::new();
    assert_eq!(text(h.handle("echo")), "");
    assert!(text(h.handle("echo $USER")).contains("[ objz@portfolio ]"));
}

#[test]
fn ascii_usage_known_and_unknown_topics() {
    let mut h = CommandHandler::new();
    assert_eq!(
        text(h.handle("ascii")),
        "Usage: ascii <topic>\nAvailable topics: bridge, rust, firebase, linux, hacker, coffee"
    );
    assert!(text(h.handle("ascii rust")).contains("RUST POWERED"));
    assert_eq!(
        text(h.handle("ascii nope")),
        "ASCII art for 'nope' not found. Try: bridge, rust, firebase, linux, hacker, coffee"
    );
}

#[test]
fn matrix_and_hack_are_canned() {
    let mut h = CommandHandler::new();
    assert!(text(h.handle("matrix")).contains("ENTERING THE MATRIX"));
    assert!(text(h.handle("hack")).contains("Initializing hacking sequence..."));
}

#[test]
fn static_system_commands() {
    let mut h = CommandHandler::new();
    assert!(text(h.handle("help")).contains("Available commands:"));
    assert!(text(h.handle("whoami")).contains("objz (Object-Oriented Developer)"));
    assert_eq!(text(h.handle("date")), "Mon May 27 13:28:47 UTC 2025");
    assert_eq!(
        text(h.handle("uptime")),
        "Portfolio uptime: 17 days, 13:28, load average: 0.42, 0.13, 0.37"
    );
    assert!(text(h.handle("top")).contains("portfolio_server"));
    assert!(text(h.handle("ps")).contains("wasm-runtime"));
    assert!(text(h.handle("neofetch")).contains("objz@portfolio"));
}

#[test]
fn history_lists_commands_one_indexed() {
    let mut h = CommandHandler::new();
    assert_eq!(text(h.handle("history")), "  1  history");
    let mut h = CommandHandler::new();
    h.handle("ls");
    h.handle("pwd");
    assert_eq!(text(h.handle("history")), "  1  ls\n  2  pwd\n  3  history");
}

#[test]
fn pwd_and_cd_track_the_directory() {
    let mut h = CommandHandler::new();
    assert_eq!(text(h.handle("pwd")), "/home/objz");
    assert!(matches!(h.handle("cd projects"), CommandResult::DirectoryChanged));
    assert_eq!(text(h.handle("pwd")), "/home/objz/projects");
    assert_eq!(h.get_current_prompt(), "objz@objz:~/projects$ ");
    assert!(matches!(h.handle("cd"), CommandResult::DirectoryChanged));
    assert_eq!(text(h.handle("pwd")), "/home/objz");
    assert_eq!(h.get_current_prompt(), "objz@objz:~$ ");
    assert_eq!(
        text(h.handle("cd /nowhere")),
        "bash: cd: /nowhere: No such file or directory"
    );
    assert_eq!(text(h.handle("pwd")), "/home/objz");
}

#[test]
fn dispatch_records_history_in_order() {
    let mut h = CommandHandler::new();
    h.handle("ls");
    h.handle("");
    h.handle("echo hi");
    assert_eq!(h.history, vec!["ls".to_string(), "echo hi".to_string()]);
}
