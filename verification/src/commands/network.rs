//! Pretend network commands: a canned telnet transcript and a netcat skit.

use vstd::prelude::*;

use crate::text::{contains_seq, str_contains, str_eq};

verus! {

pub const TELNET_OK: &'static str = r#"Trying 127.0.0.1...
Connected to localhost.
Escape character is '^]'.

░░░░░░░░░░░░░░░░░░░░░░░░░░░░░░░░░░░░░
░  SECURE TERMINAL ACCESS GRANTED  ░
░░░░░░░░░░░░░░░░░░░░░░░░░░░░░░░░░░░░░

You are now connected to the portfolio mainframe.
Type 'exit' to disconnect.

mainframe> Welcome to the objz portfolio system
mainframe> All activities are monitored
mainframe> Have a nice day :)

Connection closed by foreign host."#;

pub const NC_BANNER: &'static str = r#"Connection established to hacker.net:1337
██╗  ██╗ █████╗  ██████╗██╗  ██╗███████╗██████╗ 
██║  ██║██╔══██╗██╔════╝██║ ██╔╝██╔════╝██╔══██╗
███████║███████║██║     █████╔╝ █████╗  ██████╔╝
██╔══██║██╔══██║██║     ██╔═██╗ ██╔══╝  ██╔══██╗
██║  ██║██║  ██║╚██████╗██║  ██╗███████╗██║  ██║
╚═╝  ╚═╝╚═╝  ╚═╝ ╚═════╝╚═╝  ╚═╝╚══════╝╚═╝  ╚═╝

Welcome to the hacker matrix...
Access level: GUEST
Available exploits: 0

> This is just a portfolio demo!
> No actual hacking here :)

Connection terminated."#;

pub const NC_USAGE: &'static str = "usage: nc [-options] hostname port";

/// What `telnet` prints: the canned session for the local host (the default
/// when no host is given), else the resolve failure naming the host.
pub open spec fn telnet_spec(args: Seq<Seq<char>>) -> Seq<char> {
    let host = if args.len() == 0 {
        "localhost"@
    } else {
        args[0]
    };
    if host == "127.0.0.1"@ || host == "localhost"@ {
        TELNET_OK@
    } else {
        "telnet: could not resolve "@ + host + "/telnet: Name or service not known"@
    }
}

/// Connects to the local host only.
pub fn telnet(args: &Vec<String>) -> (r: String)
    ensures
        r@ == telnet_spec(args.deep_view()),
{
    proof {
        assert(forall|i: int|
            0 <= i < args@.len() ==> args.deep_view()[i] == #[trigger] args@[i]@);
    }
    if args.len() == 0 {
        return String::from_str(TELNET_OK);
    }
    let host: &str = args[0].as_str();
    if str_eq(host, "127.0.0.1") || str_eq(host, "localhost") {
        String::from_str(TELNET_OK)
    } else {
        let mut r: String = String::from_str("telnet: could not resolve ");
        r.append(host);
        r.append("/telnet: Name or service not known");
        r
    }
}

/// What `nc` prints: usage for fewer than two arguments, the banner for a
/// host containing `hacker` on port 1337, else the refusal naming host and
/// port.
pub open spec fn netcat_spec(args: Seq<Seq<char>>) -> Seq<char> {
    if args.len() >= 2 {
        if contains_seq(args[0], "hacker"@) && args[1] == "1337"@ {
            NC_BANNER@
        } else {
            "nc: connect to "@ + args[0] + " port "@ + args[1] + ": Connection refused"@
        }
    } else {
        NC_USAGE@
    }
}

/// Refuses every connection but the hacker matrix.
pub fn netcat(args: &Vec<String>) -> (r: String)
    ensures
        r@ == netcat_spec(args.deep_view()),
{
    proof {
        assert(forall|i: int|
            0 <= i < args@.len() ==> args.deep_view()[i] == #[trigger] args@[i]@);
    }
    if args.len() >= 2 {
        let host: &str = args[0].as_str();
        let port: &str = args[1].as_str();
        if str_contains(host, "hacker") && str_eq(port, "1337") {
            String::from_str(NC_BANNER)
        } else {
            let mut r: String = String::from_str("nc: connect to ");
            r.append(host);
            r.append(" port ");
            r.append(port);
            r.append(": Connection refused");
            r
        }
    } else {
        String::from_str(NC_USAGE)
    }
}

} // verus!
