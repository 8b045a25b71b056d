//! Commands for the system `ssh`, and what a finished one says.
//!
//! All commands to a box share one connection: the first pays the handshake
//! and the later ones go over its socket. The user's own ssh configuration
//! stays in force.

use crate::config::{join_path, path_under};
use crate::failure::{fail, Failure};
use crate::text::{
    begins_and_ends_as_put_together, has_prefix, has_suffix, occurs_in, occurs_in_a_part,
    occurs_in_itself, opt_str, show_signed, signed_decimal, trim, trimmed, views,
};
use vstd::prelude::*;
use vstd::string::*;

verus! {

/// A box that is reached by ssh.
pub struct Ssh {
    target: String,
    control_path: String,
}

/// The options that every ssh command carries.
pub open spec fn ssh_options(control_path: Seq<char>) -> Seq<Seq<char>> {
    seq![
        "-o"@,
        "ControlMaster=auto"@,
        "-o"@,
        "ControlPath="@ + control_path,
        "-o"@,
        "ControlPersist=10m"@,
        "-o"@,
        "ServerAliveInterval=30"@,
        "-o"@,
        "ConnectTimeout=10"@,
    ]
}

/// The arguments of an ssh command.
pub open spec fn ssh_args(
    target: Seq<char>,
    control_path: Seq<char>,
    tty: bool,
    remote: Seq<char>,
) -> Seq<Seq<char>> {
    let options = ssh_options(control_path);
    let with_tty = if tty {
        options.push("-t"@)
    } else {
        options
    };
    with_tty.push(target).push(remote)
}

/// What is said where an exit code is named.
pub open spec fn code_text(code: Option<i32>) -> Seq<char> {
    match code {
        Some(n) => "Some("@ + signed_decimal(n as int) + ")"@,
        None => "None"@,
    }
}

/// What an ssh command's error output tells, if anything.
pub open spec fn detail_of(stderr: Option<Seq<char>>) -> Option<Seq<char>> {
    match stderr {
        Some(text) => if trimmed(text).len() > 0 {
            Some(trimmed(text))
        } else {
            None
        },
        None => None,
    }
}

/// What is said of a finished ssh command, where it failed. The code 255 is
/// ssh's own; every other is the remote command's.
pub open spec fn ssh_problem(
    target: Seq<char>,
    code: Option<i32>,
    stderr: Option<Seq<char>>,
) -> Option<Seq<char>> {
    let detail = detail_of(stderr);
    if code == Some(0i32) {
        None
    } else if code == Some(255i32) {
        Some(
            "could not reach "@ + target + " over ssh"@ + (match detail {
                Some(text) => ": "@ + text,
                None => ""@,
            })
                + " — the boxes gate ssh by source IP; check you're on an allowed network/VPN, then verify with: ssh "@
                + target,
        )
    } else {
        Some(
            "remote command failed (exit "@ + code_text(code) + ")"@ + (match detail {
                Some(text) => ": "@ + text,
                None => ""@,
            }),
        )
    }
}

fn show_code(code: Option<i32>) -> (r: String)
    ensures
        r@ == code_text(code),
{
    match code {
        Some(n) => "Some(".to_string().concat(show_signed(n as i64).as_str()).concat(")"),
        None => "None".to_string(),
    }
}

fn detail_suffix(stderr: Option<&str>) -> (r: String)
    ensures
        r@ == (match detail_of(opt_str(stderr)) {
            Some(text) => ": "@ + text,
            None => ""@,
        }),
{
    if let Some(text) = stderr {
        let detail = trim(text);
        if detail.unicode_len() > 0 {
            return ": ".to_string().concat(detail);
        }
    }
    "".to_string()
}

impl Ssh {
    /// What ssh is told to connect to.
    pub closed spec fn target_text(&self) -> Seq<char> {
        self.target@
    }

    /// The path of the shared connection's socket.
    pub closed spec fn control_text(&self) -> Seq<char> {
        self.control_path@
    }

    /// The directory of the shared connections' sockets.
    pub fn socket_dir(config_home: &str) -> (r: String)
        ensures
            r@ == path_under(config_home@, "sockets"@),
    {
        join_path(config_home, "sockets")
    }

    /// A box. Its socket is named by ssh after the connection, which keeps the
    /// path short.
    pub fn new(target: String, config_home: &str) -> (r: Self)
        ensures
            r.target_text() == target@,
            r.control_text() == path_under(path_under(config_home@, "sockets"@), "%C"@),
    {
        let control_path = join_path(Ssh::socket_dir(config_home).as_str(), "%C");
        Ssh { target, control_path }
    }

    fn option_args(&self) -> (r: Vec<String>)
        ensures
            views(r@) == ssh_options(self.control_text()),
    {
        let mut out: Vec<String> = Vec::new();
        out.push("-o".to_string());
        out.push("ControlMaster=auto".to_string());
        out.push("-o".to_string());
        out.push("ControlPath=".to_string().concat(self.control_path.as_str()));
        out.push("-o".to_string());
        out.push("ControlPersist=10m".to_string());
        out.push("-o".to_string());
        out.push("ServerAliveInterval=30".to_string());
        out.push("-o".to_string());
        out.push("ConnectTimeout=10".to_string());
        proof {
            assert(views(out@) =~= ssh_options(self.control_text()));
        }
        out
    }

    fn command(&self, tty: bool, remote: &str) -> (r: Vec<String>)
        ensures
            views(r@) == ssh_args(self.target_text(), self.control_text(), tty, remote@),
    {
        let mut out = self.option_args();
        if tty {
            out.push("-t".to_string());
        }
        out.push(self.target.clone());
        out.push(remote.to_string());
        proof {
            assert(views(out@) =~= ssh_args(
                self.target_text(),
                self.control_text(),
                tty,
                remote@,
            ));
        }
        out
    }

    /// The arguments of a command that streams its output to the terminal.
    pub fn run(&self, remote: &str) -> (r: Vec<String>)
        ensures
            views(r@) == ssh_args(self.target_text(), self.control_text(), false, remote@),
    {
        self.command(false, remote)
    }

    /// The arguments of a command with a terminal, for what is followed or
    /// typed into. How it exits is not looked at: an interrupt goes to the
    /// remote process.
    pub fn run_interactive(&self, remote: &str) -> (r: Vec<String>)
        ensures
            views(r@) == ssh_args(self.target_text(), self.control_text(), true, remote@),
    {
        self.command(true, remote)
    }

    /// The arguments of a command that reads what it is given from its
    /// standard input.
    pub fn run_with_stdin(&self, remote: &str) -> (r: Vec<String>)
        ensures
            views(r@) == ssh_args(self.target_text(), self.control_text(), false, remote@),
    {
        self.command(false, remote)
    }

    /// Whether a finished command succeeded, and what is said where it did not.
    pub fn ensure_success(&self, code: Option<i32>, stderr: Option<&str>) -> (r: Result<
        (),
        Failure,
    >)
        ensures
            match (r, ssh_problem(self.target_text(), code, opt_str(stderr))) {
                (Ok(_), None) => true,
                (Err(failure), Some(text)) => failure@ == text,
                _ => false,
            },
    {
        match code {
            Some(0) => Ok(()),
            Some(255) => Err(
                fail(
                    "could not reach ".to_string().concat(self.target.as_str()).concat(
                        " over ssh",
                    ).concat(detail_suffix(stderr).as_str()).concat(
                        " — the boxes gate ssh by source IP; check you're on an allowed network/VPN, then verify with: ssh ",
                    ).concat(self.target.as_str()),
                ),
            ),
            other => Err(
                fail(
                    "remote command failed (exit ".to_string().concat(
                        show_code(other).as_str(),
                    ).concat(")").concat(detail_suffix(stderr).as_str()),
                ),
            ),
        }
    }

    /// The output of a finished command, trimmed.
    pub fn capture(&self, code: Option<i32>, stdout: &str, stderr: &str) -> (r: Result<
        String,
        Failure,
    >)
        ensures
            match (r, ssh_problem(self.target_text(), code, Some(stderr@))) {
                (Ok(out), None) => out@ == trimmed(stdout@),
                (Err(failure), Some(text)) => failure@ == text,
                _ => false,
            },
    {
        match self.ensure_success(code, Some(stderr)) {
            Ok(_) => Ok(trim(stdout).to_string()),
            Err(failure) => Err(failure),
        }
    }

    /// The ssh command that git is to use, so that a push shares the
    /// connection.
    pub fn git_ssh_command(&self) -> (r: String)
        ensures
            r@ == "ssh -o ControlMaster=auto -o ControlPath="@ + self.control_text()
                + " -o ControlPersist=10m -o ServerAliveInterval=30 -o ConnectTimeout=10"@,
    {
        "ssh -o ControlMaster=auto -o ControlPath=".to_string().concat(
            self.control_path.as_str(),
        ).concat(" -o ControlPersist=10m -o ServerAliveInterval=30 -o ConnectTimeout=10")
    }
}

/// A command goes to its box, as the last word, behind the box, with a terminal
/// exactly where one is asked for.
pub proof fn a_command_goes_to_its_box(
    target: Seq<char>,
    control_path: Seq<char>,
    tty: bool,
    remote: Seq<char>,
)
    ensures
        ({
            let args = ssh_args(target, control_path, tty, remote);
            &&& args.last() == remote
            &&& args[args.len() - 2] == target
            &&& args[args.len() - 3] == "-t"@ <==> tty
            &&& args.len() == ssh_options(control_path).len() + (if tty {
                3
            } else {
                2int
            })
            &&& args.take(ssh_options(control_path).len() as int) == ssh_options(control_path)
        }),
        ssh_options(control_path).contains("ControlMaster=auto"@),
        ssh_options(control_path).contains("ControlPath="@ + control_path),
        ssh_options(control_path).contains("ControlPersist=10m"@),
        ssh_options(control_path).contains("ServerAliveInterval=30"@),
        ssh_options(control_path).contains("ConnectTimeout=10"@),
        forall|i: int|
            0 <= i < ssh_options(control_path).len() && i % 2 == 0
                ==> #[trigger] ssh_options(control_path)[i] == "-o"@,
{
    reveal_strlit("-t");
    reveal_strlit("ConnectTimeout=10");
    assert("-t"@.len() != "ConnectTimeout=10"@.len());
    let options = ssh_options(control_path);
    let args = ssh_args(target, control_path, tty, remote);
    assert(args.take(options.len() as int) =~= options);
    assert(options[1] == "ControlMaster=auto"@);
    assert(options[3] == "ControlPath="@ + control_path);
    assert(options[5] == "ControlPersist=10m"@);
    assert(options[7] == "ServerAliveInterval=30"@);
    assert(options[9] == "ConnectTimeout=10"@);
}

/// Only the exit code 0 is a success. The code of ssh itself tells that the box
/// was not reached, and every other that the command failed; both with what
/// the error output says, where it says something.
pub proof fn only_zero_is_a_success(
    target: Seq<char>,
    code: i32,
    stderr: Seq<char>,
    unread: Option<Seq<char>>,
)
    ensures
        ssh_problem(target, Some(code), unread) is None <==> code == 0,
        ssh_problem(target, None, unread) is Some,
        code == 255 ==> has_prefix(
            ssh_problem(target, Some(code), unread)->0,
            "could not reach "@ + target + " over ssh"@,
        ),
        code != 0 && code != 255 ==> has_prefix(
            ssh_problem(target, Some(code), unread)->0,
            "remote command failed (exit Some("@ + signed_decimal(code as int) + "))"@,
        ),
        code != 0 && code != 255 && trimmed(stderr).len() > 0 ==> has_suffix(
            ssh_problem(target, Some(code), Some(stderr))->0,
            ": "@ + trimmed(stderr),
        ),
        code == 255 && trimmed(stderr).len() > 0 ==> occurs_in(
            ": "@ + trimmed(stderr),
            ssh_problem(target, Some(code), Some(stderr))->0,
        ),
{
    reveal_strlit("remote command failed (exit Some(");
    reveal_strlit("remote command failed (exit ");
    reveal_strlit("Some(");
    reveal_strlit(")");
    reveal_strlit("))");
    reveal_strlit("");
    let why = match detail_of(unread) {
        Some(text) => ": "@ + text,
        None => ""@,
    };
    let told = ": "@ + trimmed(stderr);
    let gone = "could not reach "@ + target + " over ssh"@;
    let hint = " — the boxes gate ssh by source IP; check you're on an allowed network/VPN, then verify with: ssh "@
        + target;
    let head = "remote command failed (exit Some("@ + signed_decimal(code as int) + "))"@;
    assert(head =~= "remote command failed (exit "@ + code_text(Some(code)) + ")"@);
    begins_and_ends_as_put_together(gone, why + hint);
    begins_and_ends_as_put_together(head, why);
    begins_and_ends_as_put_together(head, told);
    occurs_in_itself(told);
    occurs_in_a_part(told, gone, told, hint);
    if code == 255 {
        assert(ssh_problem(target, Some(code), unread)->0 =~= gone + (why + hint));
        if trimmed(stderr).len() > 0 {
            assert(ssh_problem(target, Some(code), Some(stderr))->0 =~= gone + told + hint);
        }
    }
}

} // verus!
