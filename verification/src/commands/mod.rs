//! The commands: what each of them decides, asks for and says.

pub mod config_cmd;
pub mod connect;
pub mod deploy;
pub mod deploys;
pub mod doctor;
pub mod gpus;
pub mod launch;
pub mod lease;
pub mod link;
pub mod login;
pub mod logout;
pub mod logs;
pub mod open;
pub mod rename;
pub mod restart;
pub mod run;
pub mod status;
pub mod whoami;

use crate::cli::{Cli, Command};
use crate::commands::launch::LaunchArgs;
use crate::commands::logs::{meant, sort_out};
use crate::text::opt;
use vstd::prelude::*;

verus! {

/// What is to be done.
#[allow(inconsistent_fields)]
pub enum Task {
    Login { remote: Option<String>, url: Option<String>, no_browser: bool },
    Logout { remote: Option<String> },
    Rename { old_name: String, new_name: String },
    Whoami { remote: Option<String>, default: Option<String> },
    Link,
    Connect { provider: String },
    Deploy { env: Option<String>, git_ref: Option<String>, gpu: Option<String> },
    Launch(LaunchArgs),
    Gpus { remote: Option<String> },
    GpuLogs { id: String, remote: Option<String> },
    GpuRm { id: String, remote: Option<String> },
    Logs {
        env: Option<String>,
        target: Option<String>,
        follow: bool,
        since: Option<String>,
        previous: bool,
        lines: u32,
    },
    Deploys { env: Option<String>, limit: usize },
    Status { env: Option<String> },
    Run { env: Option<String>, cmd: Vec<String> },
    Restart { env: Option<String> },
    Open { env: Option<String> },
    Doctor { env: Option<String> },
    Config { env: Option<String> },
}

/// A task is what a command asks for. All goes over as it was given, but for
/// the words of `logs`, which are sorted out, and the GPU of `deploy`, which
/// is left to the environment.
pub open spec fn asks_for(command: Command, task: Task) -> bool {
    match command {
        Command::Login { remote, url, no_browser } => task == (Task::Login {
            remote,
            url,
            no_browser,
        }),
        Command::Logout { remote } => task == (Task::Logout { remote }),
        Command::Rename { old_name, new_name } => task == (Task::Rename { old_name, new_name }),
        Command::Whoami { remote, default } => task == (Task::Whoami { remote, default }),
        Command::Link => task == Task::Link,
        Command::Connect { provider } => task == (Task::Connect { provider }),
        Command::Deploy { env, git_ref } => task == (Task::Deploy { env, git_ref, gpu: None }),
        Command::Launch { image, port, name, env, size, domain, gpu, remote } => task
            == Task::Launch((LaunchArgs { image, port, name, env, size, domain, gpu, remote })),
        Command::Gpus { remote } => task == (Task::Gpus { remote }),
        Command::GpuLogs { id, remote } => task == (Task::GpuLogs { id, remote }),
        Command::GpuRm { id, remote } => task == (Task::GpuRm { id, remote }),
        Command::Logs { env, target, app, follow, since, previous, lines } => {
            &&& task matches Task::Logs {
                env: env_name,
                target: pods,
                follow: follow_too,
                since: since_when,
                previous: previous_too,
                lines: line_count,
            }
            &&& (opt(env_name), opt(pods)) == meant(opt(env), opt(target), opt(app))
            &&& follow_too == follow
            &&& since_when == since
            &&& previous_too == previous
            &&& line_count == lines
        },
        Command::Deploys { env, limit } => task == (Task::Deploys { env, limit }),
        Command::Status { env } => task == (Task::Status { env }),
        Command::Run { env, cmd } => task == (Task::Run { env, cmd }),
        Command::Restart { env } => task == (Task::Restart { env }),
        Command::Open { env } => task == (Task::Open { env }),
        Command::Doctor { env } => task == (Task::Doctor { env }),
        Command::Config { env } => task == (Task::Config { env }),
    }
}

/// What is to be done for a command line.
pub fn dispatch(cli: Cli) -> (r: Task)
    ensures
        asks_for(cli.command, r),
{
    match cli.command {
        Command::Login { remote, url, no_browser } => Task::Login { remote, url, no_browser },
        Command::Logout { remote } => Task::Logout { remote },
        Command::Rename { old_name, new_name } => Task::Rename { old_name, new_name },
        Command::Whoami { remote, default } => Task::Whoami { remote, default },
        Command::Link => Task::Link,
        Command::Connect { provider } => Task::Connect { provider },
        Command::Deploy { env, git_ref } => Task::Deploy { env, git_ref, gpu: None },
        Command::Launch { image, port, name, env, size, domain, gpu, remote } => Task::Launch(
            LaunchArgs { image, port, name, env, size, domain, gpu, remote },
        ),
        Command::Gpus { remote } => Task::Gpus { remote },
        Command::GpuLogs { id, remote } => Task::GpuLogs { id, remote },
        Command::GpuRm { id, remote } => Task::GpuRm { id, remote },
        Command::Logs { env, target, app, follow, since, previous, lines } => {
            let (env, target) = sort_out(env, target, app);
            Task::Logs { env, target, follow, since, previous, lines }
        },
        Command::Deploys { env, limit } => Task::Deploys { env, limit },
        Command::Status { env } => Task::Status { env },
        Command::Run { env, cmd } => Task::Run { env, cmd },
        Command::Restart { env } => Task::Restart { env },
        Command::Open { env } => Task::Open { env },
        Command::Doctor { env } => Task::Doctor { env },
        Command::Config { env } => Task::Config { env },
    }
}

/// A command that acts on an environment acts on the one that was given, and
/// one that talks to a console talks to the one that was given.
pub proof fn what_was_given_goes_over(
    task: Task,
    one: Option<String>,
    two: Option<String>,
    text: String,
    other: String,
    cmd: Vec<String>,
    n: usize,
    yes: bool,
)
    ensures
        asks_for((Command::Login { remote: one, url: two, no_browser: yes }), task) ==> task == (
        Task::Login { remote: one, url: two, no_browser: yes }),
        asks_for((Command::Logout { remote: one }), task) ==> task == (Task::Logout {
            remote: one,
        }),
        asks_for((Command::Rename { old_name: text, new_name: other }), task) ==> task == (
        Task::Rename { old_name: text, new_name: other }),
        asks_for((Command::Whoami { remote: one, default: two }), task) ==> task == (Task::Whoami {
            remote: one,
            default: two,
        }),
        asks_for(Command::Link, task) ==> task == Task::Link,
        asks_for((Command::Connect { provider: text }), task) ==> task == (Task::Connect {
            provider: text,
        }),
        asks_for((Command::Deploy { env: one, git_ref: two }), task) ==> task == (Task::Deploy {
            env: one,
            git_ref: two,
            gpu: None,
        }),
        asks_for((Command::Gpus { remote: one }), task) ==> task == (Task::Gpus { remote: one }),
        asks_for((Command::GpuLogs { id: text, remote: one }), task) ==> task == (Task::GpuLogs {
            id: text,
            remote: one,
        }),
        asks_for((Command::GpuRm { id: text, remote: one }), task) ==> task == (Task::GpuRm {
            id: text,
            remote: one,
        }),
        asks_for((Command::Deploys { env: one, limit: n }), task) ==> task == (Task::Deploys {
            env: one,
            limit: n,
        }),
        asks_for((Command::Status { env: one }), task) ==> task == (Task::Status { env: one }),
        asks_for((Command::Run { env: one, cmd }), task) ==> task == (Task::Run { env: one, cmd }),
        asks_for((Command::Restart { env: one }), task) ==> task == (Task::Restart { env: one }),
        asks_for((Command::Open { env: one }), task) ==> task == (Task::Open { env: one }),
        asks_for((Command::Doctor { env: one }), task) ==> task == (Task::Doctor { env: one }),
        asks_for((Command::Config { env: one }), task) ==> task == (Task::Config { env: one }),
{
}

/// A launch is made of all that was given for it, and logs are asked for with
/// the options that were given, of the environment and the pods that the words
/// name.
pub proof fn a_launch_and_logs_go_over(
    task: Task,
    args: LaunchArgs,
    word: Option<String>,
    pods: Option<String>,
    follow: bool,
    since: Option<String>,
    previous: bool,
    lines: u32,
)
    ensures
        asks_for(
            (Command::Launch {
                image: args.image,
                port: args.port,
                name: args.name,
                env: args.env,
                size: args.size,
                domain: args.domain,
                gpu: args.gpu,
                remote: args.remote,
            }),
            task,
        ) ==> task == Task::Launch(args),
        asks_for(
            (Command::Logs {
                env: word,
                target: pods,
                app: None,
                follow,
                since,
                previous,
                lines,
            }),
            task,
        ) && word is Some && pods is Some ==> (task matches Task::Logs {
            env: env_name,
            target: of_pods,
            follow: follow_too,
            since: since_when,
            previous: previous_too,
            lines: line_count,
        } && opt(env_name) == opt(word) && opt(of_pods) == opt(pods) && follow_too == follow
            && since_when == since && previous_too == previous && line_count == lines),
{
}

} // verus!
