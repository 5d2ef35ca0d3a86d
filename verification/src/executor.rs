//! The decisions around running the user's command: what to start, and
//! what its outcome means. Starting the process is left to the caller.

use crate::error::{CleanError, CleanErrorView};
use crate::process::{decimal, decimal_text, ProcessOutcome};
use crate::text::{join, join_texts, lemma_texts_push, texts};
use vstd::prelude::*;
use vstd::string::*;

verus! {

/// The user's command, ready to be started in a directory.
#[derive(Debug, Clone, PartialEq, Eq)]
pub struct Launch {
    pub dir: String,
    pub program: String,
    pub args: Vec<String>,
}

/// The mathematical value of a [`Launch`].
pub struct LaunchView {
    pub dir: Seq<char>,
    pub program: Seq<char>,
    pub args: Seq<Seq<char>>,
}

impl View for Launch {
    type V = LaunchView;

    open spec fn view(&self) -> LaunchView {
        LaunchView { dir: self.dir@, program: self.program@, args: texts(self.args@) }
    }
}

/// The value of a result that holds a launch.
pub open spec fn launch_result(r: Result<Launch, CleanError>) -> Result<
    LaunchView,
    CleanErrorView,
> {
    match r {
        Ok(l) => Ok(l@),
        Err(e) => Err(e@),
    }
}

/// The value of a result that holds nothing but success.
pub open spec fn unit_result(r: Result<(), CleanError>) -> Result<(), CleanErrorView> {
    match r {
        Ok(_) => Ok(()),
        Err(e) => Err(e@),
    }
}

/// The command as one line: its tokens separated by single spaces.
pub open spec fn command_line_text(command: Seq<Seq<char>>) -> Seq<char> {
    join(command, seq![' '])
}

/// What starting `command` in `dir` comes to: the first token is the
/// program and the others are its arguments; an empty command is refused.
pub open spec fn launch_of(dir: Seq<char>, command: Seq<Seq<char>>) -> Result<
    LaunchView,
    CleanErrorView,
> {
    if command.len() == 0 {
        Err(CleanErrorView::CommandExecutionFailed("No command provided"@))
    } else {
        Ok(LaunchView { dir: dir, program: command[0], args: command.skip(1) })
    }
}

/// What the outcome of the user's command means: success only for exit
/// code 0; otherwise a failure that quotes the command line and gives the
/// reason, with -1 standing for a missing exit code.
pub open spec fn command_verdict(command: Seq<Seq<char>>, outcome: ProcessOutcome) -> Result<
    (),
    CleanErrorView,
> {
    match outcome {
        ProcessOutcome::SpawnFailed(reason) => Err(
            CleanErrorView::CommandExecutionFailed(
                "Failed to execute command '"@ + command_line_text(command) + "': "@ + reason@,
            ),
        ),
        ProcessOutcome::Exited { code, .. } => if code == Some(0i32) {
            Ok(())
        } else {
            Err(
                CleanErrorView::CommandExecutionFailed(
                    "Command '"@ + command_line_text(command) + "' failed with exit code "@
                        + decimal(
                        match code {
                            Some(c) => c as int,
                            None => -1,
                        },
                    ),
                ),
            )
        },
    }
}

/// The command as one line: its tokens separated by single spaces.
pub fn command_line(command: &Vec<String>) -> (r: String)
    ensures
        r@ == command_line_text(texts(command@)),
{
    proof {
        reveal_strlit(" ");
        assert(" "@ =~= seq![' ']);
    }
    join_texts(command, " ")
}

/// Prepares the user's command for being started in `dir`.
///
/// An empty command is rejected before anything is started.
pub fn execute_command(dir: &str, command: &Vec<String>) -> (r: Result<Launch, CleanError>)
    ensures
        launch_result(r) == launch_of(dir@, texts(command@)),
{
    if command.len() == 0 {
        return Err(CleanError::CommandExecutionFailed(String::from_str("No command provided")));
    }
    let mut args: Vec<String> = Vec::new();
    let mut i: usize = 1;
    while i < command.len()
        invariant
            1 <= i <= command@.len(),
            texts(args@) == texts(command@).subrange(1, i as int),
        decreases command@.len() - i,
    {
        proof {
            lemma_texts_push(args@, command@[i as int]);
        }
        args.push(command[i].clone());
        assert(texts(args@) =~= texts(command@).subrange(1, i as int + 1));
        i = i + 1;
    }
    assert(texts(command@).subrange(1, command@.len() as int) =~= texts(command@).skip(1));
    Ok(Launch { dir: String::from_str(dir), program: command[0].clone(), args: args })
}

/// Judges the outcome of the user's command.
pub fn command_result(command: &Vec<String>, outcome: &ProcessOutcome) -> (r: Result<
    (),
    CleanError,
>)
    ensures
        unit_result(r) == command_verdict(texts(command@), *outcome),
{
    match outcome {
        ProcessOutcome::SpawnFailed(reason) => {
            let mut message = String::from_str("Failed to execute command '");
            let line = command_line(command);
            message.append(line.as_str());
            message.append("': ");
            message.append(reason.as_str());
            Err(CleanError::CommandExecutionFailed(message))
        },
        ProcessOutcome::Exited { code, .. } => {
            let shown: i32 = match code {
                Some(c) => {
                    if *c == 0 {
                        return Ok(());
                    }
                    *c
                },
                None => -1,
            };
            let mut message = String::from_str("Command '");
            let line = command_line(command);
            message.append(line.as_str());
            message.append("' failed with exit code ");
            let number = decimal_text(shown);
            message.append(number.as_str());
            Err(CleanError::CommandExecutionFailed(message))
        },
    }
}

} // verus!
