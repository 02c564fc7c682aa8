//! The rules of a remote-shell session: how often a refused connection is
//! tried again, and what a failure at each stage is called.

use vstd::prelude::*;

verus! {

/// How many refused attempts are followed by another attempt.
pub const RETRY_BUDGET: u32 = 4;

/// The port of the remote shell on every machine.
pub const SSH_PORT: u16 = 22;

/// The user that a session logs in as.
pub fn login_user() -> (user: String)
    ensures
        user@ == "ec2-user"@,
{
    String::from_str("ec2-user")
}

/// What follows a refused connection attempt.
#[derive(Clone, Copy, Debug, PartialEq, Eq)]
pub enum ConnectStep {
    Retry,
    GiveUp,
}

/// The stage at which opening a session failed.
#[derive(Clone, Copy, Debug, PartialEq, Eq)]
pub enum SessionError {
    /// The host refused every attempt to connect.
    Connection,
    /// The remote-shell library could not be set up.
    Unavailable,
    /// The handshake with the host failed.
    Handshake,
    /// The host did not accept the key.
    Authentication,
}

/// The stage at which running a command failed.
#[derive(Clone, Copy, Debug, PartialEq, Eq)]
pub enum CommandStage {
    Channel,
    Execute,
    Read,
    Close,
}

/// What follows the refusal of an attempt that `refused_before` refusals came
/// before.
pub open spec fn step_after(refused_before: nat) -> ConnectStep {
    if refused_before < RETRY_BUDGET {
        ConnectStep::Retry
    } else {
        ConnectStep::GiveUp
    }
}

/// How a host that refuses `refusals` times in a row, starting after
/// `refused_before` refusals, is treated: `true` where the session gives up.
pub open spec fn gives_up(refused_before: nat, refusals: nat) -> bool
    decreases refusals,
{
    if refusals == 0 {
        false
    } else if step_after(refused_before) == ConnectStep::GiveUp {
        true
    } else {
        gives_up(refused_before + 1, (refusals - 1) as nat)
    }
}

/// Decides what follows a refused connection attempt.
pub fn after_refusal(refused_before: u32) -> (step: ConnectStep)
    ensures
        step == step_after(refused_before as nat),
{
    if refused_before < RETRY_BUDGET {
        ConnectStep::Retry
    } else {
        ConnectStep::GiveUp
    }
}

/// A host that keeps refusing is given up on at the fifth refusal, and not
/// before: the first attempt and the whole retry budget were then spent.
pub proof fn lemma_retry_budget(refusals: nat)
    ensures
        gives_up(0, refusals) == (refusals > RETRY_BUDGET),
{
    reveal_with_fuel(gives_up, 7);
}

/// The text that names a failure to open a session.
pub fn session_error_message(error: SessionError) -> (text: String)
    ensures
        text@ == match error {
            SessionError::Connection => "falied to connect to ssh port"@,
            SessionError::Unavailable => "libssh2 not available"@,
            SessionError::Handshake => "failed to perform ssh handshake"@,
            SessionError::Authentication => "failed to authenticate ssh session"@,
        },
{
    match error {
        SessionError::Connection => String::from_str("falied to connect to ssh port"),
        SessionError::Unavailable => String::from_str("libssh2 not available"),
        SessionError::Handshake => String::from_str("failed to perform ssh handshake"),
        SessionError::Authentication => String::from_str("failed to authenticate ssh session"),
    }
}

/// The text that names a failed command, by the stage at which it failed.
pub open spec fn command_failure(stage: CommandStage, command: Seq<char>) -> Seq<char> {
    match stage {
        CommandStage::Channel => "failed to create ssh channel for command '"@ + command + "'"@,
        CommandStage::Execute => "failed to execute command '"@ + command + "'"@,
        CommandStage::Read => "failed to read results of command '"@ + command + "'"@,
        CommandStage::Close => "command '"@ + command + "' never compeleted"@,
    }
}

/// Names a failed command.
pub fn command_error_message(stage: CommandStage, command: &str) -> (text: String)
    ensures
        text@ == command_failure(stage, command@),
{
    match stage {
        CommandStage::Channel => String::from_str("failed to create ssh channel for command '").concat(
            command,
        ).concat("'"),
        CommandStage::Execute => String::from_str("failed to execute command '").concat(command).concat("'"),
        CommandStage::Read => String::from_str("failed to read results of command '").concat(command).concat(
            "'",
        ),
        CommandStage::Close => String::from_str("command '").concat(command).concat("' never compeleted"),
    }
}

} // verus!
