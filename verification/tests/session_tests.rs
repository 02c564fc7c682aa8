use burst::session::{
    after_refusal, command_error_message, session_error_message, CommandStage, ConnectStep, SessionError,
    RETRY_BUDGET,
};

#[test]
fn a_refusing_host_is_given_up_on_at_the_fifth_refusal() {
    let mut refused: u32 = 0;
    let mut attempts: u32 = 0;
    let error = loop {
        attempts += 1;
        match after_refusal(refused) {
            ConnectStep::Retry => refused += 1,
            ConnectStep::GiveUp => break SessionError::Connection,
        }
    };
    assert_eq!(attempts, 5);
    assert_eq!(refused, RETRY_BUDGET);
    assert_eq!(error, SessionError::Connection);
}

#[test]
fn after_refusal_at_the_edge_of_the_budget() {
    assert_eq!(after_refusal(0), ConnectStep::Retry);
    assert_eq!(after_refusal(3), ConnectStep::Retry);
    assert_eq!(after_refusal(4), ConnectStep::GiveUp);
    assert_eq!(after_refusal(u32::MAX), ConnectStep::GiveUp);
}

#[test]
fn session_errors_have_their_texts() {
    assert_eq!(session_error_message(SessionError::Connection), "falied to connect to ssh port");
    assert_eq!(session_error_message(SessionError::Unavailable), "libssh2 not available");
    assert_eq!(session_error_message(SessionError::Handshake), "failed to perform ssh handshake");
    assert_eq!(session_error_message(SessionError::Authentication), "failed to authenticate ssh session");
}

#[test]
fn command_errors_quote_the_command() {
    assert_eq!(
        command_error_message(CommandStage::Channel, "ls -l"),
        "failed to create ssh channel for command 'ls -l'"
    );
    assert_eq!(command_error_message(CommandStage::Execute, "ls"), "failed to execute command 'ls'");
    assert_eq!(command_error_message(CommandStage::Read, "ls"), "failed to read results of command 'ls'");
    assert_eq!(command_error_message(CommandStage::Close, ""), "command '' never compeleted");
}

#[test]
fn sessions_log_in_on_the_shell_port() {
    assert_eq!(burst::session::SSH_PORT, 22);
    assert_eq!(burst::session::login_user(), "ec2-user");
}
