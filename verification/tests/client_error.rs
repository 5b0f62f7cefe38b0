use beach::client::terminal::ClientError;

#[test]
fn client_errors_read_as_their_kind_and_description() {
    assert_eq!(ClientError::Transport("closed".to_string()).message(), "transport error: closed");
    assert_eq!(ClientError::Protocol("bad frame".to_string()).message(), "protocol error: bad frame");
    assert_eq!(ClientError::Shutdown.message(), "shutdown requested");
}
