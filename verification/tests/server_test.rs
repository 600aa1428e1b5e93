use copiepate::cipher::Cipher;
use copiepate::frame::{NetFrame, NetFrameType};
use copiepate::nonce::Nonce;
use copiepate::server::connection::{Event, ExecEvent, PasteEvent, Pull};
use copiepate::server::{BuilderError, Server, ServerBuilder};
use copiepate::ConnectionState;

const SERVER_TEST_KEY: &[u8; 32] = b"__WARNING_UNSECURE_KEY_TESTING__";

fn paste(text: &str) -> PasteEvent {
    PasteEvent { payload: String::from(text) }
}

fn exec(text: &str) -> ExecEvent {
    ExecEvent { payload: String::from(text) }
}

#[test]
fn server_keeps_its_address() {
    let server = Server::new("127.0.0.1:2423", SERVER_TEST_KEY, None);
    assert_eq!(server.address(), "127.0.0.1:2423");
}

#[test]
fn paste_event_goes_to_the_clipboard_alone_without_a_command() {
    let server = Server::new("127.0.0.1:2423", SERVER_TEST_KEY, None);
    let actions = server.handle_paste_event(&paste("Test Message"));
    assert_eq!(actions.clipboard(), Some(&String::from("Test Message")));
    assert!(actions.after_clipboard(true).is_none());
}

#[test]
fn paste_event_goes_to_the_clipboard_and_the_command() {
    let server = Server::new("127.0.0.1:2423", SERVER_TEST_KEY, Some(String::from("wc -c")));
    let actions = server.handle_paste_event(&paste("Test Message"));
    assert_eq!(actions.clipboard(), Some(&String::from("Test Message")));
    let execution = actions.after_clipboard(true).unwrap();
    assert_eq!(execution.command, "wc -c");
    assert_eq!(execution.input, "Test Message");
}

#[test]
fn command_is_not_run_where_the_clipboard_refused() {
    let server = Server::new("127.0.0.1:2423", SERVER_TEST_KEY, Some(String::from("wc -c")));
    let actions = server.handle_paste_event(&paste("Test Message"));
    assert_eq!(actions.clipboard(), Some(&String::from("Test Message")));
    assert!(actions.after_clipboard(false).is_none());
    let dispatched = server.dispatch(&Event::PasteEvent(paste("Test Message")));
    assert!(dispatched.after_clipboard(false).is_none());
}

#[test]
fn exec_event_goes_to_the_command_alone() {
    let server = Server::new("127.0.0.1:2423", SERVER_TEST_KEY, Some(String::from("sh")));
    let actions = server.handle_exec_event(&exec("echo hello"));
    assert!(actions.clipboard().is_none());
    let execution = actions.after_clipboard(true).unwrap();
    assert_eq!(execution.command, "sh");
    assert_eq!(execution.input, "echo hello");
}

#[test]
fn exec_event_runs_the_command_whatever_the_clipboard_said() {
    let server = Server::new("127.0.0.1:2423", SERVER_TEST_KEY, Some(String::from("sh")));
    let execution = server.handle_exec_event(&exec("echo hello")).after_clipboard(false).unwrap();
    assert_eq!(execution.command, "sh");
    assert_eq!(execution.input, "echo hello");
}

#[test]
fn exec_event_without_a_command_does_nothing() {
    let server = Server::new("127.0.0.1:2423", SERVER_TEST_KEY, None);
    let actions = server.handle_exec_event(&exec("echo hello"));
    assert!(actions.clipboard().is_none());
    assert!(actions.after_clipboard(true).is_none());
}

#[test]
fn exec_command_needs_a_command() {
    let without = Server::new("127.0.0.1:2423", SERVER_TEST_KEY, None);
    assert!(without.exec_command("input").is_none());
    let with = Server::new("127.0.0.1:2423", SERVER_TEST_KEY, Some(String::from("cat")));
    let execution = with.exec_command("input").unwrap();
    assert_eq!(execution.command, "cat");
    assert_eq!(execution.input, "input");
}

#[test]
fn dispatch_tells_the_events_apart() {
    let server = Server::new("127.0.0.1:2423", SERVER_TEST_KEY, Some(String::from("cat")));
    let pasted = server.dispatch(&Event::PasteEvent(paste("one")));
    assert_eq!(pasted.clipboard(), Some(&String::from("one")));
    assert_eq!(pasted.after_clipboard(true).unwrap().input, "one");
    let run = server.dispatch(&Event::ExecEvent(exec("two")));
    assert_eq!(run.clipboard(), None);
    assert_eq!(run.after_clipboard(true).unwrap().input, "two");
}

#[test]
fn each_connection_starts_new_with_the_key_of_the_server() {
    let server = Server::new("127.0.0.1:2423", SERVER_TEST_KEY, None);
    let mut first = server.connection();
    let mut second = server.connection();
    assert!(matches!(first.state(), ConnectionState::New));
    first.grant(Nonce::from([1; 12])).unwrap();
    assert!(matches!(second.state(), ConnectionState::New));
    second.grant(Nonce::from([2; 12])).unwrap();
    let payload = Cipher::new(SERVER_TEST_KEY).encrypt(&Nonce::from([1; 12]), b"hello").unwrap();
    let frame = NetFrame::new(NetFrameType::CopyMessage, payload).to_net();
    assert!(matches!(first.next(&frame), Pull::Item(Ok(Event::PasteEvent(_)))));
    assert!(matches!(second.next(&frame), Pull::Item(Err(_))));
}

#[test]
fn builder_makes_the_server_that_was_named() {
    let server = ServerBuilder::default()
        .address("127.0.0.1:2423")
        .key(SERVER_TEST_KEY)
        .exec_command(Some(String::from("cat")))
        .build()
        .expect("Could not build server");
    assert_eq!(server.address(), "127.0.0.1:2423");
    assert_eq!(server.exec_command("in").unwrap().command, "cat");
    let mut connection = server.connection();
    connection.grant(Nonce::from([1; 12])).unwrap();
    let payload = Cipher::new(SERVER_TEST_KEY).encrypt(&Nonce::from([1; 12]), b"hello").unwrap();
    let frame = NetFrame::new(NetFrameType::CopyMessage, payload).to_net();
    assert!(matches!(connection.next(&frame), Pull::Item(Ok(Event::PasteEvent(_)))));
}

#[test]
fn builder_needs_no_command() {
    let server = ServerBuilder::default().address("[::1]:1").key(&[0; 32]).build().unwrap();
    assert!(server.exec_command("in").is_none());
    let cleared = ServerBuilder::default()
        .exec_command(Some(String::from("cat")))
        .exec_command(None)
        .address("[::1]:1")
        .key(&[0; 32])
        .build()
        .unwrap();
    assert!(cleared.exec_command("in").is_none());
}

#[test]
fn builder_needs_an_address() {
    let built = ServerBuilder::default().key(SERVER_TEST_KEY).build();
    assert_eq!(built.err(), Some(BuilderError::MissingAddress));
    let empty = ServerBuilder::default().build();
    assert_eq!(empty.err(), Some(BuilderError::MissingAddress));
}

#[test]
fn builder_needs_a_key() {
    let built = ServerBuilder::default().address("127.0.0.1:2423").build();
    assert_eq!(built.err(), Some(BuilderError::MissingKey));
}
