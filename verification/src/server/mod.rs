//! The server's side of the protocol: one state machine per connection, and
//! what is done with the events that it yields.
use vstd::prelude::*;

pub mod connection;
pub mod error;

pub use connection::{Connection, Event, ExecEvent, PasteEvent};
pub use error::ServerError;

use crate::cipher::Cipher;
use crate::{ConnectionView, StateView, KEY_SIZE};

verus! {

/// One run of the configured command.
#[derive(Debug)]
pub struct Execution {
    /// The shell command.
    pub command: String,
    /// What the command reads from its standard input.
    pub input: String,
}

/// What is to be done with an event, in this order: the text is put on the
/// clipboard, once, and then the command is run, unless the clipboard refused
/// the text. The command is handed out by `after_clipboard` alone, which
/// takes the clipboard's answer.
#[derive(Debug)]
pub struct Actions {
    /// The text to put on the clipboard.
    clipboard: Option<String>,
    /// The command to run once the clipboard has taken the text.
    execution: Option<Execution>,
}

/// An execution, as contracts see it.
pub struct ExecutionView {
    pub command: Seq<char>,
    pub input: Seq<char>,
}

/// The actions on an event, as contracts see them.
pub struct ActionsView {
    pub clipboard: Option<Seq<char>>,
    pub execution: Option<ExecutionView>,
}

impl View for Execution {
    type V = ExecutionView;

    open spec fn view(&self) -> ExecutionView {
        ExecutionView { command: self.command@, input: self.input@ }
    }
}

impl View for Actions {
    type V = ActionsView;

    closed spec fn view(&self) -> ActionsView {
        ActionsView {
            clipboard: match self.clipboard {
                Some(text) => Some(text@),
                None => None,
            },
            execution: match self.execution {
                Some(execution) => Some(execution@),
                None => None,
            },
        }
    }
}

/// What is left to do once the clipboard has answered: nothing where it
/// refused the text, and else the command. Where there was no text to write,
/// the answer is of no account.
pub open spec fn execution_after(actions: ActionsView, written: bool) -> Option<ExecutionView> {
    if actions.clipboard is Some && !written {
        None
    } else {
        actions.execution
    }
}

impl Actions {
    /// The text for the clipboard.
    pub fn clipboard(&self) -> (text: Option<&String>)
        ensures
            match text {
                Some(t) => self@.clipboard == Some(t@),
                None => self@.clipboard is None,
            },
    {
        match &self.clipboard {
            Some(text) => Some(text),
            None => None,
        }
    }

    /// The run of the command that is left once the clipboard has answered.
    /// `written` says whether the clipboard took the text. Where it refused,
    /// no command is run, and the text is not written again.
    pub fn after_clipboard(self, written: bool) -> (execution: Option<Execution>)
        ensures
            match execution {
                Some(e) => Some(e@),
                None => None,
            } == execution_after(self@, written),
    {
        match self.clipboard {
            Some(_) => if written {
                self.execution
            } else {
                None
            },
            None => self.execution,
        }
    }
}

/// The run of `command`, if one is configured, on `input`.
pub open spec fn execution_of(command: Option<Seq<char>>, input: Seq<char>) -> Option<
    ExecutionView,
> {
    match command {
        Some(command) => Some(ExecutionView { command, input }),
        None => None,
    }
}

/// What a server is made of, as far as it was named yet.
pub struct ServerBuilder<'a> {
    address: Option<&'a str>,
    cipher: Option<Cipher>,
    exec_command: Option<String>,
}

/// What a builder holds, as contracts see it.
pub struct BuilderView {
    pub address: Option<Seq<char>>,
    pub key: Option<Seq<u8>>,
    pub command: Option<Seq<char>>,
}

/// Why a builder makes no server.
#[derive(Debug, Clone, Copy, PartialEq, Eq, Structural)]
pub enum BuilderError {
    /// No address was named.
    MissingAddress,
    /// No key was named.
    MissingKey,
}

impl<'a> View for ServerBuilder<'a> {
    type V = BuilderView;

    closed spec fn view(&self) -> BuilderView {
        BuilderView {
            address: match self.address {
                Some(address) => Some(address@),
                None => None,
            },
            key: match self.cipher {
                Some(cipher) => Some(cipher@),
                None => None,
            },
            command: match self.exec_command {
                Some(command) => Some(command@),
                None => None,
            },
        }
    }
}

impl<'a> Default for ServerBuilder<'a> {
    /// A builder that holds nothing yet.
    fn default() -> (builder: ServerBuilder<'a>)
        ensures
            builder@ == (BuilderView { address: None, key: None, command: None }),
    {
        ServerBuilder { address: None, cipher: None, exec_command: None }
    }
}

impl<'a> ServerBuilder<'a> {
    /// Names the address to listen on.
    pub fn address(self, value: &'a str) -> (builder: ServerBuilder<'a>)
        ensures
            builder@ == (BuilderView { address: Some(value@), ..self@ }),
    {
        ServerBuilder { address: Some(value), cipher: self.cipher, exec_command: self.exec_command }
    }

    /// Names the secret.
    pub fn key(self, value: &[u8]) -> (builder: ServerBuilder<'a>)
        requires
            value@.len() == KEY_SIZE,
        ensures
            builder@ == (BuilderView { key: Some(value@), ..self@ }),
    {
        ServerBuilder {
            address: self.address,
            cipher: Some(Cipher::new(value)),
            exec_command: self.exec_command,
        }
    }

    /// Names the command to run on a message, or that there is none.
    pub fn exec_command(self, value: Option<String>) -> (builder: ServerBuilder<'a>)
        ensures
            builder@ == (BuilderView {
                command: match value {
                    Some(command) => Some(command@),
                    None => None,
                },
                ..self@
            }),
    {
        ServerBuilder { address: self.address, cipher: self.cipher, exec_command: value }
    }

    /// The server, where an address and a key were named. The command is
    /// optional.
    pub fn build(self) -> (server: Result<Server<'a>, BuilderError>)
        ensures
            match (self@.address, self@.key) {
                (None, _) => server == Err::<Server<'a>, BuilderError>(
                    BuilderError::MissingAddress,
                ),
                (Some(_), None) => server == Err::<Server<'a>, BuilderError>(
                    BuilderError::MissingKey,
                ),
                (Some(address), Some(key)) => server matches Ok(made) && made.listen() == address
                    && made.key() == key && made.command() == self@.command,
            },
    {
        let address = match self.address {
            Some(address) => address,
            None => {
                return Err(BuilderError::MissingAddress);
            },
        };
        let cipher = match self.cipher {
            Some(cipher) => cipher,
            None => {
                return Err(BuilderError::MissingKey);
            },
        };
        Ok(Server { address, cipher, exec_command: self.exec_command })
    }
}

/// Copiepate server: where it listens, its cipher context, and the command
/// that it runs on a message, if any.
pub struct Server<'a> {
    address: &'a str,
    cipher: Cipher,
    exec_command: Option<String>,
}

impl<'a> Server<'a> {
    /// The address to listen on.
    pub closed spec fn listen(&self) -> Seq<char> {
        self.address@
    }

    /// The key of the cipher context.
    pub closed spec fn key(&self) -> Seq<u8> {
        self.cipher@
    }

    /// The configured command.
    pub closed spec fn command(&self) -> Option<Seq<char>> {
        match self.exec_command {
            Some(command) => Some(command@),
            None => None,
        }
    }

    /// A server for `address`, with the secret `key`.
    pub fn new(address: &'a str, key: &[u8], exec_command: Option<String>) -> (server: Server<'a>)
        requires
            key@.len() == KEY_SIZE,
        ensures
            server.listen() == address@,
            server.key() == key@,
            server.command() == match exec_command {
                Some(command) => Some(command@),
                None => None,
            },
    {
        Server { address, cipher: Cipher::new(key), exec_command }
    }

    /// The address to listen on.
    pub fn address(&self) -> (address: &'a str)
        ensures
            address@ == self.listen(),
    {
        self.address
    }

    /// The state machine of a connection that was just accepted. Each
    /// connection has its own, with a cipher context of its own.
    pub fn connection(&self) -> (connection: Connection)
        ensures
            connection@ == (ConnectionView { key: self.key(), state: StateView::New }),
            !connection.finished(),
    {
        Connection::new(self.cipher.clone())
    }

    /// What is done with an event of a connection.
    pub fn dispatch(&self, event: &Event) -> (actions: Actions)
        ensures
            actions@ == match *event {
                Event::PasteEvent(paste) => (ActionsView {
                    clipboard: Some(paste.payload@),
                    execution: execution_of(self.command(), paste.payload@),
                }),
                Event::ExecEvent(exec) => (ActionsView {
                    clipboard: None,
                    execution: execution_of(self.command(), exec.payload@),
                }),
            },
    {
        match event {
            Event::PasteEvent(e) => self.handle_paste_event(e),
            Event::ExecEvent(e) => self.handle_exec_event(e),
        }
    }

    /// A paste event goes to the clipboard, and then to the command.
    pub fn handle_paste_event(&self, event: &PasteEvent) -> (actions: Actions)
        ensures
            actions@ == (ActionsView {
                clipboard: Some(event.payload@),
                execution: execution_of(self.command(), event.payload@),
            }),
    {
        Actions {
            clipboard: Some(event.payload.clone()),
            execution: self.exec_command(event.payload.as_str()),
        }
    }

    /// An exec event goes to the command alone.
    pub fn handle_exec_event(&self, event: &ExecEvent) -> (actions: Actions)
        ensures
            actions@ == (ActionsView {
                clipboard: None,
                execution: execution_of(self.command(), event.payload@),
            }),
    {
        Actions { clipboard: None, execution: self.exec_command(event.payload.as_str()) }
    }

    /// The run of the configured command on `payload`; none where no command
    /// is configured.
    pub fn exec_command(&self, payload: &str) -> (execution: Option<Execution>)
        ensures
            match execution {
                Some(e) => Some(e@),
                None => None,
            } == execution_of(self.command(), payload@),
    {
        match &self.exec_command {
            None => None,
            Some(command) => Some(Execution { command: command.clone(), input: payload.to_owned() }),
        }
    }
}

} // verus!
