//! Sources of trace lines: a file held in memory, split into lines, and a channel of lines.

use vstd::prelude::*;
use std::sync::mpsc::{Receiver, Sender};
use vstd::utf8::{decode_utf8, valid_utf8};

verus! {

/// `std::sync::mpsc::Sender`, carried opaquely.
#[verifier::external_type_specification]
#[verifier::external_body]
#[verifier::reject_recursive_types(T)]
pub struct ExSender<T>(Sender<T>);

/// `Clone` of `std::sync::mpsc::Sender`: another sender to the same channel; nothing is stated
/// of it.
pub assume_specification<T>[ <Sender<T> as Clone>::clone ](sender: &Sender<T>) -> Sender<T>;

/// `std::sync::mpsc::Receiver`, carried opaquely.
#[verifier::external_type_specification]
#[verifier::external_body]
#[verifier::reject_recursive_types(T)]
pub struct ExReceiver<T>(Receiver<T>);

/// What a non-blocking receive from a channel gave.
pub enum Received<T> {
    /// A value that was waiting.
    Value(T),
    /// Nothing is waiting at the moment.
    Empty,
    /// Nothing is waiting and every sender is gone.
    Disconnected,
}

impl<T> Received<T> {
    /// The value received, if any: `None` both when nothing was waiting and when the channel
    /// was disconnected.
    pub fn ok(self) -> (r: Option<T>)
        ensures
            r == match self {
                Received::Value(v) => Some(v),
                _ => None,
            },
    {
        match self {
            Received::Value(v) => Some(v),
            _ => None,
        }
    }
}

/// Creates a channel (`std::sync::mpsc::channel`); nothing is stated of the two ends.
#[verifier::external_body]
pub(crate) fn channel<T>() -> (Sender<T>, Receiver<T>) {
    std::sync::mpsc::channel()
}

/// Sends a value (`Sender::send`); whether it arrives depends on the receiving end being alive,
/// so nothing is stated of the result.
#[verifier::external_body]
pub(crate) fn send<T>(sender: &Sender<T>, value: T) -> bool {
    sender.send(value).is_ok()
}

/// Receives without blocking (`Receiver::try_recv`); what comes out depends on other threads,
/// so nothing is stated of it.
#[verifier::external_body]
pub(crate) fn try_receive<T>(receiver: &Receiver<T>) -> Received<T> {
    match receiver.try_recv() {
        Ok(value) => Received::Value(value),
        Err(std::sync::mpsc::TryRecvError::Empty) => Received::Empty,
        Err(std::sync::mpsc::TryRecvError::Disconnected) => Received::Disconnected,
    }
}

/// Messages received from a connection.
#[derive(Debug)]
pub enum ConnectionMessage {
    /// A line of tracing data.
    Line(String),
    /// An error received from a connection, as text.
    Error(String),
    /// Connection is done.
    Done,
    /// Restart the connection (clear the store).
    Restart,
}

/// A tracing data connection.
pub trait Connection {
    /// Whether the connection is to an active program that is expected to send more data.
    spec fn continuous(&self) -> bool;

    /// Whether all data has been received.
    spec fn finished(&self) -> bool;

    /// Try to receive the next message.
    ///
    /// Returns `None` if all data has been received or there is no new data at the moment.
    fn try_recv(&mut self) -> Option<ConnectionMessage>;

    /// Returns `true` if the connection is to an active program, and we are expecting more data.
    fn is_continuous(&self) -> (r: bool)
        ensures
            r == self.continuous();

    /// Returns `true` if all data has been received.
    fn is_done(&self) -> (r: bool)
        ensures
            r == self.finished();

    /// Names the connection for the user, such as `stdin pipe` or `file (trace.jsonl)`.
    fn to_string(&self) -> String;
}

/// A connection via a channel, most likely a unix pipe, could also just be a channel inside
/// the binary.
#[derive(Debug)]
pub struct PipeConnection {
    receiver: Receiver<String>,
    done: bool,
}

impl PipeConnection {
    /// Create a new connection to a channel.
    pub fn new_boxed(receiver: Receiver<String>) -> Box<dyn Connection> {
        Box::new(PipeConnection::new(receiver))
    }

    /// A connection to a channel from which nothing has been received yet.
    pub fn new(receiver: Receiver<String>) -> (r: Self)
        ensures
            !r@,
    {
        PipeConnection { receiver, done: false }
    }
}

impl PipeConnection {
    /// What a receive from the channel gives: a waiting line is passed on; nothing waiting
    /// gives `None`; a disconnected channel gives `None` and marks the connection done.
    pub fn on_received(&mut self, received: Received<String>) -> (r: Option<ConnectionMessage>)
        ensures
            match received {
                Received::Value(line) => r == Some(ConnectionMessage::Line(line)) && final(self)@ == old(self)@,
                Received::Empty => r is None && final(self)@ == old(self)@,
                Received::Disconnected => r is None && final(self)@,
            },
    {
        match received {
            Received::Value(line) => Some(ConnectionMessage::Line(line)),
            Received::Empty => None,
            Received::Disconnected => {
                self.done = true;
                None
            },
        }
    }
}

impl View for PipeConnection {
    type V = bool;

    /// Whether the channel was found disconnected.
    closed spec fn view(&self) -> bool {
        self.done
    }
}

impl Connection for PipeConnection {
    /// Always: the other end of the channel may send more.
    open spec fn continuous(&self) -> bool {
        true
    }

    /// Once the channel was found disconnected.
    open spec fn finished(&self) -> bool {
        self@
    }

    /// `stdin pipe`.
    fn to_string(&self) -> (r: String)
        ensures
            r@ == "stdin pipe"@,
    {
        "stdin pipe".to_owned()
    }

    fn try_recv(&mut self) -> (r: Option<ConnectionMessage>)
        ensures
            r matches Some(m) ==> m is Line && final(self)@ == old(self)@,
            final(self)@ ==> old(self)@ || r is None,
    {
        let received = try_receive(&self.receiver);
        self.on_received(received)
    }

    fn is_continuous(&self) -> (r: bool)
        ensures
            r,
    {
        true
    }

    fn is_done(&self) -> (r: bool)
        ensures
            r == self@,
    {
        self.done
    }
}

/// Decodes UTF-8 bytes into a string.
///
/// Wraps `String::from_utf8`, which returns the decoded text exactly when the bytes are valid
/// UTF-8 (vstd's `valid_utf8` and `decode_utf8`); its error stands for `None`.
#[verifier::external_body]
fn utf8_string(bytes: Vec<u8>) -> (r: Option<String>)
    ensures
        match r {
            Some(s) => valid_utf8(bytes@) && s@ == decode_utf8(bytes@),
            None => !valid_utf8(bytes@),
        },
{
    String::from_utf8(bytes).ok()
}

/// The position just past the next line of `bytes` starting at `pos`: past the next newline,
/// or the end if no newline follows.
pub open spec fn next_line_end(bytes: Seq<u8>, pos: int) -> int
    decreases bytes.len() - pos,
{
    if pos >= bytes.len() || pos < 0 {
        bytes.len() as int
    } else if bytes[pos] == 10 {
        pos + 1
    } else {
        next_line_end(bytes, pos + 1)
    }
}

/// The message for a line of bytes: its text, or an error if it is not valid UTF-8.
pub open spec fn line_message_ok(bytes: Seq<u8>, m: ConnectionMessage) -> bool {
    if valid_utf8(bytes) {
        m matches ConnectionMessage::Line(s) && s@ == decode_utf8(bytes)
    } else {
        m is Error
    }
}

/// The contents of a file that was dropped onto the app.
#[derive(Clone, Debug)]
pub struct FileContents {
    /// File name.
    pub name: String,
    /// File content in bytes.
    pub bytes: Vec<u8>,
}

/// A connection to a file held in memory, read line by line.
#[derive(Debug)]
pub struct FileContentsConnection {
    file_name: String,
    bytes: Vec<u8>,
    position: usize,
    done: bool,
}

/// The mathematical form of a [`FileContentsConnection`].
pub struct FileReadModel {
    /// The file's name.
    pub name: Seq<char>,
    /// The file's bytes.
    pub bytes: Seq<u8>,
    /// How many bytes have been read.
    pub position: nat,
    /// Whether the end was reached.
    pub done: bool,
}

impl View for FileContentsConnection {
    type V = FileReadModel;

    closed spec fn view(&self) -> FileReadModel {
        FileReadModel { name: self.file_name@, bytes: self.bytes@, position: self.position as nat, done: self.done }
    }
}

impl FileContentsConnection {
    /// The read position never passes the end.
    #[verifier::type_invariant]
    closed spec fn inv(&self) -> bool {
        self.position <= self.bytes.len()
    }

    /// A connection at the start of the file.
    pub fn new(file_contents: FileContents) -> (r: Self)
        ensures
            r@.name == file_contents.name@,
            r@.bytes == file_contents.bytes@,
            r@.position == 0,
            !r@.done,
    {
        FileContentsConnection {
            file_name: file_contents.name,
            bytes: file_contents.bytes,
            position: 0,
            done: false,
        }
    }

    /// Create a new connection to a file in memory.
    pub fn new_boxed(file_contents: FileContents) -> Box<dyn Connection> {
        Box::new(FileContentsConnection::new(file_contents))
    }

    /// The name of the file.
    pub fn file_name(&self) -> (r: &str)
        ensures
            r@ == self@.name,
    {
        self.file_name.as_str()
    }
}

impl Connection for FileContentsConnection {
    /// Never: the file is all there is.
    open spec fn continuous(&self) -> bool {
        false
    }

    /// Once the end of the file was reached.
    open spec fn finished(&self) -> bool {
        self@.done
    }

    /// `file (` the file's name `)`.
    fn to_string(&self) -> (r: String)
        ensures
            r@ == "file ("@ + self@.name + ")"@,
    {
        "file (".to_owned().concat(self.file_name.as_str()).concat(")")
    }

    /// The next line, newline included; at the end of the file, `None` and the connection is
    /// done.
    fn try_recv(&mut self) -> (r: Option<ConnectionMessage>)
        ensures
            final(self)@.bytes == old(self)@.bytes,
            final(self)@.name == old(self)@.name,
            old(self)@.position >= old(self)@.bytes.len() ==> r is None && final(self)@.done
                && final(self)@.position == old(self)@.position,
            old(self)@.position < old(self)@.bytes.len() ==> {
                let e = next_line_end(old(self)@.bytes, old(self)@.position as int);
                &&& final(self)@.position == e
                &&& final(self)@.done == old(self)@.done
                &&& r matches Some(m) && line_message_ok(
                    old(self)@.bytes.subrange(old(self)@.position as int, e),
                    m,
                )
            },
    {
        proof {
            use_type_invariant(&*self);
        }
        let n = self.bytes.len();
        let start = self.position;
        if start >= n {
            self.done = true;
            return None;
        }
        let mut end = start;
        while end < n && self.bytes[end] != 10u8
            invariant
                n == self.bytes.len(),
                start <= end <= n,
                start < n,
                next_line_end(self.bytes@, start as int) == next_line_end(self.bytes@, end as int),
            decreases n - end,
        {
            end = end + 1;
        }
        if end < n {
            end = end + 1;
        }
        let mut line: Vec<u8> = Vec::new();
        for i in start..end
            invariant
                n == self.bytes.len(),
                start <= end <= n,
                line@ == self.bytes@.subrange(start as int, i as int),
        {
            line.push(self.bytes[i]);
            assert(line@ =~= self.bytes@.subrange(start as int, i + 1));
        }
        self.position = end;
        match utf8_string(line) {
            Some(s) => Some(ConnectionMessage::Line(s)),
            None => Some(
                ConnectionMessage::Error(
                    "file contents connection error: stream did not contain valid UTF-8".to_string(),
                ),
            ),
        }
    }

    fn is_continuous(&self) -> (r: bool)
        ensures
            !r,
    {
        false
    }

    fn is_done(&self) -> (r: bool)
        ensures
            r == self@.done,
    {
        self.done
    }
}

/// Reading a line makes progress and loses nothing: the next line ends past where it starts,
/// and the file from the start of a line is that line followed by the rest.
pub proof fn lemma_next_line_splits(bytes: Seq<u8>, pos: int)
    requires
        0 <= pos < bytes.len(),
    ensures
        pos < next_line_end(bytes, pos) <= bytes.len(),
        bytes.subrange(pos, bytes.len() as int) == bytes.subrange(pos, next_line_end(bytes, pos))
            + bytes.subrange(next_line_end(bytes, pos), bytes.len() as int),
        forall|k: int| pos <= k < next_line_end(bytes, pos) - 1 ==> bytes[k] != 10,
    decreases bytes.len() - pos,
{
    if bytes[pos] != 10 {
        if pos + 1 < bytes.len() {
            lemma_next_line_splits(bytes, pos + 1);
        } else {
            assert(next_line_end(bytes, pos + 1) == bytes.len());
        }
    }
    let e = next_line_end(bytes, pos);
    assert(bytes.subrange(pos, bytes.len() as int) =~= bytes.subrange(pos, e) + bytes.subrange(
        e,
        bytes.len() as int,
    ));
}

} // verus!
