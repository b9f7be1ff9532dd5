//! A terminal chat client: it keeps the conversation shown on screen, the
//! line being typed and a tick counter, and decides what to send.

use crate::input::{edit_line, edited, Key};
use crate::text::{decimal, decode_lossy, push_char, push_decimal, trim, trimmed, utf8_lossy};
use vstd::prelude::*;

verus! {

/// The client's state. `connected` records whether a connection to the
/// server is open for writing.
pub struct App {
    pub input: String,
    pub messages: Vec<String>,
    pub tick_count: u64,
    pub should_quit: bool,
    pub connected: bool,
}

/// What happens to the client: a timer tick, a key press, or text from the
/// server.
pub enum Event {
    Tick,
    Key(Key),
    ServerMessage(String),
}

/// What the caller is to do after an event.
pub enum Step {
    /// Draw and wait for the next event.
    Continue,
    /// Write this text to the server, then go on.
    Send(String),
    /// Leave the event loop.
    Stop,
}

/// The views of the messages shown.
pub open spec fn shown(messages: Seq<String>) -> Seq<Seq<char>> {
    messages.map_values(|m: String| m@)
}

/// The command that quits the client.
pub open spec fn quit_command() -> Seq<char> {
    "/quit"@
}

/// The line shown when a message could not be sent.
pub open spec fn send_failure_notice() -> Seq<char> {
    "Failed to send message."@
}

/// The line shown once the connection to the server is open.
pub open spec fn connected_notice() -> Seq<char> {
    "Connected to server."@
}

/// The line shown when the server could not be reached.
pub open spec fn unreachable_notice() -> Seq<char> {
    "Failed to connect to server."@
}

/// The title of the message pane.
pub open spec fn messages_title_text(ticks: nat) -> Seq<char> {
    "Messages (Ticks : "@ + decimal(ticks) + ")"@
}

/// The text of an optional message.
pub open spec fn sent_text(out: Option<String>) -> Option<Seq<char>> {
    match out {
        Some(m) => Some(m@),
        None => None,
    }
}

/// The effect of a key press on the client, with the text it sends. Characters
/// and backspace edit the input line. Enter on `/quit` (around white space)
/// asks to quit and keeps the line. Otherwise Enter takes the line: when
/// connected it is sent with a line feed; when not, it is shown as a message.
pub open spec fn key_handled(pre: App, post: App, key: Key, sent: Option<Seq<char>>) -> bool {
    &&& post.tick_count == pre.tick_count
    &&& post.connected == pre.connected
    &&& key != Key::Enter ==> {
        &&& post.input@ == edited(pre.input@, key)
        &&& post.messages@ == pre.messages@
        &&& post.should_quit == pre.should_quit
        &&& sent is None
    }
    &&& key == Key::Enter && trimmed(pre.input@) == quit_command() ==> {
        &&& post.should_quit
        &&& post.input@ == pre.input@
        &&& post.messages@ == pre.messages@
        &&& sent is None
    }
    &&& key == Key::Enter && trimmed(pre.input@) != quit_command() ==> {
        &&& post.should_quit == pre.should_quit
        &&& post.input@ == Seq::<char>::empty()
        &&& pre.connected ==> {
            &&& post.messages@ == pre.messages@
            &&& sent == Some(pre.input@.push('\n'))
        }
        &&& !pre.connected ==> {
            &&& shown(post.messages@) == shown(pre.messages@).push(pre.input@)
            &&& sent is None
        }
    }
}

/// The text a step sends.
pub open spec fn step_text(step: Step) -> Option<Seq<char>> {
    match step {
        Step::Send(m) => Some(m@),
        _ => None,
    }
}

impl App {
    /// A client with nothing typed, nothing shown, no ticks and no connection.
    pub fn new() -> (app: App)
        ensures
            app.input@ == Seq::<char>::empty(),
            app.messages@ == Seq::<String>::empty(),
            app.tick_count == 0,
            !app.should_quit,
            !app.connected,
    {
        App {
            input: String::new(),
            messages: Vec::new(),
            tick_count: 0,
            should_quit: false,
            connected: false,
        }
    }

    /// Counts one timer tick.
    pub fn tick(&mut self)
        requires
            old(self).tick_count < u64::MAX,
        ensures
            final(self).tick_count == old(self).tick_count + 1,
            final(self).input@ == old(self).input@,
            final(self).messages@ == old(self).messages@,
            final(self).should_quit == old(self).should_quit,
            final(self).connected == old(self).connected,
    {
        self.tick_count = self.tick_count + 1;
    }

    /// Handles a key press and returns the text to send to the server, if
    /// any, as `key_handled` describes it.
    pub fn handle_key_event(&mut self, key: Key) -> (out: Option<String>)
        ensures
            key_handled(*old(self), *final(self), key, sent_text(out)),
    {
        match key {
            Key::Enter => {},
            _ => {
                edit_line(&mut self.input, key);
                return None;
            },
        }
        let t = trim(self.input.as_str());
        if t == String::from_str("/quit") {
            self.should_quit = true;
            return None;
        }
        let mut line = String::new();
        std::mem::swap(&mut line, &mut self.input);
        if self.connected {
            push_char(&mut line, '\n');
            Some(line)
        } else {
            let ghost before = self.messages@;
            self.messages.push(line);
            assert(shown(self.messages@) =~= shown(before).push(line@));
            None
        }
    }

    /// Shows that the last message could not be sent.
    pub fn report_send_failure(&mut self)
        ensures
            shown(final(self).messages@) == shown(old(self).messages@).push(send_failure_notice()),
            final(self).input@ == old(self).input@,
            final(self).tick_count == old(self).tick_count,
            final(self).should_quit == old(self).should_quit,
            final(self).connected == old(self).connected,
    {
        let ghost before = self.messages@;
        let notice = String::from_str("Failed to send message.");
        self.messages.push(notice);
        assert(shown(self.messages@) =~= shown(before).push(send_failure_notice()));
    }

    /// Records the outcome of connecting to the server.
    pub fn connection_result(&mut self, connected: bool)
        ensures
            final(self).connected == connected,
            connected ==> shown(final(self).messages@) == shown(old(self).messages@).push(
                connected_notice(),
            ),
            !connected ==> shown(final(self).messages@) == shown(old(self).messages@).push(
                unreachable_notice(),
            ),
            final(self).input@ == old(self).input@,
            final(self).tick_count == old(self).tick_count,
            final(self).should_quit == old(self).should_quit,
    {
        let ghost before = self.messages@;
        self.connected = connected;
        let notice = if connected {
            String::from_str("Connected to server.")
        } else {
            String::from_str("Failed to connect to server.")
        };
        self.messages.push(notice);
        assert(shown(self.messages@) =~= shown(before).push(notice@));
    }

    /// Handles the next event, or the end of the event stream (`None`): a
    /// tick is counted, a key is handled as `handle_key_event` says, text from
    /// the server is shown, and the end of the stream stops the loop. Messages
    /// shown stay shown: the list only ever grows at its end.
    pub fn handle_event(&mut self, event: Option<Event>) -> (step: Step)
        requires
            event matches Some(Event::Tick) ==> old(self).tick_count < u64::MAX,
        ensures
            shown(old(self).messages@).is_prefix_of(shown(final(self).messages@)),
            event is None ==> step is Stop && *final(self) == *old(self),
            event matches Some(Event::Tick) ==> {
                &&& step is Continue
                &&& final(self).tick_count == old(self).tick_count + 1
                &&& final(self).input@ == old(self).input@
                &&& final(self).messages@ == old(self).messages@
                &&& final(self).should_quit == old(self).should_quit
                &&& final(self).connected == old(self).connected
            },
            event matches Some(Event::ServerMessage(m)) ==> {
                &&& step is Continue
                &&& shown(final(self).messages@) == shown(old(self).messages@).push(m@)
                &&& final(self).input@ == old(self).input@
                &&& final(self).tick_count == old(self).tick_count
                &&& final(self).should_quit == old(self).should_quit
                &&& final(self).connected == old(self).connected
            },
            event matches Some(Event::Key(k)) ==> !(step is Stop) && key_handled(
                *old(self),
                *final(self),
                k,
                step_text(step),
            ),
    {
        match event {
            None => {
                assert(shown(self.messages@).take(shown(self.messages@).len() as int) =~= shown(
                    self.messages@,
                ));
                Step::Stop
            },
            Some(Event::Tick) => {
                self.tick();
                assert(shown(self.messages@).take(shown(self.messages@).len() as int) =~= shown(
                    self.messages@,
                ));
                Step::Continue
            },
            Some(Event::ServerMessage(m)) => {
                let ghost before = self.messages@;
                let ghost mv = m@;
                self.messages.push(m);
                assert(shown(self.messages@) =~= shown(before).push(mv));
                assert(shown(self.messages@).take(shown(before).len() as int) =~= shown(before));
                Step::Continue
            },
            Some(Event::Key(k)) => {
                let ghost before = shown(self.messages@);
                let out = self.handle_key_event(k);
                assert(before.is_prefix_of(shown(self.messages@))) by {
                    if shown(self.messages@) != before {
                        assert(shown(self.messages@) == before.push(old(self).input@));
                        assert(shown(self.messages@).take(before.len() as int) =~= before);
                    } else {
                        assert(before.take(before.len() as int) =~= before);
                    }
                }
                match out {
                    Some(m) => Step::Send(m),
                    None => Step::Continue,
                }
            },
        }
    }

    /// The title of the message pane, with the tick count.
    pub fn messages_title(&self) -> (s: String)
        ensures
            s@ == messages_title_text(self.tick_count as nat),
    {
        let mut s = String::from_str("Messages (Ticks : ");
        push_decimal(&mut s, self.tick_count);
        s.append(")");
        s
    }
}

/// The event for bytes read from the server: their lenient UTF-8 decoding.
pub fn server_message_event(bytes: &[u8]) -> (e: Event)
    ensures
        (e matches Event::ServerMessage(m) && m@ == utf8_lossy(bytes@)),
{
    Event::ServerMessage(decode_lossy(bytes))
}

} // verus!
