//! A to-do list screen: its tasks and when it quits.

use crate::input::{is_quit_key, Key};
use vstd::prelude::*;

verus! {

/// One task of the list.
pub struct Task {
    pub description: String,
}

/// The to-do screen's state.
pub struct App {
    pub tasks: Vec<Task>,
    pub should_quit: bool,
}

/// What happens to the screen: a timer tick or a key press.
pub enum Event {
    Tick,
    Key(Key),
}

impl App {
    /// An empty list that keeps running.
    pub fn new() -> (app: App)
        ensures
            app.tasks@.len() == 0,
            !app.should_quit,
    {
        App { tasks: Vec::new(), should_quit: false }
    }

    /// Handles the next event, or the end of the event stream (`None`): `q`
    /// or the end of the stream asks to quit; anything else changes nothing.
    pub fn handle_event(&mut self, event: Option<Event>)
        ensures
            final(self).tasks@ == old(self).tasks@,
            final(self).should_quit == (old(self).should_quit || event is None || event == Some(
                Event::Key(Key::Char('q')),
            )),
    {
        match event {
            None => self.should_quit = true,
            Some(Event::Key(k)) => {
                if is_quit_key(k) {
                    self.should_quit = true;
                }
            },
            Some(Event::Tick) => {},
        }
    }
}

} // verus!
