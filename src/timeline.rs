use crate::event_stream::{Error, Progress};
use crate::grid::{chunk_applied, same_data, same_text, Grid};
use vstd::prelude::*;
use vstd::string::StringExecFns;

verus! {

/// What the surrounding application asks of the timeline.
pub enum Message {
    ToggleGrid(bool),
    Progress(Progress),
    Reset,
    /// Nothing to do.
    Idle,
}

pub open spec fn error_text(e: Error) -> Seq<char> {
    match e {
        Error::TempDir(m) => "TempDir("@ + m@ + ")"@,
        Error::Io(m) => "Io("@ + m@ + ")"@,
        Error::Serialize(reason, text) => "Serialize("@ + reason@ + ", "@ + text@ + ")"@,
    }
}

/// The status line that a report leaves, if it changes the status.
pub open spec fn status_after(p: Progress) -> Option<Seq<char>> {
    match p {
        Progress::Initialized => Some("Initialized. Waiting for connection."@),
        Progress::Connected(peer) => Some("Connected to "@ + peer@ + "."@),
        Progress::Error(e) => Some("Error "@ + error_text(e)),
        _ => None,
    }
}

fn describe_error(e: &Error) -> (r: String)
    ensures
        r@ == error_text(*e),
{
    match e {
        Error::TempDir(m) => "TempDir(".to_string().concat(m.as_str()).concat(")"),
        Error::Io(m) => "Io(".to_string().concat(m.as_str()).concat(")"),
        Error::Serialize(reason, text) => "Serialize(".to_string().concat(reason.as_str()).concat(
            ", ",
        ).concat(text.as_str()).concat(")"),
    }
}

/// The application state: the timeline model and its status line.
pub struct Timeline {
    grid: Grid,
}

impl Timeline {
    pub closed spec fn model(&self) -> Grid {
        self.grid
    }

    pub open spec fn wf(&self) -> bool {
        self.model().wf()
    }

    pub fn new() -> (r: Timeline)
        ensures
            r.wf(),
            r.model().spans() == Seq::<crate::span::Span>::empty(),
            r.model().open_spans() == Seq::<crate::span::Span>::empty(),
            r.model().channels() == Seq::<String>::empty(),
    {
        Timeline { grid: Grid::new() }
    }

    pub fn title(&self) -> (r: String)
        ensures
            r@ == "probe-rs tracer"@,
    {
        "probe-rs tracer".to_string()
    }

    pub fn grid(&self) -> (r: &Grid)
        ensures
            *r == self.model(),
    {
        &self.grid
    }

    pub fn grid_mut(&mut self) -> (r: &mut Grid)
        ensures
            *r == old(self).model(),
            final(self).model() == *final(r),
    {
        &mut self.grid
    }

    /// Applies one message: toggles the grid lines, resets the model, applies a decoded chunk,
    /// or records the status that a lifecycle report leaves.
    pub fn update(&mut self, message: Message)
        requires
            old(self).wf(),
            message matches Message::Progress(Progress::Event(c)) ==> old(self).model().spans().len()
                + c.events@.len() < usize::MAX,
        ensures
            final(self).wf(),
            match message {
                Message::ToggleGrid(b) => final(self).model().lines_visible() == b && same_data(
                    old(self).model(),
                    final(self).model(),
                ) && final(self).model().view_port() == old(self).model().view_port()
                    && final(self).model().status_text() == old(self).model().status_text(),
                Message::Reset => final(self).model().spans() == Seq::<crate::span::Span>::empty()
                    && final(self).model().open_spans() == Seq::<crate::span::Span>::empty()
                    && final(self).model().channels() == Seq::<String>::empty(),
                Message::Idle => final(self).model() == old(self).model(),
                Message::Progress(Progress::Event(c)) => chunk_applied(
                    old(self).model(),
                    final(self).model(),
                    c,
                ) && same_text(old(self).model(), final(self).model()),
                Message::Progress(p) => match status_after(p) {
                    Some(t) => final(self).model().status_text() == t && same_data(
                        old(self).model(),
                        final(self).model(),
                    ) && final(self).model().view_port() == old(self).model().view_port()
                        && final(self).model().lines_visible() == old(self).model().lines_visible(),
                    None => final(self).model() == old(self).model(),
                },
            },
    {
        match message {
            Message::ToggleGrid(b) => self.grid.toggle_grid(b),
            Message::Reset => self.grid.reset_state(),
            Message::Idle => {},
            Message::Progress(p) => match p {
                Progress::Initialized => {
                    self.grid.set_status("Initialized. Waiting for connection.");
                },
                Progress::Connected(peer) => {
                    let s = "Connected to ".to_string().concat(peer.as_str()).concat(".");
                    self.grid.set_status(s.as_str());
                },
                Progress::Event(chunk) => self.grid.add_chunk(chunk),
                Progress::Error(e) => {
                    let s = "Error ".to_string().concat(describe_error(&e).as_str());
                    self.grid.set_status(s.as_str());
                },
                Progress::Idle => {},
            },
        }
    }
}

} // verus!
