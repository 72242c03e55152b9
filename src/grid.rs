use crate::span::{Span, SpanIndex};
use crate::viewport::{
    clamp_pan, clamp_zoom, ns_at_fits, ns_at_of, pan_shift, screen_x_of, zoomed, Viewport, INITIAL_PAN, INITIAL_ZOOM, SCALE,
    ZOOM_FLOOR,
};
use vstd::prelude::*;

verus! {

/// What happened to a task.
pub enum TaskAction {
    Entered,
    Exited,
    Returned,
}

/// One trace record.
pub enum EventType {
    /// The trace buffer overran.
    Overflow,
    Task { name: String, action: TaskAction },
    Unknown(String),
    Unmappable(String, String),
    Invalid(String),
}

/// The records that share one timestamp.
pub struct EventChunk {
    pub timestamp_ns: u64,
    pub events: Vec<EventType>,
}

/// Whether the open span `s` can be closed by an exit of `name` at time `t`.
pub open spec fn closes(s: Span, name: Seq<char>, t: u64) -> bool {
    s.name@ == name && s.start_ns < t
}

/// `i` is the oldest open span that an exit of `name` at `t` closes.
pub open spec fn is_first_match(open: Seq<Span>, name: Seq<char>, t: u64, i: int) -> bool {
    &&& 0 <= i < open.len()
    &&& closes(open[i], name, t)
    &&& forall|j: int| 0 <= j < i ==> !closes(#[trigger] open[j], name, t)
}

/// `i` is the newest open span that an exit of `name` at `t` closes.
pub open spec fn is_last_match(open: Seq<Span>, name: Seq<char>, t: u64, i: int) -> bool {
    &&& 0 <= i < open.len()
    &&& closes(open[i], name, t)
    &&& forall|j: int| i < j < open.len() ==> !closes(#[trigger] open[j], name, t)
}

/// Which open span an exit closes when several could be closed by it.
pub enum MatchOrder {
    /// The one entered first: tasks that do not nest.
    Oldest,
    /// The one entered last: nested entries of one task, innermost first.
    Newest,
}

/// `i` is the open span that an exit of `name` at `t` closes under `order`.
pub open spec fn is_chosen_match(order: MatchOrder, open: Seq<Span>, name: Seq<char>, t: u64, i: int) -> bool {
    match order {
        MatchOrder::Oldest => is_first_match(open, name, t, i),
        MatchOrder::Newest => is_last_match(open, name, t, i),
    }
}

/// No open span is closed by an exit of `name` at `t`.
pub open spec fn no_match(open: Seq<Span>, name: Seq<char>, t: u64) -> bool {
    forall|j: int| 0 <= j < open.len() ==> !closes(#[trigger] open[j], name, t)
}

/// `k` is the lane of `name`.
pub open spec fn lane_of(names: Seq<String>, name: Seq<char>, k: int) -> bool {
    0 <= k < names.len() && names[k]@ == name
}

/// No name holds two lanes.
pub open spec fn distinct_names(names: Seq<String>) -> bool {
    forall|i: int, j: int| 0 <= i < names.len() && 0 <= j < names.len() && i != j ==> names[i]@ != names[j]@
}

/// `after` keeps every lane of `before` and only appends.
pub open spec fn extends(before: Seq<String>, after: Seq<String>) -> bool {
    before.len() <= after.len() && forall|k: int| 0 <= k < before.len() ==> #[trigger] after[k] == before[k]
}

/// The span `s` closed at `t`.
pub open spec fn closed_at(s: Span, t: u64) -> Span {
    Span { end_ns: Some(t), ..s }
}

/// The view after a span lands in the index: `[lo, hi]` fitted onto `[0, width]`, or
/// unchanged where that range is a single point or empty.
pub open spec fn fitted(after: Viewport, before: Viewport, width: u64, lo: u64, hi: u64) -> bool {
    if lo < hi {
        after.zoom_spec() == clamp_zoom(width * SCALE / (hi - lo)) && after.pan_spec() == -(lo
            * SCALE)
    } else {
        after == before
    }
}

/// What one record does to the lanes, the open spans and the closed spans.
pub open spec fn applied(before: Grid, after: Grid, t: u64, event: EventType) -> bool {
    match event {
        EventType::Task { name, action: TaskAction::Entered } => {
            &&& after.spans() == before.spans()
            &&& (exists|k: int| lane_of(before.channels(), name@, k)) ==> after.channels()
                == before.channels()
            &&& !(exists|k: int| lane_of(before.channels(), name@, k)) ==> after.channels()
                == before.channels().push(name)
            &&& exists|c: int|
                lane_of(after.channels(), name@, c) && after.open_spans()
                    == before.open_spans().push(
                    Span { start_ns: t, end_ns: None, name: name, channel: c as usize },
                )
        },
        EventType::Task { name, action: TaskAction::Exited } => {
            &&& after.channels() == before.channels()
            &&& no_match(before.open_spans(), name@, t) ==> (after.open_spans()
                == before.open_spans() && after.spans() == before.spans())
            &&& forall|i: int|
                #[trigger] is_chosen_match(before.match_order(), before.open_spans(), name@, t, i) ==> (after.open_spans()
                    == before.open_spans().remove(i) && after.spans() == before.spans().push(
                    closed_at(before.open_spans()[i], t),
                ))
        },
        _ => {
            &&& after.channels() == before.channels()
            &&& after.open_spans() == before.open_spans()
            &&& after.spans() == before.spans()
        },
    }
}

/// Height in pixels of a lane's bar.
pub const BAR_HEIGHT: i128 = 20;

/// Gap in pixels between two lanes.
pub const BAR_PADDING: i128 = 8;

/// Screen position of the top of lane 0.
pub const OFFSET_TOP: i128 = 20;

/// The top screen row of lane `channel`.
pub open spec fn lane_top(channel: int) -> int {
    channel * (BAR_HEIGHT + BAR_PADDING) + OFFSET_TOP
}

/// Screen row `y` falls on the bar of lane `channel`.
pub open spec fn in_lane(channel: int, y: int) -> bool {
    lane_top(channel) < y <= lane_top(channel) + BAR_HEIGHT
}

/// A time point clamped to where a one-nanosecond query can start.
pub open spec fn query_point(t: int) -> u64 {
    if t < 0 {
        0
    } else if t >= u64::MAX {
        (u64::MAX - 1) as u64
    } else {
        t as u64
    }
}

/// Every span of `spans` is closed.
pub open spec fn all_closed(spans: Seq<Span>) -> bool {
    forall|i: int| 0 <= i < spans.len() ==> (#[trigger] spans[i]).is_closed()
}

/// `a` and `b` hold the same lanes, spans, observed range and match order.
pub open spec fn same_data(a: Grid, b: Grid) -> bool {
    &&& a.spans() == b.spans()
    &&& a.open_spans() == b.open_spans()
    &&& a.channels() == b.channels()
    &&& a.data_min() == b.data_min()
    &&& a.data_max() == b.data_max()
    &&& a.match_order() == b.match_order()
}

/// `a` and `b` show the same status line and grid-lines setting.
pub open spec fn same_text(a: Grid, b: Grid) -> bool {
    a.status_text() == b.status_text() && a.lines_visible() == b.lines_visible()
}

/// What a pointer gesture is doing.
pub enum Interaction {
    Idle,
    /// Dragging to pan, from this horizontal screen position.
    Panning { start_x: i32 },
}

pub enum MouseButton {
    Left,
    Right,
    Other,
}

/// A canvas event, with pixel coordinates and scroll amounts as integers.
pub enum CanvasEvent {
    ButtonPressed(MouseButton),
    ButtonReleased,
    CursorMoved,
    /// A scroll of this many percent of zoom.
    WheelScrolled(i32),
    /// Any other mouse or keyboard event.
    Other,
}

/// Whether the canvas used an event.
pub enum EventStatus {
    Ignored,
    Captured,
}

/// `after` is `before` with the records of `chunk` applied one by one, in order.
pub open spec fn chunk_applied(before: Grid, after: Grid, chunk: EventChunk) -> bool {
    exists|trace: Seq<Grid>|
        {
            &&& trace.len() == chunk.events@.len() + 1
            &&& trace[0] == before
            &&& trace.last() == after
            &&& forall|k: int|
                0 <= k < chunk.events@.len() ==> applied(
                    #[trigger] trace[k],
                    trace[k + 1],
                    chunk.timestamp_ns,
                    chunk.events@[k],
                )
        }
}

/// The timeline model: lanes, open and closed spans, the observed time range and the view.
pub struct Grid {
    index: SpanIndex,
    started: Vec<Span>,
    channel_map: Vec<String>,
    viewport: Viewport,
    status: String,
    is_grid_enabled: bool,
    min: u64,
    max: u64,
    width: u64,
    redraw: bool,
    interaction: Interaction,
    order: MatchOrder,
}

impl Grid {
    pub closed spec fn spans(&self) -> Seq<Span> {
        self.index@
    }

    pub closed spec fn open_spans(&self) -> Seq<Span> {
        self.started@
    }

    pub closed spec fn channels(&self) -> Seq<String> {
        self.channel_map@
    }

    pub closed spec fn view_port(&self) -> Viewport {
        self.viewport
    }

    pub closed spec fn data_min(&self) -> u64 {
        self.min
    }

    pub closed spec fn data_max(&self) -> u64 {
        self.max
    }

    pub closed spec fn screen_width(&self) -> u64 {
        self.width
    }

    pub closed spec fn redraw_pending(&self) -> bool {
        self.redraw
    }

    pub closed spec fn status_text(&self) -> Seq<char> {
        self.status@
    }

    pub closed spec fn lines_visible(&self) -> bool {
        self.is_grid_enabled
    }

    pub closed spec fn gesture(&self) -> Interaction {
        self.interaction
    }

    pub closed spec fn match_order(&self) -> MatchOrder {
        self.order
    }

    /// The span index keeps its tree and its spans in step.
    pub closed spec fn index_ok(&self) -> bool {
        self.index.wf()
    }

    /// The index is consistent and holds only closed spans, the view is within its clamps,
    /// and no name holds two lanes.
    pub open spec fn wf(&self) -> bool {
        &&& self.index_ok()
        &&& all_closed(self.spans())
        &&& self.view_port().wf()
        &&& distinct_names(self.channels())
    }

    pub fn new() -> (r: Grid)
        ensures
            r.wf(),
            r.spans() == Seq::<Span>::empty(),
            r.open_spans() == Seq::<Span>::empty(),
            r.channels() == Seq::<String>::empty(),
            r.view_port().zoom_spec() == INITIAL_ZOOM,
            r.view_port().pan_spec() == INITIAL_PAN,
            r.data_min() == u64::MAX,
            r.data_max() == 0,
            r.screen_width() == 0,
            r.status_text() == Seq::<char>::empty(),
            r.lines_visible(),
            r.match_order() == MatchOrder::Oldest,
    {
        Grid {
            index: SpanIndex::new(),
            started: Vec::new(),
            channel_map: Vec::new(),
            viewport: Viewport::new(),
            status: String::new(),
            is_grid_enabled: true,
            min: u64::MAX,
            max: 0,
            width: 0,
            redraw: true,
            interaction: Interaction::Idle,
            order: MatchOrder::Oldest,
        }
    }

    /// The lane of `name`, appended at the end where the name is new.
    fn channel_for(&mut self, name: &String) -> (r: usize)
        requires
            distinct_names(old(self).channel_map@),
        ensures
            distinct_names(final(self).channel_map@),
            lane_of(final(self).channel_map@, name@, r as int),
            (exists|k: int| lane_of(old(self).channel_map@, name@, k)) ==> final(self).channel_map@
                == old(self).channel_map@,
            !(exists|k: int| lane_of(old(self).channel_map@, name@, k)) ==> (final(self).channel_map@
                == old(self).channel_map@.push(*name) && r == old(self).channel_map@.len()),
            final(self).index == old(self).index,
            final(self).started == old(self).started,
            final(self).viewport == old(self).viewport,
            final(self).min == old(self).min,
            final(self).max == old(self).max,
            final(self).width == old(self).width,
            final(self).redraw == old(self).redraw,
            final(self).order == old(self).order,
            final(self).status == old(self).status,
            final(self).is_grid_enabled == old(self).is_grid_enabled,
    {
        let mut k: usize = 0;
        while k < self.channel_map.len()
            invariant
                *self == *old(self),
                distinct_names(self.channel_map@),
                k <= self.channel_map@.len(),
                forall|j: int| 0 <= j < k ==> self.channel_map@[j]@ != name@,
            decreases self.channel_map@.len() - k,
        {
            if self.channel_map[k] == *name {
                return k;
            }
            k += 1;
        }
        self.channel_map.push(name.clone());
        k
    }

    /// Position in the open spans of the oldest one that an exit of `name` at `t` closes.
    fn first_open_match(&self, name: &String, t: u64) -> (r: Option<usize>)
        ensures
            r.is_some() ==> is_first_match(self.started@, name@, t, r.unwrap() as int),
            r.is_none() ==> no_match(self.started@, name@, t),
    {
        let mut i: usize = 0;
        while i < self.started.len()
            invariant
                i <= self.started@.len(),
                forall|j: int| 0 <= j < i ==> !closes(#[trigger] self.started@[j], name@, t),
            decreases self.started@.len() - i,
        {
            if self.started[i].start_ns < t && self.started[i].name == *name {
                return Some(i);
            }
            i += 1;
        }
        None
    }
    /// Position in the open spans of the newest one that an exit of `name` at `t` closes.
    fn last_open_match(&self, name: &String, t: u64) -> (r: Option<usize>)
        ensures
            r.is_some() ==> is_last_match(self.started@, name@, t, r.unwrap() as int),
            r.is_none() ==> no_match(self.started@, name@, t),
    {
        let mut i: usize = self.started.len();
        while i > 0
            invariant
                i <= self.started@.len(),
                forall|j: int| i <= j < self.started@.len() ==> !closes(#[trigger] self.started@[j], name@, t),
            decreases i,
        {
            i -= 1;
            if self.started[i].start_ns < t && self.started[i].name == *name {
                return Some(i);
            }
        }
        None
    }

    /// Chooses which open span an exit closes from now on.
    pub fn set_match_order(&mut self, order: MatchOrder)
        ensures
            final(self).match_order() == order,
            final(self).wf() == old(self).wf(),
            final(self).spans() == old(self).spans(),
            final(self).open_spans() == old(self).open_spans(),
            final(self).channels() == old(self).channels(),
            final(self).view_port() == old(self).view_port(),
    {
        self.order = order;
    }

    /// Applies one record stamped `timestamp`: an entry opens a span on the task's lane, an
    /// exit closes an open span of that task that started earlier (the oldest such one, or the
    /// newest under `MatchOrder::Newest`), and every new
    /// closed span refits the view and asks for a redraw.
    pub fn add_event(&mut self, timestamp: u64, event: EventType)
        requires
            old(self).wf(),
            old(self).spans().len() < usize::MAX,
        ensures
            final(self).wf(),
            applied(*old(self), *final(self), timestamp, event),
            final(self).spans().len() <= old(self).spans().len() + 1,
            final(self).match_order() == old(self).match_order(),
            same_text(*old(self), *final(self)),
            extends(old(self).channels(), final(self).channels()),
            final(self).data_min() == if timestamp < old(self).data_min() {
                timestamp
            } else {
                old(self).data_min()
            },
            final(self).data_max() == if timestamp > old(self).data_max() {
                timestamp
            } else {
                old(self).data_max()
            },
            final(self).screen_width() == old(self).screen_width(),
            final(self).spans().len() == old(self).spans().len() ==> (final(self).view_port()
                == old(self).view_port() && final(self).redraw_pending()
                == old(self).redraw_pending()),
            final(self).spans().len() != old(self).spans().len() ==> (fitted(
                final(self).view_port(),
                old(self).view_port(),
                final(self).screen_width(),
                final(self).data_min(),
                final(self).data_max(),
            ) && final(self).redraw_pending()),
    {
        let ghost before = *self;
        let ghost ev = event;
        let t = timestamp;
        if t > self.max {
            self.max = t;
        }
        if t < self.min {
            self.min = t;
        }
        match event {
            EventType::Task { name, action } => match action {
                TaskAction::Entered => {
                    let channel = self.channel_for(&name);
                    let span = Span { start_ns: t, end_ns: None, name, channel };
                    self.started.push(span);
                    assert(lane_of(self.channels(), name@, channel as int));
                    assert(self.open_spans() == before.open_spans().push(
                        Span { start_ns: t, end_ns: None, name: name, channel: (channel as int) as usize },
                    ));
                    assert(applied(before, *self, t, ev));
                },
                TaskAction::Exited => {
                    let found = match self.order {
                        MatchOrder::Oldest => self.first_open_match(&name, t),
                        MatchOrder::Newest => self.last_open_match(&name, t),
                    };
                    match found {
                        Some(i) => {
                            let ghost open_before = self.started@;
                            let mut bar = self.started.remove(i);
                            bar.end_ns = Some(t);
                            self.index.insert(bar);
                            proof {
                                self.index.lemma_closed();
                            }
                            self.viewport.auto_fit(self.width, self.min, self.max);
                            self.redraw = true;
                            assert forall|j: int|
                                is_chosen_match(before.order, open_before, name@, t, j) implies j == i as int by {
                                if j < i {
                                    assert(!closes(open_before[j], name@, t) || !closes(open_before[i as int], name@, t));
                                }
                                if j > i {
                                    assert(!closes(open_before[i as int], name@, t) || !closes(open_before[j], name@, t));
                                }
                            }
                            assert(closed_at(open_before[i as int], t) == bar);
                        },
                        None => {},
                    }
                },
                TaskAction::Returned => {},
            },
            _ => {},
        }
    }
    /// Applies the records of one chunk in order, all stamped with its timestamp.
    pub fn add_chunk(&mut self, chunk: EventChunk)
        requires
            old(self).wf(),
            old(self).spans().len() + chunk.events@.len() < usize::MAX,
        ensures
            final(self).wf(),
            extends(old(self).channels(), final(self).channels()),
            final(self).spans().len() <= old(self).spans().len() + chunk.events@.len(),
            final(self).screen_width() == old(self).screen_width(),
            final(self).match_order() == old(self).match_order(),
            same_text(*old(self), *final(self)),
            chunk_applied(*old(self), *final(self), chunk),
    {
        let ghost all = chunk.events@;
        let EventChunk { timestamp_ns, events } = chunk;
        let mut events = events;
        let ghost n = events@.len();
        let ghost mut trace: Seq<Grid> = seq![*self];
        while events.len() > 0
            invariant
                self.wf(),
                extends(old(self).channels(), self.channels()),
                self.spans().len() + events@.len() <= old(self).spans().len() + n,
                old(self).spans().len() + n < usize::MAX,
                self.screen_width() == old(self).screen_width(),
                self.match_order() == old(self).match_order(),
                same_text(*old(self), *self),
                n == all.len(),
                events@.len() <= n,
                events@ == all.skip(n - events@.len()),
                trace.len() == n - events@.len() + 1,
                trace[0] == *old(self),
                trace.last() == *self,
                forall|k: int|
                    0 <= k < n - events@.len() ==> applied(
                        #[trigger] trace[k],
                        trace[k + 1],
                        timestamp_ns,
                        all[k],
                    ),
            decreases events@.len(),
        {
            let ghost done = n - events@.len();
            let ghost pending = events@;
            let event = events.remove(0);
            assert(event == all[done]);
            assert(events@ =~= pending.skip(1));
            self.add_event(timestamp_ns, event);
            proof {
                let prev = trace;
                trace = trace.push(*self);
                assert forall|k: int| 0 <= k < done + 1 implies applied(
                    #[trigger] trace[k],
                    trace[k + 1],
                    timestamp_ns,
                    all[k],
                ) by {
                    if k < done {
                        assert(trace[k] == prev[k]);
                        assert(trace[k + 1] == prev[k + 1]);
                    }
                }
                assert(events@ =~= all.skip(done + 1));
            }
        }
        assert(trace.len() == all.len() + 1);
        assert(chunk_applied(*old(self), *self, chunk));
    }

    /// Sets the width in pixels that the view fits the data onto.
    pub fn set_width(&mut self, width: u64)
        ensures
            final(self).screen_width() == width,
            final(self).wf() == old(self).wf(),
            same_data(*old(self), *final(self)),
            same_text(*old(self), *final(self)),
            final(self).view_port() == old(self).view_port(),
            final(self).redraw_pending() == old(self).redraw_pending(),
            final(self).gesture() == old(self).gesture(),
    {
        self.width = width;
    }

    /// Scroll-to-zoom: scales the zoom by `1 + delta / 100`, clamped to its floor.
    pub fn update_zoom(&mut self, delta: i32)
        requires
            old(self).wf(),
        ensures
            final(self).wf(),
            final(self).view_port().zoom_spec() == zoomed(old(self).view_port().zoom_spec(), delta as int),
            final(self).view_port().pan_spec() == old(self).view_port().pan_spec(),
            final(self).redraw_pending(),
            same_data(*old(self), *final(self)),
            same_text(*old(self), *final(self)),
            final(self).screen_width() == old(self).screen_width(),
    {
        self.viewport.update_zoom(delta);
        self.redraw = true;
    }

    /// Drag-to-pan: moves the pan by `delta / zoom` nanoseconds, clamped to its ceiling.
    pub fn update_pan(&mut self, delta: i64)
        requires
            old(self).wf(),
        ensures
            final(self).wf(),
            final(self).view_port().pan_spec() == clamp_pan(
                old(self).view_port().pan_spec() + pan_shift(old(self).view_port().zoom_spec(), delta as int),
            ),
            final(self).view_port().zoom_spec() == old(self).view_port().zoom_spec(),
            final(self).redraw_pending(),
            same_data(*old(self), *final(self)),
            same_text(*old(self), *final(self)),
            final(self).screen_width() == old(self).screen_width(),
    {
        self.viewport.update_pan(delta);
        self.redraw = true;
    }

    /// Clears lanes, open and closed spans and restores the initial view; the observed time
    /// range is kept.
    pub fn reset_state(&mut self)
        ensures
            final(self).wf(),
            final(self).spans() == Seq::<Span>::empty(),
            final(self).open_spans() == Seq::<Span>::empty(),
            final(self).channels() == Seq::<String>::empty(),
            final(self).view_port().zoom_spec() == INITIAL_ZOOM,
            final(self).view_port().pan_spec() == INITIAL_PAN,
            final(self).data_min() == old(self).data_min(),
            final(self).data_max() == old(self).data_max(),
            final(self).match_order() == old(self).match_order(),
            final(self).screen_width() == old(self).screen_width(),
            same_text(*old(self), *final(self)),
            final(self).redraw_pending(),
    {
        self.index.clear();
        self.started = Vec::new();
        self.channel_map = Vec::new();
        self.viewport.reset();
        self.redraw = true;
    }

    /// Routes a canvas event of a canvas `width` pixels wide, with the cursor at `cursor`
    /// (`None` when it is outside): a right press starts a pan, moving while panning pans by
    /// the horizontal distance moved, a release ends the pan, and the wheel zooms.
    pub fn on_canvas_event(&mut self, event: CanvasEvent, width: u64, cursor: Option<(i32, i32)>) -> (r: EventStatus)
        requires
            old(self).wf(),
        ensures
            final(self).wf(),
            final(self).screen_width() == width,
            same_data(*old(self), *final(self)),
            same_text(*old(self), *final(self)),
            ({
                let released = event is ButtonReleased;
                let g = if released { Interaction::Idle } else { old(self).gesture() };
                match cursor {
                    None => r is Ignored && final(self).gesture() == g && final(self).view_port()
                        == old(self).view_port(),
                    Some((x, _)) => match event {
                        CanvasEvent::ButtonPressed(MouseButton::Right) => r is Captured
                            && final(self).gesture() == (Interaction::Panning { start_x: x })
                            && final(self).view_port() == old(self).view_port(),
                        CanvasEvent::ButtonPressed(_) => r is Captured && final(self).gesture()
                            == g && final(self).view_port() == old(self).view_port(),
                        CanvasEvent::CursorMoved => match g {
                            Interaction::Panning { start_x } => r is Captured
                                && final(self).gesture() == (Interaction::Panning { start_x: x })
                                && final(self).view_port().pan_spec() == clamp_pan(
                                old(self).view_port().pan_spec() + pan_shift(
                                    old(self).view_port().zoom_spec(),
                                    x - start_x,
                                ),
                            ) && final(self).view_port().zoom_spec() == old(
                                self,
                            ).view_port().zoom_spec() && final(self).redraw_pending(),
                            Interaction::Idle => r is Ignored && final(self).gesture() == g
                                && final(self).view_port() == old(self).view_port(),
                        },
                        CanvasEvent::WheelScrolled(y) => r is Captured && final(self).gesture()
                            == g && final(self).view_port().zoom_spec() == zoomed(
                            old(self).view_port().zoom_spec(),
                            y as int,
                        ) && final(self).view_port().pan_spec() == old(
                            self,
                        ).view_port().pan_spec() && final(self).redraw_pending(),
                        _ => r is Ignored && final(self).gesture() == g && final(self).view_port()
                            == old(self).view_port(),
                    },
                }
            }),
    {
        self.width = width;
        if let CanvasEvent::ButtonReleased = event {
            self.interaction = Interaction::Idle;
        }
        let x = match cursor {
            Some((x, _)) => x,
            None => {
                return EventStatus::Ignored;
            },
        };
        match event {
            CanvasEvent::ButtonPressed(button) => {
                if let MouseButton::Right = button {
                    self.interaction = Interaction::Panning { start_x: x };
                }
                EventStatus::Captured
            },
            CanvasEvent::CursorMoved => {
                match self.interaction {
                    Interaction::Panning { start_x } => {
                        self.viewport.update_pan(x as i64 - start_x as i64);
                        self.redraw = true;
                        self.interaction = Interaction::Panning { start_x: x };
                        EventStatus::Captured
                    },
                    Interaction::Idle => EventStatus::Ignored,
                }
            },
            CanvasEvent::WheelScrolled(y) => {
                self.viewport.update_zoom(y);
                self.redraw = true;
                EventStatus::Captured
            },
            _ => EventStatus::Ignored,
        }
    }

    /// Returns whether a redraw was asked for since the last call, and clears the request.
    pub fn take_redraw(&mut self) -> (r: bool)
        ensures
            r == old(self).redraw_pending(),
            !final(self).redraw_pending(),
            final(self).wf() == old(self).wf(),
            final(self).spans() == old(self).spans(),
            final(self).view_port() == old(self).view_port(),
    {
        let r = self.redraw;
        self.redraw = false;
        r
    }

    pub fn toggle_grid(&mut self, enabled: bool)
        ensures
            final(self).lines_visible() == enabled,
            final(self).wf() == old(self).wf(),
            same_data(*old(self), *final(self)),
            final(self).status_text() == old(self).status_text(),
            final(self).view_port() == old(self).view_port(),
            final(self).screen_width() == old(self).screen_width(),
    {
        self.is_grid_enabled = enabled;
    }

    pub fn are_lines_visible(&self) -> (r: bool)
        ensures
            r == self.lines_visible(),
    {
        self.is_grid_enabled
    }

    pub fn set_status(&mut self, status: &str)
        ensures
            final(self).status_text() == status@,
            final(self).wf() == old(self).wf(),
            same_data(*old(self), *final(self)),
            final(self).lines_visible() == old(self).lines_visible(),
            final(self).view_port() == old(self).view_port(),
            final(self).screen_width() == old(self).screen_width(),
    {
        self.status = status.to_string();
    }

    pub fn status(&self) -> (r: &str)
        ensures
            r@ == self.status_text(),
    {
        self.status.as_str()
    }

    pub fn zoom(&self) -> (r: u64)
        ensures
            r == self.view_port().zoom_spec(),
    {
        self.viewport.zoom()
    }

    pub fn pan(&self) -> (r: i128)
        ensures
            r == self.view_port().pan_spec(),
    {
        self.viewport.pan()
    }

    /// The screen position of timestamp `ns` under the current view.
    pub fn screen_x(&self, ns: u64) -> (r: Option<i128>)
        requires
            self.wf(),
        ensures
            r.is_some() ==> r.unwrap() == screen_x_of(
                self.view_port().zoom_spec(),
                self.view_port().pan_spec(),
                ns as int,
            ),
            r.is_none() ==> !(i128::MIN < (ns * SCALE + self.view_port().pan_spec())
                * self.view_port().zoom_spec() <= i128::MAX),
    {
        self.viewport.screen_x(ns)
    }

    /// The timestamp under screen position `x` under the current view.
    pub fn ns_at(&self, x: i64) -> (r: Option<i128>)
        requires
            self.wf(),
        ensures
            r.is_some() ==> r.unwrap() == ns_at_of(
                self.view_port().zoom_spec(),
                self.view_port().pan_spec(),
                x as int,
            ),
            r.is_none() ==> !ns_at_fits(
                self.view_port().zoom_spec(),
                self.view_port().pan_spec(),
                x as int,
            ),
    {
        self.viewport.ns_at(x)
    }

    /// The closed span under screen position `(x, y)`: one that holds the instant under `x`
    /// and whose lane's bar covers row `y`. `None` when there is none, or when the instant
    /// under `x` cannot be computed in an `i128`.
    pub fn span_under(&self, x: i64, y: i64) -> (r: Option<usize>)
        requires
            self.wf(),
        ensures
            r.is_some() ==> ({
                let i = r.unwrap() as int;
                let t = query_point(
                    ns_at_of(self.view_port().zoom_spec(), self.view_port().pan_spec(), x as int),
                );
                &&& i < self.spans().len()
                &&& self.spans()[i].overlaps(t, (t + 1) as u64)
                &&& in_lane(self.spans()[i].channel as int, y as int)
            }),
            r.is_none() ==> !ns_at_fits(
                self.view_port().zoom_spec(),
                self.view_port().pan_spec(),
                x as int,
            ) || ({
                let t = query_point(
                    ns_at_of(self.view_port().zoom_spec(), self.view_port().pan_spec(), x as int),
                );
                forall|i: int|
                    0 <= i < self.spans().len() ==> !(#[trigger] self.spans()[i].overlaps(
                        t,
                        (t + 1) as u64,
                    ) && in_lane(self.spans()[i].channel as int, y as int))
            }),
    {
        let ns = match self.viewport.ns_at(x) {
            Some(v) => v,
            None => {
                return None;
            },
        };
        let t: u64 = if ns < 0 {
            0
        } else if ns >= u64::MAX as i128 {
            u64::MAX - 1
        } else {
            ns as u64
        };
        let hits = self.index.find(t, t + 1);
        let n = self.index.len();
        let mut k: usize = 0;
        while k < hits.len()
            invariant
                self.wf(),
                k <= hits@.len(),
                n == self.spans().len(),
                ns as int == ns_at_of(self.view_port().zoom_spec(), self.view_port().pan_spec(), x as int),
                t == query_point(ns as int),
                forall|i: usize|
                    hits@.contains(i) <==> ((i as int) < self.spans().len() && self.spans()[i as int].overlaps(t, (t + 1) as u64)),
                forall|j: int|
                    0 <= j < k ==> !in_lane(self.spans()[hits@[j] as int].channel as int, y as int),
            decreases hits@.len() - k,
        {
            let i = hits[k];
            assert(hits@.contains(i));
            let channel = self.index.get(i).channel;
            let top: i128 = channel as i128 * (BAR_HEIGHT + BAR_PADDING) + OFFSET_TOP;
            if top < y as i128 && y as i128 <= top + BAR_HEIGHT {
                assert((i as int) < self.spans().len() && self.spans()[i as int].overlaps(t, (t + 1) as u64));
                assert(in_lane(self.spans()[i as int].channel as int, y as int));
                return Some(i);
            }
            k += 1;
        }
        proof {
            assert forall|i: int|
                0 <= i < self.spans().len() implies !(#[trigger] self.spans()[i].overlaps(
                    t,
                    (t + 1) as u64,
                ) && in_lane(self.spans()[i].channel as int, y as int)) by {
                if self.spans()[i].overlaps(t, (t + 1) as u64) {
                    let u = i as usize;
                    assert(u as int == i);
                    assert((u as int) < self.spans().len() && self.spans()[u as int].overlaps(t, (t + 1) as u64));
                    assert(hits@.contains(u));
                    let j = choose|j: int| 0 <= j < hits@.len() && hits@[j] == i as usize;
                    assert(!in_lane(self.spans()[hits@[j] as int].channel as int, y as int));
                }
            }
        }
        None
    }

    pub fn span_count(&self) -> (r: usize)
        requires
            self.wf(),
        ensures
            r == self.spans().len(),
    {
        self.index.len()
    }

    pub fn span(&self, i: usize) -> (r: &Span)
        requires
            self.wf(),
            i < self.spans().len(),
        ensures
            *r == self.spans()[i as int],
    {
        self.index.get(i)
    }

    pub fn open_count(&self) -> (r: usize)
        ensures
            r == self.open_spans().len(),
    {
        self.started.len()
    }

    pub fn channel_count(&self) -> (r: usize)
        ensures
            r == self.channels().len(),
    {
        self.channel_map.len()
    }

    pub fn channel_name(&self, k: usize) -> (r: &String)
        requires
            k < self.channels().len(),
        ensures
            *r == self.channels()[k as int],
    {
        &self.channel_map[k]
    }

    /// Positions of the closed spans that share a point with `[start, end)`, each once.
    pub fn spans_in(&self, start: u64, end: u64) -> (r: Vec<usize>)
        requires
            self.wf(),
            start <= end,
        ensures
            r@.no_duplicates(),
            forall|i: usize|
                r@.contains(i) <==> ((i as int) < self.spans().len() && self.spans()[i as int].overlaps(start, end)),
    {
        self.index.find(start, end)
    }

    /// Positions of the closed spans that hold the instant `ns`, each once.
    pub fn spans_at(&self, ns: u64) -> (r: Vec<usize>)
        requires
            self.wf(),
            ns < u64::MAX,
        ensures
            r@.no_duplicates(),
            forall|i: usize|
                r@.contains(i) <==> ((i as int) < self.spans().len() && self.spans()[i as int].overlaps(ns, (ns + 1) as u64)),
    {
        self.index.find(ns, ns + 1)
    }

    /// Every closed span that the index holds has an end, after its start.
    pub proof fn lemma_spans_closed(&self)
        requires
            self.wf(),
        ensures
            forall|i: int| 0 <= i < self.spans().len() ==> (#[trigger] self.spans()[i]).is_closed(),
    {
    }

    /// A well-formed grid never lets its zoom reach zero.
    pub proof fn lemma_zoom_positive(&self)
        requires
            self.wf(),
        ensures
            self.view_port().zoom_spec() >= ZOOM_FLOOR > 0,
    {
    }
}

/// Once a name holds lane `k`, every later state of the lanes gives it `k` and no other lane.
pub proof fn lemma_channel_stable(before: Seq<String>, after: Seq<String>, name: Seq<char>, k: int)
    requires
        distinct_names(after),
        extends(before, after),
        lane_of(before, name, k),
    ensures
        lane_of(after, name, k),
        forall|j: int| lane_of(after, name, j) ==> j == k,
{
    assert(after[k] == before[k]);
}

/// However often and however far the zoom is scrolled down, it stays at or above its floor.
pub proof fn lemma_zoom_floor(zoom: int, delta: int)
    ensures
        zoomed(zoom, delta) >= ZOOM_FLOOR,
        zoomed(zoom, delta) > 0,
{
}

} // verus!
