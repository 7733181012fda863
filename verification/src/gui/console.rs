//! The console's state: the link, what came over it, and what the operator
//! did.
//!
//! Times are in milliseconds on a clock of the caller's that does not run
//! backwards.

use crate::gui::devices::Offer;
use crate::gui::events::digest;
use crate::gui::events::heard;
use crate::gui::events::last_answer;
use crate::gui::events::last_fault;
use crate::gui::events::last_s_meter;
use crate::gui::events::last_state;
use crate::gui::events::lost;
use crate::gui::events::the_last_account_counts;
use crate::gui::events::the_last_answer_counts;
use crate::gui::events::the_last_fault_is_reported;
use crate::gui::events::the_last_s_meter_sample_counts;
use crate::gui::events::what_came_before_the_end_counts;
use crate::gui::events::Event;
use crate::gui::model::any_audio;
use crate::gui::model::has_audio;
use crate::gui::model::Capabilities;
use crate::gui::model::Frame;
use crate::gui::readout::confirmed_by;
use crate::gui::readout::nothing_known;
use crate::gui::readout::Field;
use crate::gui::readout::RadioLevels;
use crate::gui::readout::RadioState;
use crate::gui::readout::Readout;
use crate::gui::waterfall::Palette;
use crate::gui::waterfall::Shade;
use crate::gui::waterfall::WaterfallImage;
use crate::text::push_text;
use crate::text::text;
use crate::tui::af::AudioState;
use crate::tui::console::model::Tab;
use crate::tui::console::model::TabEntry;
use crate::tui::spectrum::FrameAxis;
use std::collections::VecDeque;
use vstd::prelude::*;
use vstd::string::*;

verus! {

/// How long without a frame before a stream is no longer live.
pub const STALE_AFTER_MS: u64 = 2000;

/// How often the radio is asked for its state.
pub const STATE_INTERVAL_MS: u64 = 100;

/// Where the console is in its life.
#[derive(Debug, PartialEq, Eq)]
pub enum Link {
    /// Never connected, or the connection was lost. Carries why.
    Down(String),
    /// Connected to a radio that can do this.
    Up(Capabilities),
}

/// A console. `A` is a block of audio, which is kept and handed back.
#[derive(Debug)]
pub struct Console<A> {
    pub address: String,
    pub link: Link,
    /// What the radio of a still can do, where there is no link.
    pub offline: Option<Capabilities>,
    pub tabs: Vec<TabEntry>,
    pub active: Tab,
    pub readout: Readout,
    /// The occasional settings, once they were read.
    pub levels: Option<RadioLevels>,
    /// The axis of the newest spectrum frame.
    pub latest: Option<FrameAxis>,
    /// The frames behind the waterfall, newest first.
    pub history: VecDeque<Frame>,
    pub waterfall: WaterfallImage,
    pub command_open: bool,
    pub command_text: String,
    /// The last thing the console has to say.
    pub status: String,
    pub last_state_request: u64,
    pub last_frame_at: Option<u64>,
    pub last_audio_at: Option<u64>,
    pub last_spectrum_at: Option<u64>,
    /// Whether the radio's layout gives the spectrum a panel of its own.
    pub spectrum_has_its_own_panel: bool,
    /// What the radio's host said it has.
    pub devices: Offer,
    /// Whether the question for devices is open.
    pub devices_pending: bool,
    /// The newest block of audio.
    pub audio: Option<A>,
}

/// The view a waterfall is drawn from.
#[derive(Debug, Clone, Copy, PartialEq, Eq, Structural)]
pub struct Vantage {
    pub center_hz: u64,
    pub span_hz: u32,
}

/// Where a move of the view has got to: the axis it is on, whether it has
/// arrived, and what the columns of the waterfall show of every frame of the
/// history, newest first, on this axis and on the newest frame's own.
#[derive(Debug, PartialEq, Eq)]
pub struct Travel {
    pub axis: FrameAxis,
    pub done: bool,
    pub rows: Vec<Vec<Shade>>,
    /// Read only where the move has arrived.
    pub landed: Vec<Vec<Shade>>,
}

/// One row for each of `count` frames, each `width` columns wide.
pub open spec fn covers(rows: Seq<Vec<Shade>>, count: nat, width: u32) -> bool {
    &&& rows.len() == count
    &&& forall|i: int| 0 <= i < rows.len() ==> (#[trigger] rows[i])@.len() == width
}

impl Travel {
    /// The rows cover a history of `count` frames.
    pub open spec fn fits(self, count: nat, width: u32) -> bool {
        &&& covers(self.rows@, count, width)
        &&& self.done ==> covers(self.landed@, count, width)
    }
}

/// Whether something that last arrived at `at` is still arriving.
pub open spec fn live(at: Option<u64>, now: u64) -> bool {
    match at {
        Some(t) => now < t + STALE_AFTER_MS,
        None => false,
    }
}

fn is_live(at: Option<u64>, now: u64) -> (r: bool)
    ensures
        r == live(at, now),
{
    match at {
        Some(t) => now < t || now - t < STALE_AFTER_MS,
        None => false,
    }
}

/// The tab a console with these tabs opens on.
pub open spec fn first_tab(tabs: Seq<TabEntry>) -> Tab {
    if tabs.len() > 0 {
        tabs[0].tab
    } else {
        Tab::Source
    }
}

fn opening_tab(tabs: &Vec<TabEntry>) -> (r: Tab)
    ensures
        r == first_tab(tabs@),
{
    if tabs.len() > 0 {
        tabs[0].tab
    } else {
        Tab::Source
    }
}

impl<A> Console<A> {
    /// The waterfall is sound and holds no more history than it has rows.
    pub open spec fn wf(self) -> bool {
        &&& self.waterfall.wf()
        &&& self.history@.len() <= self.waterfall.height
    }

    /// What the radio can do: that of the link, or of a still.
    pub open spec fn caps(self) -> Option<Capabilities> {
        match self.link {
            Link::Up(caps) => Some(caps),
            Link::Down(_) => self.offline,
        }
    }

    /// A console that is not connected and knows nothing.
    pub fn new(address: String, now: u64) -> (r: Console<A>)
        ensures
            r.wf(),
            r.address == address,
            r.link matches Link::Down(why) && why@ == "not connected"@,
            r.offline is None,
            r.tabs@.len() == 0,
            r.active == Tab::Source,
            r.readout == nothing_known(),
            r.levels is None,
            r.latest is None,
            r.history@.len() == 0,
            r.waterfall.width == 512,
            r.waterfall.height == 256,
            r.waterfall.head == 0,
            r.waterfall.rows_filled == 0,
            r.waterfall.palette.stops@ == crate::gui::waterfall::turbo_stops(),
            r.waterfall.no_data@ == seq![26u8, 30, 34],
            r.waterfall.reference is None,
            r.waterfall.generation == 0,
            r.waterfall.rebuilds == 0,
            !r.command_open,
            r.command_text@.len() == 0,
            r.status@.len() == 0,
            r.last_state_request == now,
            r.last_frame_at is None,
            r.last_audio_at is None,
            r.last_spectrum_at is None,
            !r.spectrum_has_its_own_panel,
            r.devices is Unasked,
            !r.devices_pending,
            r.audio is None,
    {
        Console {
            address,
            link: Link::Down(text("not connected")),
            offline: None,
            tabs: Vec::new(),
            active: Tab::Source,
            readout: Readout::default(),
            levels: None,
            latest: None,
            history: VecDeque::new(),
            waterfall: WaterfallImage::new(512, 256, Palette::turbo()),
            command_open: false,
            command_text: String::new(),
            status: String::new(),
            last_state_request: now,
            last_frame_at: None,
            last_audio_at: None,
            last_spectrum_at: None,
            spectrum_has_its_own_panel: false,
            devices: Offer::Unasked,
            devices_pending: false,
            audio: None,
        }
    }

    /// What the radio can do, where that is known.
    pub fn capabilities(&self) -> (r: Option<&Capabilities>)
        ensures
            match self.caps() {
                Some(caps) => r matches Some(c) && *c == caps,
                None => r is None,
            },
    {
        match &self.link {
            Link::Up(caps) => Some(caps),
            Link::Down(_) => self.offline.as_ref(),
        }
    }

    /// An attempt to connect has ended: with what the radio can do and its
    /// tabs, or with the reason why there is no connection.
    pub fn connected(&mut self, result: Result<(Capabilities, Vec<TabEntry>), String>)
        requires
            old(self).wf(),
        ensures
            final(self).wf(),
            match result {
                Ok((caps, tabs)) => *final(self) == (Console {
                    link: Link::Up(caps),
                    tabs,
                    active: first_tab(tabs@),
                    status: final(self).status,
                    ..*old(self)
                }) && final(self).status@ == "connected to "@ + caps.model@,
                Err(why) => *final(self) == (Console {
                    link: Link::Down(why),
                    status: final(self).status,
                    ..*old(self)
                }) && final(self).status@ == why@,
            },
    {
        match result {
            Ok((caps, tabs)) => {
                let mut status = text("connected to ");
                push_text(&mut status, caps.model.as_str());
                self.status = status;
                self.active = opening_tab(&tabs);
                self.tabs = tabs;
                self.link = Link::Up(caps);
            },
            Err(why) => {
                self.status = text(why.as_str());
                self.link = Link::Down(why);
            },
        }
    }

    /// Take a block of audio, and note that it arrived.
    pub fn accept_audio(&mut self, frame: A, now: u64)
        ensures
            *final(self) == (Console {
                audio: Some(frame),
                last_audio_at: Some(now),
                ..*old(self)
            }),
    {
        self.audio = Some(frame);
        self.last_audio_at = Some(now);
    }

    /// Whether audio is still arriving.
    pub fn audio_is_live(&self, now: u64) -> (r: bool)
        ensures
            r == live(self.last_audio_at, now),
    {
        is_live(self.last_audio_at, now)
    }

    /// Whether the spectrum is still arriving. Not whether it ever has.
    pub fn spectrum_is_live(&self, now: u64) -> (r: bool)
        ensures
            r == live(self.last_spectrum_at, now),
    {
        is_live(self.last_spectrum_at, now)
    }

    /// What is known of the audio path.
    pub open spec fn audio_now(self, now: u64) -> AudioState {
        if self.audio is Some && live(self.last_audio_at, now) {
            AudioState::Streaming
        } else {
            match self.caps() {
                Some(caps) => if any_audio(caps.sources@, caps.sources@.len() as int) {
                    AudioState::Configured
                } else {
                    AudioState::Absent
                },
                None => AudioState::Configured,
            }
        }
    }

    /// What is known of the audio path: it streams, it is wired and nothing
    /// arrives, or nothing is wired at all.
    pub fn audio_state(&self, now: u64) -> (r: AudioState)
        ensures
            r == self.audio_now(now),
    {
        if self.audio.is_some() && self.audio_is_live(now) {
            return AudioState::Streaming;
        }
        match self.capabilities() {
            Some(caps) => {
                if has_audio(caps) {
                    AudioState::Configured
                } else {
                    AudioState::Absent
                }
            },
            None => AudioState::Configured,
        }
    }

    /// Forget everything that came from the radio.
    pub fn on_link_lost(&mut self, why: String)
        requires
            old(self).wf(),
        ensures
            final(self).wf(),
            final(self).forgot(*old(self), why),
    {
        let mut status = text("connection lost: ");
        push_text(&mut status, why.as_str());
        self.status = status;
        self.link = Link::Down(why);
        self.devices = Offer::Unasked;
        self.devices_pending = false;
        self.audio = None;
        self.readout = Readout::default();
        self.levels = None;
        self.last_spectrum_at = None;
        self.last_audio_at = None;
    }

    /// Whether everything that came from the radio was forgotten, and nothing
    /// else.
    pub open spec fn forgot(self, before: Self, why: String) -> bool {
        &&& self == (Console {
            status: self.status,
            link: Link::Down(why),
            devices: Offer::Unasked,
            devices_pending: false,
            audio: None,
            readout: nothing_known(),
            levels: None,
            last_spectrum_at: None,
            last_audio_at: None,
            ..before
        })
        &&& self.status@ == "connection lost: "@ + why@
    }
}

/// The history after a frame arrived: the frame first, and no more than
/// `rows` in all.
pub open spec fn kept(history: Seq<Frame>, frame: Option<Frame>, rows: int) -> Seq<Frame> {
    match frame {
        Some(f) => {
            let all = seq![f] + history;
            if all.len() > rows {
                all.take(rows)
            } else {
                all
            }
        },
        None => history,
    }
}

/// The picture of rows: each in its place, and blank rows below.
pub open spec fn picture(image: WaterfallImage, rows: Seq<Vec<Shade>>) -> Seq<Seq<u8>> {
    Seq::new(
        image.height as nat,
        |n: int|
            if n < rows.len() {
                image.drawn(rows[n]@)
            } else {
                image.blank()
            },
    )
}

/// Whether an image was drawn anew, `times` times and last from these rows on
/// this axis.
pub open spec fn redrawn(
    before: WaterfallImage,
    after: WaterfallImage,
    rows: Seq<Vec<Shade>>,
    axis: FrameAxis,
    times: int,
) -> bool {
    &&& after.same_frame(before)
    &&& after.shown() == picture(before, rows)
    &&& after.head == 0
    &&& after.rows_filled == rows.len()
    &&& after.reference == (if rows.len() > 0 {
        Some(axis)
    } else {
        None
    })
    &&& after.rebuilds == (if times == 2 {
        before.rebuilds.wrapping_add(1).wrapping_add(1)
    } else {
        before.rebuilds.wrapping_add(1)
    })
    &&& after.generation == (if times == 2 {
        before.generation.wrapping_add(1).wrapping_add(1)
    } else {
        before.generation.wrapping_add(1)
    })
}

/// The axis of the newest frame of a history, or `otherwise` where it has
/// none.
pub open spec fn newest_axis(history: Seq<Frame>, otherwise: FrameAxis) -> FrameAxis {
    if history.len() > 0 {
        history[0].axis
    } else {
        otherwise
    }
}

/// Whether an image scrolled by one frame.
pub open spec fn scrolled(before: WaterfallImage, after: WaterfallImage, frame: Frame) -> bool {
    after.scrolled_by(before, frame.row@, frame.axis)
}

impl<A> Console<A> {
    /// Draw the waterfall anew from rows on an axis.
    fn redraw(&mut self, rows: &Vec<Vec<Shade>>, axis: FrameAxis)
        requires
            old(self).wf(),
            covers(rows@, old(self).history@.len(), old(self).waterfall.width),
        ensures
            final(self).wf(),
            *final(self) == (Console { waterfall: final(self).waterfall, ..*old(self) }),
            redrawn(old(self).waterfall, final(self).waterfall, rows@, axis, 1),
    {
        let ghost before = *self;
        self.waterfall.rebuild(rows, Some(axis));
        assert(self.waterfall.shown() =~= picture(before.waterfall, rows@));
    }

    /// Milliseconds since the last frame was drawn, and note this one. The
    /// first frame takes no time.
    pub fn tick(&mut self, now: u64) -> (r: u32)
        ensures
            *final(self) == (Console { last_frame_at: Some(now), ..*old(self) }),
            r == (match old(self).last_frame_at {
                Some(at) => if now < at {
                    0
                } else if now - at > u32::MAX {
                    u32::MAX as int
                } else {
                    now - at
                },
                None => 0,
            }),
    {
        let dt: u32 = match self.last_frame_at {
            Some(at) => {
                if now < at {
                    0
                } else if now - at > u32::MAX as u64 {
                    u32::MAX
                } else {
                    (now - at) as u32
                }
            },
            None => 0,
        };
        self.last_frame_at = Some(now);
        dt
    }

    /// What advancing the waterfall leaves.
    pub open spec fn advanced(
        self,
        before: Self,
        frame: Option<Frame>,
        travel: Option<Travel>,
        now: u64,
    ) -> bool {
        &&& self == (Console {
            history: self.history,
            latest: self.latest,
            last_spectrum_at: self.last_spectrum_at,
            waterfall: self.waterfall,
            ..before
        })
        &&& self.history@ == kept(before.history@, frame, before.waterfall.height as int)
        &&& self.latest == (match frame {
            Some(f) => Some(f.axis),
            None => before.latest,
        })
        &&& self.last_spectrum_at == (match frame {
            Some(_) => Some(now),
            None => before.last_spectrum_at,
        })
        &&& match (travel, frame) {
            (Some(t), _) => if t.done {
                redrawn(
                    before.waterfall,
                    self.waterfall,
                    t.landed@,
                    newest_axis(self.history@, t.axis),
                    2,
                )
            } else {
                redrawn(before.waterfall, self.waterfall, t.rows@, t.axis, 1)
            },
            (None, Some(f)) => scrolled(before.waterfall, self.waterfall, f),
            (None, None) => self.waterfall == before.waterfall,
        }
    }

    /// Take the newest frame into the image, and follow a move of the view.
    /// Says whether the move has ended.
    ///
    /// Ordinarily a frame is one new row and the rest scrolls. While the view
    /// travels, the whole image is drawn anew from the history on the view's
    /// axis; when it arrives, on the newest frame's own. Without a new frame
    /// and without a move the picture does not change: a source that has
    /// stopped does not go on looking live.
    pub fn advance_waterfall(
        &mut self,
        frame: Option<Frame>,
        travel: Option<Travel>,
        now: u64,
    ) -> (r: bool)
        requires
            old(self).wf(),
            frame matches Some(f) ==> f.row@.len() == old(self).waterfall.width,
            travel matches Some(t) ==> t.fits(
                kept(old(self).history@, frame, old(self).waterfall.height as int).len(),
                old(self).waterfall.width,
            ),
        ensures
            final(self).wf(),
            final(self).advanced(*old(self), frame, travel, now),
            r == (travel matches Some(t) && t.done),
    {
        let ghost before = *self;
        let arrived: bool = frame.is_some();
        let height: usize = self.waterfall.height as usize;
        if let Some(f) = frame {
            let axis = f.axis;
            if self.history.len() >= height {
                self.history.truncate(height - 1);
            }
            self.history.push_front(f);
            proof {
                let all = seq![f] + before.history@;
                assert(self.history@ =~= kept(
                    before.history@,
                    frame,
                    before.waterfall.height as int,
                ));
            }
            self.last_spectrum_at = Some(now);
            self.latest = Some(axis);
        }
        match travel {
            Some(t) => {
                self.redraw(&t.rows, t.axis);
                if t.done {
                    let ghost between = *self;
                    let axis = if self.history.len() > 0 {
                        self.history[0].axis
                    } else {
                        t.axis
                    };
                    self.redraw(&t.landed, axis);
                    assert(picture(between.waterfall, t.landed@) =~= picture(
                        before.waterfall,
                        t.landed@,
                    ));
                }
                t.done
            },
            None => {
                if arrived {
                    assert(self.history@[0] == frame->0);
                    let newest = &self.history[0];
                    self.waterfall.push(&newest.row, newest.axis);
                }
                false
            },
        }
    }

    /// The view the waterfall is drawn from: that of a move under way, else
    /// the axis it was last drawn on, else that of the newest frame.
    pub fn current_view(&self, travelling: Option<Vantage>) -> (r: Vantage)
        ensures
            r == (match travelling {
                Some(view) => view,
                None => match self.waterfall.reference {
                    Some(axis) => Vantage { center_hz: axis.center_hz, span_hz: axis.span_hz },
                    None => match self.latest {
                        Some(axis) => Vantage { center_hz: axis.center_hz, span_hz: axis.span_hz },
                        None => Vantage { center_hz: 0, span_hz: 1 },
                    },
                },
            }),
    {
        match travelling {
            Some(view) => view,
            None => match self.waterfall.reference {
                Some(axis) => Vantage { center_hz: axis.center_hz, span_hz: axis.span_hz },
                None => match self.latest {
                    Some(axis) => Vantage { center_hz: axis.center_hz, span_hz: axis.span_hz },
                    None => Vantage { center_hz: 0, span_hz: 1 },
                },
            },
        }
    }
}

/// The readout after a meter sample, if there was one.
pub open spec fn metered(readout: Readout, raw: Option<u16>) -> Readout {
    match raw {
        Some(v) => Readout { smeter_raw: Field::Confirmed(v), ..readout },
        None => readout,
    }
}

/// The readout after an account of the radio, if there was one.
pub open spec fn accounted(readout: Readout, state: Option<RadioState>) -> Readout {
    match state {
        Some(s) => confirmed_by(readout, s),
        None => readout,
    }
}

/// The occasional settings after an account of the radio: what it says of
/// them, or what was known.
pub open spec fn levels_after(levels: Option<RadioLevels>, state: Option<RadioState>) -> Option<
    RadioLevels,
> {
    match state {
        Some(s) => match s.levels {
            Some(l) => Some(l),
            None => levels,
        },
        None => levels,
    }
}

impl<A> Console<A> {
    /// What counts of what arrived: nothing arrives over a link that is down.
    pub open spec fn arrivals(
        self,
        events: Seq<Event>,
        frame: Option<Frame>,
        audio: Option<A>,
    ) -> (Seq<Event>, Option<Frame>, Option<A>) {
        if self.link is Up {
            (events, frame, audio)
        } else {
            (Seq::empty(), None, None)
        }
    }

    /// What was heard leaves, apart from the spectrum: the last account of the
    /// radio is confirmed, whatever was asked for.
    pub open spec fn noted(
        self,
        before: Self,
        events: Seq<Event>,
        audio: Option<A>,
        now: u64,
    ) -> bool {
        let words = last_fault(heard(events), before.devices_pending);
        let answer = last_answer(heard(events), before.devices_pending);
        &&& self == (Console {
            status: self.status,
            readout: accounted(
                metered(before.readout, last_s_meter(heard(events))),
                last_state(heard(events)),
            ),
            levels: levels_after(before.levels, last_state(heard(events))),
            audio: match audio {
                Some(a) => Some(a),
                None => before.audio,
            },
            last_audio_at: match audio {
                Some(_) => Some(now),
                None => before.last_audio_at,
            },
            devices: match answer {
                Some(offer) => offer,
                None => before.devices,
            },
            devices_pending: before.devices_pending && answer is None,
            ..before
        })
        &&& match words {
            Some(w) => self.status@ == w,
            None => self.status == before.status,
        }
    }

    /// What a batch leaves, as long as the connection holds.
    pub open spec fn told(
        self,
        before: Self,
        events: Seq<Event>,
        frame: Option<Frame>,
        audio: Option<A>,
        travel: Option<Travel>,
        now: u64,
    ) -> bool {
        exists|mid: Self|
            {
                &&& #[trigger] self.advanced(mid, frame, travel, now)
                &&& mid.noted(before, events, audio, now)
            }
    }

    /// What everything that arrived leaves: what a batch leaves, and where it
    /// ended the connection, nothing that came from the radio.
    pub open spec fn pumped(
        self,
        before: Self,
        events: Seq<Event>,
        frame: Option<Frame>,
        audio: Option<A>,
        travel: Option<Travel>,
        now: u64,
    ) -> bool {
        let (es, f, a) = before.arrivals(events, frame, audio);
        match lost(es) {
            None => self.told(before, es, f, a, travel, now),
            Some(why) => exists|mid: Self|
                {
                    &&& #[trigger] mid.told(before, es, f, a, travel, now)
                    &&& self.forgot(mid, why)
                },
        }
    }

    /// Take in a batch of events and the newest block of audio. Says how the
    /// connection ended, where it did.
    fn note(&mut self, events: Vec<Event>, audio: Option<A>, now: u64) -> (r: Option<String>)
        ensures
            final(self).noted(*old(self), events@, audio, now),
            final(self).history == old(self).history,
            final(self).waterfall == old(self).waterfall,
            r == lost(events@),
    {
        let batch = digest(events, self.devices_pending);
        if let Some(words) = batch.fault {
            self.status = words;
        }
        if let Some(raw) = batch.s_meter {
            self.readout.smeter_raw.confirm(raw);
        }
        if let Some(state) = batch.state {
            if state.levels.is_some() {
                self.levels = state.levels;
            }
            self.readout.confirm_state(&state);
        }
        if let Some(block) = audio {
            self.accept_audio(block, now);
        }
        if let Some(offer) = batch.answer {
            self.devices = offer;
            self.devices_pending = false;
        }
        batch.lost
    }

    /// Take in everything that arrived since the last time: a batch of events,
    /// the newest spectrum frame and the newest block of audio. Says whether a
    /// move of the view has ended.
    pub fn pump(
        &mut self,
        events: Vec<Event>,
        frame: Option<Frame>,
        audio: Option<A>,
        travel: Option<Travel>,
        now: u64,
    ) -> (r: bool)
        requires
            old(self).wf(),
            frame matches Some(f) ==> f.row@.len() == old(self).waterfall.width,
            travel matches Some(t) ==> t.fits(
                kept(
                    old(self).history@,
                    old(self).arrivals(events@, frame, audio).1,
                    old(self).waterfall.height as int,
                ).len(),
                old(self).waterfall.width,
            ),
        ensures
            final(self).wf(),
            r == (travel matches Some(t) && t.done),
            final(self).pumped(*old(self), events@, frame, audio, travel, now),
            ({
                let (es, f, a) = old(self).arrivals(events@, frame, audio);
                match lost(es) {
                    None => final(self).told(*old(self), es, f, a, travel, now),
                    Some(why) => exists|mid: Self|
                        {
                            &&& #[trigger] mid.told(*old(self), es, f, a, travel, now)
                            &&& final(self).forgot(mid, why)
                        },
                }
            }),
    {
        let ghost before = *self;
        let up: bool = match &self.link {
            Link::Up(_) => true,
            Link::Down(_) => false,
        };
        let (events, frame, audio): (Vec<Event>, Option<Frame>, Option<A>) = if up {
            (events, frame, audio)
        } else {
            (Vec::new(), None, None)
        };
        let ghost es = events@;
        let ghost sound = audio;
        let end = self.note(events, audio, now);
        let ghost mid = *self;
        let landed = self.advance_waterfall(frame, travel, now);
        assert(self.advanced(mid, frame, travel, now));
        let ghost told = *self;
        assert(told.told(before, es, frame, sound, travel, now));
        if let Some(why) = end {
            self.on_link_lost(why);
        }
        landed
    }
}

/// When the link is lost, nothing the radio said is shown as though it were
/// still true: the dial, the meter and the settings are unknown, neither
/// stream is live, and the host's devices are to be asked for again.
pub proof fn losing_the_link_forgets_the_radio<A>(
    before: Console<A>,
    after: Console<A>,
    why: String,
    now: u64,
)
    requires
        after.forgot(before, why),
    ensures
        after.readout.vfo_a_hz.shown() is None,
        after.readout.smeter_raw.shown() is None,
        after.readout.tx.shown() is None,
        after.levels is None,
        !live(after.last_spectrum_at, now),
        !live(after.last_audio_at, now),
        after.audio_now(now) != AudioState::Streaming,
        after.devices is Unasked,
        !after.devices_pending,
        after.history == before.history,
        after.waterfall == before.waterfall,
{
}

/// A stream that has been silent for the whole window is not live, and one
/// that just arrived is.
pub proof fn a_silent_stream_is_not_live(at: u64, now: u64)
    ensures
        now >= at + STALE_AFTER_MS ==> !live(Some(at), now),
        at <= now < at + STALE_AFTER_MS ==> live(Some(at), now),
        !live(None, now),
{
}

/// While the link holds, the console shows what the radio reports now. After a
/// batch whose last account of the radio is the event at `i` the levels are
/// those it carries, whatever they were before, and where it carries none, or
/// there is no account, they are what they were. The same goes for every value
/// of the readout that an account carries.
pub proof fn the_last_account_is_shown<A>(
    before: Console<A>,
    after: Console<A>,
    events: Seq<Event>,
    frame: Option<Frame>,
    audio: Option<A>,
    travel: Option<Travel>,
    now: u64,
    i: int,
)
    requires
        after.pumped(before, events, frame, audio, travel, now),
        before.link is Up,
        forall|j: int| 0 <= j < events.len() ==> !(#[trigger] events[j] is Disconnected),
        -1 <= i < events.len(),
        i >= 0 ==> events[i] is State,
        forall|j: int| i < j < events.len() ==> !(#[trigger] events[j] is State),
    ensures
        i < 0 ==> {
            &&& after.levels == before.levels
            &&& after.readout.vfo_a_hz == before.readout.vfo_a_hz
            &&& after.readout.mode == before.readout.mode
            &&& after.readout.split == before.readout.split
            &&& after.readout.tx == before.readout.tx
            &&& after.readout.if_shift_hz == before.readout.if_shift_hz
            &&& after.readout.filter_width_hz == before.readout.filter_width_hz
            &&& after.readout.memory_channel == before.readout.memory_channel
        },
        i >= 0 ==> {
            let s = events[i]->State_0;
            &&& s.levels is Some ==> after.levels == s.levels
            &&& s.levels is None ==> after.levels == before.levels
            &&& after.readout.vfo_a_hz == Field::Confirmed(s.vfo_a_hz)
            &&& after.readout.mode == Field::Confirmed(s.mode)
            &&& after.readout.split == Field::Confirmed(s.split)
            &&& after.readout.tx == Field::Confirmed(s.transmitting)
            &&& s.if_shift_hz matches Some(v) ==> after.readout.if_shift_hz == Field::Confirmed(v)
            &&& s.if_shift_hz is None ==> after.readout.if_shift_hz == before.readout.if_shift_hz
            &&& s.filter_width_hz matches Some(v) ==> after.readout.filter_width_hz
                == Field::Confirmed(v)
            &&& s.filter_width_hz is None ==> after.readout.filter_width_hz
                == before.readout.filter_width_hz
            &&& s.memory_channel matches Some(v) ==> after.readout.memory_channel
                == Field::Confirmed(v)
            &&& s.memory_channel is None ==> after.readout.memory_channel
                == before.readout.memory_channel
            &&& s.s_meter matches Some(v) ==> after.readout.smeter_raw == Field::Confirmed(v)
        },
        after.link == before.link,
{
    what_came_before_the_end_counts(events);
    if heard(events).len() < events.len() {
        assert(events[heard(events).len() as int] is Disconnected);
    }
    the_last_account_counts(events, i);
}

/// The meter shows the last sample of the S meter, that at `i`, unless the
/// radio's account of itself carries one; and keeps what it showed where there
/// is neither.
pub proof fn the_last_sample_is_shown<A>(
    before: Console<A>,
    after: Console<A>,
    events: Seq<Event>,
    frame: Option<Frame>,
    audio: Option<A>,
    travel: Option<Travel>,
    now: u64,
    i: int,
)
    requires
        after.pumped(before, events, frame, audio, travel, now),
        before.link is Up,
        forall|j: int| 0 <= j < events.len() ==> !(#[trigger] events[j] is Disconnected),
        forall|j: int|
            0 <= j < events.len() ==> (#[trigger] events[j] matches Event::State(s)
                ==> s.s_meter is None),
        -1 <= i < events.len(),
        i >= 0 ==> (events[i] matches Event::Meter { is_s, raw } && is_s),
        forall|j: int|
            i < j < events.len() ==> !(#[trigger] events[j] matches Event::Meter { is_s, raw }
                && is_s),
    ensures
        i >= 0 ==> after.readout.smeter_raw == Field::Confirmed(events[i]->raw),
        i < 0 ==> after.readout.smeter_raw == before.readout.smeter_raw,
{
    what_came_before_the_end_counts(events);
    if heard(events).len() < events.len() {
        assert(events[heard(events).len() as int] is Disconnected);
    }
    the_last_s_meter_sample_counts(events, i);
    last_state_is_one_of_them(events);
}

proof fn last_state_is_one_of_them(events: Seq<Event>)
    ensures
        last_state(events) matches Some(s) ==> exists|j: int|
            0 <= j < events.len() && #[trigger] events[j] == Event::State(s),
    decreases events.len(),
{
    if events.len() > 0 {
        if events.last() is State {
            assert(events[events.len() - 1] == Event::State(last_state(events)->0));
        } else {
            let rest = events.drop_last();
            last_state_is_one_of_them(rest);
            if last_state(rest) is Some {
                let j = choose|j: int|
                    0 <= j < rest.len() && #[trigger] rest[j] == Event::State(last_state(rest)->0);
                assert(events[j] == rest[j]);
            }
        }
    }
}

/// What the server said about devices is kept as it said it, and closes the
/// question; a refusal that is no such answer becomes the status, in the
/// server's own words; and without either both stay as they were.
pub proof fn the_server_is_quoted<A>(
    before: Console<A>,
    after: Console<A>,
    events: Seq<Event>,
    frame: Option<Frame>,
    audio: Option<A>,
    travel: Option<Travel>,
    now: u64,
    i: int,
    k: int,
)
    requires
        after.pumped(before, events, frame, audio, travel, now),
        before.link is Up,
        forall|j: int| 0 <= j < events.len() ==> !(#[trigger] events[j] is Disconnected),
        -1 <= i < events.len(),
        i >= 0 ==> events[i] is Devices,
        forall|j: int|
            i < j < events.len() ==> !(#[trigger] events[j] is Devices)
                && !crate::gui::events::declines(events[j], before.devices_pending),
        -1 <= k < events.len(),
        k >= 0 ==> events[k] is Refused && !crate::gui::events::declines(
            events[k],
            before.devices_pending,
        ),
        forall|j: int|
            k < j < events.len() ==> (#[trigger] events[j] is Refused
                ==> crate::gui::events::declines(events[j], before.devices_pending)),
    ensures
        i >= 0 ==> after.devices == Offer::Listed(events[i]->Devices_0) && !after.devices_pending,
        i < 0 ==> after.devices == before.devices && after.devices_pending
            == before.devices_pending,
        k >= 0 ==> after.status@ == crate::gui::events::code_name(events[k]->code) + ": "@
            + events[k]->message@,
        k < 0 ==> after.status == before.status,
{
    what_came_before_the_end_counts(events);
    if heard(events).len() < events.len() {
        assert(events[heard(events).len() as int] is Disconnected);
    }
    the_last_answer_counts(events, before.devices_pending, i);
    the_last_fault_is_reported(events, before.devices_pending, k);
}

/// While the link holds, the newest block of audio and the newest frame are the
/// ones kept, and the time they came at with them; where none came, the last
/// ones stay. A frame is the first row of the waterfall, and the first of the
/// history.
pub proof fn the_newest_of_each_stream_is_kept<A>(
    before: Console<A>,
    after: Console<A>,
    events: Seq<Event>,
    frame: Option<Frame>,
    audio: Option<A>,
    now: u64,
)
    requires
        before.wf(),
        after.pumped(before, events, frame, audio, None, now),
        before.link is Up,
        forall|j: int| 0 <= j < events.len() ==> !(#[trigger] events[j] is Disconnected),
    ensures
        audio is Some ==> after.audio == audio && after.last_audio_at == Some(now),
        audio is None ==> after.audio == before.audio && after.last_audio_at
            == before.last_audio_at,
        frame matches Some(f) ==> {
            &&& after.latest == Some(f.axis)
            &&& after.last_spectrum_at == Some(now)
            &&& after.history@.len() > 0
            &&& after.history@[0] == f
            &&& forall|n: int|
                1 <= n < after.history@.len() ==> #[trigger] after.history@[n]
                    == before.history@[n - 1]
            &&& after.history@.len() == (if before.history@.len() < before.waterfall.height {
                before.history@.len() + 1
            } else {
                before.history@.len()
            })
            &&& after.waterfall.shown()[0] == before.waterfall.drawn(f.row@)
        },
        frame is None ==> {
            &&& after.latest == before.latest
            &&& after.last_spectrum_at == before.last_spectrum_at
            &&& after.history@ == before.history@
            &&& after.waterfall == before.waterfall
        },
{
    what_came_before_the_end_counts(events);
    if heard(events).len() < events.len() {
        assert(events[heard(events).len() as int] is Disconnected);
    }
}

/// Nothing arrives over a link that is down: whatever is handed in, what the
/// console knows of the radio stays as it was.
pub proof fn nothing_arrives_over_a_link_that_is_down<A>(
    before: Console<A>,
    after: Console<A>,
    events: Seq<Event>,
    frame: Option<Frame>,
    audio: Option<A>,
    now: u64,
)
    requires
        after.pumped(before, events, frame, audio, None, now),
        before.link is Down,
    ensures
        after.readout == before.readout,
        after.levels == before.levels,
        after.audio == before.audio,
        after.history@ == before.history@,
        after.waterfall == before.waterfall,
        after.status == before.status,
        after.devices == before.devices,
        after.link == before.link,
{
    what_came_before_the_end_counts(Seq::empty());
    the_last_account_counts(Seq::empty(), -1);
    the_last_s_meter_sample_counts(Seq::empty(), -1);
    the_last_answer_counts(Seq::empty(), before.devices_pending, -1);
    the_last_fault_is_reported(Seq::empty(), before.devices_pending, -1);
    assert(heard(Seq::empty()) =~= Seq::empty());
}

/// A batch that ends the connection leaves the console with the reason and
/// without anything the radio said, whatever else is in the batch.
pub proof fn the_end_of_the_connection_is_told<A>(
    before: Console<A>,
    after: Console<A>,
    events: Seq<Event>,
    frame: Option<Frame>,
    audio: Option<A>,
    travel: Option<Travel>,
    now: u64,
    i: int,
)
    requires
        after.pumped(before, events, frame, audio, travel, now),
        before.link is Up,
        0 <= i < events.len(),
        events[i] is Disconnected,
        forall|j: int| 0 <= j < i ==> !(#[trigger] events[j] is Disconnected),
    ensures
        after.link == Link::Down(events[i]->Disconnected_0),
        after.status@ == "connection lost: "@ + events[i]->Disconnected_0@,
        after.levels is None,
        after.readout.vfo_a_hz is Unknown,
        after.readout.mode is Unknown,
        after.readout.tx is Unknown,
        after.readout.smeter_raw is Unknown,
        after.audio is None,
        after.devices is Unasked,
        !after.devices_pending,
{
    what_came_before_the_end_counts(events);
    let n = heard(events).len() as int;
    if n < i {
        assert(events[n] is Disconnected);
    } else if n > i {
        assert(!(events[i] is Disconnected));
    }
}

/// A stream counts as live for two seconds after what last arrived of it, and
/// not at the end of them or later.
pub proof fn a_stream_is_live_for_two_seconds(at: u64, now: u64)
    requires
        at <= now,
    ensures
        live(Some(at), now) <==> now - at < 2000,
{
}

/// The history holds the newest frame first and every earlier one a place
/// further back, as far as there are rows; without a frame it stays.
pub proof fn the_history_is_kept_newest_first(
    history: Seq<Frame>,
    frame: Option<Frame>,
    rows: int,
    i: int,
)
    requires
        rows > 0,
        history.len() <= rows,
    ensures
        frame is None ==> kept(history, frame, rows) == history,
        frame matches Some(f) ==> {
            let after = kept(history, frame, rows);
            &&& after.len() == (if history.len() < rows {
                history.len() as int + 1
            } else {
                rows
            })
            &&& after[0] == f
            &&& 0 <= i && i + 1 < after.len() ==> after[i + 1] == history[i]
        },
{
}

/// What a new frame does to the picture while the view stands still: it is the
/// first row, every other row is one further down, and the image belongs to the
/// frame's axis. Without a frame the picture does not change.
pub proof fn a_frame_scrolls_the_picture<A>(
    before: Console<A>,
    after: Console<A>,
    frame: Option<Frame>,
    now: u64,
    n: int,
)
    requires
        before.wf(),
        after.advanced(before, frame, None, now),
        0 < n < before.waterfall.height,
    ensures
        frame is None ==> after.waterfall == before.waterfall && after.latest == before.latest
            && after.last_spectrum_at == before.last_spectrum_at,
        frame matches Some(f) ==> {
            &&& after.waterfall.shown().len() == before.waterfall.shown().len()
            &&& after.waterfall.shown()[0] == before.waterfall.drawn(f.row@)
            &&& after.waterfall.shown()[n] == before.waterfall.shown()[n - 1]
            &&& after.waterfall.reference == Some(f.axis)
            &&& after.latest == Some(f.axis)
            &&& after.last_spectrum_at == Some(now)
            &&& after.history@[0] == f
        },
{
}

/// What a move of the view does to the picture: every frame of the history has
/// its row on the axis the view has got to, and once it has arrived on that of
/// the newest frame; rows without a frame are blank.
pub proof fn a_move_redraws_the_picture<A>(
    before: Console<A>,
    after: Console<A>,
    frame: Option<Frame>,
    travel: Travel,
    now: u64,
    n: int,
)
    requires
        before.wf(),
        after.advanced(before, frame, Some(travel), now),
        travel.fits(after.history@.len(), before.waterfall.width),
        0 <= n < before.waterfall.height,
    ensures
        ({
            let rows = if travel.done {
                travel.landed@
            } else {
                travel.rows@
            };
            let axis = if travel.done && after.history@.len() > 0 {
                after.history@[0].axis
            } else {
                travel.axis
            };
            &&& after.waterfall.shown().len() == before.waterfall.height
            &&& n < after.history@.len() ==> after.waterfall.shown()[n] == before.waterfall.drawn(
                rows[n]@,
            )
            &&& n >= after.history@.len() ==> after.waterfall.shown()[n]
                == before.waterfall.blank()
            &&& after.history@.len() > 0 ==> after.waterfall.reference == Some(axis)
            &&& after.waterfall.rows_filled == after.history@.len()
        }),
{
}

/// What is said of the audio: it streams while blocks come in; otherwise it is
/// absent only where the radio is known and no source of it carries audio.
pub proof fn audio_is_absent_only_where_it_is_known_to_be<A>(console: Console<A>, now: u64)
    ensures
        console.audio_now(now) == AudioState::Streaming <==> console.audio is Some && (
        console.last_audio_at matches Some(at) && now < at + 2000),
        console.audio_now(now) == AudioState::Absent <==> console.audio_now(now)
            != AudioState::Streaming && (console.caps() matches Some(caps) && forall|i: int|
            0 <= i < caps.sources@.len() ==> !(#[trigger] caps.sources@[i]).audio),
{
}

/// A console opens on the first tab its radio has, and on the tab that says
/// where signals come from where it has none; what the radio can do is that of
/// the link while it is up.
pub proof fn a_console_opens_on_the_first_tab<A>(console: Console<A>, tabs: Seq<TabEntry>)
    ensures
        tabs.len() > 0 ==> first_tab(tabs) == tabs[0].tab,
        tabs.len() == 0 ==> first_tab(tabs) == Tab::Source,
        console.link matches Link::Up(caps) ==> console.caps() == Some(caps),
        console.link is Down ==> console.caps() == console.offline,
{
}

/// An image that was drawn anew from no rows belongs to no axis, and one drawn
/// from some to theirs. It counts as rebuilt, so that it is sent whole.
pub proof fn an_image_drawn_from_nothing_has_no_axis(
    before: WaterfallImage,
    after: WaterfallImage,
    rows: Seq<Vec<Shade>>,
    axis: FrameAxis,
)
    requires
        redrawn(before, after, rows, axis, 1),
        before.rebuilds < u64::MAX,
    ensures
        rows.len() == 0 ==> after.reference is None,
        rows.len() > 0 ==> after.reference == Some(axis),
        after.rebuilds == before.rebuilds + 1,
{
}

} // verus!
