use std::collections::VecDeque;
use vstd::prelude::*;

use crate::media::{MediaChat, MediaType};
use crate::picture::{circular_avatar, decode_circular, decode_image, decoded_rgba, RgbaImage};

verus! {

/// A decoded video frame.
#[derive(Debug, Clone)]
pub struct VideoFrame {
    pub width: u32,
    pub height: u32,
    /// RGBA packed bytes, four per pixel.
    pub data: Vec<u8>,
    /// Presentation time, in microseconds from the start of the video.
    pub pts_us: u64,
}

/// A frame with its bytes as a sequence.
pub struct FrameView {
    pub width: u32,
    pub height: u32,
    pub data: Seq<u8>,
    pub pts_us: u64,
}

impl View for VideoFrame {
    type V = FrameView;

    open spec fn view(&self) -> FrameView {
        FrameView { width: self.width, height: self.height, data: self.data@, pts_us: self.pts_us }
    }
}

/// The item on screen: its chat and everything gathered for it while shown.
/// Times are microseconds on one monotonic clock that the caller supplies.
pub struct ActiveMedia {
    pub chat: MediaChat,
    /// The author's avatar, once downloaded and decoded.
    pub avatar: Option<RgbaImage>,
    /// The picture of an image chat, once downloaded and decoded.
    pub media_image: Option<RgbaImage>,
    /// The video frame on screen.
    pub frame: Option<VideoFrame>,
    /// A video decoder delivers frames for this item.
    pub has_frame_source: bool,
    /// Decoded frames waiting for their presentation time.
    pub pending_frames: VecDeque<VideoFrame>,
    /// The decoder has sent its last frame.
    pub video_ended: bool,
    /// When the video's time zero was (set when the first frame arrives).
    pub video_clock: Option<u64>,
    /// When this item started to be shown.
    pub started_at: u64,
    /// When its sound started to play.
    pub audio_started_at: Option<u64>,
    /// The downloaded video file, to delete once the item is done.
    pub temp_path: Option<String>,
}

/// An item on screen, with pictures and frames as plain values.
pub struct ActiveView {
    pub chat: MediaChat,
    pub avatar: Option<(u32, u32, Seq<u8>)>,
    pub media_image: Option<(u32, u32, Seq<u8>)>,
    pub frame: Option<FrameView>,
    pub has_frame_source: bool,
    pub pending_frames: Seq<FrameView>,
    pub video_ended: bool,
    pub video_clock: Option<u64>,
    pub started_at: u64,
    pub audio_started_at: Option<u64>,
    pub temp_path: Option<String>,
}

pub open spec fn opt_image(i: Option<RgbaImage>) -> Option<(u32, u32, Seq<u8>)> {
    match i {
        Some(img) => Some(img@),
        None => None,
    }
}

pub open spec fn opt_frame(f: Option<VideoFrame>) -> Option<FrameView> {
    match f {
        Some(fr) => Some(fr@),
        None => None,
    }
}

pub open spec fn frames_view(s: Seq<VideoFrame>) -> Seq<FrameView> {
    s.map_values(|f: VideoFrame| f@)
}

impl View for ActiveMedia {
    type V = ActiveView;

    open spec fn view(&self) -> ActiveView {
        ActiveView {
            chat: self.chat,
            avatar: opt_image(self.avatar),
            media_image: opt_image(self.media_image),
            frame: opt_frame(self.frame),
            has_frame_source: self.has_frame_source,
            pending_frames: frames_view(self.pending_frames@),
            video_ended: self.video_ended,
            video_clock: self.video_clock,
            started_at: self.started_at,
            audio_started_at: self.audio_started_at,
            temp_path: self.temp_path,
        }
    }
}

/// A newly shown item: nothing gathered yet, shown since `now`.
pub open spec fn fresh_item(chat: MediaChat, now: u64) -> ActiveView {
    ActiveView {
        chat,
        avatar: None,
        media_image: None,
        frame: None,
        has_frame_source: false,
        pending_frames: Seq::empty(),
        video_ended: false,
        video_clock: None,
        started_at: now,
        audio_started_at: None,
        temp_path: None,
    }
}

/// Time passed since `since`, zero if `since` lies ahead.
pub open spec fn elapsed(since: u64, now: u64) -> u64 {
    if now >= since {
        (now - since) as u64
    } else {
        0
    }
}

/// How long a non-video item stays: its own duration, five seconds by default.
pub open spec fn display_time(chat: MediaChat) -> u64 {
    match chat.duration_us {
        Some(d) => d,
        None => 5_000_000,
    }
}

/// The item is done: a video once its decoder has ended and every frame has
/// been shown, anything else once its display time has passed.
pub open spec fn item_done(a: ActiveView, now: u64) -> bool {
    if a.chat.spec_is_video() {
        a.video_ended && a.pending_frames.len() == 0
    } else {
        elapsed(a.started_at, now) >= display_time(a.chat)
    }
}

/// How many frames at the front of the queue are due at time `e`.
pub open spec fn due_count(p: Seq<FrameView>, e: u64) -> nat
    decreases p.len(),
{
    if p.len() > 0 && p[0].pts_us <= e {
        1 + due_count(p.drop_first(), e)
    } else {
        0
    }
}

/// A video item after receiving `incoming` at time `now`: the frames join the
/// queue (only when a decoder is attached), the first frame starts the video
/// clock (at the start of the sound if there is one, else now), and all frames
/// that are due leave the queue, the last of them going on screen.
pub open spec fn video_step(a: ActiveView, incoming: Seq<FrameView>, now: u64) -> ActiveView {
    let p = if a.has_frame_source {
        a.pending_frames + incoming
    } else {
        a.pending_frames
    };
    let clock = if a.has_frame_source && incoming.len() > 0 && a.video_clock is None {
        Some(
            match a.audio_started_at {
                Some(t) => t,
                None => now,
            },
        )
    } else {
        a.video_clock
    };
    match clock {
        None => ActiveView { pending_frames: p, video_clock: clock, ..a },
        Some(t) => {
            let k = due_count(p, elapsed(t, now));
            ActiveView {
                pending_frames: p.skip(k as int),
                frame: if k > 0 {
                    Some(p[k - 1])
                } else {
                    a.frame
                },
                video_clock: clock,
                ..a
            }
        },
    }
}

impl ActiveMedia {
    /// A newly shown item, shown since `now`.
    pub fn new(chat: MediaChat, now: u64) -> (a: Self)
        ensures
            a@ == fresh_item(chat, now),
    {
        let a = ActiveMedia {
            chat,
            avatar: None,
            media_image: None,
            frame: None,
            has_frame_source: false,
            pending_frames: VecDeque::new(),
            video_ended: false,
            video_clock: None,
            started_at: now,
            audio_started_at: None,
            temp_path: None,
        };
        assert(a@.pending_frames =~= Seq::<FrameView>::empty());
        a
    }

    /// The item is a video.
    pub fn is_video(&self) -> (b: bool)
        ensures
            b == self.chat.spec_is_video(),
    {
        self.chat.is_video()
    }

    /// Whether the item is done and the next one should come.
    pub fn should_advance(&self, now: u64) -> (b: bool)
        ensures
            b == item_done(self@, now),
    {
        if self.is_video() {
            self.video_ended && self.pending_frames.len() == 0
        } else {
            let dur = match self.chat.duration_us {
                Some(d) => d,
                None => 5_000_000,
            };
            now.saturating_sub(self.started_at) >= dur
        }
    }
}

/// What reaches the overlay: chats and commands from the server, and the
/// results of its own downloads and decoder.
pub enum AppEvent {
    /// A chat to show.
    NewMediaChat(Box<MediaChat>),
    /// Drop everything: the queue and the item on screen.
    Flush,
    /// Go to the next item.
    Skip,
    /// The bytes of the avatar picture of the item on screen.
    AvatarLoaded(Vec<u8>),
    /// The bytes of the picture of the item on screen.
    MediaImageLoaded(Vec<u8>),
    /// A video decoder is ready to deliver frames; `audio_path` is the
    /// downloaded file to play the sound from (`None` without sound).
    VideoReady { audio_path: Option<String> },
    /// The decoder has sent its last frame.
    VideoEnded,
}

/// An event with its bytes as sequences.
pub enum EventView {
    NewMediaChat(MediaChat),
    Flush,
    Skip,
    AvatarLoaded(Seq<u8>),
    MediaImageLoaded(Seq<u8>),
    VideoReady(Option<String>),
    VideoEnded,
}

impl View for AppEvent {
    type V = EventView;

    open spec fn view(&self) -> EventView {
        match self {
            AppEvent::NewMediaChat(c) => EventView::NewMediaChat(**c),
            AppEvent::Flush => EventView::Flush,
            AppEvent::Skip => EventView::Skip,
            AppEvent::AvatarLoaded(d) => EventView::AvatarLoaded(d@),
            AppEvent::MediaImageLoaded(d) => EventView::MediaImageLoaded(d@),
            AppEvent::VideoReady { audio_path } => EventView::VideoReady(*audio_path),
            AppEvent::VideoEnded => EventView::VideoEnded,
        }
    }
}

/// What the overlay must do outside the library.
#[derive(Debug, Clone, PartialEq, Eq)]
pub enum AppAction {
    /// Stop the sound that plays, if any.
    KillAudio,
    /// The item on screen is gone: drop what belongs to it (textures, the
    /// frame receiver) and delete its downloaded file, if any.
    ReleaseMedia { temp_path: Option<String> },
    /// Download the avatar picture; its bytes come back as `AvatarLoaded`.
    DownloadAvatar { url: String },
    /// Download the picture; its bytes come back as `MediaImageLoaded`.
    DownloadMediaImage { url: String },
    /// Start a video decoder on the URL.
    StartVideoDecoder { url: String },
    /// Play the sound at the URL.
    PlayAudio { url: String },
    /// Play the sound of the video from its downloaded file, then report the
    /// moment it started with `App::video_sound_started`: the video clock
    /// runs from that moment.
    PlayVideoSound { path: String },
    /// Keep the frame receiver that came with `VideoReady` for the item on screen.
    AttachFrameSource,
}

/// The display state: a FIFO of chats, the first of which is on screen.
pub struct App {
    queue: VecDeque<MediaChat>,
    current: Option<ActiveMedia>,
}

/// The display state with plain values.
pub struct AppModel {
    pub queue: Seq<MediaChat>,
    pub current: Option<ActiveView>,
}

pub open spec fn opt_active(a: Option<ActiveMedia>) -> Option<ActiveView> {
    match a {
        Some(x) => Some(x@),
        None => None,
    }
}

impl View for App {
    type V = AppModel;

    closed spec fn view(&self) -> AppModel {
        AppModel { queue: self.queue@, current: opt_active(self.current) }
    }
}

/// Nothing waits while nothing is on screen.
pub open spec fn model_wf(m: AppModel) -> bool {
    m.current is None ==> m.queue.len() == 0
}

/// The chats in the order they are shown: the one on screen, then the queue.
pub open spec fn line(m: AppModel) -> Seq<MediaChat> {
    match m.current {
        Some(a) => seq![a.chat] + m.queue,
        None => m.queue,
    }
}

/// What dropping the item on screen asks for.
pub open spec fn release_actions(cur: Option<ActiveView>) -> Seq<AppAction> {
    match cur {
        Some(a) => seq![AppAction::ReleaseMedia { temp_path: a.temp_path }],
        None => seq![],
    }
}

/// What starting to show a chat asks for: stop the sound, fetch the avatar if
/// there is one, then fetch the picture, start the video decoder or play the
/// sound, as the chat's file asks.
pub open spec fn start_actions(chat: MediaChat) -> Seq<AppAction> {
    let avatar = match chat.author.image {
        Some(u) => seq![AppAction::DownloadAvatar { url: u }],
        None => seq![],
    };
    let media = match chat.media {
        Some(m) => match m.media_type {
            MediaType::Image => seq![AppAction::DownloadMediaImage { url: m.url }],
            MediaType::Video => seq![AppAction::StartVideoDecoder { url: m.url }],
            MediaType::Sound => seq![AppAction::PlayAudio { url: m.url }],
        },
        None => seq![],
    };
    seq![AppAction::KillAudio] + avatar + media
}

/// Going to the next item: the sound stops, the item on screen is dropped and
/// the first waiting chat, if any, starts.
pub open spec fn advance_step(m: AppModel, now: u64) -> (AppModel, Seq<AppAction>) {
    let acts = seq![AppAction::KillAudio] + release_actions(m.current);
    if m.queue.len() > 0 {
        (
            AppModel { queue: m.queue.drop_first(), current: Some(fresh_item(m.queue[0], now)) },
            acts + start_actions(m.queue[0]),
        )
    } else {
        (AppModel { queue: m.queue, current: None }, acts)
    }
}

/// The display with `a2` as the item on screen.
pub open spec fn on_current(m: AppModel, a2: ActiveView) -> AppModel {
    AppModel { current: Some(a2), ..m }
}

/// What one event does to the display state, and what it asks for.
pub open spec fn event_step(m: AppModel, ev: EventView, now: u64) -> (AppModel, Seq<AppAction>) {
    match ev {
        EventView::NewMediaChat(c) => if m.current is None {
            (AppModel { queue: m.queue, current: Some(fresh_item(c, now)) }, start_actions(c))
        } else {
            (AppModel { queue: m.queue.push(c), ..m }, seq![])
        },
        EventView::Flush => (
            AppModel { queue: Seq::empty(), current: None },
            seq![AppAction::KillAudio] + release_actions(m.current),
        ),
        EventView::Skip => advance_step(m, now),
        EventView::AvatarLoaded(d) => match m.current {
            Some(a) => (
                on_current(
                    m,
                    ActiveView {
                        avatar: match circular_avatar(d) {
                            Some(img) => Some(img),
                            None => a.avatar,
                        },
                        ..a
                    },
                ),
                seq![],
            ),
            None => (m, seq![]),
        },
        EventView::MediaImageLoaded(d) => match m.current {
            Some(a) => (
                on_current(
                    m,
                    ActiveView {
                        media_image: match decoded_rgba(d) {
                            Some(img) => Some(img),
                            None => a.media_image,
                        },
                        ..a
                    },
                ),
                seq![],
            ),
            None => (m, seq![]),
        },
        EventView::VideoReady(path) => match m.current {
            Some(a) => match path {
                Some(p) => (
                    on_current(
                        m,
                        ActiveView { has_frame_source: true, temp_path: Some(p), ..a },
                    ),
                    seq![AppAction::AttachFrameSource, AppAction::PlayVideoSound { path: p }],
                ),
                None => (
                    on_current(m, ActiveView { has_frame_source: true, ..a }),
                    seq![AppAction::AttachFrameSource],
                ),
            },
            None => (m, seq![]),
        },
        EventView::VideoEnded => match m.current {
            Some(a) => (on_current(m, ActiveView { video_ended: true, ..a }), seq![]),
            None => (m, seq![]),
        },
    }
}

/// A batch of events handled in order, with everything they ask for.
pub open spec fn events_step(m: AppModel, evs: Seq<EventView>, now: u64) -> (
    AppModel,
    Seq<AppAction>,
)
    decreases evs.len(),
{
    if evs.len() == 0 {
        (m, seq![])
    } else {
        let (m1, a1) = events_step(m, evs.drop_last(), now);
        let (m2, a2) = event_step(m1, evs.last(), now);
        (m2, a1 + a2)
    }
}

/// The views of a list of events.
pub open spec fn events_view(s: Seq<AppEvent>) -> Seq<EventView> {
    s.map_values(|e: AppEvent| e@)
}

/// The sound of the item on screen started at `now`; nothing happens
/// without an item.
pub open spec fn sound_started_step(m: AppModel, now: u64) -> AppModel {
    match m.current {
        Some(a) => on_current(m, ActiveView { audio_started_at: Some(now), ..a }),
        None => m,
    }
}

/// Frames that the decoder delivered, handled for a video on screen;
/// anything else ignores them.
pub open spec fn frames_step(m: AppModel, incoming: Seq<FrameView>, now: u64) -> AppModel {
    match m.current {
        Some(a) => if a.chat.spec_is_video() {
            on_current(m, video_step(a, incoming, now))
        } else {
            m
        },
        None => m,
    }
}

/// Going to the next item once the one on screen is done.
pub open spec fn tick_step(m: AppModel, now: u64) -> (AppModel, Seq<AppAction>) {
    match m.current {
        Some(a) => if item_done(a, now) {
            advance_step(m, now)
        } else {
            (m, seq![])
        },
        None => (m, seq![]),
    }
}

fn clone_opt_string(s: &Option<String>) -> (res: Option<String>)
    ensures
        res == *s,
{
    match s {
        Some(t) => Some(t.clone()),
        None => None,
    }
}

impl App {
    /// Well formed: nothing waits while nothing is on screen.
    pub open spec fn wf(&self) -> bool {
        model_wf(self@)
    }

    /// An empty display.
    pub fn new() -> (app: App)
        ensures
            app.wf(),
            app@.queue == Seq::<MediaChat>::empty(),
            app@.current is None,
    {
        App { queue: VecDeque::new(), current: None }
    }

    /// The item on screen.
    pub fn current(&self) -> (c: Option<&ActiveMedia>)
        ensures
            c matches Some(a) ==> self@.current == Some(a@),
            c is None ==> self@.current is None,
    {
        self.current.as_ref()
    }

    /// How many chats wait behind the one on screen.
    pub fn queue_len(&self) -> (n: usize)
        ensures
            n == self@.queue.len(),
    {
        self.queue.len()
    }

    /// Drops the item on screen, noting what must be released.
    fn release_current(&mut self, actions: &mut Vec<AppAction>)
        ensures
            final(self).current is None,
            final(self).queue@ == old(self).queue@,
            final(actions)@ == old(actions)@ + release_actions(opt_active(old(self).current)),
    {
        match self.current.take() {
            Some(active) => {
                actions.push(AppAction::ReleaseMedia { temp_path: active.temp_path });
            },
            None => {},
        }
    }

    /// Starts showing `chat`: stops the sound, asks for the downloads the chat
    /// needs and puts it on screen.
    fn start_item(&mut self, chat: MediaChat, now: u64, actions: &mut Vec<AppAction>)
        requires
            old(self).current is None,
        ensures
            final(self).queue@ == old(self).queue@,
            final(self)@.current == Some(fresh_item(chat, now)),
            final(actions)@ == old(actions)@ + start_actions(chat),
    {
        let ghost before = actions@;
        actions.push(AppAction::KillAudio);
        match &chat.author.image {
            Some(url) => actions.push(AppAction::DownloadAvatar { url: url.clone() }),
            None => {},
        }
        match &chat.media {
            Some(m) => match m.media_type {
                MediaType::Image => actions.push(
                    AppAction::DownloadMediaImage { url: m.url.clone() },
                ),
                MediaType::Video => actions.push(AppAction::StartVideoDecoder { url: m.url.clone() }),
                MediaType::Sound => actions.push(AppAction::PlayAudio { url: m.url.clone() }),
            },
            None => {},
        }
        assert(actions@ =~= before + start_actions(chat));
        self.current = Some(ActiveMedia::new(chat, now));
    }

    /// Goes to the next item: stops the sound, drops the item on screen and
    /// starts the first waiting chat, if any.
    pub fn advance(&mut self, now: u64) -> (actions: Vec<AppAction>)
        requires
            old(self).wf(),
        ensures
            final(self).wf(),
            final(self)@ == advance_step(old(self)@, now).0,
            actions@ == advance_step(old(self)@, now).1,
    {
        let mut actions = Vec::new();
        actions.push(AppAction::KillAudio);
        self.release_current(&mut actions);
        match self.queue.pop_front() {
            Some(next) => {
                self.start_item(next, now, &mut actions);
            },
            None => {},
        }
        assert(actions@ =~= advance_step(old(self)@, now).1);
        assert(self@.queue =~= advance_step(old(self)@, now).0.queue);
        actions
    }

    /// Handles one event at time `now` and answers what must be done.
    pub fn process_event(&mut self, ev: AppEvent, now: u64) -> (actions: Vec<AppAction>)
        requires
            old(self).wf(),
        ensures
            final(self).wf(),
            final(self)@ == event_step(old(self)@, ev@, now).0,
            actions@ == event_step(old(self)@, ev@, now).1,
    {
        let ghost m = self@;
        let mut actions: Vec<AppAction> = Vec::new();
        match ev {
            AppEvent::NewMediaChat(mc) => {
                if self.current.is_none() {
                    self.start_item(*mc, now, &mut actions);
                    assert(actions@ =~= start_actions(*mc));
                } else {
                    self.queue.push_back(*mc);
                }
            },
            AppEvent::Flush => {
                self.queue.clear();
                actions.push(AppAction::KillAudio);
                self.release_current(&mut actions);
                assert(self@.queue =~= Seq::<MediaChat>::empty());
                assert(actions@ =~= seq![AppAction::KillAudio] + release_actions(m.current));
            },
            AppEvent::Skip => {
                actions = self.advance(now);
            },
            AppEvent::AvatarLoaded(data) => {
                match self.current.take() {
                    Some(mut active) => {
                        match decode_circular(&data) {
                            Some(img) => {
                                active.avatar = Some(img);
                            },
                            None => {},
                        }
                        self.current = Some(active);
                    },
                    None => {},
                }
            },
            AppEvent::MediaImageLoaded(data) => {
                match self.current.take() {
                    Some(mut active) => {
                        match decode_image(&data) {
                            Some(img) => {
                                active.media_image = Some(img);
                            },
                            None => {},
                        }
                        self.current = Some(active);
                    },
                    None => {},
                }
            },
            AppEvent::VideoReady { audio_path } => {
                match self.current.take() {
                    Some(mut active) => {
                        active.has_frame_source = true;
                        actions.push(AppAction::AttachFrameSource);
                        match audio_path {
                            Some(path) => {
                                actions.push(AppAction::PlayVideoSound { path: path.clone() });
                                active.temp_path = Some(path);
                            },
                            None => {},
                        }
                        self.current = Some(active);
                    },
                    None => {},
                }
            },
            AppEvent::VideoEnded => {
                match self.current.take() {
                    Some(mut active) => {
                        active.video_ended = true;
                        self.current = Some(active);
                    },
                    None => {},
                }
            },
        }
        assert(actions@ =~= event_step(m, ev@, now).1);
        actions
    }

    /// Takes the frames that the decoder delivered and, for a video on screen,
    /// puts on screen the latest frame whose presentation time has come
    /// (measured on the video clock), dropping the earlier ones.
    pub fn update_video_frame(&mut self, incoming: Vec<VideoFrame>, now: u64)
        requires
            old(self).wf(),
        ensures
            final(self).wf(),
            final(self)@ == frames_step(old(self)@, frames_view(incoming@), now),
    {
        let ghost m = self@;
        let mut active = match self.current.take() {
            Some(a) => a,
            None => return ,
        };
        if !active.is_video() {
            self.current = Some(active);
            return ;
        }
        let ghost a0 = active@;
        let ghost inc = frames_view(incoming@);
        let ghost p = if a0.has_frame_source {
            a0.pending_frames + inc
        } else {
            a0.pending_frames
        };
        let ghost clock = if a0.has_frame_source && inc.len() > 0 && a0.video_clock is None {
            Some(
                match a0.audio_started_at {
                    Some(t) => t,
                    None => now,
                },
            )
        } else {
            a0.video_clock
        };
        let mut incoming = incoming;
        if active.has_frame_source {
            let ghost n = incoming@.len();
            while incoming.len() > 0
                invariant
                    n == inc.len(),
                    incoming@.len() <= n,
                    frames_view(incoming@) == inc.skip(n - incoming@.len()),
                    active@ == (ActiveView {
                        pending_frames: a0.pending_frames + inc.take(n - incoming@.len()),
                        video_clock: if n - incoming@.len() > 0 && a0.video_clock is None {
                            Some(
                                match a0.audio_started_at {
                                    Some(t) => t,
                                    None => now,
                                },
                            )
                        } else {
                            a0.video_clock
                        },
                        ..a0
                    }),
                decreases incoming@.len(),
            {
                let ghost k = n - incoming@.len();
                let ghost before = active.pending_frames@;
                let ghost inb = incoming@;
                assert(frames_view(inb)[0] == inc[k]);
                let f = incoming.remove(0);
                assert(f@ == inc[k]);
                assert(frames_view(incoming@) =~= frames_view(inb).drop_first());
                if active.video_clock.is_none() {
                    active.video_clock = Some(
                        match active.audio_started_at {
                            Some(t) => t,
                            None => now,
                        },
                    );
                }
                active.pending_frames.push_back(f);
                assert(frames_view(before.push(f)) =~= frames_view(before).push(f@));
                assert(inc.take(k + 1) =~= inc.take(k).push(inc[k]));
                assert(frames_view(incoming@) =~= inc.skip(k + 1));
                assert(active@.pending_frames =~= a0.pending_frames + inc.take(k + 1));
            }
            assert(inc.take(n as int) =~= inc);
        }
        assert(active@ == (ActiveView { pending_frames: p, video_clock: clock, ..a0 }));
        let elapsed_us = match active.video_clock {
            None => {
                self.current = Some(active);
                return ;
            },
            Some(t) => now.saturating_sub(t),
        };
        let mut last: Option<VideoFrame> = None;
        let ghost total = due_count(p, elapsed_us);
        while active.pending_frames.len() > 0 && active.pending_frames[0].pts_us <= elapsed_us
            invariant
                0 <= p.len() - frames_view(active.pending_frames@).len() <= p.len(),
                frames_view(active.pending_frames@) == p.skip(
                    p.len() - frames_view(active.pending_frames@).len(),
                ),
                total == due_count(p, elapsed_us),
                total == (p.len() - frames_view(active.pending_frames@).len()) + due_count(
                    frames_view(active.pending_frames@),
                    elapsed_us,
                ),
                p.len() - frames_view(active.pending_frames@).len() > 0 ==> opt_frame(last)
                    == Some(p[p.len() - frames_view(active.pending_frames@).len() - 1]),
                p.len() - frames_view(active.pending_frames@).len() == 0 ==> last is None,
                active@ == (ActiveView {
                    pending_frames: frames_view(active.pending_frames@),
                    video_clock: clock,
                    ..a0
                }),
            decreases active.pending_frames@.len(),
        {
            let ghost before = active.pending_frames@;
            let ghost j = p.len() - before.len();
            last = active.pending_frames.pop_front();
            assert(frames_view(before).drop_first() =~= frames_view(active.pending_frames@));
            assert(p.skip(j).drop_first() =~= p.skip(j + 1));
            assert(frames_view(before)[0] == p[j]);
        }
        let ghost j = p.len() - frames_view(active.pending_frames@).len();
        match last {
            Some(f) => {
                active.frame = Some(f);
            },
            None => {},
        }
        assert(active@ == video_step(a0, inc, now));
        self.current = Some(active);
    }

    /// Records that the sound of the item on screen started at `now`, right
    /// after `PlayVideoSound` was carried out; the video clock starts there.
    pub fn video_sound_started(&mut self, now: u64)
        requires
            old(self).wf(),
        ensures
            final(self).wf(),
            final(self)@ == sound_started_step(old(self)@, now),
    {
        match self.current.take() {
            Some(mut active) => {
                active.audio_started_at = Some(now);
                self.current = Some(active);
            },
            None => {},
        }
    }

    /// Goes to the next item once the one on screen is done.
    pub fn advance_if_done(&mut self, now: u64) -> (actions: Vec<AppAction>)
        requires
            old(self).wf(),
        ensures
            final(self).wf(),
            final(self)@ == tick_step(old(self)@, now).0,
            actions@ == tick_step(old(self)@, now).1,
    {
        let done = match &self.current {
            Some(a) => a.should_advance(now),
            None => false,
        };
        if done {
            self.advance(now)
        } else {
            Vec::new()
        }
    }

    /// Handles the events that arrived since the last frame, in order, at time
    /// `now`, and answers everything they ask for, in order.
    pub fn process_events(&mut self, events: Vec<AppEvent>, now: u64) -> (actions: Vec<AppAction>)
        requires
            old(self).wf(),
        ensures
            final(self).wf(),
            final(self)@ == events_step(old(self)@, events_view(events@), now).0,
            actions@ == events_step(old(self)@, events_view(events@), now).1,
    {
        let ghost m0 = self@;
        let ghost evs = events_view(events@);
        let ghost n = events@.len();
        let mut events = events;
        let mut actions: Vec<AppAction> = Vec::new();
        while events.len() > 0
            invariant
                self.wf(),
                n == evs.len(),
                events@.len() <= n,
                events_view(events@) == evs.skip(n - events@.len()),
                (self@, actions@) == events_step(m0, evs.take(n - events@.len()), now),
            decreases events@.len(),
        {
            let ghost k = n - events@.len();
            let ghost before = events@;
            assert(events_view(before)[0] == evs[k]);
            let ev = events.remove(0);
            assert(ev@ == evs[k]);
            assert(events_view(events@) =~= events_view(before).drop_first());
            assert(events_view(events@) =~= evs.skip(k + 1));
            assert(evs.take(k + 1).drop_last() =~= evs.take(k));
            let mut more = self.process_event(ev, now);
            actions.append(&mut more);
        }
        assert(evs.take(n as int) =~= evs);
        actions
    }
}

/// The order of chats after one event: a new chat joins the end, skipping
/// drops the first, flushing drops all, and nothing else changes the order.
pub open spec fn line_after(l: Seq<MediaChat>, ev: EventView) -> Seq<MediaChat> {
    match ev {
        EventView::NewMediaChat(c) => l.push(c),
        EventView::Skip => if l.len() > 0 {
            l.drop_first()
        } else {
            l
        },
        EventView::Flush => Seq::empty(),
        _ => l,
    }
}

/// Law: every event keeps the display well formed (nothing waits while
/// nothing is shown) and changes the order of chats as `line_after` says.
pub proof fn lemma_event_keeps_order(m: AppModel, ev: EventView, now: u64)
    requires
        model_wf(m),
    ensures
        model_wf(event_step(m, ev, now).0),
        line(event_step(m, ev, now).0) == line_after(line(m), ev),
{
    let m2 = event_step(m, ev, now).0;
    match ev {
        EventView::NewMediaChat(c) => {
            if m.current is None {
                assert(line(m2) =~= line(m).push(c));
            } else {
                assert(line(m2) =~= line(m).push(c));
            }
        },
        EventView::Skip => {
            if m.current is Some {
                assert(line(m).drop_first() =~= m.queue);
                if m.queue.len() > 0 {
                    assert(line(m2) =~= m.queue);
                }
            }
        },
        EventView::Flush => {},
        _ => {},
    }
}

/// The order of chats after a batch of events.
pub open spec fn lines_after(l: Seq<MediaChat>, evs: Seq<EventView>) -> Seq<MediaChat>
    decreases evs.len(),
{
    if evs.len() == 0 {
        l
    } else {
        line_after(lines_after(l, evs.drop_last()), evs.last())
    }
}

/// Law: a batch of events keeps the display well formed and changes the
/// order of chats event by event.
pub proof fn lemma_events_keep_order(m: AppModel, evs: Seq<EventView>, now: u64)
    requires
        model_wf(m),
    ensures
        model_wf(events_step(m, evs, now).0),
        line(events_step(m, evs, now).0) == lines_after(line(m), evs),
    decreases evs.len(),
{
    if evs.len() > 0 {
        lemma_events_keep_order(m, evs.drop_last(), now);
        lemma_event_keeps_order(events_step(m, evs.drop_last(), now).0, evs.last(), now);
    }
}

/// Chats arriving as events, one `NewMediaChat` each.
pub open spec fn arrivals(cs: Seq<MediaChat>) -> Seq<EventView> {
    cs.map_values(|c: MediaChat| EventView::NewMediaChat(c))
}

/// `k` skips.
pub open spec fn skips(k: nat) -> Seq<EventView> {
    Seq::new(k, |i: int| EventView::Skip)
}

proof fn lemma_arrivals_line(l: Seq<MediaChat>, cs: Seq<MediaChat>)
    ensures
        lines_after(l, arrivals(cs)) == l + cs,
    decreases cs.len(),
{
    if cs.len() == 0 {
        assert(l + cs =~= l);
    } else {
        assert(arrivals(cs).drop_last() =~= arrivals(cs.drop_last()));
        lemma_arrivals_line(l, cs.drop_last());
        assert(l + cs =~= (l + cs.drop_last()).push(cs.last()));
    }
}

proof fn lemma_skips_line(l: Seq<MediaChat>, k: nat)
    requires
        k <= l.len(),
    ensures
        lines_after(l, skips(k)) == l.skip(k as int),
    decreases k,
{
    if k == 0 {
        assert(l.skip(0) =~= l);
    } else {
        assert(skips(k).drop_last() =~= skips((k - 1) as nat));
        lemma_skips_line(l, (k - 1) as nat);
        assert(l.skip(k - 1).drop_first() =~= l.skip(k as int));
    }
}

proof fn lemma_lines_after_concat(l: Seq<MediaChat>, a: Seq<EventView>, b: Seq<EventView>)
    ensures
        lines_after(l, a + b) == lines_after(lines_after(l, a), b),
    decreases b.len(),
{
    if b.len() == 0 {
        assert(a + b =~= a);
    } else {
        assert((a + b).drop_last() =~= a + b.drop_last());
        lemma_lines_after_concat(l, a, b.drop_last());
    }
}

/// Law: chats are shown in the order they arrive. On an empty display, after
/// chats `cs` arrive and `k` of them are skipped (`k < |cs|`), chat `cs[k]` is
/// on screen and the rest wait in order.
pub proof fn lemma_shown_in_arrival_order(cs: Seq<MediaChat>, k: nat, now: u64)
    requires
        k < cs.len(),
    ensures
        ({
            let m = events_step(
                AppModel { queue: Seq::empty(), current: None },
                arrivals(cs) + skips(k),
                now,
            ).0;
            &&& m.current matches Some(a) && a.chat == cs[k as int]
            &&& m.queue == cs.skip(k as int + 1)
        }),
{
    let m0 = AppModel { queue: Seq::empty(), current: None };
    let evs = arrivals(cs) + skips(k);
    lemma_events_keep_order(m0, evs, now);
    lemma_lines_after_concat(Seq::empty(), arrivals(cs), skips(k));
    lemma_arrivals_line(Seq::empty(), cs);
    assert(Seq::<MediaChat>::empty() + cs =~= cs);
    lemma_skips_line(cs, k);
    let m = events_step(m0, evs, now).0;
    assert(line(m) == cs.skip(k as int));
    assert(m.current is Some);
    assert(m.queue =~= line(m).drop_first());
    assert(cs.skip(k as int).drop_first() =~= cs.skip(k as int + 1));
    assert(line(m)[0] == cs[k as int]);
    assert(m.current.unwrap().chat == cs[k as int]);
    assert(m.queue == cs.skip(k as int + 1));
}

/// Law: the item on screen is dropped, and its downloaded file given up for
/// deletion, exactly when a flush or a skip comes; every other event keeps it
/// on screen and asks for no release.
pub proof fn lemma_release_on_leave(m: AppModel, ev: EventView, now: u64)
    requires
        model_wf(m),
        m.current is Some,
    ensures
        ({
            let (m2, acts) = event_step(m, ev, now);
            let a = m.current.unwrap();
            &&& (ev is Flush || ev is Skip) ==> acts.contains(
                AppAction::ReleaseMedia { temp_path: a.temp_path },
            )
            &&& !(ev is Flush || ev is Skip) ==> (m2.current matches Some(b) && b.chat == a.chat
                && b.started_at == a.started_at && forall|i: int|
                0 <= i < acts.len() ==> !(#[trigger] acts[i] is ReleaseMedia))
        }),
{
    let (m2, acts) = event_step(m, ev, now);
    let a = m.current.unwrap();
    if ev is Flush || ev is Skip {
        assert(acts[1] == AppAction::ReleaseMedia { temp_path: a.temp_path });
    }
}

/// How many frames are due, and which: the first `due_count` frames have
/// come, and the one after them (if any) has not.
proof fn lemma_due_count(p: Seq<FrameView>, e: u64)
    ensures
        due_count(p, e) <= p.len(),
        forall|j: int| 0 <= j < due_count(p, e) ==> (#[trigger] p[j]).pts_us <= e,
        due_count(p, e) < p.len() ==> p[due_count(p, e) as int].pts_us > e,
    decreases p.len(),
{
    if p.len() > 0 && p[0].pts_us <= e {
        lemma_due_count(p.drop_first(), e);
        assert forall|j: int| 0 <= j < due_count(p, e) implies (#[trigger] p[j]).pts_us <= e by {
            if j > 0 {
                assert(p[j] == p.drop_first()[j - 1]);
            }
        }
    }
}

/// Law: a frame goes on screen only once its time has come on the video
/// clock, the frame on screen is the latest such frame, and the first frame
/// still waiting (if any) is not yet due.
pub proof fn lemma_frames_shown_in_time(a: ActiveView, incoming: Seq<FrameView>, now: u64)
    ensures
        ({
            let b = video_step(a, incoming, now);
            b.video_clock matches Some(t) ==> {
                &&& b.frame != a.frame ==> (b.frame matches Some(f) && f.pts_us <= elapsed(t, now))
                &&& b.pending_frames.len() > 0 ==> b.pending_frames[0].pts_us > elapsed(t, now)
            }
        }),
{
    let p = if a.has_frame_source {
        a.pending_frames + incoming
    } else {
        a.pending_frames
    };
    let b = video_step(a, incoming, now);
    if let Some(t) = b.video_clock {
        lemma_due_count(p, elapsed(t, now));
        let k = due_count(p, elapsed(t, now));
        if k > 0 {
            assert(p[k - 1].pts_us <= elapsed(t, now));
        }
        if b.pending_frames.len() > 0 {
            assert(b.pending_frames[0] == p[k as int]);
        }
    }
}

/// Law: a video is never done before its decoder has ended, nor while
/// frames still wait: until then the display does not move on and asks for
/// nothing, whatever the time.
pub proof fn lemma_video_waits_for_decoder(m: AppModel, now: u64)
    requires
        m.current matches Some(a) && a.chat.media matches Some(md) && md.media_type
            == MediaType::Video,
        !m.current.unwrap().video_ended || m.current.unwrap().pending_frames.len() > 0,
    ensures
        !item_done(m.current.unwrap(), now),
        tick_step(m, now).0 == m,
        tick_step(m, now).1.len() == 0,
{
}

/// Law: a video whose decoder has ended and whose frames have all been shown
/// is done, at any time.
pub proof fn lemma_video_done_after_last_frame(a: ActiveView, now: u64)
    requires
        a.chat.media matches Some(md) && md.media_type == MediaType::Video,
        a.video_ended,
        a.pending_frames.len() == 0,
    ensures
        item_done(a, now),
{
}

/// Law: whenever a chat starts, its author's avatar is asked for, whatever
/// the chat carries; the first thing asked is to stop the sound, and the
/// chat's file is asked for as its kind says.
pub proof fn lemma_start_fetches_avatar(chat: MediaChat)
    ensures
        start_actions(chat)[0] == AppAction::KillAudio,
        chat.author.image matches Some(u) ==> start_actions(chat).contains(
            AppAction::DownloadAvatar { url: u },
        ),
        chat.author.image is None ==> !(exists|i: int|
            0 <= i < start_actions(chat).len() && #[trigger] start_actions(chat)[i]
                is DownloadAvatar),
        chat.media is Some && chat.media.unwrap().media_type == MediaType::Sound
            ==> start_actions(chat).contains(AppAction::PlayAudio { url: chat.media.unwrap().url }),
        chat.media is Some && chat.media.unwrap().media_type == MediaType::Image
            ==> start_actions(chat).contains(AppAction::DownloadMediaImage { url: chat.media.unwrap().url }),
        chat.media is Some && chat.media.unwrap().media_type == MediaType::Video
            ==> start_actions(chat).contains(AppAction::StartVideoDecoder { url: chat.media.unwrap().url }),
{
    let acts = start_actions(chat);
    if let Some(u) = chat.author.image {
        assert(acts[1] == AppAction::DownloadAvatar { url: u });
    }
    if let Some(md) = chat.media {
        let k = acts.len() - 1;
        assert(acts[k as int] == acts.last());
    }
}

/// Law: a chat that arrives on an empty display starts at once and asks for
/// its avatar, whatever its kind.
pub proof fn lemma_new_chat_fetches_avatar(m: AppModel, chat: MediaChat, now: u64)
    requires
        m.current is None,
    ensures
        event_step(m, EventView::NewMediaChat(chat), now).0.current matches Some(a) && a.chat
            == chat && a.started_at == now,
        chat.author.image matches Some(u) ==> event_step(
            m,
            EventView::NewMediaChat(chat),
            now,
        ).1.contains(AppAction::DownloadAvatar { url: u }),
{
    lemma_start_fetches_avatar(chat);
}

/// Law: the video clock starts only when a frame arrives from an attached
/// decoder: an update without frames leaves an unset clock unset and shows
/// nothing new, and the first frames set it to the start of the sound if the
/// sound has started, else to the time of the update.
pub proof fn lemma_clock_starts_with_first_frame(a: ActiveView, incoming: Seq<FrameView>, now: u64)
    ensures
        a.video_clock is None && (incoming.len() == 0 || !a.has_frame_source) ==> {
            &&& video_step(a, incoming, now).video_clock is None
            &&& video_step(a, incoming, now).frame == a.frame
            &&& video_step(a, incoming, now).pending_frames == a.pending_frames
        },
        a.video_clock is None && incoming.len() > 0 && a.has_frame_source ==> video_step(
            a,
            incoming,
            now,
        ).video_clock == Some(
            if a.audio_started_at is Some {
                a.audio_started_at.unwrap()
            } else {
                now
            },
        ),
        a.video_clock is Some ==> video_step(a, incoming, now).video_clock == a.video_clock,
{
}

} // verus!
