use mediachat_native::{
    text_color, text_color_fits, App, AppAction, AppEvent, Author, Media, MediaChat, MediaShown,
    MediaType, MediachatOptions, Rgb, TextOptions, VideoFrame,
};

fn chat(id: &str, media: Option<(MediaType, &str)>, avatar: Option<&str>) -> MediaChat {
    MediaChat {
        id: id.to_string(),
        author: Author {
            id: "a".to_string(),
            name: "Bob".to_string(),
            image: avatar.map(|u| u.to_string()),
        },
        duration_us: None,
        message: None,
        media: media.map(|(t, u)| Media { id: "m".to_string(), url: u.to_string(), media_type: t }),
        options: None,
    }
}

fn shown_id(app: &App) -> Option<String> {
    app.current().map(|a| a.chat.id.clone())
}

fn png(width: u32, height: u32) -> Vec<u8> {
    let buf = image::RgbaImage::from_raw(width, height, vec![9u8; (4 * width * height) as usize])
        .unwrap();
    let mut out = std::io::Cursor::new(Vec::new());
    image::DynamicImage::ImageRgba8(buf).write_to(&mut out, image::ImageFormat::Png).unwrap();
    out.into_inner()
}

fn frame(pts_us: u64) -> VideoFrame {
    VideoFrame { width: 1, height: 1, data: vec![pts_us as u8, 0, 0, 255], pts_us }
}

#[test]
fn new_chat_starts_at_once_when_idle() {
    let mut app = App::new();
    let acts = app.process_event(
        AppEvent::NewMediaChat(Box::new(chat(
            "1",
            Some((MediaType::Image, "http://img")),
            Some("http://av"),
        ))),
        10,
    );
    assert_eq!(
        acts,
        vec![
            AppAction::KillAudio,
            AppAction::DownloadAvatar { url: "http://av".to_string() },
            AppAction::DownloadMediaImage { url: "http://img".to_string() },
        ]
    );
    assert_eq!(shown_id(&app), Some("1".to_string()));
    assert_eq!(app.current().unwrap().started_at, 10);
    assert_eq!(app.queue_len(), 0);
}

#[test]
fn start_actions_follow_media_type() {
    let mut app = App::new();
    let acts = app.process_event(
        AppEvent::NewMediaChat(Box::new(chat("v", Some((MediaType::Video, "http://v")), None))),
        0,
    );
    assert_eq!(acts, vec![AppAction::KillAudio, AppAction::StartVideoDecoder { url: "http://v".to_string() }]);
    let mut app = App::new();
    let acts = app.process_event(
        AppEvent::NewMediaChat(Box::new(chat("s", Some((MediaType::Sound, "http://s")), None))),
        0,
    );
    assert_eq!(acts, vec![AppAction::KillAudio, AppAction::PlayAudio { url: "http://s".to_string() }]);
    let mut app = App::new();
    let acts = app.process_event(AppEvent::NewMediaChat(Box::new(chat("t", None, None))), 0);
    assert_eq!(acts, vec![AppAction::KillAudio]);
}

#[test]
fn chats_are_shown_in_arrival_order() {
    let mut app = App::new();
    let events = vec![
        AppEvent::NewMediaChat(Box::new(chat("1", None, None))),
        AppEvent::NewMediaChat(Box::new(chat("2", None, None))),
        AppEvent::NewMediaChat(Box::new(chat("3", None, None))),
    ];
    let acts = app.process_events(events, 0);
    assert_eq!(acts, vec![AppAction::KillAudio]);
    assert_eq!(shown_id(&app), Some("1".to_string()));
    assert_eq!(app.queue_len(), 2);
    let acts = app.process_event(AppEvent::Skip, 5);
    assert_eq!(
        acts,
        vec![AppAction::KillAudio, AppAction::ReleaseMedia { temp_path: None }, AppAction::KillAudio]
    );
    assert_eq!(shown_id(&app), Some("2".to_string()));
    assert_eq!(app.current().unwrap().started_at, 5);
    app.advance(6);
    assert_eq!(shown_id(&app), Some("3".to_string()));
    let acts = app.advance(7);
    assert_eq!(acts, vec![AppAction::KillAudio, AppAction::ReleaseMedia { temp_path: None }]);
    assert_eq!(shown_id(&app), None);
    assert_eq!(app.advance(8), vec![AppAction::KillAudio]);
}

#[test]
fn flush_empties_everything() {
    let mut app = App::new();
    app.process_events(
        vec![
            AppEvent::NewMediaChat(Box::new(chat("1", None, None))),
            AppEvent::NewMediaChat(Box::new(chat("2", None, None))),
            AppEvent::VideoReady { audio_path: Some("/tmp/x".to_string()) },
        ],
        0,
    );
    let acts = app.process_event(AppEvent::Flush, 1);
    assert_eq!(
        acts,
        vec![AppAction::KillAudio, AppAction::ReleaseMedia { temp_path: Some("/tmp/x".to_string()) }]
    );
    assert!(app.current().is_none());
    assert_eq!(app.queue_len(), 0);
    assert_eq!(app.process_event(AppEvent::Flush, 2), vec![AppAction::KillAudio]);
}

#[test]
fn sound_start_without_item_is_ignored() {
    let mut app = App::new();
    app.video_sound_started(7);
    assert!(app.current().is_none());
}

#[test]
fn item_events_without_item_are_ignored() {
    let mut app = App::new();
    assert!(app.process_event(AppEvent::VideoReady { audio_path: Some("p".to_string()) }, 0).is_empty());
    assert!(app.process_event(AppEvent::VideoEnded, 0).is_empty());
    assert!(app.process_event(AppEvent::AvatarLoaded(png(2, 2)), 0).is_empty());
    assert!(app.current().is_none());
}

#[test]
fn video_ready_attaches_and_plays_sound() {
    let mut app = App::new();
    app.process_event(AppEvent::NewMediaChat(Box::new(chat("v", Some((MediaType::Video, "u")), None))), 0);
    let acts = app.process_event(AppEvent::VideoReady { audio_path: Some("/tmp/v".to_string()) }, 40);
    assert_eq!(acts, vec![AppAction::AttachFrameSource, AppAction::PlayVideoSound { path: "/tmp/v".to_string() }]);
    let a = app.current().unwrap();
    assert!(a.has_frame_source);
    assert_eq!(a.audio_started_at, None);
    app.video_sound_started(45);
    let a = app.current().unwrap();
    assert_eq!(a.audio_started_at, Some(45));
    assert_eq!(a.temp_path.as_deref(), Some("/tmp/v"));
    let acts = app.process_event(AppEvent::VideoReady { audio_path: None }, 50);
    assert_eq!(acts, vec![AppAction::AttachFrameSource]);
    assert_eq!(app.current().unwrap().audio_started_at, Some(45));
}

#[test]
fn pictures_arrive_for_item_on_screen() {
    let mut app = App::new();
    app.process_event(AppEvent::NewMediaChat(Box::new(chat("i", Some((MediaType::Image, "u")), Some("a")))), 0);
    assert_eq!(app.media_shown(), MediaShown::Nothing);
    app.process_event(AppEvent::AvatarLoaded(png(3, 5)), 0);
    app.process_event(AppEvent::MediaImageLoaded(png(4, 2)), 0);
    app.process_event(AppEvent::MediaImageLoaded(b"garbage".to_vec()), 0);
    let a = app.current().unwrap();
    let av = a.avatar.as_ref().unwrap();
    assert_eq!((av.width, av.height), (3, 3));
    let pic = a.media_image.as_ref().unwrap();
    assert_eq!((pic.width, pic.height), (4, 2));
    assert_eq!(app.media_shown(), MediaShown::Picture);
    assert_eq!(app.author_label(), Some("BOB".to_string()));
}

#[test]
fn video_frames_shown_when_due() {
    let mut app = App::new();
    app.process_event(AppEvent::NewMediaChat(Box::new(chat("v", Some((MediaType::Video, "u")), None))), 0);
    // no decoder attached yet: frames are ignored
    app.update_video_frame(vec![frame(0)], 100);
    assert!(app.current().unwrap().pending_frames.is_empty());
    app.process_event(AppEvent::VideoReady { audio_path: None }, 100);
    app.update_video_frame(vec![frame(0), frame(40_000), frame(80_000)], 1_000);
    let a = app.current().unwrap();
    assert_eq!(a.video_clock, Some(1_000));
    assert_eq!(a.frame.as_ref().unwrap().pts_us, 0);
    assert_eq!(a.pending_frames.len(), 2);
    assert_eq!(app.media_shown(), MediaShown::VideoFrame);
    app.update_video_frame(vec![frame(120_000)], 1_000 + 90_000);
    let a = app.current().unwrap();
    assert_eq!(a.frame.as_ref().unwrap().pts_us, 80_000);
    assert_eq!(a.pending_frames.len(), 1);
    assert_eq!(a.pending_frames[0].pts_us, 120_000);
    // not done until the decoder ends and every frame is shown
    assert!(app.advance_if_done(10_000_000).is_empty());
}

#[test]
fn video_clock_starts_with_sound() {
    let mut app = App::new();
    app.process_event(AppEvent::NewMediaChat(Box::new(chat("v", Some((MediaType::Video, "u")), None))), 0);
    app.process_event(AppEvent::VideoReady { audio_path: Some("/t".to_string()) }, 480);
    app.video_sound_started(500);
    app.update_video_frame(vec![frame(0), frame(1_000)], 1_200);
    let a = app.current().unwrap();
    assert_eq!(a.video_clock, Some(500));
    assert_eq!(a.frame.as_ref().unwrap().pts_us, 0);
    assert_eq!(a.pending_frames.len(), 1);
}

#[test]
fn video_advances_after_end_and_last_frame() {
    let mut app = App::new();
    app.process_event(AppEvent::NewMediaChat(Box::new(chat("v", Some((MediaType::Video, "u")), None))), 0);
    app.process_event(AppEvent::NewMediaChat(Box::new(chat("next", None, None))), 0);
    app.process_event(AppEvent::VideoReady { audio_path: None }, 0);
    app.update_video_frame(vec![frame(0), frame(50)], 10);
    assert!(app.advance_if_done(100).is_empty());
    app.process_event(AppEvent::VideoEnded, 20);
    assert!(!app.current().unwrap().should_advance(20));
    app.update_video_frame(vec![], 60);
    assert!(app.current().unwrap().should_advance(60));
    let acts = app.advance_if_done(60);
    assert_eq!(
        acts,
        vec![AppAction::KillAudio, AppAction::ReleaseMedia { temp_path: None }, AppAction::KillAudio]
    );
    assert_eq!(shown_id(&app), Some("next".to_string()));
}

#[test]
fn picture_stays_for_its_duration() {
    let mut app = App::new();
    let mut c = chat("i", None, None);
    c.duration_us = Some(2_000_000);
    app.process_event(AppEvent::NewMediaChat(Box::new(c)), 1_000_000);
    assert!(!app.current().unwrap().should_advance(2_999_999));
    assert!(app.current().unwrap().should_advance(3_000_000));
    assert!(app.advance_if_done(2_000_000).is_empty());
    assert_eq!(app.advance_if_done(3_000_000).len(), 2);
    assert!(app.current().is_none());
}

#[test]
fn default_duration_is_five_seconds() {
    let mut app = App::new();
    app.process_event(AppEvent::NewMediaChat(Box::new(chat("i", None, None))), 0);
    assert!(!app.current().unwrap().should_advance(4_999_999));
    assert!(app.current().unwrap().should_advance(5_000_000));
    // a clock that went back counts as no time
    let mut app = App::new();
    app.process_event(AppEvent::NewMediaChat(Box::new(chat("i", None, None))), 100);
    assert!(!app.current().unwrap().should_advance(50));
}

#[test]
fn labels_and_repaint() {
    let mut app = App::new();
    assert_eq!(app.repaint_after_ms(), None);
    assert_eq!(app.message_label(), None);
    let mut c = chat("i", None, Some("a"));
    c.message = Some("héllo".to_string());
    app.process_event(AppEvent::NewMediaChat(Box::new(c)), 0);
    assert_eq!(app.repaint_after_ms(), Some(33));
    assert_eq!(app.message_label(), Some("HÉLLO".to_string()));
    // no avatar yet: no name
    assert_eq!(app.author_label(), None);
    app.process_event(AppEvent::AvatarLoaded(png(1, 1)), 0);
    assert_eq!(app.author_label(), Some("BOB".to_string()));

    let mut app = App::new();
    let mut c = chat("v", Some((MediaType::Video, "u")), Some("a"));
    c.message = Some(String::new());
    c.options = Some(MediachatOptions {
        file: None,
        text: None,
        hide_author: Some(true),
        target: None,
        target_id: None,
    });
    app.process_event(AppEvent::NewMediaChat(Box::new(c)), 0);
    app.process_event(AppEvent::AvatarLoaded(png(1, 1)), 0);
    assert_eq!(app.repaint_after_ms(), Some(16));
    assert_eq!(app.message_label(), None);
    assert_eq!(app.author_label(), None);
}

#[test]
fn text_color_defaults_to_white() {
    let mut c = chat("i", None, None);
    assert!(text_color_fits(&c));
    assert_eq!(text_color(&c), Rgb { r: 255, g: 255, b: 255 });
    let opts = |color: &str| MediachatOptions {
        file: None,
        text: Some(TextOptions {
            position_x: None,
            position_y: None,
            color: Some(color.to_string()),
            font_size_bits: None,
            font_family: None,
        }),
        hide_author: None,
        target: None,
        target_id: None,
    };
    c.options = Some(opts("#0f0"));
    assert_eq!(text_color(&c), Rgb { r: 0, g: 255, b: 0 });
    c.options = Some(opts("blue"));
    assert_eq!(text_color(&c), Rgb { r: 255, g: 255, b: 255 });
    c.options = Some(opts("€abc"));
    assert!(!text_color_fits(&c));
}
