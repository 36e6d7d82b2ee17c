use mediachat_native::{probe_video, summarize_streams, ProbeError, StreamInfo};

#[test]
fn probe_video_reads_first_video_and_audio() {
    let report = br#"{"streams": [
        {"codec_type": "audio"},
        {"codec_type": "video", "width": 1280, "height": 720, "avg_frame_rate": "30000/1001"},
        {"codec_type": "video", "width": 10, "height": 10, "avg_frame_rate": "5/1"}
    ]}"#;
    let p = probe_video(report).unwrap();
    assert_eq!((p.width, p.height), (1280, 720));
    assert_eq!(p.frame_rate.as_deref(), Some("30000/1001"));
    assert!(p.has_audio);
}

#[test]
fn probe_video_without_audio_or_rate() {
    let report = br#"{"streams": [{"codec_type": "video", "width": 2, "height": 3}]}"#;
    let p = probe_video(report).unwrap();
    assert_eq!((p.width, p.height), (2, 3));
    assert_eq!(p.frame_rate, None);
    assert!(!p.has_audio);
}

#[test]
fn probe_video_errors() {
    assert_eq!(probe_video(b"not json").err(), Some(ProbeError::InvalidJson));
    assert_eq!(probe_video(b"{}").err(), Some(ProbeError::NoStreams));
    assert_eq!(probe_video(br#"{"streams": 3}"#).err(), Some(ProbeError::NoStreams));
    assert_eq!(
        probe_video(br#"{"streams": [{"codec_type": "audio"}]}"#).err(),
        Some(ProbeError::NoVideoStream)
    );
    assert_eq!(
        probe_video(br#"{"streams": [{"codec_type": "video", "width": "640", "height": 480}]}"#)
            .err(),
        Some(ProbeError::NoVideoStream)
    );
    assert_eq!(
        probe_video(br#"{"streams": [{"codec_type": "video", "width": 640, "height": 0}]}"#).err(),
        Some(ProbeError::NoVideoStream)
    );
}

#[test]
fn probe_video_cuts_sizes_to_32_bits() {
    let report = br#"{"streams": [{"codec_type": "video", "width": 4294967297, "height": 5}]}"#;
    let p = probe_video(report).unwrap();
    assert_eq!((p.width, p.height), (1, 5));
    let zero = br#"{"streams": [{"codec_type": "video", "width": 4294967296, "height": 5}]}"#;
    assert_eq!(probe_video(zero).err(), Some(ProbeError::NoVideoStream));
}

#[test]
fn summarize_streams_ignores_later_video_streams() {
    let s = |t: &str, w: u64, h: u64| StreamInfo {
        codec_type: Some(t.to_string()),
        width: Some(w),
        height: Some(h),
        avg_frame_rate: None,
    };
    let streams = vec![s("subtitle", 1, 1), s("video", 0, 9), s("video", 8, 8)];
    assert_eq!(summarize_streams(&streams).err(), Some(ProbeError::NoVideoStream));
    let streams = vec![s("video", 8, 9), s("audio", 0, 0)];
    let p = summarize_streams(&streams).unwrap();
    assert_eq!((p.width, p.height, p.has_audio), (8, 9, true));
}
