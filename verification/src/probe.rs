use vstd::prelude::*;

verus! {

/// The fields of one stream of an `ffprobe -print_format json -show_streams`
/// report that the overlay reads; a field that is missing or of another JSON
/// type is `None`.
#[derive(Debug, Clone)]
pub struct StreamInfo {
    pub codec_type: Option<String>,
    pub width: Option<u64>,
    pub height: Option<u64>,
    pub avg_frame_rate: Option<String>,
}

/// A stream with its strings as character sequences.
pub struct StreamView {
    pub codec_type: Option<Seq<char>>,
    pub width: Option<u64>,
    pub height: Option<u64>,
    pub avg_frame_rate: Option<Seq<char>>,
}

/// The characters of an optional string.
pub open spec fn opt_chars(s: Option<String>) -> Option<Seq<char>> {
    match s {
        Some(t) => Some(t@),
        None => None,
    }
}

impl View for StreamInfo {
    type V = StreamView;

    open spec fn view(&self) -> StreamView {
        StreamView {
            codec_type: opt_chars(self.codec_type),
            width: self.width,
            height: self.height,
            avg_frame_rate: opt_chars(self.avg_frame_rate),
        }
    }
}

/// Why a video cannot be played.
#[derive(Debug, Clone, Copy, PartialEq, Eq, Structural)]
pub enum ProbeError {
    /// The report is not JSON.
    InvalidJson,
    /// The report has no `streams` array.
    NoStreams,
    /// There is no video stream, or its width or height is zero.
    NoVideoStream,
}

/// What the decoder needs to know of a video.
#[derive(Debug, Clone)]
pub struct VideoProbe {
    pub width: u32,
    pub height: u32,
    /// `avg_frame_rate` of the video stream, a `num/den` string.
    pub frame_rate: Option<String>,
    pub has_audio: bool,
}

/// A probe with its strings as character sequences.
pub struct ProbeView {
    pub width: u32,
    pub height: u32,
    pub frame_rate: Option<Seq<char>>,
    pub has_audio: bool,
}

impl View for VideoProbe {
    type V = ProbeView;

    open spec fn view(&self) -> ProbeView {
        ProbeView {
            width: self.width,
            height: self.height,
            frame_rate: opt_chars(self.frame_rate),
            has_audio: self.has_audio,
        }
    }
}

/// The stream's `codec_type` is `name`.
pub open spec fn has_codec(s: StreamView, name: Seq<char>) -> bool {
    s.codec_type == Some(name)
}

/// The first video stream, if there is one.
pub open spec fn first_video(ss: Seq<StreamView>) -> Option<StreamView>
    decreases ss.len(),
{
    if ss.len() == 0 {
        None
    } else {
        match first_video(ss.drop_last()) {
            Some(v) => Some(v),
            None => if has_codec(ss.last(), "video"@) {
                Some(ss.last())
            } else {
                None
            },
        }
    }
}

/// Some stream is an audio stream.
pub open spec fn any_audio(ss: Seq<StreamView>) -> bool {
    exists|i: int| 0 <= i < ss.len() && has_codec(#[trigger] ss[i], "audio"@)
}

/// The summary of a list of streams: the first video stream gives the size
/// (a missing size reads as 0, a size is cut to its low 32 bits) and the frame
/// rate, later video streams are ignored, and any audio stream means the video
/// has sound. No video stream, or a zero width or height, is an error.
pub open spec fn spec_summarize(ss: Seq<StreamView>) -> Result<ProbeView, ProbeError> {
    match first_video(ss) {
        Some(v) => {
            let w = (match v.width {
                Some(w) => w,
                None => 0,
            }) as u32;
            let h = (match v.height {
                Some(h) => h,
                None => 0,
            }) as u32;
            if w == 0 || h == 0 {
                Err(ProbeError::NoVideoStream)
            } else {
                Ok(
                    ProbeView {
                        width: w,
                        height: h,
                        frame_rate: v.avg_frame_rate,
                        has_audio: any_audio(ss),
                    },
                )
            }
        },
        None => Err(ProbeError::NoVideoStream),
    }
}

/// What `serde_json::from_slice` reads from an ffprobe report: `None` when it
/// is not JSON, `Some(None)` when it has no `streams` array, and otherwise the
/// streams with their fields.
pub uninterp spec fn ffprobe_streams(report: Seq<u8>) -> Option<Option<Seq<StreamView>>>;

/// What `probe_video` answers for an ffprobe report.
pub open spec fn spec_probe(report: Seq<u8>) -> Result<ProbeView, ProbeError> {
    match ffprobe_streams(report) {
        None => Err(ProbeError::InvalidJson),
        Some(None) => Err(ProbeError::NoStreams),
        Some(Some(ss)) => spec_summarize(ss),
    }
}

/// Calls `serde_json::from_slice::<serde_json::Value>` on the report and picks
/// from `streams[i]` the fields `codec_type` (`as_str`), `width` and `height`
/// (`as_u64`) and `avg_frame_rate` (`as_str`). Claimed: the result is the
/// named reading of the bytes. What JSON the parser accepts is not stated.
#[verifier::external_body]
fn read_ffprobe_streams(report: &[u8]) -> (res: Result<Option<Vec<StreamInfo>>, ProbeError>)
    ensures
        res matches Err(e) ==> e == ProbeError::InvalidJson && ffprobe_streams(report@) is None,
        res matches Ok(None) ==> ffprobe_streams(report@) == Some(None::<Seq<StreamView>>),
        res matches Ok(Some(v)) ==> ffprobe_streams(report@) == Some(
            Some(v@.map_values(|s: StreamInfo| s@)),
        ),
{
    match serde_json::from_slice::<serde_json::Value>(report) {
        Ok(json) => Ok(json["streams"].as_array().map(|streams| streams.iter().map(|s| StreamInfo {
            codec_type: s["codec_type"].as_str().map(|t| t.to_string()),
            width: s["width"].as_u64(),
            height: s["height"].as_u64(),
            avg_frame_rate: s["avg_frame_rate"].as_str().map(|t| t.to_string()),
        }).collect())),
        Err(_) => Err(ProbeError::InvalidJson),
    }
}

fn clone_opt_string(s: &Option<String>) -> (res: Option<String>)
    ensures
        res == *s,
{
    match s {
        Some(t) => Some(t.clone()),
        None => None,
    }
}

fn codec_is(s: &StreamInfo, name: &String) -> (b: bool)
    ensures
        b == has_codec(s@, name@),
{
    match &s.codec_type {
        Some(t) => t.eq(name),
        None => false,
    }
}

/// Summarises the streams of a video: the size and frame rate of the first
/// video stream and whether there is an audio stream.
pub fn summarize_streams(streams: &Vec<StreamInfo>) -> (res: Result<VideoProbe, ProbeError>)
    ensures
        res matches Ok(p) ==> spec_summarize(streams@.map_values(|s: StreamInfo| s@)) == Ok::<
            ProbeView,
            ProbeError,
        >(p@),
        res matches Err(e) ==> spec_summarize(streams@.map_values(|s: StreamInfo| s@)) == Err::<
            ProbeView,
            ProbeError,
        >(e),
{
    let ghost ss = streams@.map_values(|s: StreamInfo| s@);
    let video = "video".to_owned();
    let audio = "audio".to_owned();
    proof {
        reveal_strlit("video");
        reveal_strlit("audio");
    }
    let mut has_video = false;
    let mut width: u64 = 0;
    let mut height: u64 = 0;
    let mut frame_rate: Option<String> = None;
    let mut has_audio = false;
    let mut i: usize = 0;
    while i < streams.len()
        invariant
            ss == streams@.map_values(|s: StreamInfo| s@),
            video@ == "video"@,
            audio@ == "audio"@,
            i <= streams@.len(),
            has_video == (first_video(ss.take(i as int)) is Some),
            first_video(ss.take(i as int)) matches Some(v) ==> {
                &&& width == (match v.width {
                    Some(w) => w,
                    None => 0,
                })
                &&& height == (match v.height {
                    Some(h) => h,
                    None => 0,
                })
                &&& opt_chars(frame_rate) == v.avg_frame_rate
            },
            has_audio == any_audio(ss.take(i as int)),
        decreases streams@.len() - i,
    {
        let s = &streams[i];
        proof {
            reveal_strlit("video");
            reveal_strlit("audio");
        }
        assert("video"@[0] == 'v' && "audio"@[0] == 'a');
        assert("video"@ != "audio"@);
        assert(ss.take(i + 1).drop_last() =~= ss.take(i as int));
        assert(ss.take(i + 1).last() == s@);
        if codec_is(s, &video) && !has_video {
            has_video = true;
            width = match s.width {
                Some(w) => w,
                None => 0,
            };
            height = match s.height {
                Some(h) => h,
                None => 0,
            };
            frame_rate = clone_opt_string(&s.avg_frame_rate);
        } else if codec_is(s, &audio) {
            has_audio = true;
            assert(has_codec(ss.take(i + 1)[i as int], "audio"@));
        }
        proof {
            let prev = ss.take(i as int);
            let next = ss.take(i + 1);
            if any_audio(next) {
                let j = choose|j: int| 0 <= j < i + 1 && has_codec(#[trigger] next[j], "audio"@);
                if j < i {
                    assert(prev[j] == next[j]);
                }
            }
            if any_audio(prev) {
                let j = choose|j: int| 0 <= j < i && has_codec(#[trigger] prev[j], "audio"@);
                assert(next[j] == prev[j]);
            }
            if has_codec(s@, "audio"@) {
                assert(has_codec(next[i as int], "audio"@));
            }
            assert(any_audio(next) == (any_audio(prev) || has_codec(s@, "audio"@)));
        }
        i = i + 1;
    }
    assert(ss.take(streams@.len() as int) =~= ss);
    #[verifier::truncate]
    let w = width as u32;
    #[verifier::truncate]
    let h = height as u32;
    if !has_video || w == 0 || h == 0 {
        Err(ProbeError::NoVideoStream)
    } else {
        Ok(VideoProbe { width: w, height: h, frame_rate, has_audio })
    }
}

/// Reads what a video holds from the JSON report that
/// `ffprobe -v quiet -print_format json -show_streams` printed for it.
pub fn probe_video(report: &[u8]) -> (res: Result<VideoProbe, ProbeError>)
    ensures
        res matches Ok(p) ==> spec_probe(report@) == Ok::<ProbeView, ProbeError>(p@),
        res matches Err(e) ==> spec_probe(report@) == Err::<ProbeView, ProbeError>(e),
{
    match read_ffprobe_streams(report) {
        Err(e) => Err(e),
        Ok(None) => Err(ProbeError::NoStreams),
        Ok(Some(streams)) => summarize_streams(&streams),
    }
}

/// Law: a video has sound exactly when one of its streams is an audio
/// stream, whatever that stream's other fields; and the size reported is the
/// size of the first video stream.
pub proof fn lemma_sound_iff_audio_stream(ss: Seq<StreamView>)
    ensures
        spec_summarize(ss) matches Ok(p) ==> (p.has_audio <==> exists|i: int|
            0 <= i < ss.len() && (#[trigger] ss[i]).codec_type == Some("audio"@)),
        spec_summarize(ss) matches Ok(p) ==> exists|i: int|
            0 <= i < ss.len() && (#[trigger] ss[i]).codec_type == Some("video"@) && (forall|j: int|
                0 <= j < i ==> ss[j].codec_type != Some("video"@)) && ss[i].width
                is Some && p.width == ss[i].width.unwrap() as u32 && ss[i].height is Some
                && p.height == ss[i].height.unwrap() as u32 && p.frame_rate
                == ss[i].avg_frame_rate,
{
    if let Ok(p) = spec_summarize(ss) {
        assert(p.has_audio == any_audio(ss));
        if p.has_audio {
            let i = choose|i: int| 0 <= i < ss.len() && has_codec(#[trigger] ss[i], "audio"@);
            assert(ss[i].codec_type == Some("audio"@));
        }
        if exists|i: int| 0 <= i < ss.len() && (#[trigger] ss[i]).codec_type == Some("audio"@) {
            let i = choose|i: int| 0 <= i < ss.len() && (#[trigger] ss[i]).codec_type == Some("audio"@);
            assert(has_codec(ss[i], "audio"@));
        }
        lemma_first_video(ss);
    }
}

proof fn lemma_first_video(ss: Seq<StreamView>)
    ensures
        first_video(ss) matches Some(v) ==> exists|i: int|
            0 <= i < ss.len() && (#[trigger] ss[i]) == v && v.codec_type == Some("video"@) && (
            forall|j: int| 0 <= j < i ==> ss[j].codec_type != Some("video"@)),
        first_video(ss) is None ==> forall|j: int|
            0 <= j < ss.len() ==> ss[j].codec_type != Some("video"@),
    decreases ss.len(),
{
    if ss.len() > 0 {
        let init = ss.drop_last();
        lemma_first_video(init);
        match first_video(init) {
            Some(v) => {
                let i = choose|i: int|
                    0 <= i < init.len() && (#[trigger] init[i]) == v && v.codec_type == Some(
                        "video"@,
                    ) && (forall|j: int| 0 <= j < i ==> init[j].codec_type != Some("video"@));
                assert(ss[i] == init[i]);
                assert forall|j: int| 0 <= j < i implies ss[j].codec_type != Some("video"@) by {
                    assert(ss[j] == init[j]);
                }
            },
            None => {
                assert forall|j: int| 0 <= j < ss.len() - 1 implies ss[j].codec_type != Some(
                    "video"@,
                ) by {
                    assert(ss[j] == init[j]);
                }
                if first_video(ss) is Some {
                    let k = ss.len() - 1;
                    assert(ss[k] == ss.last());
                }
            },
        }
    }
}

} // verus!
