//! Verified core of the MediaChat overlay: the data that a chat carries,
//! the display queue and its state machine, colour parsing, the avatar
//! mask and the summary of a probed video.

mod color;
mod media;
mod overlay;
mod picture;
mod player;
mod probe;

pub use media::{Author, FileOptions, Media, MediaChat, MediaType, MediachatOptions, TextOptions};
pub use color::{color_cuts_fit, parse_color, Rgb};
pub use picture::{decode_circular, decode_image, RgbaImage};
pub use probe::{probe_video, summarize_streams, ProbeError, StreamInfo, VideoProbe};
pub use player::{ActiveMedia, App, AppAction, AppEvent, VideoFrame};
pub use overlay::{text_color, text_color_fits, MediaShown};
