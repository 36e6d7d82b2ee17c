use vstd::prelude::*;

verus! {

/// The sender of a chat.
#[derive(Debug, Clone)]
pub struct Author {
    pub id: String,
    pub name: String,
    /// URL of the author's avatar picture.
    pub image: Option<String>,
}

/// What kind of file a chat carries.
#[derive(Debug, Clone, Copy, PartialEq, Eq, Structural)]
pub enum MediaType {
    Video,
    Image,
    Sound,
}

/// A file attached to a chat.
#[derive(Debug, Clone)]
pub struct Media {
    pub id: String,
    pub url: String,
    pub media_type: MediaType,
}

/// How the text of a chat is laid out.
#[derive(Debug, Clone)]
pub struct TextOptions {
    pub position_x: Option<String>,
    pub position_y: Option<String>,
    /// CSS colour, `#rrggbb` or `#rgb`.
    pub color: Option<String>,
    /// The font size as the bit pattern of an `f32`.
    pub font_size_bits: Option<u32>,
    pub font_family: Option<String>,
}

/// How the file of a chat is laid out.
#[derive(Debug, Clone)]
pub struct FileOptions {
    pub position_x: Option<String>,
    pub position_y: Option<String>,
}

/// Display options of a chat.
#[derive(Debug, Clone)]
pub struct MediachatOptions {
    pub file: Option<FileOptions>,
    pub text: Option<TextOptions>,
    pub hide_author: Option<bool>,
    pub target: Option<String>,
    pub target_id: Option<String>,
}

/// One item to show on the overlay.
#[derive(Debug, Clone)]
pub struct MediaChat {
    pub id: String,
    pub author: Author,
    /// How long a non-video item stays on screen, in microseconds.
    pub duration_us: Option<u64>,
    pub message: Option<String>,
    pub media: Option<Media>,
    pub options: Option<MediachatOptions>,
}

impl MediaChat {
    /// The chat carries a video.
    pub open spec fn spec_is_video(&self) -> bool {
        self.media matches Some(m) && m.media_type == MediaType::Video
    }

    /// The author is hidden when the options say so; shown otherwise.
    pub open spec fn spec_hides_author(&self) -> bool {
        self.options matches Some(o) && o.hide_author == Some(true)
    }

    /// The chat carries a video.
    pub fn is_video(&self) -> (b: bool)
        ensures
            b == self.spec_is_video(),
    {
        match &self.media {
            Some(m) => match m.media_type {
                MediaType::Video => true,
                _ => false,
            },
            None => false,
        }
    }

    /// Whether the author's avatar and name are hidden.
    pub fn hides_author(&self) -> (b: bool)
        ensures
            b == self.spec_hides_author(),
    {
        match &self.options {
            Some(o) => match o.hide_author {
                Some(h) => h,
                None => false,
            },
            None => false,
        }
    }
}

} // verus!
