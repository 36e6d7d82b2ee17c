use vstd::prelude::*;
use vstd::utf8::encode_utf8;

use crate::color::{color_cuts_fit, color_cuts_ok, parse_color, spec_parse_color, Rgb};
use crate::media::MediaChat;
use crate::player::{App, AppModel};

verus! {

/// What `str::to_uppercase` makes of the characters.
pub uninterp spec fn uppercased(s: Seq<char>) -> Seq<char>;

/// Calls `str::to_uppercase`. Claimed: the result is the named upper-casing
/// of the characters; the Unicode mapping itself is not stated.
#[verifier::external_body]
fn to_uppercase(s: &str) -> (res: String)
    ensures
        res@ == uppercased(s@),
{
    s.to_uppercase()
}

/// The colour string of a chat's text options, if any.
pub open spec fn text_color_string(chat: MediaChat) -> Option<String> {
    match chat.options {
        Some(o) => match o.text {
            Some(t) => t.color,
            None => None,
        },
        None => None,
    }
}

/// The chat's text colour can be read without cutting a character in two.
pub open spec fn text_color_readable(chat: MediaChat) -> bool {
    text_color_string(chat) matches Some(c) ==> color_cuts_ok(encode_utf8(c@))
}

/// The colour of a chat's text: the colour its options name, white when
/// they name none or one that cannot be read.
pub open spec fn spec_text_color(chat: MediaChat) -> Rgb {
    match text_color_string(chat) {
        Some(c) => match spec_parse_color(encode_utf8(c@)) {
            Some(rgb) => rgb,
            None => Rgb { r: 255, g: 255, b: 255 },
        },
        None => Rgb { r: 255, g: 255, b: 255 },
    }
}

/// Whether `text_color` can read the chat's colour (reading it would
/// otherwise cut a character in two).
pub fn text_color_fits(chat: &MediaChat) -> (ok: bool)
    ensures
        ok == text_color_readable(*chat),
{
    match &chat.options {
        Some(o) => match &o.text {
            Some(t) => match &t.color {
                Some(c) => color_cuts_fit(c.as_str()),
                None => true,
            },
            None => true,
        },
        None => true,
    }
}

/// The colour of a chat's text, white by default.
pub fn text_color(chat: &MediaChat) -> (c: Rgb)
    requires
        text_color_readable(*chat),
    ensures
        c == spec_text_color(*chat),
{
    let parsed = match &chat.options {
        Some(o) => match &o.text {
            Some(t) => match &t.color {
                Some(c) => parse_color(Some(c.as_str())),
                None => None,
            },
            None => None,
        },
        None => None,
    };
    match parsed {
        Some(rgb) => rgb,
        None => Rgb::white(),
    }
}

/// The author's name shown under the avatar: upper-cased, and only while an
/// item is on screen whose author is not hidden and whose avatar has arrived.
pub open spec fn author_label_shown(m: AppModel) -> Option<Seq<char>> {
    match m.current {
        Some(a) => if !a.chat.spec_hides_author() && a.avatar is Some {
            Some(uppercased(a.chat.author.name@))
        } else {
            None
        },
        None => None,
    }
}

/// The message shown below the media: upper-cased, and only when the item on
/// screen has a message that is not empty.
pub open spec fn message_label_shown(m: AppModel) -> Option<Seq<char>> {
    match m.current {
        Some(a) => match a.chat.message {
            Some(msg) => if msg@.len() > 0 {
                Some(uppercased(msg@))
            } else {
                None
            },
            None => None,
        },
        None => None,
    }
}

/// Which picture fills the middle of the screen.
#[derive(Debug, Clone, Copy, PartialEq, Eq, Structural)]
pub enum MediaShown {
    /// The current video frame.
    VideoFrame,
    /// The downloaded picture.
    Picture,
    Nothing,
}

/// The video frame wins over the picture.
pub open spec fn media_shown_for(m: AppModel) -> MediaShown {
    match m.current {
        Some(a) => if a.frame is Some {
            MediaShown::VideoFrame
        } else if a.media_image is Some {
            MediaShown::Picture
        } else {
            MediaShown::Nothing
        },
        None => MediaShown::Nothing,
    }
}

/// How soon to draw again: at about 60 frames a second for a video, 30 for
/// anything else (the avatar bobs), and only when woken while idle.
pub open spec fn repaint_for(m: AppModel) -> Option<u64> {
    match m.current {
        Some(a) => if a.chat.spec_is_video() {
            Some(16)
        } else {
            Some(33)
        },
        None => None,
    }
}

impl App {
    /// The author's name to draw under the avatar, if any.
    pub fn author_label(&self) -> (res: Option<String>)
        ensures
            res matches Some(t) ==> author_label_shown(self@) == Some(t@),
            res is None ==> author_label_shown(self@) is None,
    {
        match self.current() {
            Some(a) => if !a.chat.hides_author() && a.avatar.is_some() {
                Some(to_uppercase(a.chat.author.name.as_str()))
            } else {
                None
            },
            None => None,
        }
    }

    /// The message to draw below the media, if any.
    pub fn message_label(&self) -> (res: Option<String>)
        ensures
            res matches Some(t) ==> message_label_shown(self@) == Some(t@),
            res is None ==> message_label_shown(self@) is None,
    {
        match self.current() {
            Some(a) => match &a.chat.message {
                Some(msg) => if !msg.as_str().is_empty() {
                    Some(to_uppercase(msg.as_str()))
                } else {
                    None
                },
                None => None,
            },
            None => None,
        }
    }

    /// Which picture to draw in the middle of the screen.
    pub fn media_shown(&self) -> (res: MediaShown)
        ensures
            res == media_shown_for(self@),
    {
        match self.current() {
            Some(a) => if a.frame.is_some() {
                MediaShown::VideoFrame
            } else if a.media_image.is_some() {
                MediaShown::Picture
            } else {
                MediaShown::Nothing
            },
            None => MediaShown::Nothing,
        }
    }

    /// After how many milliseconds to draw again; `None` to wait until woken.
    pub fn repaint_after_ms(&self) -> (res: Option<u64>)
        ensures
            res == repaint_for(self@),
    {
        match self.current() {
            Some(a) => if a.is_video() {
                Some(16)
            } else {
                Some(33)
            },
            None => None,
        }
    }
}

/// Law: the message of the item on screen is drawn, upper-cased, whenever it
/// is not empty, whatever the chat carries (picture, video, sound or
/// nothing) and whether or not its author is hidden; an empty or missing
/// message is never drawn, and nothing is drawn without an item.
pub proof fn lemma_message_always_shown(m: AppModel)
    ensures
        ({
            let a = m.current.unwrap();
            let msg = a.chat.message.unwrap();
            m.current is Some && a.chat.message is Some && msg@.len() > 0 ==> message_label_shown(m)
                == Some(uppercased(msg@))
        }),
        ({
            let a = m.current.unwrap();
            m.current is Some && (a.chat.message is None || a.chat.message.unwrap()@.len() == 0)
                ==> message_label_shown(m) is None
        }),
        m.current is None ==> message_label_shown(m) is None,
{
}

/// Law: the author's name is drawn exactly when an item is on screen, its
/// author is not hidden and its avatar has arrived, whatever the chat carries.
pub proof fn lemma_author_name_shown(m: AppModel)
    ensures
        ({
            let a = m.current.unwrap();
            let hidden = a.chat.options is Some && a.chat.options.unwrap().hide_author == Some(
                true,
            );
            &&& m.current is Some && !hidden && a.avatar is Some ==> author_label_shown(m) == Some(
                uppercased(a.chat.author.name@),
            )
            &&& m.current is Some && hidden ==> author_label_shown(m) is None
            &&& m.current is Some && a.avatar is None ==> author_label_shown(m) is None
        }),
        m.current is None ==> author_label_shown(m) is None,
{
}

} // verus!
