//! The text line of the graphical client: what the user has typed, and where
//! it is drawn in the window.
use vstd::prelude::*;
use vstd::utf8::encode_utf8;

verus! {

/// The width of the client window, in pixels.
pub const SCREEN_WIDTH: u32 = 600;

/// The height of the client window, in pixels.
pub const SCREEN_HEIGHT: u32 = 100;

/// `String::pop`: removes the last character.
#[verifier::external_body]
fn pop_char(s: &mut String) -> (c: Option<char>)
    ensures
        old(s)@.len() == 0 ==> c is None && final(s)@ == old(s)@,
        old(s)@.len() > 0 ==> c == Some(old(s)@.last()) && final(s)@ == old(s)@.drop_last(),
{
    s.pop()
}

/// The width of a text drawn `height` pixels high: its length in UTF-8 bytes
/// (cut to a `u32`) times `height / 3 + 5`.
pub open spec fn text_width(t: Seq<char>, height: u32) -> int {
    ((encode_utf8(t).len() as usize) as u32) * (height / 3 + 5)
}

/// The typed text.
pub struct Text {
    text: String,
}

impl View for Text {
    type V = Seq<char>;

    closed spec fn view(&self) -> Seq<char> {
        self.text@
    }
}

impl Text {
    pub fn new(text: String) -> (t: Text)
        ensures
            t@ == text@,
    {
        Text { text }
    }

    /// Appends typed text.
    pub fn push_str(&mut self, new_text: &str)
        ensures
            final(self)@ == old(self)@ + new_text@,
    {
        self.text.append(new_text);
    }

    /// Replaces the whole text.
    pub fn change_text(&mut self, new_string: String)
        ensures
            final(self)@ == new_string@,
    {
        self.text = new_string;
    }

    /// Removes the last character, if any.
    pub fn pop(&mut self)
        ensures
            old(self)@.len() == 0 ==> final(self)@ == old(self)@,
            old(self)@.len() > 0 ==> final(self)@ == old(self)@.drop_last(),
    {
        pop_char(&mut self.text);
    }

    pub fn text(&self) -> (s: &str)
        ensures
            s@ == self@,
    {
        self.text.as_str()
    }

    /// The width of the text drawn `height` pixels high.
    pub fn width(&self, height: u32) -> (w: u32)
        requires
            text_width(self@, height) <= u32::MAX,
        ensures
            w == text_width(self@, height),
    {
        let len = self.text.as_str().len() as u32;
        len * (height / 3 + 5)
    }

    /// Where the text is drawn, as a rectangle `(x, y, width, height)`: 50
    /// pixels high at `y = 25`; 10 pixels from the left, or, when it is wider
    /// than the window, right-aligned 10 pixels from the right edge. Nothing
    /// is drawn for an empty text.
    pub fn draw(&self) -> (r: Option<(i32, i32, u32, u32)>)
        requires
            text_width(self@, 50) <= i32::MAX,
        ensures
            self@.len() == 0 ==> r is None,
            self@.len() > 0 ==> r == Some(
                (
                    if text_width(self@, 50) > 600 {
                        (600 - text_width(self@, 50) - 10) as i32
                    } else {
                        10i32
                    },
                    25i32,
                    text_width(self@, 50) as u32,
                    50u32,
                ),
            ),
    {
        if self.text.as_str().is_empty() {
            return None;
        }
        let width = self.width(50);
        let x = if width > SCREEN_WIDTH {
            SCREEN_WIDTH as i32 - width as i32 - 10
        } else {
            10
        };
        Some((x, 25, width, 50))
    }
}

} // verus!
