//! A string with display attributes: an abstraction over ANSI color and
//! text-manipulation escape sequences, kept apart from the text itself so
//! that layout code can measure the plain text alone.

use vstd::prelude::*;
use vstd::string::*;

verus! {

/// An abstracted ANSI color/text-manipulation sequence.
#[derive(Debug, Clone, Copy, PartialEq, Eq, Structural)]
pub enum Attribute {
    TextReset,
    TextBold,
    TextDim,
    TextItalic,
    TextUnderline,
    TextBlink,
    TextInverse,
    TextHidden,
    TextStrikethrough,
    ColorFgBlack,
    ColorFgRed,
    ColorFgGreen,
    ColorFgYellow,
    ColorFgBlue,
    ColorFgMagenta,
    ColorFgCyan,
    ColorFgWhite,
    ColorFgDefault,
}

impl Attribute {
    /// The escape sequence the attribute stands for.
    pub open spec fn spec_escape(&self) -> Seq<char> {
        match self {
            Attribute::TextReset => "\x1b[0m"@,
            Attribute::TextBold => "\x1b[1m"@,
            Attribute::TextDim => "\x1b[2m"@,
            Attribute::TextItalic => "\x1b[3m"@,
            Attribute::TextUnderline => "\x1b[4m"@,
            Attribute::TextBlink => "\x1b[5m"@,
            Attribute::TextInverse => "\x1b[7m"@,
            Attribute::TextHidden => "\x1b[8m"@,
            Attribute::TextStrikethrough => "\x1b[9m"@,
            Attribute::ColorFgBlack => "\x1b[30m"@,
            Attribute::ColorFgRed => "\x1b[31m"@,
            Attribute::ColorFgGreen => "\x1b[32m"@,
            Attribute::ColorFgYellow => "\x1b[33m"@,
            Attribute::ColorFgBlue => "\x1b[34m"@,
            Attribute::ColorFgMagenta => "\x1b[35m"@,
            Attribute::ColorFgCyan => "\x1b[36m"@,
            Attribute::ColorFgWhite => "\x1b[37m"@,
            Attribute::ColorFgDefault => "\x1b[39m"@,
        }
    }

    /// The actual escape sequence, for the printing layer to emit.
    pub fn escape(&self) -> (r: &'static str)
        ensures
            r@ == self.spec_escape(),
    {
        match self {
            Attribute::TextReset => "\x1b[0m",
            Attribute::TextBold => "\x1b[1m",
            Attribute::TextDim => "\x1b[2m",
            Attribute::TextItalic => "\x1b[3m",
            Attribute::TextUnderline => "\x1b[4m",
            Attribute::TextBlink => "\x1b[5m",
            Attribute::TextInverse => "\x1b[7m",
            Attribute::TextHidden => "\x1b[8m",
            Attribute::TextStrikethrough => "\x1b[9m",
            Attribute::ColorFgBlack => "\x1b[30m",
            Attribute::ColorFgRed => "\x1b[31m",
            Attribute::ColorFgGreen => "\x1b[32m",
            Attribute::ColorFgYellow => "\x1b[33m",
            Attribute::ColorFgBlue => "\x1b[34m",
            Attribute::ColorFgMagenta => "\x1b[35m",
            Attribute::ColorFgCyan => "\x1b[36m",
            Attribute::ColorFgWhite => "\x1b[37m",
            Attribute::ColorFgDefault => "\x1b[39m",
        }
    }
}

/// String with attributes: the text and the list of attributes to apply
/// when it is printed.
pub struct AttributeString {
    text: String,
    attrs: Vec<Attribute>,
}

impl View for AttributeString {
    type V = (Seq<char>, Seq<Attribute>);

    closed spec fn view(&self) -> (Seq<char>, Seq<Attribute>) {
        (self.text@, self.attrs@)
    }
}

impl Clone for AttributeString {
    fn clone(&self) -> (r: Self)
        ensures
            r@ == self@,
    {
        AttributeString { text: self.text.clone(), attrs: self.attrs.clone() }
    }
}

impl AttributeString {
    /// Creates a new `AttributeString` with the given attributes.
    pub fn new(s: &str, attrs: &[Attribute]) -> (r: AttributeString)
        ensures
            r@.0 == s@,
            r@.1 == attrs@,
    {
        AttributeString { text: String::from_str(s), attrs: vstd::slice::slice_to_vec(attrs) }
    }

    /// Creates an `AttributeString` without attributes.
    pub fn from(s: &str) -> (r: AttributeString)
        ensures
            r@.0 == s@,
            r@.1 == Seq::<Attribute>::empty(),
    {
        AttributeString { text: String::from_str(s), attrs: Vec::new() }
    }

    /// Length in bytes of the underlying string.
    pub fn len(&self) -> (r: usize)
        ensures
            r == vstd::utf8::encode_utf8(self@.0).len() as usize,
    {
        self.text.as_str().len()
    }

    /// Pushes a new attribute onto the attribute list.
    pub fn push_attr(&mut self, attr: Attribute)
        ensures
            final(self)@.0 == old(self)@.0,
            final(self)@.1 == old(self)@.1.push(attr),
    {
        self.attrs.push(attr);
    }

    /// The underlying string.
    pub fn string(&self) -> (r: &String)
        ensures
            r@ == self@.0,
    {
        &self.text
    }

    /// The attributes, for the printing layer to apply.
    pub fn attrs(&self) -> (r: &Vec<Attribute>)
        ensures
            r@ == self@.1,
    {
        &self.attrs
    }
}

/// Styling applied to every column header: bold text.
pub fn color_header_fn(s: &mut AttributeString)
    ensures
        final(s)@.0 == old(s)@.0,
        final(s)@.1 == old(s)@.1.push(Attribute::TextBold),
{
    s.push_attr(Attribute::TextBold);
}

} // verus!
