//! Font faces.

use crate::markup::Style as MarkupStyle;
use vstd::prelude::*;

verus! {

/// The face a run of text is set in.
#[derive(Clone, Copy, Debug, PartialEq, Eq, Structural)]
pub enum Style {
    Regular,
    Bold,
    Italic,
    Heading,
}

/// The face for a set of attributes: h1 to h3 take the heading face, h4 to h6
/// the bold one, and bold wins over italic.
pub open spec fn face(bold: bool, italic: bool, heading: bool, hlevel: u8) -> Style {
    if heading && hlevel < 4 {
        Style::Heading
    } else if heading || bold {
        Style::Bold
    } else if italic {
        Style::Italic
    } else {
        Style::Regular
    }
}

/// The face of an inline style.
pub open spec fn markup_face(s: MarkupStyle) -> Style {
    face(s.bold, s.italic, s.heading != 0, s.heading)
}

impl Style {
    /// The one place where attributes become a face, so that measured and
    /// drawn widths agree.
    pub fn from_flags(bold: bool, italic: bool, heading: bool, hlevel: u8) -> (s: Style)
        ensures
            s == face(bold, italic, heading, hlevel),
    {
        if heading && hlevel < 4 {
            Style::Heading
        } else if heading || bold {
            Style::Bold
        } else if italic {
            Style::Italic
        } else {
            Style::Regular
        }
    }

    pub fn from_markup(s: MarkupStyle) -> (f: Style)
        ensures
            f == markup_face(s),
    {
        Style::from_flags(s.bold, s.italic, s.heading != 0, s.heading)
    }
}

} // verus!
