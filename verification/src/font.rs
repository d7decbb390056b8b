//! Font styles and text measurement.
use crate::error::LayoutError;
use pdf_canvas::{BuiltinFont, FontSource};
use vstd::prelude::*;
use vstd::string::StrSliceExecFns;

verus! {

/// The style of a run of text.
#[derive(Clone, Copy, Debug, PartialEq, Eq, Structural)]
pub enum FontStyle {
    Regular,
    Bold,
    Italic,
}

/// The longest text, in characters, that can be measured.
///
/// A character takes at most two bytes in the font's encoding and a byte is at
/// most 65535 units wide, so the widths of this many characters still add up
/// within 32 bits.
pub const MAX_TEXT_CHARS: usize = 32768;

/// Whether a text is short enough to be measured.
pub open spec fn measurable(text: Seq<char>) -> bool {
    text.len() <= MAX_TEXT_CHARS
}

/// The width of `text` set in the built-in Times face of the given style, in
/// thousandths of the font size.
pub uninterp spec fn glyph_units(font: FontStyle, text: Seq<char>) -> nat;

/// The width of `text` at `size` points, in thousandths of a point.
pub open spec fn text_width(font: FontStyle, size: nat, text: Seq<char>) -> nat {
    size * glyph_units(font, text)
}

/// Calls `FontSource::get_width_raw` of `pdf_canvas` on the built-in Times
/// face that stands for `font`.
///
/// Trusted: the result depends on the face and the text alone and is the sum
/// of the widths that the face's metrics give for the encoded bytes of the
/// text. The bound on the text's length keeps that 32-bit sum from
/// overflowing.
#[verifier::external_body]
fn raw_width(font: FontStyle, text: &str) -> (units: u32)
    requires
        measurable(text@),
    ensures
        units == glyph_units(font, text@),
{
    let face = match font {
        FontStyle::Regular => BuiltinFont::Times_Roman,
        FontStyle::Bold => BuiltinFont::Times_Bold,
        FontStyle::Italic => BuiltinFont::Times_Italic,
    };
    face.get_width_raw(text)
}

/// The width of the text of a span whose text is known to be measurable.
pub(crate) fn measured_width(font: FontStyle, size: u16, text: &str) -> (width: i64)
    requires
        measurable(text@),
    ensures
        width == text_width(font, size as nat, text@),
{
    let units = raw_width(font, text);
    assert(size * units <= 0xffff * 0xffff_ffff) by (nonlinear_arith)
        requires
            size <= 0xffff,
            units <= 0xffff_ffff,
    ;
    (size as i64) * (units as i64)
}

/// Measures `text` set in `font` at `size` points.
///
/// The width is in thousandths of a point. A text of more than
/// [`MAX_TEXT_CHARS`] characters cannot be measured.
pub fn measure(font: FontStyle, size: u16, text: &str) -> (result: Result<i64, LayoutError>)
    ensures
        measurable(text@) ==> result is Ok && result->Ok_0 == text_width(
            font,
            size as nat,
            text@,
        ),
        !measurable(text@) ==> result == Err::<i64, LayoutError>(LayoutError::MeasurementFailure),
{
    if text.unicode_len() <= MAX_TEXT_CHARS {
        Ok(measured_width(font, size, text))
    } else {
        Err(LayoutError::MeasurementFailure)
    }
}

} // verus!
