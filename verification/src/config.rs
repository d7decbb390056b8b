//! The parameters of a layout run.
use crate::error::LayoutError;
use vstd::prelude::*;

verus! {

/// The page and type parameters of a layout run. Lengths are in thousandths
/// of a point, the font size in points.
#[derive(Clone, Copy, Debug)]
pub struct LayoutConfig {
    pub page_width: i64,
    pub margin_left: i64,
    pub margin_right: i64,
    pub font_size: u16,
    /// The distance between the baselines of successive lines.
    pub line_leading: i64,
}

impl LayoutConfig {
    /// The width that is left for a line between the margins.
    pub open spec fn max_width(self) -> int {
        self.page_width - self.margin_left - self.margin_right
    }

    /// A configuration is valid where no margin is negative and the margins
    /// leave room for text.
    pub open spec fn valid(self) -> bool {
        &&& 0 <= self.margin_left
        &&& 0 <= self.margin_right
        &&& 0 < self.max_width()
    }

    /// The width that is left for a line, or why the configuration leaves
    /// none.
    pub fn usable_width(&self) -> (result: Result<i64, LayoutError>)
        ensures
            self.valid() ==> result is Ok && result->Ok_0 == self.max_width(),
            !self.valid() ==> result == Err::<i64, LayoutError>(
                LayoutError::InvalidConfiguration,
            ),
    {
        if self.margin_left < 0 || self.margin_right < 0 {
            return Err(LayoutError::InvalidConfiguration);
        }
        let room: i128 = self.page_width as i128 - self.margin_left as i128
            - self.margin_right as i128;
        if room > 0 {
            Ok(room as i64)
        } else {
            Err(LayoutError::InvalidConfiguration)
        }
    }
}

impl Default for LayoutConfig {
    /// An A4 sheet with margins of 20 points, set in 12 point type on 18
    /// points of leading.
    fn default() -> (config: Self)
        ensures
            config == (LayoutConfig {
                page_width: 595_000,
                margin_left: 20_000,
                margin_right: 20_000,
                font_size: 12,
                line_leading: 18_000,
            }),
            config.valid(),
    {
        LayoutConfig {
            page_width: 595_000,
            margin_left: 20_000,
            margin_right: 20_000,
            font_size: 12,
            line_leading: 18_000,
        }
    }
}

} // verus!
