use vstd::prelude::*;

verus! {

/// `'❯' U+276F` — marks the hovered item in a list.
pub const ARROW: char = '\u{276F}';

/// `'✖' U+2716` — prefixes an inline validation error.
pub const CROSS: char = '\u{2716}';

/// `'─' U+2500` — the glyph a default separator line is drawn with.
pub const BOX_LIGHT_HORIZONTAL: char = '\u{2500}';

} // verus!
