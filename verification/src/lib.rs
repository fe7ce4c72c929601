//! Style-extraction engine for packaged word-processing documents.
//!
//! A document arrives as a ZIP container of XML parts.  The engine recovers
//! the document's visual style (primary font, font size, line spacing, text
//! alignment, heading hierarchy, header/footer presence and content) by
//! running ordered cascades of structural patterns over the raw XML text of
//! the parts, degrading to documented defaults when a pattern is absent.
//!
//! All measurements are kept in the source format's native integer units:
//! font sizes in half-points, line spacing in twentieths of a point
//! (240 = single spacing), margins in hundredths of a centimetre.

pub mod analyze;
pub mod archive;
pub mod audio;
pub mod extract;
pub mod headerfooter;
pub mod headings;
pub mod files;
pub mod labels;
pub mod record;
pub mod reports;
pub mod scan;
pub mod system;
pub mod text;
