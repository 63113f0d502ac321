//! Verified core of a small canvas editor that exports its drawing as a JSON
//! template and as a one-page PDF.
//!
//! Coordinates themselves are floating-point values and are handled by the
//! caller; this crate holds the rules that decide what happens to them: which
//! resize handle was hit and which edges it drags, how objects are laid out
//! in the shared buffer and reordered, which page sizes exist, and the exact
//! text of the JSON template and of the PDF content stream.




pub mod buffer;
pub mod content;
pub mod decimal;
pub mod handles;
pub mod page;
pub mod pdf;
pub mod reader;
pub mod template;
pub mod text;




