//! Extraction of the code blocks of a Markdown document, each tagged with the
//! file name and language that its info string declares.
//!
//! The document is tokenized by `pulldown-cmark`; everything after that (the
//! reduction of its events to fence events, the test for a closing fence
//! line, the info-string grammar, the extraction state machine and the lookup
//! by file name) is verified.

pub mod block;
pub mod classify;
pub mod document;
pub mod events;
pub mod extract;
pub mod fence;
pub mod registry;
pub mod text;

pub use block::CodeBlock;
pub use classify::{classify, parse_code_block_info, strip_quotes};
pub use events::{BlockEvent, MarkupEvent};
pub use extract::{extract_code_blocks, extract_code_blocks_from_markdown, Extractor};
pub use registry::{BlockNotFound, BlockRegistry};
