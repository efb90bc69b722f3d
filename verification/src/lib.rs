//! Turns a flat vault of notes into a linked, themed set of documents: notes
//! are parsed, their wikilinks rewritten, their vector graphics inlined and
//! re-themed, and source notes assembled from the main notes they list.

use vstd::prelude::*;

pub mod assemble;
pub mod colors;
pub mod embed;
pub mod links;
pub mod note;
pub mod parse;
pub mod pattern;
pub mod pipeline;
pub mod svg;
pub mod text;

pub use assemble::{concat_source_note, extract_link, Assembled};
pub use colors::{lookup_color, replace_color, ColorToken};
pub use embed::{embed_svgs, embed_targets, Asset, EmbedError, Embedded};
pub use links::{format_links, rewrite_links};
pub use note::{format_metadata, get_frontmatter, Note, NoteMetadata, ZettelType};
pub use parse::{note_from, read_note, FrontMatter, ParseError};
pub use pipeline::{body_embed_targets, render_document, rewrite_body};
pub use svg::{process_svg, render_events, Diagnostic, SvgEvent, SvgMarkup};
