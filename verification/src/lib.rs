//! Structure-preserving transcoding between CommonMark documents and XML,
//! with escaping of template shortcodes.
//!
//! A parsed CommonMark document is projected to an XML tree whose tags and
//! attributes stand for the document's nodes, so that a translation
//! service that understands XML can translate the prose and leave the
//! structure alone; the XML that comes back is reconstructed to a
//! document. Template shortcodes are hidden from both forms by a scan of
//! the raw text.

pub mod ast;
pub mod deepl;
pub mod document;
pub mod frontmatter;
pub mod glossary;
pub mod language;
pub mod mapping;
pub mod numeral;
pub mod options;
pub mod project;
pub mod reconstruct;
pub mod restore;
pub mod roundtrip;
pub mod shortcode;
pub mod text;
pub mod walk;
pub mod xml;

pub use deepl::{ConfigError, Deepl, DeeplConfig, Method, Request};
pub use document::{
    cmark_from_xml, cmark_to_parse, cmark_written, xml_from_cmark, xmldom_from_cmark,
};
pub use frontmatter::{parse_md, read_cmark_with_frontmatter, translates_field, FrontmatterError};
pub use glossary::DeeplGlossary;
pub use language::{Formality, Language, NameError};
pub use options::{comrak_options, Options};
pub use project::xml_from_ast;
pub use reconstruct::ast_from_xml;
pub use shortcode::{escape_all_shortcodes, unescape_all_shortcodes};
pub use xml::XmlError;
