//! A verified core for a small static blog generator.
//!
//! Content files carry their publication date and slug in the file name
//! (`YYYY-MM-DD-slug.ext`) and start with a `---`-delimited front-matter
//! block.  The library decodes those names, splits front matter from body,
//! reads the metadata through a YAML decoder, derives canonical URLs,
//! orders the resulting posts, and renders the index page through a strict
//! Handlebars registry.  All file and directory handling stays with the
//! caller: the library works on plain strings and returns plain strings.

pub mod blog;
pub mod decode;
pub mod error;
pub mod front_matter;
pub mod json;
pub mod loader;
pub mod metadata;
pub mod post;
pub mod strutil;
pub mod template;
pub mod url;
