//! Packs a Chromium-shell desktop application into a distributable layout:
//! a layered build configuration is resolved per platform, file selections
//! are expanded and matched into `(source, destination, unpack)` triples,
//! the selected files are assembled into a single `app.asar` archive, a
//! freedesktop desktop entry is rendered, and icon containers are
//! transcoded into one PNG per discovered size.
//!
//! Every function here carries a contract; the calls into the archive
//! writer, the glob matcher and the icon codecs stand behind small trusted
//! wrappers whose contracts state what those crates' sources show.

use vstd::prelude::*;

pub mod app;
pub mod archive;
pub mod config;
pub mod desktop;
pub mod doc;
pub mod environment;
pub mod error;
pub mod icons;
pub mod pack;
pub mod package;
pub mod parse;
pub mod textutil;
pub mod utils;
pub mod walker;

verus! {

} // verus!
