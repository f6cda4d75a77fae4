//! Static enumeration of chunk references from webpack runtime tables and
//! literal relative ESM specifiers.
//!
//! Webpack emits the chunk filename template as a runtime function
//! (`__webpack_require__.u` and `.miniCssF` in webpack 5, `jsonpScriptSrc` in
//! webpack 4) whose body is a concatenation of string literals, the chunk id
//! parameter, and object literal lookups keyed by the chunk id. Where that
//! template and its id sources are fully literal, the exact relative URLs
//! that the runtime would request can be enumerated without executing any
//! code.
//!
//! Everything fails closed: a template with any part that is not literal is
//! reported as dynamic, without URLs; a literal template without a static
//! source of chunk ids is reported as such; and a public path that is computed
//! at run time is reported as computed, unless it is the script's own
//! directory followed by a literal suffix. No URL is ever guessed.
//!
//! - [`ast`] is the syntax tree that the enumeration reads, and [`walk`] lists
//!   the places in it that matter.
//! - [`template`] reads filename functions, [`assets`] expands their templates
//!   into URLs, [`prototype`] tells what their lookup tables inherit, and
//!   [`number`] and [`text`] hold what all of them need.
//! - [`surface`] collects what a module says about its runtime,
//!   [`script_path`] traces its public path, and [`webpack`] extracts the
//!   enumeration from both.
//! - [`imports`] collects relative ESM specifiers, and [`facts`] holds what is
//!   reported.
//! - [`laws`], [`origins`] and [`evaluation`] state and prove what holds of
//!   every enumeration, of every public path, and of every URL.
//! - [`parts`] and [`counts`] say that the walk finds everything, wherever it
//!   stands in a module, once and in source order, and [`trace_order`] says in
//!   which order the public path is traced.
//! - [`reading`], [`recognition`], [`literal_templates`], [`tracing`] and
//!   [`extraction`] say what is recognized, by how it is written: loaded
//!   chunks, runtimes and imports, filename templates, the way to the running
//!   script, and what is extracted in the end.
pub mod assets;
pub mod ast;
pub mod counts;
pub mod evaluation;
pub mod extraction;
pub mod facts;
pub mod imports;
pub mod laws;
pub mod literal_templates;
pub mod number;
pub mod origins;
pub mod parts;
pub mod prototype;
pub mod reading;
pub mod recognition;
pub mod runtime_properties;
pub mod script_path;
pub mod surface;
pub mod template;
pub mod text;
pub mod trace_order;
pub mod tracing;
pub mod walk;
pub mod webpack;
