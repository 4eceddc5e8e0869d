//! Level package format of the Aperture Kill game: binary chunk codec, keyed text formats,
//! package checks and the small menu/editor tables, with their contracts proved by Verus.
pub mod chunk;
pub mod error;
pub mod binio;
pub mod decimal;
pub mod strutil;
pub mod level;
pub mod keyed;
pub mod naming;
pub mod text_format;
pub mod runtime;
pub mod manifest;
pub mod package;
pub mod difficulty;
pub mod kinds;
pub mod progression;
pub mod index_laws;
pub mod editor;
pub mod input;
pub mod side_files;
pub mod level_file;
pub mod level_file_laws;
pub mod menus;
pub mod editor_keys;
pub mod selection;
pub mod package_load;
