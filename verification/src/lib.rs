//! Verified core logic of a World of Warcraft UI simulator: text markup,
//! `string.format` dialect planning, IPC reply decoding, texture request
//! bookkeeping, pixel transforms for glyph and texture atlases, template
//! registries and WTF path layout.

pub mod text;
pub mod animation;
pub mod markup;
pub mod string_format;
pub mod texture_pixels;
pub mod keyed;
pub mod texture_resolve;
pub mod quad;
pub mod saved_variables;
pub mod lua_server;
pub mod lua_server_windows;
pub mod glyph;
pub mod headless;
pub mod font;
pub mod game_rules;
pub mod crafting;
pub mod template_xml;
pub mod template;
