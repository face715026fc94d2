pub mod json;
pub mod text;
pub mod reader;
pub mod cmap;
pub mod name;
pub mod os2;
pub mod head;
pub mod glyf;
pub mod tuple_variations;
pub mod cff_common;

pub mod font;
pub mod layout;
pub mod hhea;
pub mod maxp;
pub mod vhea;
pub mod metrics;
pub mod hmtx;
pub mod vmtx;
pub mod post;
pub mod table_directory;
pub mod fvar;
pub mod stat;
pub mod variations;
pub mod avar;
pub mod mvar;
pub mod parser;
pub mod vorg;
pub mod loca;
pub mod vvar;
pub mod gvar;
pub mod cvar;
pub mod search;
pub mod cff;
pub mod cff2;
