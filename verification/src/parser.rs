use vstd::prelude::*;
use crate::json::{parsed_view, text, Json, JsonV};
use crate::font::open_error;
use crate::reader::small_len;
use vstd::string::StringExecFns;

verus! {

/// Whether two texts are the same.
pub fn same_text(a: &str, b: &str) -> (r: bool)
    ensures
        r == (a@ == b@),
{
    text(a) == text(b)
}

/// The message for a table that has no parser.
pub open spec fn not_implemented(tag: Seq<char>) -> Seq<char> {
    "Parsing for table '"@ + tag + "' is not implemented yet."@
}

/// What describing the table `tag` of a font gives: the font must open,
/// then each table that has a parser is described by it, and the table
/// directory by its own name.
pub open spec fn spec_parse_specific_table(font: Seq<u8>, tag: Seq<char>) -> Result<JsonV, Seq<char>> {
    match open_error(font) {
        Some(e) => Err(e),
        None => if tag == "head"@ {
            crate::head::spec_parse(font)
        } else if tag == "maxp"@ {
            crate::maxp::spec_parse(font)
        } else if tag == "OS/2"@ {
            crate::os2::spec_parse(font)
        } else if tag == "Table Directory"@ {
            crate::table_directory::spec_parse(font)
        } else if tag == "hhea"@ {
            crate::hhea::spec_parse(font)
        } else if tag == "hmtx"@ {
            crate::hmtx::spec_parse(font)
        } else if tag == "post"@ {
            crate::post::spec_parse(font)
        } else if tag == "name"@ {
            crate::name::spec_parse(font)
        } else if tag == "cmap"@ {
            crate::cmap::spec_parse(font)
        } else if tag == "avar"@ {
            crate::avar::spec_parse(font)
        } else if tag == "fvar"@ {
            crate::fvar::spec_parse(font)
        } else if tag == "MVAR"@ {
            crate::mvar::spec_parse(font)
        } else if tag == "STAT"@ {
            crate::stat::spec_parse(font)
        } else if tag == "CFF "@ {
            crate::cff::spec_parse(font)
        } else if tag == "CFF2"@ {
            crate::cff2::spec_parse(font)
        } else if tag == "glyf"@ {
            crate::glyf::spec_parse(font)
        } else if tag == "loca"@ {
            crate::loca::spec_parse(font)
        } else if tag == "vhea"@ {
            crate::vhea::spec_parse(font)
        } else if tag == "vmtx"@ {
            crate::vmtx::spec_parse(font)
        } else if tag == "VVAR"@ {
            crate::vvar::spec_parse(font)
        } else {
            Err(not_implemented(tag))
        },
    }
}

/// Describes the table `tag` of a font.
#[verifier::rlimit(80)]
pub fn parse_specific_table(font: &[u8], tag: &str) -> (r: Result<Json, String>)
    requires
        small_len(font@.len() as int),
    ensures
        parsed_view(r) == spec_parse_specific_table(font@, tag@),
{
    match crate::font::check_open(font) {
        Some(e) => return Err(e),
        None => {},
    }
    if same_text(tag, "head") {
        crate::head::parse(font)
    } else if same_text(tag, "maxp") {
        crate::maxp::parse(font)
    } else if same_text(tag, "OS/2") {
        crate::os2::parse(font)
    } else if same_text(tag, "Table Directory") {
        crate::table_directory::parse(font)
    } else if same_text(tag, "hhea") {
        crate::hhea::parse(font)
    } else if same_text(tag, "hmtx") {
        crate::hmtx::parse(font)
    } else if same_text(tag, "post") {
        crate::post::parse(font)
    } else if same_text(tag, "name") {
        crate::name::parse(font)
    } else if same_text(tag, "cmap") {
        crate::cmap::parse(font)
    } else if same_text(tag, "avar") {
        crate::avar::parse(font)
    } else if same_text(tag, "fvar") {
        crate::fvar::parse(font)
    } else if same_text(tag, "MVAR") {
        crate::mvar::parse(font)
    } else if same_text(tag, "STAT") {
        crate::stat::parse(font)
    } else if same_text(tag, "CFF ") {
        crate::cff::parse(font)
    } else if same_text(tag, "CFF2") {
        crate::cff2::parse(font)
    } else if same_text(tag, "glyf") {
        crate::glyf::parse(font)
    } else if same_text(tag, "loca") {
        crate::loca::parse(font)
    } else if same_text(tag, "vhea") {
        crate::vhea::parse(font)
    } else if same_text(tag, "vmtx") {
        crate::vmtx::parse(font)
    } else if same_text(tag, "VVAR") {
        crate::vvar::parse(font)
    } else {
        let mut m = text("Parsing for table '");
        m.append(tag);
        m.append("' is not implemented yet.");
        Err(m)
    }
}

} // verus!
