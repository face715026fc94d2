use vstd::prelude::*;
use vstd::slice::slice_subrange;
use crate::text::{dec, dec_string, hex_0x, hex_0x_string, labelled, labelled_string, opt_text, opt_string};
use crate::json::{
    jarr, jnum, jobj, jv_entries, jv_seq, new_arr, new_obj, parsed_field, parsed_field_sum,
    parsed_view, push_entry, push_item, sfield, sfield_sum, text, Json, JsonV,
};
use crate::reader::{be_u16, small_len, u16_at};
use vstd::string::StringExecFns;

verus! {

/// The meaning of a Unicode-platform encoding ID in the naming table.
pub open spec fn spec_unicode_encoding_name(encoding_id: u16) -> Option<Seq<char>> {
    match encoding_id {
        0 => Some("Unicode 1.0 semantics"@),
        1 => Some("Unicode 1.1 semantics"@),
        2 => Some("ISO/IEC 10646 semantics"@),
        3 => Some("Unicode 2.0 and onwards semantics, BMP only"@),
        4 => Some("Unicode 2.0 and onwards semantics, full repertoire"@),
        _ => None,
    }
}

pub fn unicode_encoding_name(encoding_id: u16) -> (r: Option<&'static str>)
    ensures
        opt_text(r) == spec_unicode_encoding_name(encoding_id),
{
    match encoding_id {
        0 => Some("Unicode 1.0 semantics"),
        1 => Some("Unicode 1.1 semantics"),
        2 => Some("ISO/IEC 10646 semantics"),
        3 => Some("Unicode 2.0 and onwards semantics, BMP only"),
        4 => Some("Unicode 2.0 and onwards semantics, full repertoire"),
        _ => None,
    }
}

/// The meaning of a Macintosh-platform encoding ID in the naming table.
pub open spec fn spec_macintosh_encoding_name(encoding_id: u16) -> Option<Seq<char>> {
    match encoding_id {
        0 => Some("Roman"@),
        1 => Some("Japanese"@),
        2 => Some("Chinese (Traditional)"@),
        3 => Some("Korean"@),
        4 => Some("Arabic"@),
        5 => Some("Hebrew"@),
        6 => Some("Greek"@),
        7 => Some("Russian"@),
        8 => Some("RSymbol"@),
        9 => Some("Devanagari"@),
        10 => Some("Gurmukhi"@),
        11 => Some("Gujarati"@),
        12 => Some("Odia"@),
        13 => Some("Bangla"@),
        14 => Some("Tamil"@),
        15 => Some("Telugu"@),
        16 => Some("Kannada"@),
        17 => Some("Malayalam"@),
        18 => Some("Sinhalese"@),
        19 => Some("Burmese"@),
        20 => Some("Khmer"@),
        21 => Some("Thai"@),
        22 => Some("Laotian"@),
        23 => Some("Georgian"@),
        24 => Some("Armenian"@),
        25 => Some("Chinese (Simplified)"@),
        26 => Some("Tibetan"@),
        27 => Some("Mongolian"@),
        28 => Some("Geez"@),
        29 => Some("Slavic"@),
        30 => Some("Vietnamese"@),
        31 => Some("Sindhi"@),
        32 => Some("Uninterpreted"@),
        _ => None,
    }
}

pub fn macintosh_encoding_name(encoding_id: u16) -> (r: Option<&'static str>)
    ensures
        opt_text(r) == spec_macintosh_encoding_name(encoding_id),
{
    match encoding_id {
        0 => Some("Roman"),
        1 => Some("Japanese"),
        2 => Some("Chinese (Traditional)"),
        3 => Some("Korean"),
        4 => Some("Arabic"),
        5 => Some("Hebrew"),
        6 => Some("Greek"),
        7 => Some("Russian"),
        8 => Some("RSymbol"),
        9 => Some("Devanagari"),
        10 => Some("Gurmukhi"),
        11 => Some("Gujarati"),
        12 => Some("Odia"),
        13 => Some("Bangla"),
        14 => Some("Tamil"),
        15 => Some("Telugu"),
        16 => Some("Kannada"),
        17 => Some("Malayalam"),
        18 => Some("Sinhalese"),
        19 => Some("Burmese"),
        20 => Some("Khmer"),
        21 => Some("Thai"),
        22 => Some("Laotian"),
        23 => Some("Georgian"),
        24 => Some("Armenian"),
        25 => Some("Chinese (Simplified)"),
        26 => Some("Tibetan"),
        27 => Some("Mongolian"),
        28 => Some("Geez"),
        29 => Some("Slavic"),
        30 => Some("Vietnamese"),
        31 => Some("Sindhi"),
        32 => Some("Uninterpreted"),
        _ => None,
    }
}

/// The meaning of a Windows-platform encoding ID in the naming table.
pub open spec fn spec_windows_encoding_name(encoding_id: u16) -> Option<Seq<char>> {
    match encoding_id {
        0 => Some("Symbol"@),
        1 => Some("Unicode BMP"@),
        2 => Some("ShiftJIS"@),
        3 => Some("PRC"@),
        4 => Some("Big5"@),
        5 => Some("Wansung"@),
        6 => Some("Johab"@),
        7 => Some("Reserved"@),
        8 => Some("Reserved"@),
        9 => Some("Reserved"@),
        10 => Some("Unicode full repertoire"@),
        _ => None,
    }
}

pub fn windows_encoding_name(encoding_id: u16) -> (r: Option<&'static str>)
    ensures
        opt_text(r) == spec_windows_encoding_name(encoding_id),
{
    match encoding_id {
        0 => Some("Symbol"),
        1 => Some("Unicode BMP"),
        2 => Some("ShiftJIS"),
        3 => Some("PRC"),
        4 => Some("Big5"),
        5 => Some("Wansung"),
        6 => Some("Johab"),
        7 => Some("Reserved"),
        8 => Some("Reserved"),
        9 => Some("Reserved"),
        10 => Some("Unicode full repertoire"),
        _ => None,
    }
}

/// The Macintosh language of a language ID.
pub open spec fn spec_mac_language_label(language_id: u16) -> Option<Seq<char>> {
    match language_id {
        0 => Some("English"@),
        1 => Some("French"@),
        2 => Some("German"@),
        3 => Some("Italian"@),
        4 => Some("Dutch"@),
        5 => Some("Swedish"@),
        6 => Some("Spanish"@),
        7 => Some("Danish"@),
        8 => Some("Portuguese"@),
        9 => Some("Norwegian"@),
        10 => Some("Hebrew"@),
        11 => Some("Japanese"@),
        12 => Some("Arabic"@),
        13 => Some("Finnish"@),
        14 => Some("Greek"@),
        15 => Some("Icelandic"@),
        16 => Some("Maltese"@),
        17 => Some("Turkish"@),
        18 => Some("Croatian"@),
        19 => Some("Chinese (Traditional)"@),
        20 => Some("Urdu"@),
        21 => Some("Hindi"@),
        22 => Some("Thai"@),
        23 => Some("Korean"@),
        24 => Some("Lithuanian"@),
        25 => Some("Polish"@),
        26 => Some("Hungarian"@),
        27 => Some("Estonian"@),
        28 => Some("Latvian"@),
        29 => Some("Sami"@),
        30 => Some("Faroese"@),
        31 => Some("Farsi/Persian"@),
        32 => Some("Russian"@),
        33 => Some("Chinese (Simplified)"@),
        34 => Some("Flemish"@),
        35 => Some("Irish Gaelic"@),
        36 => Some("Albanian"@),
        37 => Some("Romanian"@),
        38 => Some("Czech"@),
        39 => Some("Slovak"@),
        40 => Some("Slovenian"@),
        41 => Some("Yiddish"@),
        42 => Some("Serbian"@),
        43 => Some("Macedonian"@),
        44 => Some("Bulgarian"@),
        45 => Some("Ukrainian"@),
        46 => Some("Byelorussian"@),
        47 => Some("Uzbek"@),
        48 => Some("Kazakh"@),
        49 => Some("Azerbaijani (Cyrillic script)"@),
        50 => Some("Azerbaijani (Arabic script)"@),
        51 => Some("Armenian"@),
        52 => Some("Georgian"@),
        53 => Some("Moldavian"@),
        54 => Some("Kirghiz"@),
        55 => Some("Tajiki"@),
        56 => Some("Turkmen"@),
        57 => Some("Mongolian (Mongolian script)"@),
        58 => Some("Mongolian (Cyrillic script)"@),
        59 => Some("Pashto"@),
        60 => Some("Kurdish"@),
        61 => Some("Kashmiri"@),
        62 => Some("Sindhi"@),
        63 => Some("Tibetan"@),
        64 => Some("Nepali"@),
        65 => Some("Sanskrit"@),
        66 => Some("Marathi"@),
        67 => Some("Bengali"@),
        68 => Some("Assamese"@),
        69 => Some("Gujarati"@),
        70 => Some("Punjabi"@),
        71 => Some("Oriya"@),
        72 => Some("Malayalam"@),
        73 => Some("Kannada"@),
        74 => Some("Tamil"@),
        75 => Some("Telugu"@),
        76 => Some("Sinhalese"@),
        77 => Some("Burmese"@),
        78 => Some("Khmer"@),
        79 => Some("Lao"@),
        80 => Some("Vietnamese"@),
        81 => Some("Indonesian"@),
        82 => Some("Tagalog"@),
        83 => Some("Malay (Roman script)"@),
        84 => Some("Malay (Arabic script)"@),
        85 => Some("Amharic"@),
        86 => Some("Tigrinya"@),
        87 => Some("Galla"@),
        88 => Some("Somali"@),
        89 => Some("Swahili"@),
        90 => Some("Kinyarwanda/Ruanda"@),
        91 => Some("Rundi"@),
        92 => Some("Nyanja/Chewa"@),
        93 => Some("Malagasy"@),
        94 => Some("Esperanto"@),
        128 => Some("Welsh"@),
        129 => Some("Basque"@),
        130 => Some("Catalan"@),
        131 => Some("Latin"@),
        132 => Some("Quechua"@),
        133 => Some("Guarani"@),
        134 => Some("Aymara"@),
        135 => Some("Tatar"@),
        136 => Some("Uighur"@),
        137 => Some("Dzongkha"@),
        138 => Some("Javanese (Roman script)"@),
        139 => Some("Sundanese (Roman script)"@),
        140 => Some("Galician"@),
        141 => Some("Afrikaans"@),
        142 => Some("Breton"@),
        143 => Some("Inuktitut"@),
        144 => Some("Scottish Gaelic"@),
        145 => Some("Manx Gaelic"@),
        146 => Some("Irish Gaelic (with dot above)"@),
        147 => Some("Tongan"@),
        148 => Some("Greek (polytonic)"@),
        149 => Some("Greenlandic"@),
        150 => Some("Azerbaijani (Roman script)"@),
        _ => None,
    }
}

pub fn mac_language_label(language_id: u16) -> (r: Option<&'static str>)
    ensures
        opt_text(r) == spec_mac_language_label(language_id),
{
    match language_id {
        0 => Some("English"),
        1 => Some("French"),
        2 => Some("German"),
        3 => Some("Italian"),
        4 => Some("Dutch"),
        5 => Some("Swedish"),
        6 => Some("Spanish"),
        7 => Some("Danish"),
        8 => Some("Portuguese"),
        9 => Some("Norwegian"),
        10 => Some("Hebrew"),
        11 => Some("Japanese"),
        12 => Some("Arabic"),
        13 => Some("Finnish"),
        14 => Some("Greek"),
        15 => Some("Icelandic"),
        16 => Some("Maltese"),
        17 => Some("Turkish"),
        18 => Some("Croatian"),
        19 => Some("Chinese (Traditional)"),
        20 => Some("Urdu"),
        21 => Some("Hindi"),
        22 => Some("Thai"),
        23 => Some("Korean"),
        24 => Some("Lithuanian"),
        25 => Some("Polish"),
        26 => Some("Hungarian"),
        27 => Some("Estonian"),
        28 => Some("Latvian"),
        29 => Some("Sami"),
        30 => Some("Faroese"),
        31 => Some("Farsi/Persian"),
        32 => Some("Russian"),
        33 => Some("Chinese (Simplified)"),
        34 => Some("Flemish"),
        35 => Some("Irish Gaelic"),
        36 => Some("Albanian"),
        37 => Some("Romanian"),
        38 => Some("Czech"),
        39 => Some("Slovak"),
        40 => Some("Slovenian"),
        41 => Some("Yiddish"),
        42 => Some("Serbian"),
        43 => Some("Macedonian"),
        44 => Some("Bulgarian"),
        45 => Some("Ukrainian"),
        46 => Some("Byelorussian"),
        47 => Some("Uzbek"),
        48 => Some("Kazakh"),
        49 => Some("Azerbaijani (Cyrillic script)"),
        50 => Some("Azerbaijani (Arabic script)"),
        51 => Some("Armenian"),
        52 => Some("Georgian"),
        53 => Some("Moldavian"),
        54 => Some("Kirghiz"),
        55 => Some("Tajiki"),
        56 => Some("Turkmen"),
        57 => Some("Mongolian (Mongolian script)"),
        58 => Some("Mongolian (Cyrillic script)"),
        59 => Some("Pashto"),
        60 => Some("Kurdish"),
        61 => Some("Kashmiri"),
        62 => Some("Sindhi"),
        63 => Some("Tibetan"),
        64 => Some("Nepali"),
        65 => Some("Sanskrit"),
        66 => Some("Marathi"),
        67 => Some("Bengali"),
        68 => Some("Assamese"),
        69 => Some("Gujarati"),
        70 => Some("Punjabi"),
        71 => Some("Oriya"),
        72 => Some("Malayalam"),
        73 => Some("Kannada"),
        74 => Some("Tamil"),
        75 => Some("Telugu"),
        76 => Some("Sinhalese"),
        77 => Some("Burmese"),
        78 => Some("Khmer"),
        79 => Some("Lao"),
        80 => Some("Vietnamese"),
        81 => Some("Indonesian"),
        82 => Some("Tagalog"),
        83 => Some("Malay (Roman script)"),
        84 => Some("Malay (Arabic script)"),
        85 => Some("Amharic"),
        86 => Some("Tigrinya"),
        87 => Some("Galla"),
        88 => Some("Somali"),
        89 => Some("Swahili"),
        90 => Some("Kinyarwanda/Ruanda"),
        91 => Some("Rundi"),
        92 => Some("Nyanja/Chewa"),
        93 => Some("Malagasy"),
        94 => Some("Esperanto"),
        128 => Some("Welsh"),
        129 => Some("Basque"),
        130 => Some("Catalan"),
        131 => Some("Latin"),
        132 => Some("Quechua"),
        133 => Some("Guarani"),
        134 => Some("Aymara"),
        135 => Some("Tatar"),
        136 => Some("Uighur"),
        137 => Some("Dzongkha"),
        138 => Some("Javanese (Roman script)"),
        139 => Some("Sundanese (Roman script)"),
        140 => Some("Galician"),
        141 => Some("Afrikaans"),
        142 => Some("Breton"),
        143 => Some("Inuktitut"),
        144 => Some("Scottish Gaelic"),
        145 => Some("Manx Gaelic"),
        146 => Some("Irish Gaelic (with dot above)"),
        147 => Some("Tongan"),
        148 => Some("Greek (polytonic)"),
        149 => Some("Greenlandic"),
        150 => Some("Azerbaijani (Roman script)"),
        _ => None,
    }
}

/// The Windows language of a language ID, for the common ones.
pub open spec fn spec_windows_language_label(language_id: u16) -> Option<Seq<char>> {
    match language_id {
        0x0409 => Some("English (United States)"@),
        0x0809 => Some("English (United Kingdom)"@),
        0x0404 => Some("Chinese Traditional (Taiwan)"@),
        0x0804 => Some("Chinese Simplified (PRC)"@),
        0x0411 => Some("Japanese"@),
        0x0412 => Some("Korean"@),
        0x0407 => Some("German (Germany)"@),
        0x0408 => Some("Greek (Greece)"@),
        0x0419 => Some("Russian (Russia)"@),
        0x0410 => Some("Italian (Italy)"@),
        0x040C => Some("French (France)"@),
        0x0C0A => Some("Spanish (Spain)"@),
        _ => None,
    }
}

pub fn windows_language_label(language_id: u16) -> (r: Option<&'static str>)
    ensures
        opt_text(r) == spec_windows_language_label(language_id),
{
    match language_id {
        0x0409 => Some("English (United States)"),
        0x0809 => Some("English (United Kingdom)"),
        0x0404 => Some("Chinese Traditional (Taiwan)"),
        0x0804 => Some("Chinese Simplified (PRC)"),
        0x0411 => Some("Japanese"),
        0x0412 => Some("Korean"),
        0x0407 => Some("German (Germany)"),
        0x0408 => Some("Greek (Greece)"),
        0x0419 => Some("Russian (Russia)"),
        0x0410 => Some("Italian (Italy)"),
        0x040C => Some("French (France)"),
        0x0C0A => Some("Spanish (Spain)"),
        _ => None,
    }
}

/// The meaning of a name ID.
pub open spec fn spec_name_id_meaning(name_id: u16) -> Option<Seq<char>> {
    match name_id {
        0 => Some("Copyright notice"@),
        1 => Some("Font Family name"@),
        2 => Some("Font Subfamily name"@),
        3 => Some("Unique font identifier"@),
        4 => Some("Full font name"@),
        5 => Some("Version string"@),
        6 => Some("PostScript name"@),
        7 => Some("Trademark"@),
        8 => Some("Manufacturer name"@),
        9 => Some("Designer"@),
        10 => Some("Description"@),
        11 => Some("Vendor URL"@),
        12 => Some("Designer URL"@),
        13 => Some("License description"@),
        14 => Some("License info URL"@),
        16 => Some("Typographic Family name"@),
        17 => Some("Typographic Subfamily name"@),
        18 => Some("Compatible Full name"@),
        19 => Some("Sample text"@),
        20 => Some("PostScript CID findfont name"@),
        21 => Some("WWS Family name"@),
        22 => Some("WWS Subfamily name"@),
        23 => Some("Light background palette"@),
        24 => Some("Dark background palette"@),
        25 => Some("Variations PostScript name prefix"@),
        _ => None,
    }
}

pub fn name_id_meaning(name_id: u16) -> (r: Option<&'static str>)
    ensures
        opt_text(r) == spec_name_id_meaning(name_id),
{
    match name_id {
        0 => Some("Copyright notice"),
        1 => Some("Font Family name"),
        2 => Some("Font Subfamily name"),
        3 => Some("Unique font identifier"),
        4 => Some("Full font name"),
        5 => Some("Version string"),
        6 => Some("PostScript name"),
        7 => Some("Trademark"),
        8 => Some("Manufacturer name"),
        9 => Some("Designer"),
        10 => Some("Description"),
        11 => Some("Vendor URL"),
        12 => Some("Designer URL"),
        13 => Some("License description"),
        14 => Some("License info URL"),
        16 => Some("Typographic Family name"),
        17 => Some("Typographic Subfamily name"),
        18 => Some("Compatible Full name"),
        19 => Some("Sample text"),
        20 => Some("PostScript CID findfont name"),
        21 => Some("WWS Family name"),
        22 => Some("WWS Subfamily name"),
        23 => Some("Light background palette"),
        24 => Some("Dark background palette"),
        25 => Some("Variations PostScript name prefix"),
        _ => None,
    }
}

pub open spec fn spec_platform_name(platform_id: u16) -> Option<Seq<char>> {
    match platform_id {
        0 => Some("Unicode"@),
        1 => Some("Macintosh"@),
        3 => Some("Windows"@),
        _ => None,
    }
}

pub open spec fn spec_platform_label(platform_id: u16) -> Option<Seq<char>> {
    match spec_platform_name(platform_id) {
        Some(n) => Some(labelled(dec(platform_id as nat, 1), n)),
        None => None,
    }
}

/// The platform ID with its name, such as `3 (Windows)`, for the platforms
/// that naming tables use.
pub fn platform_label(platform_id: u16) -> (r: Option<String>)
    ensures
        opt_string(r) == spec_platform_label(platform_id),
{
    let name: Option<&str> = match platform_id {
        0 => Some("Unicode"),
        1 => Some("Macintosh"),
        3 => Some("Windows"),
        _ => None,
    };
    match name {
        Some(n) => Some(labelled_string(dec_string(platform_id as u64, 1), n)),
        None => None,
    }
}

pub open spec fn spec_encoding_name(platform_id: u16, encoding_id: u16) -> Option<Seq<char>> {
    match platform_id {
        0 => spec_unicode_encoding_name(encoding_id),
        1 => spec_macintosh_encoding_name(encoding_id),
        3 => spec_windows_encoding_name(encoding_id),
        _ => None,
    }
}

pub open spec fn spec_encoding_label(platform_id: u16, encoding_id: u16) -> Option<Seq<char>> {
    match spec_encoding_name(platform_id, encoding_id) {
        Some(n) => Some(labelled(dec(encoding_id as nat, 1), n)),
        None => None,
    }
}

/// The naming table labels encoding IDs as the character map does: the same
/// labels under the Macintosh and Windows platforms, the first five under
/// the Unicode platform, and none under other platforms.
pub proof fn encoding_labels_agree_with_cmap(platform_id: u16, encoding_id: u16)
    ensures
        spec_encoding_label(platform_id, encoding_id) == (if platform_id == 0 {
            if encoding_id <= 4 { crate::cmap::spec_encoding_label(0, encoding_id) } else { None }
        } else if platform_id == 1 || platform_id == 3 {
            crate::cmap::spec_encoding_label(platform_id, encoding_id)
        } else {
            None
        }),
{
}

/// The encoding ID with its meaning, such as `1 (Unicode BMP)`.
pub fn encoding_label(platform_id: u16, encoding_id: u16) -> (r: Option<String>)
    ensures
        opt_string(r) == spec_encoding_label(platform_id, encoding_id),
{
    let name = match platform_id {
        0 => unicode_encoding_name(encoding_id),
        1 => macintosh_encoding_name(encoding_id),
        3 => windows_encoding_name(encoding_id),
        _ => None,
    };
    match name {
        Some(n) => Some(labelled_string(dec_string(encoding_id as u64, 1), n)),
        None => None,
    }
}

/// The meaning of a language ID: a language tag of the table for IDs from
/// 0x8000 on, else a Macintosh or Windows language.
pub open spec fn spec_language_label(
    platform_id: u16,
    language_id: u16,
    tags: Seq<Seq<char>>,
) -> Option<Seq<char>> {
    if language_id >= 0x8000 {
        let index = language_id - 0x8000;
        if index < tags.len() {
            Some(
                labelled(
                    hex_0x(language_id as nat, 4),
                    "Language tag "@ + dec(index as nat, 1) + ": "@ + tags[index],
                ),
            )
        } else {
            Some(labelled(hex_0x(language_id as nat, 4), "Language tag "@ + dec(index as nat, 1)))
        }
    } else {
        let name = match platform_id {
            1 => spec_mac_language_label(language_id),
            3 => spec_windows_language_label(language_id),
            _ => None,
        };
        match name {
            Some(n) => Some(labelled(hex_0x(language_id as nat, 4), n)),
            None => None,
        }
    }
}

pub open spec fn strings_view(v: Seq<String>) -> Seq<Seq<char>> {
    v.map_values(|s: String| s@)
}

pub fn language_label(platform_id: u16, language_id: u16, decoded_lang_tags: &Vec<String>) -> (r:
    Option<String>)
    ensures
        opt_string(r) == spec_language_label(
            platform_id,
            language_id,
            strings_view(decoded_lang_tags@),
        ),
{
    if language_id >= 0x8000 {
        let index = language_id - 0x8000;
        let mut label = text("Language tag ");
        let d = dec_string(index as u64, 1);
        label.append(d.as_str());
        if (index as usize) < decoded_lang_tags.len() {
            label.append(": ");
            label.append(decoded_lang_tags[index as usize].as_str());
        }
        let mut s = hex_0x_string(language_id as u64, 4);
        s.append(" (");
        s.append(label.as_str());
        s.append(")");
        return Some(s);
    }
    let name = match platform_id {
        1 => mac_language_label(language_id),
        3 => windows_language_label(language_id),
        _ => None,
    };
    match name {
        Some(n) => Some(labelled_string(hex_0x_string(language_id as u64, 4), n)),
        None => None,
    }
}

pub open spec fn spec_name_id_label(name_id: u16) -> Option<Seq<char>> {
    match spec_name_id_meaning(name_id) {
        Some(n) => Some(labelled(dec(name_id as nat, 1), n)),
        None => None,
    }
}

/// The name ID with its meaning, such as `1 (Font Family name)`.
pub fn name_id_label(name_id: u16) -> (r: Option<String>)
    ensures
        opt_string(r) == spec_name_id_label(name_id),
{
    match name_id_meaning(name_id) {
        Some(n) => Some(labelled_string(dec_string(name_id as u64, 1), n)),
        None => None,
    }
}

/// The number of zero bytes at even positions below `n`.
pub open spec fn even_zeroes(s: Seq<u8>, n: int) -> nat
    decreases n,
{
    if n <= 0 {
        0
    } else {
        even_zeroes(s, n - 1) + if (n - 1) % 2 == 0 && s[n - 1] == 0 { 1nat } else { 0nat }
    }
}

/// Whether name bytes are to be read as UTF-16BE: the platform says so, or
/// at least half of the high bytes are zero.
pub open spec fn spec_should_decode_as_utf16be(
    platform_id: u16,
    encoding_id: u16,
    raw: Seq<u8>,
) -> bool {
    if raw.len() < 2 || raw.len() % 2 != 0 {
        false
    } else if platform_id == 0 || (platform_id == 3 && (encoding_id == 0 || encoding_id == 1
        || encoding_id == 10)) {
        true
    } else {
        even_zeroes(raw, raw.len() as int) * 2 >= raw.len() / 2
    }
}

pub fn should_decode_as_utf16be(platform_id: u16, encoding_id: u16, raw: &[u8]) -> (r: bool)
    ensures
        r == spec_should_decode_as_utf16be(platform_id, encoding_id, raw@),
{
    if raw.len() < 2 || raw.len() % 2 != 0 {
        return false;
    }
    if platform_id == 0 || (platform_id == 3 && (encoding_id == 0 || encoding_id == 1
        || encoding_id == 10)) {
        return true;
    }
    let mut count: usize = 0;
    let mut i: usize = 0;
    while i < raw.len()
        invariant
            0 <= i <= raw@.len(),
            count == even_zeroes(raw@, i as int),
            count * 2 <= i + 1,
        decreases raw@.len() - i,
    {
        if i % 2 == 0 && raw[i] == 0 {
            count = count + 1;
        }
        i = i + 1;
    }
    let pairs = raw.len() / 2;
    count * 2 >= pairs
}

} // verus!

verus! {

/// `NameRecord::string` of read-fonts, shown as text (`NameString`'s
/// `Display`): what read-fonts decodes from a record's stored bytes for its
/// platform and encoding (UTF-16BE, Mac Roman, or nothing for the others).
pub uninterp spec fn name_string_text(platform_id: u16, encoding_id: u16, raw: Seq<u8>) -> Seq<char>;

/// read-fonts' text of a name record whose stored bytes are `raw`: the
/// record is made with the given platform and encoding and with the bytes at
/// offset 0 of the string data, and `NameRecord::string` is shown with
/// `Display`. What it decodes is named, not stated.
#[verifier::external_body]
pub fn read_name_string(platform_id: u16, encoding_id: u16, raw: &[u8]) -> (r: String)
    requires
        raw@.len() <= 0xFFFF,
    ensures
        r@ == name_string_text(platform_id, encoding_id, raw@),
{
    let record = read_fonts::tables::name::NameRecord {
        platform_id: platform_id.into(),
        encoding_id: encoding_id.into(),
        language_id: 0u16.into(),
        name_id: read_fonts::types::NameId::new(0).into(),
        length: (raw.len() as u16).into(),
        string_offset: read_fonts::types::Offset16::new(0).into(),
    };
    match record.string(read_fonts::FontData::new(raw)) {
        Ok(s) => s.to_string(),
        Err(e) => e.to_string(),
    }
}

/// The legacy encodings that name strings fall back to.
#[derive(Clone, Copy)]
pub enum NameCodec {
    Utf16Be,
    Macintosh,
    ShiftJis,
    Big5,
    EucKr,
    Gbk,
    Windows1252,
}

/// What `encoding_rs::Encoding::decode` gives for the bytes in the encoding.
pub uninterp spec fn codec_decoded(codec: NameCodec, raw: Seq<u8>) -> Seq<char>;

/// `encoding_rs::Encoding::decode` with the encoding that `codec` stands for
/// (with its BOM sniffing and replacement of malformed sequences). Its text
/// is named, not stated.
#[verifier::external_body]
pub fn decode_with_encoding(codec: NameCodec, raw: &[u8]) -> (r: String)
    ensures
        r@ == codec_decoded(codec, raw@),
{
    let encoding = match codec {
        NameCodec::Utf16Be => encoding_rs::UTF_16BE,
        NameCodec::Macintosh => encoding_rs::MACINTOSH,
        NameCodec::ShiftJis => encoding_rs::SHIFT_JIS,
        NameCodec::Big5 => encoding_rs::BIG5,
        NameCodec::EucKr => encoding_rs::EUC_KR,
        NameCodec::Gbk => encoding_rs::GBK,
        NameCodec::Windows1252 => encoding_rs::WINDOWS_1252,
    };
    let (decoded, _, _) = encoding.decode(raw);
    decoded.into_owned()
}

/// The legacy encoding of a platform and encoding ID: Macintosh and Windows
/// CJK encodings by their IDs, else Windows-1252.
pub open spec fn fallback_codec(platform_id: u16, encoding_id: u16) -> NameCodec {
    if platform_id == 1 && encoding_id == 0 {
        NameCodec::Macintosh
    } else if (platform_id == 1 && encoding_id == 1) || (platform_id == 3 && encoding_id == 2) {
        NameCodec::ShiftJis
    } else if (platform_id == 1 && encoding_id == 2) || (platform_id == 3 && encoding_id == 4) {
        NameCodec::Big5
    } else if (platform_id == 1 && encoding_id == 3) || (platform_id == 3 && encoding_id == 5) {
        NameCodec::EucKr
    } else if (platform_id == 1 && encoding_id == 25) || (platform_id == 3 && encoding_id == 3) {
        NameCodec::Gbk
    } else {
        NameCodec::Windows1252
    }
}

/// How name bytes that read-fonts does not decode are read: as UTF-16BE
/// where that seems right, else in the platform's legacy encoding.
pub open spec fn spec_decode_fallback(platform_id: u16, encoding_id: u16, raw: Seq<u8>) -> Seq<char> {
    if spec_should_decode_as_utf16be(platform_id, encoding_id, raw) {
        codec_decoded(NameCodec::Utf16Be, raw)
    } else {
        codec_decoded(fallback_codec(platform_id, encoding_id), raw)
    }
}

pub fn decode_name_string_fallback(platform_id: u16, encoding_id: u16, raw: &[u8]) -> (r: String)
    ensures
        r@ == spec_decode_fallback(platform_id, encoding_id, raw@),
{
    if should_decode_as_utf16be(platform_id, encoding_id, raw) {
        return decode_with_encoding(NameCodec::Utf16Be, raw);
    }
    let codec = if platform_id == 1 && encoding_id == 0 {
        NameCodec::Macintosh
    } else if (platform_id == 1 && encoding_id == 1) || (platform_id == 3 && encoding_id == 2) {
        NameCodec::ShiftJis
    } else if (platform_id == 1 && encoding_id == 2) || (platform_id == 3 && encoding_id == 4) {
        NameCodec::Big5
    } else if (platform_id == 1 && encoding_id == 3) || (platform_id == 3 && encoding_id == 5) {
        NameCodec::EucKr
    } else if (platform_id == 1 && encoding_id == 25) || (platform_id == 3 && encoding_id == 3) {
        NameCodec::Gbk
    } else {
        NameCodec::Windows1252
    };
    decode_with_encoding(codec, raw)
}

/// The bytes `length` bytes long at `offset` in the string data, if they lie
/// within it.
pub open spec fn stored_bytes(sd: Seq<u8>, offset: int, length: int) -> Option<Seq<u8>> {
    if offset + length <= sd.len() {
        Some(sd.subrange(offset, offset + length))
    } else {
        None
    }
}

/// The text shown for bytes that do not lie within the string data.
pub open spec fn out_of_bounds_text() -> Seq<char> {
    "<An offset was out of bounds>"@
}

/// The text of a name record: read-fonts' decoding, or where that gives
/// nothing for bytes that are there, the fallback decoding.
pub open spec fn spec_decode_name_string(
    platform_id: u16,
    encoding_id: u16,
    sd: Seq<u8>,
    offset: int,
    length: int,
) -> Seq<char> {
    match stored_bytes(sd, offset, length) {
        None => out_of_bounds_text(),
        Some(raw) => {
            let decoded = name_string_text(platform_id, encoding_id, raw);
            if decoded.len() > 0 || raw.len() == 0 {
                decoded
            } else {
                spec_decode_fallback(platform_id, encoding_id, raw)
            }
        },
    }
}

/// Decodes the string of a name record.
pub fn decode_name_string(platform_id: u16, encoding_id: u16, sd: &[u8], offset: u16, length: u16) -> (r: String)
    ensures
        r@ == spec_decode_name_string(platform_id, encoding_id, sd@, offset as int, length as int),
{
    let start = offset as usize;
    let end = start + length as usize;
    if end > sd.len() {
        return text("<An offset was out of bounds>");
    }
    let raw = vstd::slice::slice_subrange(sd, start, end);
    let decoded = read_name_string(platform_id, encoding_id, raw);
    if decoded.as_str().unicode_len() > 0 || raw.len() == 0 {
        return decoded;
    }
    decode_name_string_fallback(platform_id, encoding_id, raw)
}

/// The text of a language tag (read-fonts reads tags as UTF-16BE, the
/// decoding of the Unicode platform).
pub open spec fn spec_lang_tag_text(sd: Seq<u8>, offset: int, length: int) -> Seq<char> {
    match stored_bytes(sd, offset, length) {
        None => out_of_bounds_text(),
        Some(raw) => name_string_text(0, 0, raw),
    }
}

fn lang_tag_string(sd: &[u8], offset: u16, length: u16) -> (r: String)
    ensures
        r@ == spec_lang_tag_text(sd@, offset as int, length as int),
{
    let start = offset as usize;
    let end = start + length as usize;
    if end > sd.len() {
        return text("<An offset was out of bounds>");
    }
    let raw = vstd::slice::slice_subrange(sd, start, end);
    read_name_string(0, 0, raw)
}

} // verus!

verus! {

/// A described field with the summary that a label gives, where there is one.
pub open spec fn opt_field(ty: Seq<char>, value: JsonV, offset: int, length: int, summary: Option<Seq<char>>) -> JsonV {
    match summary {
        Some(s) => sfield_sum(ty, value, offset, length, s),
        None => sfield(ty, value, offset, length),
    }
}

pub fn field_with_summary(ty: &str, value: Json, offset: usize, length: usize, summary: Option<String>) -> (r: Json)
    ensures
        r.jv() == opt_field(ty@, value.jv(), offset as int, length as int, opt_string(summary)),
{
    match summary {
        Some(s) => parsed_field_sum(ty, value, offset, length, s),
        None => parsed_field(ty, value, offset, length),
    }
}

/// The string storage of a naming table: the bytes from its storage offset
/// on, or none where that offset lies past the table.
pub open spec fn spec_string_data(t: Seq<u8>) -> Seq<u8> {
    if u16_at(t, 4) <= t.len() {
        t.subrange(u16_at(t, 4), t.len() as int)
    } else {
        seq![]
    }
}

/// The number of name records read: the stated count, or none where the
/// records run past the table.
pub open spec fn records_read(t: Seq<u8>) -> int {
    if 6 + 12 * u16_at(t, 2) <= t.len() { u16_at(t, 2) } else { 0 }
}

/// Where the language-tag count stands: after all the stated records.
pub open spec fn lang_count_pos(t: Seq<u8>) -> int {
    6 + 12 * u16_at(t, 2)
}

/// The language-tag count of a table of version 1 or later, or 0.
pub open spec fn lang_count(t: Seq<u8>) -> int {
    if u16_at(t, 0) >= 1 && lang_count_pos(t) + 2 <= t.len() {
        u16_at(t, lang_count_pos(t))
    } else {
        0
    }
}

/// The language-tag records are there and lie within the table.
pub open spec fn has_lang_records(t: Seq<u8>) -> bool {
    u16_at(t, 0) >= 1 && lang_count(t) > 0 && lang_count_pos(t) + 2 + 4 * lang_count(t) <= t.len()
}

pub open spec fn lang_record_pos(t: Seq<u8>, j: int) -> int {
    lang_count_pos(t) + 2 + 4 * j
}

/// The texts of the language tags.
pub open spec fn spec_lang_tags(t: Seq<u8>) -> Seq<Seq<char>> {
    if has_lang_records(t) {
        Seq::new(
            lang_count(t) as nat,
            |j: int|
                spec_lang_tag_text(
                    spec_string_data(t),
                    u16_at(t, lang_record_pos(t, j) + 2),
                    u16_at(t, lang_record_pos(t, j)),
                ),
        )
    } else {
        seq![]
    }
}

/// Name record `i`, described with the labels of its IDs and its text.
pub open spec fn name_record_value(t: Seq<u8>, i: int, tags: Seq<Seq<char>>) -> JsonV {
    let b = 6 + 12 * i;
    let p = u16_at(t, b) as u16;
    let e = u16_at(t, b + 2) as u16;
    let lang = u16_at(t, b + 4) as u16;
    let nid = u16_at(t, b + 6) as u16;
    let length = u16_at(t, b + 8);
    let offset = u16_at(t, b + 10);
    JsonV::Obj(
        seq![
            ("platformID"@, opt_field("uint16"@, JsonV::Num(p as int), b, 2, spec_platform_label(p))),
            ("encodingID"@, opt_field("uint16"@, JsonV::Num(e as int), b + 2, 2, spec_encoding_label(p, e))),
            ("languageID"@, opt_field("uint16"@, JsonV::Num(lang as int), b + 4, 2, spec_language_label(p, lang, tags))),
            ("nameID"@, opt_field("NameId"@, JsonV::Num(nid as int), b + 6, 2, spec_name_id_label(nid))),
            ("length"@, sfield("uint16"@, JsonV::Num(length), b + 8, 2)),
            ("stringOffset"@, sfield("Offset16"@, JsonV::Num(offset), b + 10, 2)),
            (
                "string"@,
                sfield(
                    "NameString"@,
                    JsonV::Str(spec_decode_name_string(p, e, spec_string_data(t), offset, length)),
                    u16_at(t, 4) + offset,
                    length,
                ),
            ),
        ],
    )
}

/// A name record shows its six numbers in the order they are stored, each
/// read at its own offset in the record's 12 bytes: platformID at 0,
/// encodingID at 2, languageID at 4, nameID at 6, length at 8 and the string
/// offset at 10; its text is read from the string storage at that offset.
pub proof fn name_record_fields_read_their_bytes(t: Seq<u8>, i: int, tags: Seq<Seq<char>>)
    ensures
        ({
            let b = 6 + 12 * i;
            let e = name_record_value(t, i, tags)->Obj_0;
            let names = seq!["platformID"@, "encodingID"@, "languageID"@, "nameID"@, "length"@, "stringOffset"@];
            &&& e.len() == 7
            &&& forall|k: int| 0 <= k < 6 ==> {
                &&& (#[trigger] e[k]).0 == names[k]
                &&& e[k].1->Obj_0[1].1 == JsonV::Num(u16_at(t, b + 2 * k))
                &&& e[k].1->Obj_0[2].1 == JsonV::Num(b + 2 * k)
            }
            &&& e[6].0 == "string"@
            &&& e[6].1->Obj_0[2].1 == JsonV::Num(u16_at(t, 4) + u16_at(t, b + 10))
            &&& e[6].1->Obj_0[3].1 == JsonV::Num(u16_at(t, b + 8))
        }),
{
    let b = 6 + 12 * i;
    let e = name_record_value(t, i, tags)->Obj_0;
    let names = seq!["platformID"@, "encodingID"@, "languageID"@, "nameID"@, "length"@, "stringOffset"@];
    assert forall|k: int| 0 <= k < 6 implies {
        &&& (#[trigger] e[k]).0 == names[k]
        &&& e[k].1->Obj_0[1].1 == JsonV::Num(u16_at(t, b + 2 * k))
        &&& e[k].1->Obj_0[2].1 == JsonV::Num(b + 2 * k)
    } by {
        assert(0 <= u16_at(t, b + 2 * k) < 0x10000);
        if k == 0 {
        } else if k == 1 {
        } else if k == 2 {
        } else if k == 3 {
        } else if k == 4 {
        } else {
        }
    }
}

/// Language-tag record `j`, shown after the `k` name records read.
pub open spec fn lang_record_value(t: Seq<u8>, j: int, k: int) -> JsonV {
    let d = 6 + 12 * k + 2 + 4 * j;
    let pos = lang_record_pos(t, j);
    let length = u16_at(t, pos);
    let offset = u16_at(t, pos + 2);
    JsonV::Obj(
        seq![
            ("length"@, sfield("uint16"@, JsonV::Num(length), d, 2)),
            ("langTagOffset"@, sfield("Offset16"@, JsonV::Num(offset), d + 2, 2)),
            (
                "languageTag"@,
                sfield(
                    "NameString"@,
                    JsonV::Str(spec_lang_tag_text(spec_string_data(t), offset, length)),
                    u16_at(t, 4) + offset,
                    length,
                ),
            ),
        ],
    )
}

/// The naming table, described: its header, each name record with the
/// labels of its IDs and its decoded text, and in version 1 the language
/// tags. Tables shorter than the header are refused.
pub open spec fn spec_parse_table(t: Seq<u8>) -> Result<JsonV, Seq<char>> {
    if t.len() < 6 {
        Err(crate::font::out_of_bounds())
    } else {
        let k = records_read(t);
        let tags = spec_lang_tags(t);
        let lang_records: Seq<JsonV> = if has_lang_records(t) {
            Seq::new(lang_count(t) as nat, |j: int| lang_record_value(t, j, k))
        } else {
            seq![]
        };
        Ok(
            JsonV::Obj(
                seq![
                    ("version"@, sfield("uint16"@, JsonV::Num(u16_at(t, 0)), 0, 2)),
                    ("count"@, sfield("uint16"@, JsonV::Num(u16_at(t, 2)), 2, 2)),
                    ("storageOffset"@, sfield("uint16"@, JsonV::Num(u16_at(t, 4)), 4, 2)),
                    (
                        "nameRecord"@,
                        sfield(
                            "NameRecord[]"@,
                            JsonV::Arr(Seq::new(k as nat, |i: int| name_record_value(t, i, tags))),
                            6,
                            12 * k,
                        ),
                    ),
                ] + if u16_at(t, 0) == 1 {
                    seq![
                        ("langTagCount"@, sfield("uint16"@, JsonV::Num(lang_count(t)), 6 + 12 * k, 2)),
                        (
                            "langTagRecord"@,
                            sfield(
                                "LangTagRecord[]"@,
                                JsonV::Arr(lang_records),
                                6 + 12 * k + 2,
                                4 * lang_count(t),
                            ),
                        ),
                    ]
                } else {
                    seq![]
                },
            ),
        )
    }
}

fn string_data(t: &[u8]) -> (r: &[u8])
    requires
        t@.len() >= 6,
    ensures
        r@ == spec_string_data(t@),
{
    let so = be_u16(t, 4) as usize;
    if so <= t.len() {
        slice_subrange(t, so, t.len())
    } else {
        assert(t@.subrange(0, 0) =~= Seq::<u8>::empty());
        slice_subrange(t, 0, 0)
    }
}

fn decoded_lang_tags(t: &[u8], sd: &[u8]) -> (r: Vec<String>)
    requires
        t@.len() >= 6,
        small_len(t@.len() as int),
        sd@ == spec_string_data(t@),
    ensures
        strings_view(r@) == spec_lang_tags(t@),
{
    let mut tags: Vec<String> = Vec::new();
    let pos = 6 + 12 * (be_u16(t, 2) as usize);
    if !(be_u16(t, 0) >= 1 && pos + 2 <= t.len()) {
        assert(strings_view(tags@) =~= spec_lang_tags(t@));
        return tags;
    }
    let n = be_u16(t, pos) as usize;
    if !(n > 0 && pos + 2 + 4 * n <= t.len()) {
        assert(strings_view(tags@) =~= spec_lang_tags(t@));
        return tags;
    }
    let ghost want = spec_lang_tags(t@);
    let mut j: usize = 0;
    while j < n
        invariant
            j <= n,
            has_lang_records(t@),
            n == lang_count(t@),
            pos == lang_count_pos(t@),
            pos + 2 + 4 * n <= t@.len(),
            small_len(t@.len() as int),
            sd@ == spec_string_data(t@),
            want == spec_lang_tags(t@),
            strings_view(tags@) == want.take(j as int),
        decreases n - j,
    {
        let rp = pos + 2 + 4 * j;
        let s = lang_tag_string(sd, be_u16(t, rp + 2), be_u16(t, rp));
        let ghost prev = tags@;
        tags.push(s);
        assert(strings_view(tags@) =~= strings_view(prev).push(s@));
        assert(want.take(j + 1) =~= want.take(j as int).push(want[j as int]));
        j = j + 1;
    }
    assert(want.take(n as int) =~= want);
    tags
}

fn parse_name_record(t: &[u8], i: usize, sd: &[u8], tags: &Vec<String>) -> (r: Json)
    requires
        6 + 12 * i + 12 <= t@.len(),
        small_len(t@.len() as int),
        sd@ == spec_string_data(t@),
    ensures
        r.jv() == name_record_value(t@, i as int, strings_view(tags@)),
{
    let b = 6 + 12 * i;
    let p = be_u16(t, b);
    let e = be_u16(t, b + 2);
    let lang = be_u16(t, b + 4);
    let nid = be_u16(t, b + 6);
    let length = be_u16(t, b + 8);
    let offset = be_u16(t, b + 10);
    let so = be_u16(t, 4) as usize;
    let mut o = new_obj();
    push_entry(&mut o, "platformID", field_with_summary("uint16", jnum(p as u64), b, 2, platform_label(p)));
    push_entry(&mut o, "encodingID", field_with_summary("uint16", jnum(e as u64), b + 2, 2, encoding_label(p, e)));
    push_entry(&mut o, "languageID", field_with_summary("uint16", jnum(lang as u64), b + 4, 2, language_label(p, lang, tags)));
    push_entry(&mut o, "nameID", field_with_summary("NameId", jnum(nid as u64), b + 6, 2, name_id_label(nid)));
    push_entry(&mut o, "length", parsed_field("uint16", jnum(length as u64), b + 8, 2));
    push_entry(&mut o, "stringOffset", parsed_field("Offset16", jnum(offset as u64), b + 10, 2));
    let s = decode_name_string(p, e, sd, offset, length);
    push_entry(&mut o, "string", parsed_field("NameString", Json::Str(s), so + offset as usize, length as usize));
    assert(jv_entries(o@) =~= name_record_value(t@, i as int, strings_view(tags@))->Obj_0);
    jobj(o)
}

fn parse_lang_tag_record(t: &[u8], j: usize, k: usize, sd: &[u8]) -> (r: Json)
    requires
        has_lang_records(t@),
        j < lang_count(t@),
        k <= u16_at(t@, 2),
        small_len(t@.len() as int),
        sd@ == spec_string_data(t@),
    ensures
        r.jv() == lang_record_value(t@, j as int, k as int),
{
    let pos = 6 + 12 * (be_u16(t, 2) as usize) + 2 + 4 * j;
    let d = 6 + 12 * k + 2 + 4 * j;
    let length = be_u16(t, pos);
    let offset = be_u16(t, pos + 2);
    let so = be_u16(t, 4) as usize;
    let mut o = new_obj();
    push_entry(&mut o, "length", parsed_field("uint16", jnum(length as u64), d, 2));
    push_entry(&mut o, "langTagOffset", parsed_field("Offset16", jnum(offset as u64), d + 2, 2));
    let s = lang_tag_string(sd, offset, length);
    push_entry(&mut o, "languageTag", parsed_field("NameString", Json::Str(s), so + offset as usize, length as usize));
    assert(jv_entries(o@) =~= lang_record_value(t@, j as int, k as int)->Obj_0);
    jobj(o)
}

/// The naming table, described.
pub fn parse_table(t: &[u8]) -> (r: Result<Json, String>)
    requires
        small_len(t@.len() as int),
    ensures
        parsed_view(r) == spec_parse_table(t@),
{
    if t.len() < 6 {
        return Err(text("An offset was out of bounds"));
    }
    let sd = string_data(t);
    let tags = decoded_lang_tags(t, sd);
    let version = be_u16(t, 0);
    let count = be_u16(t, 2) as usize;
    let k: usize = if 6 + 12 * count <= t.len() { count } else { 0 };
    let ghost tv = strings_view(tags@);
    let ghost want = Seq::new(k as nat, |i: int| name_record_value(t@, i, tv));
    let mut records = new_arr();
    let mut i: usize = 0;
    while i < k
        invariant
            i <= k,
            k <= count,
            6 + 12 * k <= t@.len(),
            small_len(t@.len() as int),
            sd@ == spec_string_data(t@),
            tv == strings_view(tags@),
            want == Seq::new(k as nat, |i: int| name_record_value(t@, i, tv)),
            jv_seq(records@) == want.take(i as int),
        decreases k - i,
    {
        push_item(&mut records, parse_name_record(t, i, sd, &tags));
        assert(want.take(i + 1) =~= want.take(i as int).push(want[i as int]));
        i = i + 1;
    }
    assert(want.take(k as int) =~= want);
    let mut o = new_obj();
    push_entry(&mut o, "version", parsed_field("uint16", jnum(version as u64), 0, 2));
    push_entry(&mut o, "count", parsed_field("uint16", jnum(count as u64), 2, 2));
    push_entry(&mut o, "storageOffset", parsed_field("uint16", jnum(be_u16(t, 4) as u64), 4, 2));
    push_entry(&mut o, "nameRecord", parsed_field("NameRecord[]", jarr(records), 6, 12 * k));
    if version == 1 {
        let pos = 6 + 12 * count;
        let n: usize = if pos + 2 <= t.len() { be_u16(t, pos) as usize } else { 0 };
        assert(n == lang_count(t@));
        push_entry(&mut o, "langTagCount", parsed_field("uint16", jnum(n as u64), 6 + 12 * k, 2));
        let ghost want_l: Seq<JsonV> = if has_lang_records(t@) {
            Seq::new(n as nat, |j: int| lang_record_value(t@, j, k as int))
        } else {
            seq![]
        };
        let mut lang_records = new_arr();
        if n > 0 && pos + 2 + 4 * n <= t.len() {
            let mut j: usize = 0;
            while j < n
                invariant
                    j <= n,
                    has_lang_records(t@),
                    n == lang_count(t@),
                    k <= u16_at(t@, 2),
                    small_len(t@.len() as int),
                    sd@ == spec_string_data(t@),
                    want_l == Seq::new(n as nat, |j: int| lang_record_value(t@, j, k as int)),
                    jv_seq(lang_records@) == want_l.take(j as int),
                decreases n - j,
            {
                push_item(&mut lang_records, parse_lang_tag_record(t, j, k, sd));
                assert(want_l.take(j + 1) =~= want_l.take(j as int).push(want_l[j as int]));
                j = j + 1;
            }
            assert(want_l.take(n as int) =~= want_l);
        } else {
            assert(jv_seq(lang_records@) =~= want_l);
        }
        push_entry(&mut o, "langTagRecord", parsed_field("LangTagRecord[]", jarr(lang_records), 6 + 12 * k + 2, 4 * n));
    }
    assert(jv_entries(o@) =~= spec_parse_table(t@)->Ok_0->Obj_0);
    Ok(jobj(o))
}

pub open spec fn table_tag() -> Seq<u8> {
    seq![110u8, 97u8, 109u8, 101u8]
}

/// The `name` table of a font, described.
pub open spec fn spec_parse(font: Seq<u8>) -> Result<JsonV, Seq<char>> {
    match crate::font::spec_load(font, table_tag()) {
        Err(e) => Err(e),
        Ok(t) => spec_parse_table(t),
    }
}

/// Describes the `name` table of a font.
pub fn parse(font: &[u8]) -> (r: Result<Json, String>)
    requires
        small_len(font@.len() as int),
    ensures
        parsed_view(r) == spec_parse(font@),
{
    let tag: Vec<u8> = vec![110u8, 97u8, 109u8, 101u8];
    assert(tag@ =~= table_tag());
    match crate::font::load_table(font, tag.as_slice()) {
        Err(e) => Err(e),
        Ok(t) => parse_table(t.as_slice()),
    }
}

} // verus!
