//! Parsers for the individual file formats.
pub mod bsi;
pub mod cht;
pub mod fnt;
pub mod fnt_atlas;
pub mod fnt_ttf;
pub mod gxa;
pub mod model3d;
pub mod palette;
pub mod pvo;
pub mod registry;
pub mod rgm;
pub mod rob;
pub mod rtx;
pub mod sfx;
pub mod soup_def;
pub mod texture;
pub mod wld;
pub mod world_ini;

use crate::text::{ascii_lower, ascii_upper, to_ascii_lowercase, to_ascii_uppercase, trim_str, trim_ws};
use vstd::prelude::*;

verus! {

/// Supported asset file types.
#[derive(Debug, Clone, Copy, PartialEq, Eq, Structural, Hash)]
pub enum FileType {
    Bsi,
    Cht,
    Col,
    Model3d,
    Model3dc,
    Rob,
    Rgm,
    Pvo,
    Wld,
    Fnt,
    Gxa,
    Sfx,
    Rtx,
}

/// The file types in their canonical order.
pub open spec fn all_file_types() -> Seq<FileType> {
    seq![
        FileType::Bsi,
        FileType::Cht,
        FileType::Col,
        FileType::Model3d,
        FileType::Model3dc,
        FileType::Rob,
        FileType::Rgm,
        FileType::Pvo,
        FileType::Wld,
        FileType::Fnt,
        FileType::Gxa,
        FileType::Sfx,
        FileType::Rtx,
    ]
}

/// The file extension of a type, without its dot.
pub open spec fn ext_name(ft: FileType) -> Seq<char> {
    match ft {
        FileType::Bsi => "bsi"@,
        FileType::Cht => "cht"@,
        FileType::Col => "col"@,
        FileType::Model3d => "3d"@,
        FileType::Model3dc => "3dc"@,
        FileType::Rob => "rob"@,
        FileType::Rgm => "rgm"@,
        FileType::Pvo => "pvo"@,
        FileType::Wld => "wld"@,
        FileType::Fnt => "fnt"@,
        FileType::Gxa => "gxa"@,
        FileType::Sfx => "sfx"@,
        FileType::Rtx => "rtx"@,
    }
}

/// `s` with its ASCII letters lower-cased.
pub open spec fn lower_chars(s: Seq<char>) -> Seq<char> {
    s.map_values(|c: char| ascii_lower(c))
}

/// `s` with its ASCII letters upper-cased.
pub open spec fn upper_chars(s: Seq<char>) -> Seq<char> {
    s.map_values(|c: char| ascii_upper(c))
}

/// The type whose extension is `ext` (compared without regard to ASCII case).
pub open spec fn type_of_extension(ext: Seq<char>) -> Option<FileType> {
    let l = lower_chars(ext);
    if exists|ft: FileType| ext_name(ft) == l {
        Some(choose|ft: FileType| ext_name(ft) == l)
    } else {
        None
    }
}

/// Distinct types have distinct extensions.
pub proof fn lemma_ext_names_distinct(a: FileType, b: FileType)
    ensures
        ext_name(a) == ext_name(b) ==> a == b,
{
    reveal_strlit("bsi");
    reveal_strlit("cht");
    reveal_strlit("col");
    reveal_strlit("3d");
    reveal_strlit("3dc");
    reveal_strlit("rob");
    reveal_strlit("rgm");
    reveal_strlit("pvo");
    reveal_strlit("wld");
    reveal_strlit("fnt");
    reveal_strlit("gxa");
    reveal_strlit("sfx");
    reveal_strlit("rtx");
    if ext_name(a) == ext_name(b) {
        assert(ext_name(a).len() == ext_name(b).len());
        assert(ext_name(a)[0] == ext_name(b)[0]);
        assert(ext_name(a).len() > 1 ==> ext_name(a)[1] == ext_name(b)[1]);
        assert(ext_name(a).len() > 2 ==> ext_name(a)[2] == ext_name(b)[2]);
    }
}

/// Name for what `std::path::Path::extension` gives for a path written as `path`.
pub uninterp spec fn path_extension(path: Seq<char>) -> Option<Seq<char>>;

/// Name for what `std::path::Path::file_stem` gives for a path written as `path`.
pub uninterp spec fn path_file_stem(path: Seq<char>) -> Option<Seq<char>>;

/// The extension of a path through `std::path::Path::extension`. Claimed of
/// it: the outcome is a function of the path text alone (the name above).
#[verifier::external_body]
fn extension_of_path(path: &str) -> (r: Option<String>)
    ensures
        match r {
            Some(s) => path_extension(path@) == Some(s@),
            None => path_extension(path@) is None,
        },
{
    std::path::Path::new(path).extension().and_then(|e| e.to_str()).map(|e| e.to_string())
}

/// The file stem of a path through `std::path::Path::file_stem`. Claimed of
/// it: the outcome is a function of the path text alone (the name above).
#[verifier::external_body]
pub(crate) fn file_stem_of_path(path: &str) -> (r: Option<String>)
    ensures
        match r {
            Some(s) => path_file_stem(path@) == Some(s@),
            None => path_file_stem(path@) is None,
        },
{
    std::path::Path::new(path).file_stem().and_then(|e| e.to_str()).map(|e| e.to_string())
}

/// The type a path names: by its extension, else `TEXBSI` as file stem
/// (ASCII case ignored) names texture archives.
pub open spec fn type_of_path(path: Seq<char>) -> Option<FileType> {
    match path_extension(path) {
        Some(e) if type_of_extension(e) is Some => type_of_extension(e),
        _ => match path_file_stem(path) {
            Some(s) if upper_chars(s) == "TEXBSI"@ => Some(FileType::Bsi),
            _ => None,
        },
    }
}

/// Human-readable name of a type.
pub open spec fn display_text(ft: FileType) -> Seq<char> {
    match ft {
        FileType::Bsi => "Texture BSI"@,
        FileType::Cht => "Cheat States"@,
        FileType::Col => "Palette"@,
        FileType::Model3d => "Model"@,
        FileType::Model3dc => "Animated Model"@,
        FileType::Rob => "ROB World"@,
        FileType::Rgm => "Map Data"@,
        FileType::Pvo => "PVO Data"@,
        FileType::Wld => "World Geometry"@,
        FileType::Fnt => "Font"@,
        FileType::Gxa => "GXA Bitmap"@,
        FileType::Sfx => "Sound Effects"@,
        FileType::Rtx => "Dialogue Audio"@,
    }
}

impl FileType {
    /// All file types, in canonical order.
    pub fn all() -> (r: [FileType; 13])
        ensures
            r@ == all_file_types(),
    {
        let r = [
            FileType::Bsi,
            FileType::Cht,
            FileType::Col,
            FileType::Model3d,
            FileType::Model3dc,
            FileType::Rob,
            FileType::Rgm,
            FileType::Pvo,
            FileType::Wld,
            FileType::Fnt,
            FileType::Gxa,
            FileType::Sfx,
            FileType::Rtx,
        ];
        assert(r@ =~= all_file_types());
        r
    }

    /// Human-readable name of the type.
    pub fn display_name(self) -> (r: &'static str)
        ensures
            r@ == display_text(self),
    {
        match self {
            FileType::Bsi => "Texture BSI",
            FileType::Cht => "Cheat States",
            FileType::Col => "Palette",
            FileType::Model3d => "Model",
            FileType::Model3dc => "Animated Model",
            FileType::Rob => "ROB World",
            FileType::Rgm => "Map Data",
            FileType::Pvo => "PVO Data",
            FileType::Wld => "World Geometry",
            FileType::Fnt => "Font",
            FileType::Gxa => "GXA Bitmap",
            FileType::Sfx => "Sound Effects",
            FileType::Rtx => "Dialogue Audio",
        }
    }

    /// File extensions of the type, with their leading dot.
    pub fn extensions(self) -> (r: [&'static str; 1])
        ensures
            r@.len() == 1,
            r@[0]@ == seq!['.'] + ext_name(self),
    {
        let r = match self {
            FileType::Bsi => [".bsi"],
            FileType::Cht => [".cht"],
            FileType::Col => [".col"],
            FileType::Model3d => [".3d"],
            FileType::Model3dc => [".3dc"],
            FileType::Rob => [".rob"],
            FileType::Rgm => [".rgm"],
            FileType::Pvo => [".pvo"],
            FileType::Wld => [".wld"],
            FileType::Fnt => [".fnt"],
            FileType::Gxa => [".gxa"],
            FileType::Sfx => [".sfx"],
            FileType::Rtx => [".rtx"],
        };
        proof {
            reveal_strlit(".bsi");
            reveal_strlit("bsi");
            reveal_strlit(".cht");
            reveal_strlit("cht");
            reveal_strlit(".col");
            reveal_strlit("col");
            reveal_strlit(".3d");
            reveal_strlit("3d");
            reveal_strlit(".3dc");
            reveal_strlit("3dc");
            reveal_strlit(".rob");
            reveal_strlit("rob");
            reveal_strlit(".rgm");
            reveal_strlit("rgm");
            reveal_strlit(".pvo");
            reveal_strlit("pvo");
            reveal_strlit(".wld");
            reveal_strlit("wld");
            reveal_strlit(".fnt");
            reveal_strlit("fnt");
            reveal_strlit(".gxa");
            reveal_strlit("gxa");
            reveal_strlit(".sfx");
            reveal_strlit("sfx");
            reveal_strlit(".rtx");
            reveal_strlit("rtx");
            assert(r@[0]@ =~= seq!['.'] + ext_name(self));
        }
        r
    }
}

} // verus!

verus! {

/// Every type occurs in the canonical list.
pub proof fn lemma_all_file_types_complete(ft: FileType)
    ensures
        all_file_types().contains(ft),
{
    let s = all_file_types();
    match ft {
        FileType::Bsi => assert(s[0] == ft),
        FileType::Cht => assert(s[1] == ft),
        FileType::Col => assert(s[2] == ft),
        FileType::Model3d => assert(s[3] == ft),
        FileType::Model3dc => assert(s[4] == ft),
        FileType::Rob => assert(s[5] == ft),
        FileType::Rgm => assert(s[6] == ft),
        FileType::Pvo => assert(s[7] == ft),
        FileType::Wld => assert(s[8] == ft),
        FileType::Fnt => assert(s[9] == ft),
        FileType::Gxa => assert(s[10] == ft),
        FileType::Sfx => assert(s[11] == ft),
        FileType::Rtx => assert(s[12] == ft),
    }
}

fn ext_name_string(ft: FileType) -> (r: String)
    ensures
        r@ == ext_name(ft),
{
    match ft {
        FileType::Bsi => String::from_str("bsi"),
        FileType::Cht => String::from_str("cht"),
        FileType::Col => String::from_str("col"),
        FileType::Model3d => String::from_str("3d"),
        FileType::Model3dc => String::from_str("3dc"),
        FileType::Rob => String::from_str("rob"),
        FileType::Rgm => String::from_str("rgm"),
        FileType::Pvo => String::from_str("pvo"),
        FileType::Wld => String::from_str("wld"),
        FileType::Fnt => String::from_str("fnt"),
        FileType::Gxa => String::from_str("gxa"),
        FileType::Sfx => String::from_str("sfx"),
        FileType::Rtx => String::from_str("rtx"),
    }
}

impl FileType {
    /// The type whose extension is `ext` (without a leading dot), ignoring
    /// ASCII case.
    pub fn from_extension(ext: &str) -> (r: Option<FileType>)
        ensures
            r == type_of_extension(ext@),
    {
        let lower = to_ascii_lowercase(ext);
        let types = FileType::all();
        let mut i: usize = 0;
        while i < 13
            invariant
                i <= 13,
                types@ == all_file_types(),
                lower@ == lower_chars(ext@),
                forall|k: int| 0 <= k < i ==> ext_name(#[trigger] all_file_types()[k]) != lower@,
            decreases 13 - i,
        {
            let ft = types[i];
            if lower == ext_name_string(ft) {
                proof {
                    assert(ext_name(ft) == lower_chars(ext@));
                    let c = choose|f: FileType| ext_name(f) == lower_chars(ext@);
                    lemma_ext_names_distinct(c, ft);
                }
                return Some(ft);
            }
            i += 1;
        }
        proof {
            assert forall|f: FileType| ext_name(f) != lower_chars(ext@) by {
                lemma_all_file_types_complete(f);
                let k = choose|k: int| 0 <= k < 13 && all_file_types()[k] == f;
                assert(ext_name(all_file_types()[k]) != lower@);
            }
        }
        None
    }

    /// The type a path names: by its extension, else a `TEXBSI` file stem
    /// (ASCII case ignored) names a texture archive.
    pub fn from_path(path: &str) -> (r: Option<FileType>)
        ensures
            r == type_of_path(path@),
    {
        if let Some(ext) = extension_of_path(path) {
            if let Some(ft) = FileType::from_extension(ext.as_str()) {
                return Some(ft);
            }
        }
        let stem = match file_stem_of_path(path) {
            Some(s) => s,
            None => return None,
        };
        let upper = to_ascii_uppercase(stem.as_str());
        if upper == String::from_str("TEXBSI") {
            Some(FileType::Bsi)
        } else {
            None
        }
    }
}

/// Text of the error for an unknown file type token.
pub open spec fn unknown_type_message(s: Seq<char>) -> Seq<char> {
    "Unknown file type: "@ + s + ". Supported types: bsi, cht, col, 3d, 3dc, rob, rgm, pvo, wld, fnt, gxa, sfx, rtx"@
}

/// Reads a file type token: its extension without a dot, surrounding white
/// space and ASCII case ignored.
pub fn parse_file_type(s: &str) -> (r: core::result::Result<FileType, String>)
    ensures
        match type_of_extension(trim_ws(s@)) {
            Some(ft) => r == Ok::<FileType, String>(ft),
            None => r matches Err(m) && m@ == unknown_type_message(s@),
        },
{
    let trimmed = trim_str(s);
    match FileType::from_extension(trimmed.as_str()) {
        Some(ft) => Ok(ft),
        None => {
            let mut m = String::from_str("Unknown file type: ");
            m.append(s);
            m.append(". Supported types: bsi, cht, col, 3d, 3dc, rob, rgm, pvo, wld, fnt, gxa, sfx, rtx");
            Err(m)
        },
    }
}

impl core::str::FromStr for FileType {
    type Err = String;

    fn from_str(s: &str) -> (r: core::result::Result<FileType, String>)
        ensures
            match type_of_extension(trim_ws(s@)) {
                Some(ft) => r == Ok::<FileType, String>(ft),
                None => r matches Err(m) && m@ == unknown_type_message(s@),
            },
    {
        parse_file_type(s)
    }
}

/// A character that is not an ASCII upper-case letter keeps its value when
/// lower-cased, and an ASCII lower-case letter comes back after upper- and
/// lower-casing.
proof fn lemma_lower_upper_char(c: char)
    requires
        !('A' <= c <= 'Z'),
    ensures
        ascii_lower(c) == c,
        ascii_lower(ascii_upper(c)) == c,
{
    if 'a' <= c <= 'z' {
        let u = ascii_upper(c);
        assert((u as u32) == (c as u32) - 32);
        assert('A' <= u <= 'Z');
        assert(ascii_lower(u) as u32 == (u as u32) + 32);
    }
}

/// Lower-casing leaves a text without ASCII capitals as it is, and brings
/// its upper-cased form back to it.
proof fn lemma_lower_upper_text(s: Seq<char>)
    requires
        forall|i: int| 0 <= i < s.len() ==> !('A' <= #[trigger] s[i] <= 'Z'),
    ensures
        lower_chars(s) == s,
        lower_chars(upper_chars(s)) == s,
{
    assert forall|i: int| 0 <= i < s.len() implies #[trigger] lower_chars(s)[i] == s[i] && lower_chars(
        upper_chars(s),
    )[i] == s[i] by {
        lemma_lower_upper_char(s[i]);
    }
    assert(lower_chars(s) =~= s);
    assert(lower_chars(upper_chars(s)) =~= s);
}

/// A text whose lower-cased form is the extension of `ft` names `ft`, and
/// no other type: extensions are recognized whatever their ASCII case.
pub proof fn law_extension_identifies_type(ft: FileType, ext: Seq<char>)
    requires
        lower_chars(ext) == ext_name(ft),
    ensures
        type_of_extension(ext) == Some(ft),
{
    let c = choose|f: FileType| ext_name(f) == lower_chars(ext);
    lemma_ext_names_distinct(c, ft);
}

/// Each type's own extension, in lower case and in upper case, names it.
pub proof fn law_extension_round_trip(ft: FileType)
    ensures
        type_of_extension(ext_name(ft)) == Some(ft),
        type_of_extension(upper_chars(ext_name(ft))) == Some(ft),
{
    reveal_strlit("bsi");
    reveal_strlit("cht");
    reveal_strlit("col");
    reveal_strlit("3d");
    reveal_strlit("3dc");
    reveal_strlit("rob");
    reveal_strlit("rgm");
    reveal_strlit("pvo");
    reveal_strlit("wld");
    reveal_strlit("fnt");
    reveal_strlit("gxa");
    reveal_strlit("sfx");
    reveal_strlit("rtx");
    let e = ext_name(ft);
    assert forall|i: int| 0 <= i < e.len() implies !('A' <= #[trigger] e[i] <= 'Z') by {}
    lemma_lower_upper_text(e);
    law_extension_identifies_type(ft, e);
    law_extension_identifies_type(ft, upper_chars(e));
}

} // verus!
