//! Where to look for a system font with CJK glyphs, for the interface and for the
//! text burnt into screenshots. No font is bundled.
use vstd::prelude::*;
use ab_glyph::FontVec;

verus! {

/// The platform families the font search knows.
#[derive(Clone, Copy, Debug, PartialEq, Eq, Structural)]
pub enum FontPlatform {
    MacOs,
    Windows,
    /// Unix other than macOS.
    Unix,
}

/// The font files tried, in order, with the face index inside each file.
pub open spec fn candidate_paths(platform: FontPlatform) -> Seq<(Seq<char>, u32)> {
    match platform {
        FontPlatform::MacOs => seq![
            ("/System/Library/Fonts/PingFang.ttc"@, 0u32),
            ("/System/Library/Fonts/STHeiti Medium.ttc"@, 0u32),
            ("/System/Library/Fonts/Hiragino Sans GB.ttc"@, 0u32),
            ("/Library/Fonts/Arial Unicode.ttf"@, 0u32),
        ],
        FontPlatform::Windows => seq![
            ("C:/Windows/Fonts/msyh.ttc"@, 0u32),
            ("C:/Windows/Fonts/simhei.ttf"@, 0u32),
            ("C:/Windows/Fonts/simsun.ttc"@, 0u32),
            ("C:/Windows/Fonts/segoeui.ttf"@, 0u32),
        ],
        FontPlatform::Unix => seq![
            ("/usr/share/fonts/opentype/noto/NotoSansCJK-Regular.ttc"@, 0u32),
            ("/usr/share/fonts/noto-cjk/NotoSansCJK-Regular.ttc"@, 0u32),
            ("/usr/share/fonts/truetype/wqy/wqy-microhei.ttc"@, 0u32),
            ("/usr/share/fonts/wenquanyi/wqy-microhei/wqy-microhei.ttc"@, 0u32),
            ("/usr/share/fonts/truetype/dejavu/DejaVuSans.ttf"@, 0u32),
        ],
    }
}

/// The font files to try on `platform`, most preferred first.
pub fn candidates(platform: FontPlatform) -> (c: Vec<(&'static str, u32)>)
    ensures
        c@.len() == candidate_paths(platform).len(),
        forall|i: int|
            0 <= i < c@.len() ==> (#[trigger] c@[i]).0@ == candidate_paths(platform)[i].0 && c@[i].1
                == candidate_paths(platform)[i].1,
{
    match platform {
        FontPlatform::MacOs => vec![
            ("/System/Library/Fonts/PingFang.ttc", 0),
            ("/System/Library/Fonts/STHeiti Medium.ttc", 0),
            ("/System/Library/Fonts/Hiragino Sans GB.ttc", 0),
            ("/Library/Fonts/Arial Unicode.ttf", 0),
        ],
        FontPlatform::Windows => vec![
            ("C:/Windows/Fonts/msyh.ttc", 0),
            ("C:/Windows/Fonts/simhei.ttf", 0),
            ("C:/Windows/Fonts/simsun.ttc", 0),
            ("C:/Windows/Fonts/segoeui.ttf", 0),
        ],
        FontPlatform::Unix => vec![
            ("/usr/share/fonts/opentype/noto/NotoSansCJK-Regular.ttc", 0),
            ("/usr/share/fonts/noto-cjk/NotoSansCJK-Regular.ttc", 0),
            ("/usr/share/fonts/truetype/wqy/wqy-microhei.ttc", 0),
            ("/usr/share/fonts/wenquanyi/wqy-microhei/wqy-microhei.ttc", 0),
            ("/usr/share/fonts/truetype/dejavu/DejaVuSans.ttf", 0),
        ],
    }
}

#[verifier::external_type_specification]
#[verifier::external_body]
pub struct ExFontVec(FontVec);

/// Whether ab_glyph reads face `index` of the font file `bytes` as a font.
pub uninterp spec fn font_parses(bytes: Seq<u8>, index: u32) -> bool;

/// `FontVec::try_from_vec_and_index`: the face `index` of the font file `bytes`, when
/// it parses; whether it does is named by `font_parses`.
#[verifier::external_body]
fn parse_font(bytes: Vec<u8>, index: u32) -> (r: Option<FontVec>)
    ensures
        r is Some <==> font_parses(bytes@, index),
{
    FontVec::try_from_vec_and_index(bytes, index).ok()
}

/// A font that was loaded: the file's bytes, the face index and the parsed font.
pub struct LoadedFont {
    pub bytes: Vec<u8>,
    pub index: u32,
    pub font: FontVec,
}

/// Loads the first of the candidate files, in their order, whose face parses: it
/// returns that candidate's position and the loaded font, or `None` when none parses.
pub fn first_parsing(files: &Vec<(Vec<u8>, u32)>) -> (r: Option<(usize, LoadedFont)>)
    ensures
        match r {
            Some((i, f)) => {
                &&& i < files@.len()
                &&& font_parses(files@[i as int].0@, files@[i as int].1)
                &&& forall|j: int| 0 <= j < i ==> !font_parses(#[trigger] files@[j].0@, files@[j].1)
                &&& f.bytes@ == files@[i as int].0@
                &&& f.index == files@[i as int].1
            },
            None => forall|j: int|
                0 <= j < files@.len() ==> !font_parses(#[trigger] files@[j].0@, files@[j].1),
        },
{
    let mut i: usize = 0;
    while i < files.len()
        invariant
            0 <= i <= files.len(),
            forall|j: int| 0 <= j < i ==> !font_parses(#[trigger] files@[j].0@, files@[j].1),
        decreases files.len() - i,
    {
        let bytes = &files[i].0;
        let index = files[i].1;
        match parse_font(bytes.clone(), index) {
            Some(font) => {
                return Some((i, LoadedFont { bytes: bytes.clone(), index, font }));
            },
            None => {},
        }
        i = i + 1;
    }
    None
}

} // verus!
