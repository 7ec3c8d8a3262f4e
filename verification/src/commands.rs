//! Decisions of the command-line tool: which options a file type heeds, the
//! names of extracted files, and the summary of a directory scan.
use crate::import::bsi::BsiFile;
use crate::import::registry::{text_lt, Registry};
use crate::import::rtx::{spec_entry_tag, RtxEntry};
use crate::import::{all_file_types, display_text, ext_name, FileType};
use crate::text::{chars_of, dec_nat, dec_pad, push_dec, push_dec_pad, push_str_chars, string_from_chars, utf8_lossy};
use vstd::prelude::*;

verus! {

/// Output format asked for on the command line.
#[derive(Debug, Clone, Copy, PartialEq, Eq, Structural)]
pub enum OutputFormat {
    /// One PNG per image, frame 0 only.
    Png,
    /// Every animation frame as its own PNG.
    Frames,
    /// Animated GIF for images with several frames, PNG otherwise.
    Gif,
    /// JSON metadata only.
    Json,
    /// Bitmap font atlas.
    Bitmap,
    /// TrueType font.
    Ttf,
}

/// Options of the `convert` command.
#[derive(Debug, Clone)]
pub struct ConvertArgs {
    pub file: String,
    pub output: Option<String>,
    pub assets: Option<String>,
    pub asset_path: Option<String>,
    pub palette: Option<String>,
    pub asset_dir: Option<String>,
    pub format: Option<OutputFormat>,
    pub terrain_only: bool,
    pub terrain_textures: bool,
    pub compress_textures: bool,
    pub resolve_names: bool,
}

/// `fmt` means something for files of type `ft`: font formats for fonts,
/// frame and GIF output for texture archives and animated bitmaps, PNG for
/// those and palettes, JSON for palettes.
pub open spec fn format_applies(fmt: OutputFormat, ft: FileType) -> bool {
    match fmt {
        OutputFormat::Bitmap | OutputFormat::Ttf => ft == FileType::Fnt,
        OutputFormat::Frames | OutputFormat::Gif => ft == FileType::Bsi || ft == FileType::Gxa,
        OutputFormat::Png => ft == FileType::Bsi || ft == FileType::Gxa || ft == FileType::Col,
        OutputFormat::Json => ft == FileType::Col,
    }
}

/// Files of type `ft` are converted to images or scenes.
pub open spec fn produces_images(ft: FileType) -> bool {
    !(ft == FileType::Cht || ft == FileType::Pvo || ft == FileType::Sfx || ft == FileType::Rtx)
}

/// The name of a format as the tool prints it.
pub open spec fn format_label(fmt: OutputFormat) -> Seq<char> {
    match fmt {
        OutputFormat::Png => "Png"@,
        OutputFormat::Frames => "Frames"@,
        OutputFormat::Gif => "Gif"@,
        OutputFormat::Json => "Json"@,
        OutputFormat::Bitmap => "Bitmap"@,
        OutputFormat::Ttf => "Ttf"@,
    }
}

/// The warnings for options that files of type `ft` ignore, in order:
/// the terrain options outside worlds, a format the type does not use, and
/// texture compression for types that produce no images.
pub open spec fn flag_warnings(
    terrain_only: bool,
    terrain_textures: bool,
    format: Option<OutputFormat>,
    compress_textures: bool,
    ft: FileType,
) -> Seq<Seq<char>> {
    let name = display_text(ft);
    let w1 = if terrain_only && ft != FileType::Wld {
        seq!["--terrain-only has no effect for "@ + name + " files (WLD only)"@]
    } else {
        Seq::empty()
    };
    let w2 = if !terrain_textures && ft != FileType::Wld {
        seq!["--terrain-textures has no effect for "@ + name + " files (WLD only)"@]
    } else {
        Seq::empty()
    };
    let w3 = match format {
        Some(fmt) => if !format_applies(fmt, ft) {
            seq!["--format "@ + format_label(fmt) + " has no effect for "@ + name + " files"@]
        } else {
            Seq::empty()
        },
        None => Seq::empty(),
    };
    let w4 = if compress_textures && !produces_images(ft) {
        seq!["--compress-textures has no effect for "@ + name + " files (image/GLB output only)"@]
    } else {
        Seq::empty()
    };
    w1 + w2 + w3 + w4
}

/// Whether `fmt` means something for files of type `ft`.
pub fn format_applies_to(fmt: OutputFormat, ft: FileType) -> (r: bool)
    ensures
        r == format_applies(fmt, ft),
{
    match fmt {
        OutputFormat::Bitmap | OutputFormat::Ttf => ft == FileType::Fnt,
        OutputFormat::Frames | OutputFormat::Gif => ft == FileType::Bsi || ft == FileType::Gxa,
        OutputFormat::Png => ft == FileType::Bsi || ft == FileType::Gxa || ft == FileType::Col,
        OutputFormat::Json => ft == FileType::Col,
    }
}

fn format_label_str(fmt: OutputFormat) -> (r: &'static str)
    ensures
        r@ == format_label(fmt),
{
    match fmt {
        OutputFormat::Png => "Png",
        OutputFormat::Frames => "Frames",
        OutputFormat::Gif => "Gif",
        OutputFormat::Json => "Json",
        OutputFormat::Bitmap => "Bitmap",
        OutputFormat::Ttf => "Ttf",
    }
}

fn message3(a: &str, b: &str, c: &str) -> (r: String)
    ensures
        r@ == a@ + b@ + c@,
{
    let mut out: Vec<char> = Vec::new();
    push_str_chars(&mut out, a);
    push_str_chars(&mut out, b);
    push_str_chars(&mut out, c);
    string_from_chars(out.as_slice())
}

/// The warnings for the options of `args` that files of type `filetype`
/// ignore.
pub fn irrelevant_flag_warnings(args: &ConvertArgs, filetype: FileType) -> (r: Vec<String>)
    ensures
        r@.map_values(|s: String| s@) == flag_warnings(
            args.terrain_only,
            args.terrain_textures,
            args.format,
            args.compress_textures,
            filetype,
        ),
{
    let name = filetype.display_name();
    let mut out: Vec<String> = Vec::new();
    let ghost nm = display_text(filetype);
    if args.terrain_only && filetype != FileType::Wld {
        out.push(message3("--terrain-only has no effect for ", name, " files (WLD only)"));
    }
    if !args.terrain_textures && filetype != FileType::Wld {
        out.push(message3("--terrain-textures has no effect for ", name, " files (WLD only)"));
    }
    if let Some(fmt) = args.format {
        if !format_applies_to(fmt, filetype) {
            let mut cs: Vec<char> = Vec::new();
            push_str_chars(&mut cs, "--format ");
            push_str_chars(&mut cs, format_label_str(fmt));
            push_str_chars(&mut cs, " has no effect for ");
            push_str_chars(&mut cs, name);
            push_str_chars(&mut cs, " files");
            out.push(string_from_chars(cs.as_slice()));
        }
    }
    let produces = !(filetype == FileType::Cht || filetype == FileType::Pvo || filetype == FileType::Sfx
        || filetype == FileType::Rtx);
    if args.compress_textures && !produces {
        out.push(message3("--compress-textures has no effect for ", name, " files (image/GLB output only)"));
    }
    assert(out@.map_values(|s: String| s@) =~= flag_warnings(
        args.terrain_only,
        args.terrain_textures,
        args.format,
        args.compress_textures,
        filetype,
    ));
    out
}

/// The asset root given on the command line: `--assets`, else the older
/// `--asset-path`, else `--asset-dir`.
pub fn asset_root_override(args: &ConvertArgs) -> (r: Option<String>)
    ensures
        r == (match args.assets {
            Some(a) => Some(a),
            None => match args.asset_path {
                Some(a) => Some(a),
                None => args.asset_dir,
            },
        }),
{
    match &args.assets {
        Some(a) => Some(a.clone()),
        None => match &args.asset_path {
            Some(a) => Some(a.clone()),
            None => args.asset_dir.clone(),
        },
    }
}

} // verus!

verus! {

/// How a texture archive is written: animated images as GIFs unless PNG
/// or frames are asked for, and every frame as its own PNG when frames are.
pub fn texbsi_modes(format: Option<OutputFormat>) -> (r: (bool, bool))
    ensures
        r.0 == !(format == Some(OutputFormat::Png) || format == Some(OutputFormat::Frames)),
        r.1 == (format == Some(OutputFormat::Frames)),
{
    let use_gif = match format {
        Some(OutputFormat::Png) | Some(OutputFormat::Frames) => false,
        _ => true,
    };
    let all_frames = match format {
        Some(OutputFormat::Frames) => true,
        _ => false,
    };
    (use_gif, all_frames)
}

/// The files written for one image of a texture archive.
#[derive(Debug, Clone)]
pub struct ImageExport {
    /// Position of the image in the archive.
    pub image: usize,
    /// The image is written as an animated GIF.
    pub animated_gif: bool,
    /// The main file: `<name>.gif` or `<name>.png`.
    pub primary: String,
    /// Animation frames, from 1, written as their own PNGs.
    pub frames: Vec<usize>,
    /// The main file, then one `<name>_frame<f>.png` per written frame.
    pub files: Vec<String>,
}

/// Number of animation frames after the first written as their own PNGs:
/// in frame mode, those of an animated image that the archive holds.
pub open spec fn frames_written(img: crate::import::bsi::BsiImage, use_gif: bool, all_frames: bool) -> int {
    if !use_gif && all_frames && img.frame_count > 1 {
        let a = img.frame_count - 1;
        let b = img.extra_frames@.len() as int;
        if a < b {
            a
        } else {
            b
        }
    } else {
        0
    }
}

/// The name of the PNG of frame `f` of the image `name`.
pub open spec fn frame_file_name(name: Seq<char>, f: nat) -> Seq<char> {
    name + "_frame"@ + dec_pad(f, 2) + ".png"@
}

/// `e` lists the files written for image `i`, `img`.
pub open spec fn export_matches(
    e: ImageExport,
    i: int,
    img: crate::import::bsi::BsiImage,
    use_gif: bool,
    all_frames: bool,
) -> bool {
    let gif = use_gif && img.frame_count > 1;
    let k = frames_written(img, use_gif, all_frames);
    &&& e.image == i
    &&& e.animated_gif == gif
    &&& e.primary@ == img.name@ + (if gif { ".gif"@ } else { ".png"@ })
    &&& e.frames@.len() == k
    &&& forall|j: int| 0 <= j < k ==> #[trigger] e.frames@[j] == j + 1
    &&& e.files@.len() == k + 1
    &&& e.files@[0]@ == e.primary@
    &&& forall|j: int| 0 <= j < k ==> #[trigger] e.files@[j + 1]@ == frame_file_name(img.name@, (j + 1) as nat)
}

/// Positions, from `i` on, of the images that have a size.
pub open spec fn sized_images_from(images: Seq<crate::import::bsi::BsiImage>, i: int) -> Seq<int>
    decreases images.len() - i,
{
    if i < 0 || i >= images.len() {
        Seq::empty()
    } else if images[i].width > 0 && images[i].height > 0 {
        seq![i] + sized_images_from(images, i + 1)
    } else {
        sized_images_from(images, i + 1)
    }
}

fn image_export(i: usize, img: &crate::import::bsi::BsiImage, use_gif: bool, all_frames: bool) -> (r: ImageExport)
    ensures
        export_matches(r, i as int, *img, use_gif, all_frames),
{
    let gif = use_gif && img.frame_count > 1;
    let mut p: Vec<char> = chars_of(img.name.as_str());
    if gif {
        push_str_chars(&mut p, ".gif");
    } else {
        push_str_chars(&mut p, ".png");
    }
    let primary = string_from_chars(p.as_slice());
    let k: usize = if !use_gif && all_frames && img.frame_count > 1 {
        let a: usize = (img.frame_count - 1) as usize;
        if a < img.extra_frames.len() {
            a
        } else {
            img.extra_frames.len()
        }
    } else {
        0
    };
    let mut frames: Vec<usize> = Vec::new();
    let mut files: Vec<String> = Vec::new();
    files.push(primary.clone());
    let mut j: usize = 0;
    while j < k
        invariant
            j <= k,
            k == frames_written(*img, use_gif, all_frames),
            frames@.len() == j,
            files@.len() == j + 1,
            files@[0]@ == primary@,
            forall|t: int| 0 <= t < j ==> #[trigger] frames@[t] == t + 1,
            forall|t: int| 0 <= t < j ==> #[trigger] files@[t + 1]@ == frame_file_name(img.name@, (t + 1) as nat),
        decreases k - j,
    {
        let mut f: Vec<char> = chars_of(img.name.as_str());
        push_str_chars(&mut f, "_frame");
        push_dec_pad(&mut f, (j + 1) as u64, 2);
        push_str_chars(&mut f, ".png");
        let name = string_from_chars(f.as_slice());
        assert(name@ =~= frame_file_name(img.name@, (j + 1) as nat));
        frames.push(j + 1);
        files.push(name);
        j += 1;
    }
    ImageExport { image: i, animated_gif: gif, primary, frames, files }
}

/// The files written for each image of a texture archive that has a size,
/// in archive order, for the asked-for format.
pub fn plan_texbsi_export(file: &BsiFile, format: Option<OutputFormat>) -> (r: Vec<ImageExport>)
    ensures
        r@.map_values(|e: ImageExport| e.image as int) == sized_images_from(file.images@, 0),
        forall|k: int|
            0 <= k < r@.len() ==> export_matches(
                #[trigger] r@[k],
                r@[k].image as int,
                file.images@[r@[k].image as int],
                !(format == Some(OutputFormat::Png) || format == Some(OutputFormat::Frames)),
                format == Some(OutputFormat::Frames),
            ),
{
    let (use_gif, all_frames) = texbsi_modes(format);
    let ghost imgs = file.images@;
    let mut out: Vec<ImageExport> = Vec::new();
    let mut i: usize = 0;
    while i < file.images.len()
        invariant
            i <= imgs.len(),
            imgs == file.images@,
            use_gif == !(format == Some(OutputFormat::Png) || format == Some(OutputFormat::Frames)),
            all_frames == (format == Some(OutputFormat::Frames)),
            sized_images_from(imgs, 0) == out@.map_values(|e: ImageExport| e.image as int) + sized_images_from(
                imgs,
                i as int,
            ),
            forall|k: int|
                0 <= k < out@.len() ==> 0 <= out@[k].image < imgs.len() && export_matches(
                    #[trigger] out@[k],
                    out@[k].image as int,
                    imgs[out@[k].image as int],
                    use_gif,
                    all_frames,
                ),
        decreases imgs.len() - i,
    {
        let img = &file.images[i];
        let ghost before = out@.map_values(|e: ImageExport| e.image as int);
        if img.width > 0 && img.height > 0 {
            let e = image_export(i, img, use_gif, all_frames);
            out.push(e);
            assert(out@.map_values(|e: ImageExport| e.image as int) =~= before.push(i as int));
            assert(before + sized_images_from(imgs, i as int) =~= before.push(i as int) + sized_images_from(
                imgs,
                i + 1,
            ));
        }
        i += 1;
    }
    assert(sized_images_from(imgs, i as int) =~= Seq::<int>::empty());
    assert(out@.map_values(|e: ImageExport| e.image as int) + Seq::<int>::empty() =~= out@.map_values(
        |e: ImageExport| e.image as int,
    ));
    out
}

} // verus!

verus! {

/// Longest file name made from a dialogue text.
pub const MAX_FILENAME_LEN: usize = 80;

/// One character of file-name cleaning: letters and digits are kept (upper
/// case lowered), a run of spaces, underscores and hyphens after some kept
/// text becomes one underscore, everything else is dropped. The flag says
/// whether the text ends in such an underscore.
pub open spec fn clean_step(acc: Seq<char>, prev: bool, c: char) -> (Seq<char>, bool) {
    if 'A' <= c <= 'Z' {
        (acc.push(crate::text::ascii_lower(c)), false)
    } else if ('a' <= c <= 'z') || ('0' <= c <= '9') {
        (acc.push(c), false)
    } else if c == ' ' || c == '_' || c == '-' {
        if !prev && acc.len() > 0 {
            (acc.push('_'), true)
        } else {
            (acc, prev)
        }
    } else {
        (acc, prev)
    }
}

/// The cleaning of `s`, character by character.
pub open spec fn clean_chars(s: Seq<char>) -> (Seq<char>, bool)
    decreases s.len(),
{
    if s.len() == 0 {
        (Seq::empty(), false)
    } else {
        let (acc, prev) = clean_chars(s.drop_last());
        clean_step(acc, prev, s.last())
    }
}

/// `s` without trailing underscores.
pub open spec fn strip_underscores(s: Seq<char>) -> Seq<char>
    decreases s.len(),
{
    if s.len() > 0 && s.last() == '_' {
        strip_underscores(s.drop_last())
    } else {
        s
    }
}

/// Index of the last `c` in `s`, or -1.
pub open spec fn last_index_of(s: Seq<char>, c: char) -> int
    decreases s.len(),
{
    if s.len() == 0 {
        -1
    } else if s.last() == c {
        s.len() - 1
    } else {
        last_index_of(s.drop_last(), c)
    }
}

/// A file name made from `s`: cleaned, without trailing underscores, and,
/// when longer than 80 characters, cut at the last underscore among the
/// first 80, else after the 80th.
pub open spec fn sanitized_name(s: Seq<char>) -> Seq<char> {
    let r = strip_underscores(clean_chars(s).0);
    if r.len() > 80 {
        let p = last_index_of(r.take(80), '_');
        if p >= 0 {
            r.take(p)
        } else {
            r.take(80)
        }
    } else {
        r
    }
}

proof fn lemma_last_index_bounds(s: Seq<char>, c: char)
    ensures
        -1 <= last_index_of(s, c) < s.len(),
    decreases s.len(),
{
    if s.len() > 0 && s.last() != c {
        lemma_last_index_bounds(s.drop_last(), c);
    }
}

/// Makes a file name from `name`.
pub fn sanitize_filename(name: &str) -> (r: String)
    ensures
        r@ == sanitized_name(name@),
{
    let cs = chars_of(name);
    let mut out: Vec<char> = Vec::new();
    let mut prev = false;
    let mut i: usize = 0;
    while i < cs.len()
        invariant
            i <= cs@.len(),
            cs@ == name@,
            (out@, prev) == clean_chars(cs@.take(i as int)),
        decreases cs@.len() - i,
    {
        let c = cs[i];
        assert(cs@.take(i + 1).drop_last() =~= cs@.take(i as int));
        if 'A' <= c && c <= 'Z' {
            out.push(crate::text::char_ascii_lower(c));
            prev = false;
        } else if ('a' <= c && c <= 'z') || ('0' <= c && c <= '9') {
            out.push(c);
            prev = false;
        } else if c == ' ' || c == '_' || c == '-' {
            if !prev && out.len() > 0 {
                out.push('_');
                prev = true;
            }
        }
        i += 1;
    }
    assert(cs@.take(i as int) =~= cs@);
    let mut n: usize = out.len();
    assert(out@.take(n as int) =~= out@);
    while n > 0 && out[n - 1] == '_'
        invariant
            n <= out@.len(),
            strip_underscores(out@) == strip_underscores(out@.take(n as int)),
        decreases n,
    {
        assert(out@.take(n as int).drop_last() =~= out@.take(n - 1));
        n -= 1;
    }
    let ghost r = out@.take(n as int);
    assert(strip_underscores(out@) == r);
    let mut cut: usize = n;
    if n > MAX_FILENAME_LEN {
        let mut p: usize = MAX_FILENAME_LEN;
        assert(r.take(80).take(80) =~= r.take(80));
        while p > 0 && out[p - 1] != '_'
            invariant
                p <= 80,
                80 < n <= out@.len(),
                r == out@.take(n as int),
                last_index_of(r.take(80), '_') == last_index_of(r.take(80).take(p as int), '_'),
            decreases p,
        {
            assert(r.take(80).take(p as int).drop_last() =~= r.take(80).take(p - 1));
            p -= 1;
        }
        if p > 0 {
            assert(r.take(80).take(p as int).last() == '_');
            cut = p - 1;
        } else {
            assert(r.take(80).take(0) =~= Seq::<char>::empty());
            cut = MAX_FILENAME_LEN;
        }
    }
    let result = string_from_chars(vstd::slice::slice_subrange(out.as_slice(), 0, cut));
    assert(result@ =~= sanitized_name(name@));
    result
}

/// The text of a dialogue entry: a clip's label, or the subtitle.
pub open spec fn entry_text(e: RtxEntry) -> Seq<char> {
    match e {
        RtxEntry::Audio { label, .. } => label@,
        RtxEntry::Text { text, .. } => text@,
    }
}

/// Number of entries before `i` whose file name is `b`.
pub open spec fn name_count_before(entries: Seq<RtxEntry>, i: int, b: Seq<char>) -> nat
    decreases i,
{
    if i <= 0 {
        0
    } else {
        name_count_before(entries, i - 1, b) + if sanitized_name(entry_text(entries[i - 1])) == b {
            1nat
        } else {
            0nat
        }
    }
}

/// The file name of entry `i`: the name made from its text, with `_<n>`
/// added for the `n`-th entry (from 2) of that name; the tag when the text
/// gives no name.
pub open spec fn resolved_name(entries: Seq<RtxEntry>, i: int) -> Seq<char> {
    let base = sanitized_name(entry_text(entries[i]));
    if base.len() == 0 {
        utf8_lossy(spec_entry_tag(entries[i])@)
    } else {
        let n = name_count_before(entries, i, base);
        if n == 0 {
            base
        } else {
            base + seq!['_'] + dec_nat(n + 1)
        }
    }
}

/// Count kept for `b`, zero when absent.
pub open spec fn count_in(m: Map<Seq<char>, usize>, b: Seq<char>) -> nat {
    if m.contains_key(b) {
        m[b] as nat
    } else {
        0
    }
}

/// File names for the entries of a dialogue container, made from their texts.
pub fn build_resolved_filenames(entries: &Vec<RtxEntry>) -> (r: Vec<String>)
    ensures
        r@.len() == entries@.len(),
        forall|i: int| 0 <= i < r@.len() ==> #[trigger] r@[i]@ == resolved_name(entries@, i),
{
    let mut counts: Vec<(String, usize)> = Vec::new();
    let mut out: Vec<String> = Vec::new();
    let mut i: usize = 0;
    proof {
        assert(crate::assoc::assoc_map(counts@) =~= Map::<Seq<char>, usize>::empty());
    }
    while i < entries.len()
        invariant
            i <= entries@.len(),
            out@.len() == i,
            crate::assoc::keys_unique(counts@),
            forall|b: Seq<char>|
                b.len() > 0 ==> #[trigger] count_in(crate::assoc::assoc_map(counts@), b) == name_count_before(
                    entries@,
                    i as int,
                    b,
                ),
            forall|b: Seq<char>| #[trigger] crate::assoc::assoc_map(counts@).contains_key(b) ==> b.len() > 0,
            forall|b: Seq<char>| #[trigger] name_count_before(entries@, i as int, b) <= i,
            forall|k: int| 0 <= k < i ==> #[trigger] out@[k]@ == resolved_name(entries@, k),
        decreases entries@.len() - i,
    {
        let entry = &entries[i];
        let raw: &str = match entry {
            RtxEntry::Audio { label, .. } => label.as_str(),
            RtxEntry::Text { text, .. } => text.as_str(),
        };
        let base = sanitize_filename(raw);
        let ghost m0 = crate::assoc::assoc_map(counts@);
        proof {
            assert forall|b: Seq<char>| #[trigger] name_count_before(entries@, i + 1, b) <= i + 1 by {
                assert(name_count_before(entries@, i as int, b) <= i);
            }
        }
        if base.as_str().is_empty() {
            out.push(entry.tag_str());
            proof {
                assert forall|b: Seq<char>| b.len() > 0 implies #[trigger] count_in(
                    crate::assoc::assoc_map(counts@),
                    b,
                ) == name_count_before(entries@, i + 1, b) by {
                    assert(name_count_before(entries@, i + 1, b) == name_count_before(entries@, i as int, b));
                }
            }
        } else {
            let prior: usize = match crate::assoc::assoc_get(&counts, &base) {
                Some(c) => *c,
                None => 0,
            };
            assert(count_in(m0, base@) == name_count_before(entries@, i as int, base@));
            assert(prior == name_count_before(entries@, i as int, base@));
            assert(entry_text(entries@[i as int]) == raw@);
            let count: usize = prior + 1;
            let name = if count == 1 {
                base.clone()
            } else {
                let mut cs = chars_of(base.as_str());
                cs.push('_');
                push_dec(&mut cs, count as u64);
                string_from_chars(cs.as_slice())
            };
            assert(name@ =~= resolved_name(entries@, i as int));
            out.push(name);
            crate::assoc::assoc_insert(&mut counts, base.clone(), count);
            proof {
                assert forall|b: Seq<char>| b.len() > 0 implies #[trigger] count_in(
                    crate::assoc::assoc_map(counts@),
                    b,
                ) == name_count_before(entries@, i + 1, b) by {
                    assert(crate::assoc::assoc_map(counts@) == m0.insert(base@, count));
                    if b != base@ {
                        assert(count_in(m0, b) == name_count_before(entries@, i as int, b));
                        assert(count_in(crate::assoc::assoc_map(counts@), b) == count_in(m0, b));
                    } else {
                        assert(count_in(crate::assoc::assoc_map(counts@), b) == count);
                    }
                }
            }
        }
        i += 1;
    }
    out
}

} // verus!

verus! {

/// Different types have different names.
pub proof fn lemma_display_text_injective(a: FileType, b: FileType)
    requires
        a != b,
    ensures
        display_text(a) != display_text(b),
{
    reveal_strlit("Texture BSI");
    reveal_strlit("Cheat States");
    reveal_strlit("Palette");
    reveal_strlit("Model");
    reveal_strlit("Animated Model");
    reveal_strlit("ROB World");
    reveal_strlit("Map Data");
    reveal_strlit("PVO Data");
    reveal_strlit("World Geometry");
    reveal_strlit("Font");
    reveal_strlit("GXA Bitmap");
    reveal_strlit("Sound Effects");
    reveal_strlit("Dialogue Audio");
    if display_text(a) == display_text(b) {
        assert(display_text(a).len() == display_text(b).len());
        assert(display_text(a)[0] == display_text(b)[0]);
    }
}

/// Number of files of type `ft` in the registry's pairs.
pub open spec fn type_count(files: Seq<(String, crate::import::registry::FileEntry)>, ft: FileType) -> nat
    decreases files.len(),
{
    if files.len() == 0 {
        0
    } else {
        type_count(files.drop_last(), ft) + if files.last().1.file_type == ft {
            1nat
        } else {
            0nat
        }
    }
}

/// One line of the scan summary: a type's name, its extensions and the
/// number of files found.
#[derive(Debug, Clone)]
pub struct ScanGroup {
    pub file_type: FileType,
    pub display_name: String,
    pub extensions: Vec<String>,
    pub count: usize,
}

/// `g` reports the files of type `ft`.
pub open spec fn group_reports(g: ScanGroup, ft: FileType, files: Seq<(String, crate::import::registry::FileEntry)>) -> bool {
    &&& g.file_type == ft
    &&& g.display_name@ == display_text(ft)
    &&& g.extensions@.len() == 1
    &&& g.extensions@[0]@ == seq!['.'] + ext_name(ft)
    &&& g.count == type_count(files, ft)
    &&& g.count > 0
}

fn count_type(files: &Vec<(String, crate::import::registry::FileEntry)>, ft: FileType) -> (r: usize)
    ensures
        r == type_count(files@, ft),
{
    let mut c: usize = 0;
    let mut j: usize = 0;
    while j < files.len()
        invariant
            j <= files@.len(),
            c == type_count(files@.take(j as int), ft),
            c <= j,
        decreases files@.len() - j,
    {
        assert(files@.take(j + 1).drop_last() =~= files@.take(j as int));
        if files[j].1.file_type == ft {
            c += 1;
        }
        j += 1;
    }
    assert(files@.take(j as int) =~= files@);
    c
}

/// Position of a type in the canonical list.
pub open spec fn type_index(ft: FileType) -> int {
    match ft {
        FileType::Bsi => 0,
        FileType::Cht => 1,
        FileType::Col => 2,
        FileType::Model3d => 3,
        FileType::Model3dc => 4,
        FileType::Rob => 5,
        FileType::Rgm => 6,
        FileType::Pvo => 7,
        FileType::Wld => 8,
        FileType::Fnt => 9,
        FileType::Gxa => 10,
        FileType::Sfx => 11,
        FileType::Rtx => 12,
    }
}

proof fn lemma_type_index(u: int)
    requires
        0 <= u < 13,
    ensures
        type_index(all_file_types()[u]) == u,
{
}

/// The names come in code-point order, each before the next.
pub open spec fn names_sorted(v: Seq<ScanGroup>) -> bool {
    forall|i: int, j: int| 0 <= i < j < v.len() ==> text_lt(#[trigger] v[i].display_name@, #[trigger] v[j].display_name@)
}

/// Puts `g` among groups ordered by name, where no group has its name.
fn insert_group(groups: &mut Vec<ScanGroup>, g: ScanGroup) -> (i: usize)
    requires
        names_sorted(old(groups)@),
        forall|k: int| 0 <= k < old(groups)@.len() ==> #[trigger] old(groups)@[k].display_name@ != g.display_name@,
    ensures
        i <= old(groups)@.len(),
        final(groups)@ == old(groups)@.insert(i as int, g),
        names_sorted(final(groups)@),
{
    let gc = chars_of(g.display_name.as_str());
    let mut i: usize = 0;
    while i < groups.len()
        invariant
            i <= groups@.len(),
            gc@ == g.display_name@,
            forall|k: int| 0 <= k < i ==> text_lt(#[trigger] groups@[k].display_name@, g.display_name@),
        ensures
            i <= groups@.len(),
            forall|k: int| 0 <= k < i ==> text_lt(#[trigger] groups@[k].display_name@, g.display_name@),
            i < groups@.len() ==> !text_lt(groups@[i as int].display_name@, g.display_name@),
        decreases groups@.len() - i,
    {
        let hc = chars_of(groups[i].display_name.as_str());
        if !crate::import::registry::text_less(hc.as_slice(), gc.as_slice()) {
            break;
        }
        i += 1;
    }
    let ghost before = groups@;
    proof {
        if i < before.len() {
            crate::import::registry::lemma_text_lt_total(before[i as int].display_name@, g.display_name@);
        }
        assert forall|k: int| i <= k < before.len() implies text_lt(g.display_name@, #[trigger] before[k].display_name@) by {
            if k > i {
                crate::import::registry::lemma_text_lt_transitive(
                    g.display_name@,
                    before[i as int].display_name@,
                    before[k].display_name@,
                );
            }
        }
    }
    groups.insert(i, g);
    proof {
        assert forall|a: int, b: int| 0 <= a < b < groups@.len() implies text_lt(
            #[trigger] groups@[a].display_name@,
            #[trigger] groups@[b].display_name@,
        ) by {
            if a < i && b > i {
                assert(groups@[a] == before[a] && groups@[b] == before[b - 1]);
            } else if a == i {
                assert(groups@[b] == before[b - 1]);
            } else if b < i {
                assert(groups@[a] == before[a] && groups@[b] == before[b]);
            } else if a > i {
                assert(groups@[a] == before[a - 1] && groups@[b] == before[b - 1]);
            }
        }
    }
    i
}

/// The scan summary of a registry: the number of indexed files, and one
/// line for each type with files, ordered by the type's name.
pub fn scan_summary(registry: &Registry) -> (r: (usize, Vec<ScanGroup>))
    ensures
        r.0 == registry.files@.len(),
        names_sorted(r.1@),
        forall|k: int| 0 <= k < r.1@.len() ==> group_reports(#[trigger] r.1@[k], r.1@[k].file_type, registry.files@),
        forall|ft: FileType|
            type_count(registry.files@, ft) > 0 ==> exists|k: int|
                0 <= k < r.1@.len() && #[trigger] r.1@[k].display_name@ == display_text(ft),
{
    let types = FileType::all();
    let ghost files = registry.files@;
    let ghost mut kinds: Seq<FileType> = Seq::empty();
    let mut groups: Vec<ScanGroup> = Vec::new();
    let mut t: usize = 0;
    while t < 13
        invariant
            t <= 13,
            types@ == all_file_types(),
            files == registry.files@,
            names_sorted(groups@),
            kinds.len() == groups@.len(),
            forall|k: int| 0 <= k < kinds.len() ==> group_reports(#[trigger] groups@[k], kinds[k], files),
            forall|k: int| 0 <= k < kinds.len() ==> type_index(#[trigger] kinds[k]) < t,
            forall|u: int| 0 <= u < t && type_count(files, #[trigger] all_file_types()[u]) > 0 ==> kinds.contains(all_file_types()[u]),
        decreases 13 - t,
    {
        let ft = types[t];
        proof {
            lemma_type_index(t as int);
        }
        let c = count_type(&registry.files, ft);
        if c > 0 {
            let ext = ft.extensions();
            let mut exts: Vec<String> = Vec::new();
            exts.push(String::from_str(ext[0]));
            let g = ScanGroup { file_type: ft, display_name: String::from_str(ft.display_name()), extensions: exts, count: c };
            proof {
                assert forall|k: int| 0 <= k < groups@.len() implies #[trigger] groups@[k].display_name@ != g.display_name@ by {
                    assert(group_reports(groups@[k], kinds[k], files));
                    assert(type_index(kinds[k]) < t);
                    lemma_display_text_injective(kinds[k], ft);
                }
            }
            let ghost old_kinds = kinds;
            let ghost old_groups = groups@;
            let i = insert_group(&mut groups, g);
            proof {
                kinds = old_kinds.insert(i as int, ft);
                assert forall|k: int| 0 <= k < kinds.len() implies group_reports(#[trigger] groups@[k], kinds[k], files) by {
                    if k < i {
                        assert(groups@[k] == old_groups[k] && kinds[k] == old_kinds[k]);
                    } else if k > i {
                        assert(groups@[k] == old_groups[k - 1] && kinds[k] == old_kinds[k - 1]);
                    }
                }
                assert forall|k: int| 0 <= k < kinds.len() implies type_index(#[trigger] kinds[k]) < t + 1 by {
                    if k < i {
                        assert(kinds[k] == old_kinds[k]);
                    } else if k > i {
                        assert(kinds[k] == old_kinds[k - 1]);
                    }
                }
                assert forall|u: int| 0 <= u < t + 1 && type_count(files, #[trigger] all_file_types()[u]) > 0 implies kinds.contains(
                    all_file_types()[u],
                ) by {
                    if u == t {
                        assert(kinds[i as int] == ft);
                    } else {
                        let k = choose|k: int| 0 <= k < old_kinds.len() && old_kinds[k] == all_file_types()[u];
                        if k < i {
                            assert(kinds[k] == old_kinds[k]);
                        } else {
                            assert(kinds[k + 1] == old_kinds[k]);
                        }
                    }
                }
            }
        }
        t += 1;
    }
    proof {
        assert forall|ft: FileType| type_count(registry.files@, ft) > 0 implies exists|k: int|
            0 <= k < groups@.len() && #[trigger] groups@[k].display_name@ == display_text(ft) by {
            crate::import::lemma_all_file_types_complete(ft);
            let u = choose|u: int| 0 <= u < 13 && all_file_types()[u] == ft;
            assert(kinds.contains(all_file_types()[u]));
            let k = choose|k: int| 0 <= k < kinds.len() && kinds[k] == ft;
            assert(group_reports(groups@[k], kinds[k], files));
        }
        assert forall|k: int| 0 <= k < groups@.len() implies group_reports(#[trigger] groups@[k], groups@[k].file_type, registry.files@) by {
            assert(group_reports(groups@[k], kinds[k], files));
        }
    }
    (registry.files.len(), groups)
}

} // verus!
