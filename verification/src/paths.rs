//! File paths: which files the catalog imports and how, where exports and
//! sidecars are written, and where the catalog lives.
use vstd::prelude::*;
use vstd::string::StringExecFns;
use crate::text::{chars_of, lowercase, push_char, string_from_chars, to_lowercase};

verus! {

/// What `Path::extension` gives for a path: the part of its file name after
/// the last `.`, if there is one that is not the first character.
pub uninterp spec fn path_extension(p: Seq<char>) -> Option<Seq<char>>;

/// What `Path::file_name` gives for a path: its last component, unless that
/// is `..`.
pub uninterp spec fn path_file_name(p: Seq<char>) -> Option<Seq<char>>;

/// What `Path::file_stem` gives for a path: its file name without the
/// extension.
pub uninterp spec fn path_file_stem(p: Seq<char>) -> Option<Seq<char>>;

/// What `Path::with_extension` gives for a path and an extension.
pub uninterp spec fn path_with_extension(p: Seq<char>, ext: Seq<char>) -> Seq<char>;

/// What `Path::join` gives for a base path and a relative part.
pub uninterp spec fn path_join(base: Seq<char>, part: Seq<char>) -> Seq<char>;

/// Calls `Path::extension` on `path` (a UTF-8 path, so the extension is
/// UTF-8 too); the answer is named [`path_extension`].
#[verifier::external_body]
pub(crate) fn extension_of(path: &str) -> (r: Option<String>)
    ensures
        r matches Some(e) ==> path_extension(path@) == Some(e@),
        r is None ==> path_extension(path@) is None,
{
    std::path::Path::new(path).extension().and_then(|e| e.to_str()).map(|e| e.to_string())
}

/// Calls `Path::file_name` on `path`; the answer is named [`path_file_name`].
#[verifier::external_body]
pub(crate) fn file_name_of(path: &str) -> (r: Option<String>)
    ensures
        r matches Some(e) ==> path_file_name(path@) == Some(e@),
        r is None ==> path_file_name(path@) is None,
{
    std::path::Path::new(path).file_name().and_then(|e| e.to_str()).map(|e| e.to_string())
}

/// Calls `Path::file_stem` on `path`; the answer is named [`path_file_stem`].
#[verifier::external_body]
pub(crate) fn file_stem_of(path: &str) -> (r: Option<String>)
    ensures
        r matches Some(e) ==> path_file_stem(path@) == Some(e@),
        r is None ==> path_file_stem(path@) is None,
{
    std::path::Path::new(path).file_stem().and_then(|e| e.to_str()).map(|e| e.to_string())
}

/// Whether `s` holds no path separator (`/`, or `\\` on Windows).
pub open spec fn no_separator(s: Seq<char>) -> bool {
    forall|i: int| 0 <= i < s.len() ==> s[i] != '/' && s[i] != '\\'
}

/// Calls `Path::with_extension`, which panics on an extension that holds a
/// path separator; the answer is named [`path_with_extension`].
#[verifier::external_body]
pub(crate) fn with_extension_of(path: &str, ext: &str) -> (r: String)
    requires
        no_separator(ext@),
    ensures
        r@ == path_with_extension(path@, ext@),
{
    std::path::Path::new(path).with_extension(ext).to_string_lossy().to_string()
}

/// Calls `Path::join`; the answer is named [`path_join`].
#[verifier::external_body]
pub(crate) fn join_path(base: &str, part: &str) -> (r: String)
    ensures
        r@ == path_join(base@, part@),
{
    std::path::Path::new(base).join(part).to_string_lossy().to_string()
}

/// Whether the characters of `v` are those of `lit`.
pub(crate) fn eq_lit(v: &Vec<char>, lit: &str) -> (r: bool)
    ensures
        r == (v@ == lit@),
{
    let l = chars_of(lit);
    crate::text::chars_eq(v, &l)
}

/// The extensions (lowercase) of the files the catalog imports.
pub open spec fn supported_extension(e: Seq<char>) -> bool {
    ||| e == "jpg"@
    ||| e == "jpeg"@
    ||| e == "png"@
    ||| e == "tiff"@
    ||| e == "tif"@
    ||| e == "bmp"@
    ||| e == "webp"@
    ||| raw_extension(e)
}

/// The extensions (lowercase) of camera RAW files.
pub open spec fn raw_extension(e: Seq<char>) -> bool {
    ||| e == "cr2"@
    ||| e == "cr3"@
    ||| e == "nef"@
    ||| e == "arw"@
    ||| e == "dng"@
    ||| e == "orf"@
    ||| e == "rw2"@
    ||| e == "raf"@
    ||| e == "pef"@
}

/// Whether the catalog imports the file at `p`: its extension, lowercased,
/// is a supported one.
pub open spec fn supported_path(p: Seq<char>) -> bool {
    match path_extension(p) {
        Some(e) => supported_extension(lowercase(e)),
        None => false,
    }
}

/// The catalog imports a file exactly when its extension, in any case, is
/// one of jpg, jpeg, png, tiff, tif, bmp, webp or a RAW one (cr2, cr3, nef,
/// arw, dng, orf, rw2, raf, pef); a file with no extension is not imported.
pub proof fn law_supported_extensions(p: Seq<char>)
    ensures
        path_extension(p) is None ==> !supported_path(p),
        path_extension(p) matches Some(e) ==> (supported_path(p) <==> ({
            let l = lowercase(e);
            ||| l == "jpg"@
            ||| l == "jpeg"@
            ||| l == "png"@
            ||| l == "tiff"@
            ||| l == "tif"@
            ||| l == "bmp"@
            ||| l == "webp"@
            ||| l == "cr2"@
            ||| l == "cr3"@
            ||| l == "nef"@
            ||| l == "arw"@
            ||| l == "dng"@
            ||| l == "orf"@
            ||| l == "rw2"@
            ||| l == "raf"@
            ||| l == "pef"@
        })),
        path_extension(p) matches Some(e) ==> (raw_extension(lower_extension(p)) <==> ({
            let l = lowercase(e);
            ||| l == "cr2"@
            ||| l == "cr3"@
            ||| l == "nef"@
            ||| l == "arw"@
            ||| l == "dng"@
            ||| l == "orf"@
            ||| l == "rw2"@
            ||| l == "raf"@
            ||| l == "pef"@
        })),
{
}

/// Whether a lowercase extension is that of a camera RAW file.
pub fn is_raw(ext: &str) -> (r: bool)
    ensures
        r == raw_extension(ext@),
{
    let e = chars_of(ext);
    eq_lit(&e, "cr2") || eq_lit(&e, "cr3") || eq_lit(&e, "nef") || eq_lit(&e, "arw") || eq_lit(
        &e,
        "dng",
    ) || eq_lit(&e, "orf") || eq_lit(&e, "rw2") || eq_lit(&e, "raf") || eq_lit(&e, "pef")
}

fn is_supported_extension(e: &Vec<char>) -> (r: bool)
    ensures
        r == supported_extension(e@),
{
    let s = string_from_chars(e);
    eq_lit(e, "jpg") || eq_lit(e, "jpeg") || eq_lit(e, "png") || eq_lit(e, "tiff") || eq_lit(
        e,
        "tif",
    ) || eq_lit(e, "bmp") || eq_lit(e, "webp") || is_raw(s.as_str())
}

/// The lowercased extension of a path, or the empty string when it has none.
pub open spec fn lower_extension(p: Seq<char>) -> Seq<char> {
    match path_extension(p) {
        Some(e) => lowercase(e),
        None => Seq::empty(),
    }
}

/// The lowercased extension of `path`, empty when it has none.
pub fn lowercase_extension(path: &str) -> (r: String)
    ensures
        r@ == lower_extension(path@),
{
    match extension_of(path) {
        Some(e) => to_lowercase(e.as_str()),
        None => String::new(),
    }
}

/// Whether the catalog imports the file at `path`.
pub fn is_supported_image_path(path: &str) -> (r: bool)
    ensures
        r == supported_path(path@),
{
    match extension_of(path) {
        Some(e) => {
            let lower = to_lowercase(e.as_str());
            let cs = chars_of(lower.as_str());
            is_supported_extension(&cs)
        },
        None => false,
    }
}

/// The catalog format of a file with the given lowercase extension:
/// `jpeg`, `png`, `tiff` or `raw`, and `jpeg` for anything else.
pub open spec fn format_for(ext: Seq<char>) -> Seq<char> {
    if ext == "jpg"@ || ext == "jpeg"@ {
        "jpeg"@
    } else if ext == "png"@ {
        "png"@
    } else if ext == "tiff"@ || ext == "tif"@ {
        "tiff"@
    } else if raw_extension(ext) {
        "raw"@
    } else {
        "jpeg"@
    }
}

/// The catalog format of a file with the given lowercase extension.
pub fn format_for_extension(ext: &str) -> (r: String)
    ensures
        r@ == format_for(ext@),
{
    let e = chars_of(ext);
    if eq_lit(&e, "jpg") || eq_lit(&e, "jpeg") {
        String::from_str("jpeg")
    } else if eq_lit(&e, "png") {
        String::from_str("png")
    } else if eq_lit(&e, "tiff") || eq_lit(&e, "tif") {
        String::from_str("tiff")
    } else if is_raw(ext) {
        String::from_str("raw")
    } else {
        String::from_str("jpeg")
    }
}

/// `s` with every backslash replaced by a forward slash.
pub open spec fn forward_slashes(s: Seq<char>) -> Seq<char> {
    s.map_values(|c: char| if c == '\\' { '/' } else { c })
}

/// Replaces every backslash of a path by a forward slash.
pub fn to_forward_slashes(path: &str) -> (r: String)
    ensures
        r@ == forward_slashes(path@),
{
    let cs = chars_of(path);
    let mut out = String::new();
    let mut i: usize = 0;
    while i < cs.len()
        invariant
            i <= cs.len(),
            cs@ == path@,
            out@ == forward_slashes(path@).take(i as int),
        decreases cs.len() - i,
    {
        let c = cs[i];
        let d = if c == '\\' {
            '/'
        } else {
            c
        };
        proof {
            assert(forward_slashes(path@).take(i + 1) =~= forward_slashes(path@).take(i as int).push(d));
        }
        push_char(&mut out, d);
        i = i + 1;
    }
    proof {
        assert(forward_slashes(path@).take(i as int) =~= forward_slashes(path@));
    }
    out
}

/// The file name of a path, or `unknown` when it has none.
pub open spec fn file_name_or_unknown(p: Seq<char>) -> Seq<char> {
    match path_file_name(p) {
        Some(n) => n,
        None => "unknown"@,
    }
}

/// The file name of `path`, or `unknown`.
pub fn file_name_or_default(path: &str) -> (r: String)
    ensures
        r@ == file_name_or_unknown(path@),
{
    match file_name_of(path) {
        Some(n) => n,
        None => String::from_str("unknown"),
    }
}

/// The file extension an export in `format` is written with.
pub open spec fn export_ext(format: Seq<char>) -> Seq<char> {
    if format == "png"@ {
        "png"@
    } else if format == "tiff"@ {
        "tiff"@
    } else {
        "jpg"@
    }
}

/// The file extension an export in `format` is written with: `png`, `tiff`,
/// and `jpg` for any other format.
pub fn export_extension(format: &str) -> (r: String)
    ensures
        r@ == export_ext(format@),
{
    let f = chars_of(format);
    if eq_lit(&f, "png") {
        String::from_str("png")
    } else if eq_lit(&f, "tiff") {
        String::from_str("tiff")
    } else {
        String::from_str("jpg")
    }
}

/// Where a batch export writes the image at `file_path`: in `output_dir`, under
/// the image's file stem (`untitled` when it has none), with the extension of
/// the export format.
pub open spec fn batch_output(output_dir: Seq<char>, file_path: Seq<char>, format: Seq<char>) -> Seq<
    char,
> {
    let stem = match path_file_stem(file_path) {
        Some(s) => s,
        None => "untitled"@,
    };
    output_dir + seq!['/'] + stem + seq!['.'] + export_ext(format)
}

/// The path a batch export writes the image at `file_path` to.
pub fn batch_output_path(output_dir: &str, file_path: &str, format: &str) -> (r: String)
    ensures
        r@ == batch_output(output_dir@, file_path@, format@),
{
    let stem = match file_stem_of(file_path) {
        Some(s) => s,
        None => String::from_str("untitled"),
    };
    let ext = export_extension(format);
    let mut out = String::from_str(output_dir);
    push_char(&mut out, '/');
    out.append(stem.as_str());
    push_char(&mut out, '.');
    out.append(ext.as_str());
    out
}

/// Where the XMP sidecar of an image goes by default: beside the image, with
/// the extension `xmp`.
pub fn xmp_sidecar_path(file_path: &str) -> (r: String)
    ensures
        r@ == path_with_extension(file_path@, "xmp"@),
{
    proof {
        reveal_strlit("xmp");
    }
    with_extension_of(file_path, "xmp")
}

/// The directory the catalog lives in: `photo-editor` under the user's data
/// directory, or `./data` when there is none.
pub fn dirs_data_path(data_dir: Option<String>) -> (r: String)
    ensures
        data_dir matches Some(d) ==> r@ == path_join(d@, "photo-editor"@),
        data_dir is None ==> r@ == "./data"@,
{
    match data_dir {
        Some(d) => join_path(d.as_str(), "photo-editor"),
        None => String::from_str("./data"),
    }
}

/// The operating systems whose data directory the catalog knows.
#[derive(Debug, Clone, Copy, PartialEq, Eq, Structural)]
pub enum Platform {
    Windows,
    MacOs,
    Linux,
}

/// The user's data directory on `platform`, from the environment's
/// `APPDATA`, `XDG_DATA_HOME` and `HOME`: on Windows `%APPDATA%`; on macOS
/// `$HOME/Library/Application Support`; on Linux `$XDG_DATA_HOME`, else
/// `$HOME/.local/share`; none when the variables it needs are not set.
pub open spec fn data_dir_for(
    platform: Platform,
    appdata: Option<Seq<char>>,
    xdg_data_home: Option<Seq<char>>,
    home: Option<Seq<char>>,
) -> Option<Seq<char>> {
    match platform {
        Platform::Windows => appdata,
        Platform::MacOs => match home {
            Some(h) => Some(path_join(h, "Library/Application Support"@)),
            None => None,
        },
        Platform::Linux => match xdg_data_home {
            Some(x) => Some(x),
            None => match home {
                Some(h) => Some(path_join(h, ".local/share"@)),
                None => None,
            },
        },
    }
}

/// The view of an optional string.
pub open spec fn opt_view(o: Option<String>) -> Option<Seq<char>> {
    match o {
        Some(s) => Some(s@),
        None => None,
    }
}

/// The user's data directory on `platform`; see [`data_dir_for`].
pub fn dirs_next_data(
    platform: Platform,
    appdata: Option<String>,
    xdg_data_home: Option<String>,
    home: Option<String>,
) -> (r: Option<String>)
    ensures
        opt_view(r) == data_dir_for(platform, opt_view(appdata), opt_view(xdg_data_home), opt_view(home)),
{
    match platform {
        Platform::Windows => appdata,
        Platform::MacOs => match home {
            Some(h) => Some(join_path(h.as_str(), "Library/Application Support")),
            None => None,
        },
        Platform::Linux => match xdg_data_home {
            Some(x) => Some(x),
            None => match home {
                Some(h) => Some(join_path(h.as_str(), ".local/share")),
                None => None,
            },
        },
    }
}

} // verus!
