//! The EXIF data of an image file: every field, as `kamadak-exif` reads and
//! displays it, and the few facts the catalog keeps of each image.
use vstd::prelude::*;
use crate::paths::eq_lit;
use crate::text::{chars_of, string_from_chars};

verus! {

/// A field of a file's EXIF data: the image file directory it is in (0 for
/// the primary image), its tag's name, its value as displayed, and its first
/// value read as an unsigned integer and as a rational number, where the
/// value has such a first element.
pub struct ExifField {
    pub ifd: u16,
    pub name: String,
    pub text: String,
    pub uint: Option<u32>,
    pub rational: Option<(u32, u32)>,
}

/// The value of an [`ExifField`].
pub struct FieldView {
    pub ifd: u16,
    pub name: Seq<char>,
    pub text: Seq<char>,
    pub uint: Option<u32>,
    pub rational: Option<(u32, u32)>,
}

/// The value of an [`ExifField`].
pub open spec fn field_view(f: ExifField) -> FieldView {
    FieldView { ifd: f.ifd, name: f.name@, text: f.text@, uint: f.uint, rational: f.rational }
}

/// The values of fields.
pub open spec fn field_views(v: Seq<ExifField>) -> Seq<FieldView> {
    v.map_values(|f: ExifField| field_view(f))
}

/// The fields `kamadak-exif` reads from the contents `bytes` of a file (a
/// JPEG, TIFF, PNG, WebP or HEIF container), in its order, or the text of its
/// error.
pub uninterp spec fn exif_field_list(bytes: Seq<u8>) -> Result<Seq<FieldView>, Seq<char>>;

/// The value of what [`exif_fields`] gives.
pub open spec fn fields_result_view(r: Result<Vec<ExifField>, String>) -> Result<Seq<FieldView>, Seq<char>> {
    match r {
        Ok(v) => Ok(field_views(v@)),
        Err(e) => Err(e@),
    }
}

/// Calls `exif::Reader::read_from_container` on the contents of a file and
/// converts each field it read: the IFD number, the tag's name (its
/// `Display`), the value's `display_value`, `Value::get_uint(0)`, and the
/// first element of a rational value. Fails with the error's text. The
/// result is named [`exif_field_list`].
#[verifier::external_body]
fn exif_fields(bytes: &[u8]) -> (r: Result<Vec<ExifField>, String>)
    ensures
        fields_result_view(r) == exif_field_list(bytes@),
{
    let exif = exif::Reader::new().read_from_container(&mut std::io::Cursor::new(bytes)).map_err(|e| e.to_string())?;
    Ok(exif.fields().map(|f| ExifField {
        ifd: f.ifd_num.index(),
        name: f.tag.to_string(),
        text: f.display_value().to_string(),
        uint: f.value.get_uint(0),
        rational: match &f.value {
            exif::Value::Rational(v) => v.first().map(|q| (q.num, q.denom)),
            _ => None,
        },
    }).collect())
}

/// Every field of the EXIF data of a file's contents, as its tag's name and
/// its displayed value, in the order read; fails with the reader's message.
pub fn exif_map(bytes: &[u8]) -> (r: Result<Vec<(String, String)>, String>)
    ensures
        match exif_field_list(bytes@) {
            Ok(fs) => r matches Ok(v) && v@.len() == fs.len() && forall|i: int|
                0 <= i < fs.len() ==> #[trigger] v@[i].0@ == fs[i].name && v@[i].1@ == fs[i].text,
            Err(e) => r matches Err(m) && m@ == e,
        },
{
    match exif_fields(bytes) {
        Ok(fields) => {
            let mut out: Vec<(String, String)> = Vec::new();
            let mut i: usize = 0;
            while i < fields.len()
                invariant
                    i <= fields.len(),
                    out@.len() == i,
                    forall|j: int|
                        0 <= j < i ==> #[trigger] out@[j].0@ == fields@[j].name@ && out@[j].1@
                            == fields@[j].text@,
                decreases fields.len() - i,
            {
                out.push((fields[i].name.clone(), fields[i].text.clone()));
                i = i + 1;
            }
            proof {
                assert forall|j: int| 0 <= j < fields.len() implies field_views(fields@)[j].name
                    == fields@[j].name@ && field_views(fields@)[j].text == fields@[j].text@ by {}
            }
            Ok(out)
        },
        Err(e) => Err(e),
    }
}

/// The last field of the primary image named `name`: the one `Exif::get_field`
/// finds.
pub open spec fn primary_field(fs: Seq<FieldView>, name: Seq<char>) -> Option<FieldView>
    decreases fs.len(),
{
    if fs.len() == 0 {
        None
    } else if fs.last().ifd == 0 && fs.last().name == name {
        Some(fs.last())
    } else {
        primary_field(fs.drop_last(), name)
    }
}

/// `s` without leading double quotes.
pub open spec fn drop_leading_quotes(s: Seq<char>) -> Seq<char>
    decreases s.len(),
{
    if s.len() > 0 && s[0] == '"' {
        drop_leading_quotes(s.drop_first())
    } else {
        s
    }
}

/// `s` without trailing double quotes.
pub open spec fn drop_trailing_quotes(s: Seq<char>) -> Seq<char>
    decreases s.len(),
{
    if s.len() > 0 && s.last() == '"' {
        drop_trailing_quotes(s.drop_last())
    } else {
        s
    }
}

/// `s` without the double quotes around it: `str::trim_matches('"')`.
pub open spec fn unquoted(s: Seq<char>) -> Seq<char> {
    drop_trailing_quotes(drop_leading_quotes(s))
}

/// Removes the double quotes around `s`.
pub fn unquote(s: &str) -> (r: String)
    ensures
        r@ == unquoted(s@),
{
    let cs = chars_of(s);
    let mut a: usize = 0;
    proof {
        assert(s@.skip(0) =~= s@);
    }
    while a < cs.len() && cs[a] == '"'
        invariant
            a <= cs.len(),
            cs@ == s@,
            drop_leading_quotes(s@) == drop_leading_quotes(s@.skip(a as int)),
        decreases cs.len() - a,
    {
        proof {
            assert(s@.skip(a as int).drop_first() =~= s@.skip(a + 1));
        }
        a = a + 1;
    }
    proof {
        assert(s@.skip(a as int) =~= s@.subrange(a as int, cs.len() as int));
    }
    let mut b: usize = cs.len();
    while b > a && cs[b - 1] == '"'
        invariant
            a <= b <= cs.len(),
            cs@ == s@,
            unquoted(s@) == drop_trailing_quotes(s@.subrange(a as int, b as int)),
        decreases b,
    {
        proof {
            assert(s@.subrange(a as int, b as int).drop_last() =~= s@.subrange(a as int, b - 1));
        }
        b = b - 1;
    }
    let mut out: Vec<char> = Vec::new();
    let mut i: usize = a;
    while i < b
        invariant
            a <= i <= b <= cs.len(),
            cs@ == s@,
            out@ == s@.subrange(a as int, i as int),
        decreases b - i,
    {
        proof {
            assert(s@.subrange(a as int, i + 1) =~= s@.subrange(a as int, i as int).push(s@[i as int]));
        }
        out.push(cs[i]);
        i = i + 1;
    }
    string_from_chars(&out)
}

/// The EXIF facts the catalog keeps of an image, with the focal length and
/// the f-number as the rational numbers the file holds.
pub struct ExifFacts {
    pub date_taken: Option<String>,
    pub camera: Option<String>,
    pub lens: Option<String>,
    pub iso: Option<u32>,
    pub focal_length: Option<(u32, u32)>,
    pub aperture: Option<(u32, u32)>,
    pub shutter_speed: Option<String>,
}

/// The displayed value of the primary field `name`, if there is one.
pub open spec fn field_text(fs: Seq<FieldView>, name: Seq<char>) -> Option<Seq<char>> {
    match primary_field(fs, name) {
        Some(f) => Some(f.text),
        None => None,
    }
}

/// The displayed value of the primary field `name` without the quotes
/// around it, if there is such a field.
pub open spec fn field_unquoted(fs: Seq<FieldView>, name: Seq<char>) -> Option<Seq<char>> {
    match primary_field(fs, name) {
        Some(f) => Some(unquoted(f.text)),
        None => None,
    }
}

/// The view of an optional string.
pub open spec fn opt_string_view(o: Option<String>) -> Option<Seq<char>> {
    match o {
        Some(s) => Some(s@),
        None => None,
    }
}

/// What the catalog keeps of the fields `fs`: the date taken
/// (`DateTimeOriginal`), the camera (`Model`) and lens (`LensModel`) without
/// quotes, the ISO speed (`PhotographicSensitivity`) as an integer, the focal
/// length (`FocalLength`) and f-number (`FNumber`) as rationals, and the
/// exposure time (`ExposureTime`), each from the primary image.
pub open spec fn facts_match(r: ExifFacts, fs: Seq<FieldView>) -> bool {
    &&& opt_string_view(r.date_taken) == field_text(fs, "DateTimeOriginal"@)
    &&& opt_string_view(r.camera) == field_unquoted(fs, "Model"@)
    &&& opt_string_view(r.lens) == field_unquoted(fs, "LensModel"@)
    &&& r.iso == (match primary_field(fs, "PhotographicSensitivity"@) {
        Some(f) => f.uint,
        None => None,
    })
    &&& r.focal_length == (match primary_field(fs, "FocalLength"@) {
        Some(f) => f.rational,
        None => None,
    })
    &&& r.aperture == (match primary_field(fs, "FNumber"@) {
        Some(f) => f.rational,
        None => None,
    })
    &&& opt_string_view(r.shutter_speed) == field_text(fs, "ExposureTime"@)
}

/// No facts at all.
pub open spec fn no_facts(r: ExifFacts) -> bool {
    &&& r.date_taken is None
    &&& r.camera is None
    &&& r.lens is None
    &&& r.iso is None
    &&& r.focal_length is None
    &&& r.aperture is None
    &&& r.shutter_speed is None
}

/// The last primary field named `name` among `fields`.
fn find_primary(fields: &Vec<ExifField>, name: &str) -> (r: Option<usize>)
    ensures
        match primary_field(field_views(fields@), name@) {
            Some(f) => r matches Some(i) && i < fields.len() && field_view(fields@[i as int]) == f,
            None => r is None,
        },
{
    let k = chars_of(name);
    let mut i: usize = fields.len();
    proof {
        assert(field_views(fields@).take(i as int) =~= field_views(fields@));
    }
    while i > 0
        invariant
            i <= fields.len(),
            k@ == name@,
            primary_field(field_views(fields@), name@) == primary_field(
                field_views(fields@).take(i as int),
                name@,
            ),
        decreases i,
    {
        let ghost t = field_views(fields@).take(i as int);
        proof {
            assert(t.drop_last() =~= field_views(fields@).take(i - 1));
            assert(t.last() == field_view(fields@[i - 1]));
        }
        let nc = chars_of(fields[i - 1].name.as_str());
        if fields[i - 1].ifd == 0 && crate::text::chars_eq(&nc, &k) {
            return Some(i - 1);
        }
        i = i - 1;
    }
    None
}

fn text_of(fields: &Vec<ExifField>, name: &str) -> (r: Option<String>)
    ensures
        opt_string_view(r) == field_text(field_views(fields@), name@),
{
    match find_primary(fields, name) {
        Some(i) => Some(fields[i].text.clone()),
        None => None,
    }
}

fn unquoted_of(fields: &Vec<ExifField>, name: &str) -> (r: Option<String>)
    ensures
        opt_string_view(r) == field_unquoted(field_views(fields@), name@),
{
    match find_primary(fields, name) {
        Some(i) => Some(unquote(fields[i].text.as_str())),
        None => None,
    }
}

/// What the catalog keeps of the EXIF fields of an image.
pub fn exif_facts(fields: &Vec<ExifField>) -> (r: ExifFacts)
    ensures
        facts_match(r, field_views(fields@)),
{
    let iso = match find_primary(fields, "PhotographicSensitivity") {
        Some(i) => fields[i].uint,
        None => None,
    };
    let focal_length = match find_primary(fields, "FocalLength") {
        Some(i) => fields[i].rational,
        None => None,
    };
    let aperture = match find_primary(fields, "FNumber") {
        Some(i) => fields[i].rational,
        None => None,
    };
    ExifFacts {
        date_taken: text_of(fields, "DateTimeOriginal"),
        camera: unquoted_of(fields, "Model"),
        lens: unquoted_of(fields, "LensModel"),
        iso,
        focal_length,
        aperture,
        shutter_speed: text_of(fields, "ExposureTime"),
    }
}

/// What the catalog keeps of the EXIF data of a file's contents; nothing
/// when the data cannot be read.
pub fn exif_facts_of(bytes: &[u8]) -> (r: ExifFacts)
    ensures
        match exif_field_list(bytes@) {
            Ok(fs) => facts_match(r, fs),
            Err(_) => no_facts(r),
        },
{
    match exif_fields(bytes) {
        Ok(fields) => exif_facts(&fields),
        Err(_) => ExifFacts {
            date_taken: None,
            camera: None,
            lens: None,
            iso: None,
            focal_length: None,
            aperture: None,
            shutter_speed: None,
        },
    }
}

} // verus!
