//! The catalog's records: images, collections, edit history, snapshots,
//! import progress, export settings and cached previews.
use vstd::prelude::*;

verus! {

/// An IEEE-754 double held by its bit pattern (`f64::to_bits`): the catalog
/// stores and hands such values on but never computes with them.
#[derive(Clone, Copy, Debug, PartialEq, Eq)]
pub struct FloatBits {
    pub bits: u64,
}

/// One image of the catalog.
#[derive(Clone, Debug)]
pub struct ImageRecord {
    pub id: String,
    pub file_path: String,
    pub file_name: String,
    pub format: String,
    pub width: u32,
    pub height: u32,
    pub date_taken: Option<String>,
    pub rating: u8,
    pub color_label: String,
    pub flag: String,
    pub camera: Option<String>,
    pub lens: Option<String>,
    pub iso: Option<u32>,
    pub focal_length: Option<FloatBits>,
    pub aperture: Option<FloatBits>,
    pub shutter_speed: Option<String>,
    pub edit_params: Option<String>,
    pub tags: Vec<String>,
    pub created_at: String,
}

/// A (possibly nested) collection of images.
#[derive(Clone, Debug)]
pub struct CollectionRecord {
    pub id: String,
    pub name: String,
    pub parent_id: Option<String>,
    pub image_count: u32,
    pub created_at: String,
}

/// One entry of an image's edit history.
#[derive(Clone, Debug)]
pub struct HistoryEntry {
    pub id: String,
    pub image_id: String,
    pub action: String,
    pub params_json: String,
    pub created_at: String,
}

/// A named snapshot of an image's edit parameters.
#[derive(Clone, Debug)]
pub struct SnapshotRecord {
    pub id: String,
    pub image_id: String,
    pub name: String,
    pub params_json: String,
    pub created_at: String,
}

/// Progress of a running import.
#[derive(Clone, Debug)]
pub struct ImportProgress {
    pub total: u32,
    pub processed: u32,
    pub current_file: String,
}

/// How an image is to be exported.
#[derive(Clone, Debug)]
pub struct ExportSettings {
    pub format: String,
    pub quality: u8,
    pub output_path: String,
    pub max_dimension: Option<u32>,
}

/// A decoded preview kept in memory: RGBA pixels and their dimensions.
#[derive(Clone, Debug)]
pub struct CachedPreview {
    pub data: std::sync::Arc<[u8]>,
    pub width: u32,
    pub height: u32,
}

/// The basic EXIF facts read from an image file.
#[derive(Clone, Debug)]
pub struct ExifBasic {
    pub date_taken: Option<String>,
    pub camera: Option<String>,
    pub lens: Option<String>,
    pub iso: Option<u32>,
    pub focal_length: Option<FloatBits>,
    pub aperture: Option<FloatBits>,
    pub shutter_speed: Option<String>,
}

impl ExifBasic {
    /// No EXIF facts at all: what a file without readable EXIF yields.
    pub fn empty() -> (r: ExifBasic)
        ensures
            r.date_taken is None,
            r.camera is None,
            r.lens is None,
            r.iso is None,
            r.focal_length is None,
            r.aperture is None,
            r.shutter_speed is None,
    {
        ExifBasic {
            date_taken: None,
            camera: None,
            lens: None,
            iso: None,
            focal_length: None,
            aperture: None,
            shutter_speed: None,
        }
    }
}

/// The machine-learning denoiser; it holds no state yet.
pub struct AiDenoiser;

impl AiDenoiser {
    /// Creates the denoiser; this always succeeds.
    pub fn new() -> (r: Result<AiDenoiser, String>)
        ensures
            r is Ok,
    {
        Ok(AiDenoiser)
    }
}

/// The default of boolean edit settings that are on unless stated otherwise
/// (lens CA and vignette correction).
pub fn default_true() -> (r: bool)
    ensures
        r,
{
    true
}

} // verus!
