# photo_editor

The core of a desktop photo catalog and developer, written in Verus: the
catalog's rules and the parts of image handling that are not floating-point
pixel arithmetic, each with a contract that Verus proves.

## Layout

- `src/` — the verified library.
  - `text.rs` — characters and words of strings: Unicode whitespace,
    splitting into words and joining them again.
  - `lens_match.rs` — lens identities: normal forms, ids, token similarity,
    and finding a lens profile by id or by the name a camera reports.
  - `lens_xml.rs` — reading lens descriptions and their calibration entries
    out of lensfun XML with `quick_xml`.
  - `models.rs` — the catalog's records.
  - `paths.rs` — which files are imported, where exports and sidecars go,
    where the catalog lives.
  - `catalog.rs` — the SQL statements the catalog runs, new records, and
    the selection and outcome of an import.
  - `loader.rs` — decoding image files to RGBA pixels; previews and
    thumbnails.
  - `metadata.rs` — EXIF fields of an image file and the facts the catalog
    keeps of them.
  - `export.rs` — encoding an exported image as PNG, TIFF or JPEG.
  - `gpu_layout.rs` — the row layout of GPU texture readbacks.
- `tests/` — tests of the library, run against the real outside crates.
- `app/` — the application around the library: the commands, the SQLite
  database, file and directory access, and the floating-point image
  pipeline (edits, curves, spatial filters, lens correction).

Verify with `verus` on `src/lib.rs`; the outside crates are those in
`Cargo.toml`.
