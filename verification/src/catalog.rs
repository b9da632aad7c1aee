//! The catalog's rules: which statements it hands to the database for
//! browsing, rating, searching and filling collections, how a new image record
//! is made from an imported file, and how the outcome of an import is judged.
use vstd::prelude::*;
use vstd::string::StringExecFns;
use crate::models::{CollectionRecord, ExifBasic, FloatBits, ImageRecord};
use crate::paths::{
    eq_lit, file_name_or_default, is_supported_image_path, supported_path, file_name_or_unknown, format_for, format_for_extension,
    forward_slashes, lower_extension, lowercase_extension, to_forward_slashes,
};
use crate::text::{chars_of, push_char};

verus! {

/// A value bound to a `?` placeholder of a statement.
#[derive(Clone, Debug)]
pub enum SqlParam {
    Null,
    Integer(i64),
    /// A floating-point number, by its IEEE bits.
    Real(FloatBits),
    Text(String),
    Blob(Vec<u8>),
}

/// The mathematical value of a [`SqlParam`].
pub enum SqlParamView {
    Null,
    Integer(int),
    Real(u64),
    Text(Seq<char>),
    Blob(Seq<u8>),
}

impl View for SqlParam {
    type V = SqlParamView;

    open spec fn view(&self) -> SqlParamView {
        match self {
            SqlParam::Null => SqlParamView::Null,
            SqlParam::Integer(i) => SqlParamView::Integer(*i as int),
            SqlParam::Real(f) => SqlParamView::Real(f.bits),
            SqlParam::Text(s) => SqlParamView::Text(s@),
            SqlParam::Blob(b) => SqlParamView::Blob(b@),
        }
    }
}

/// A statement for the database: SQL text and the values of its placeholders,
/// in order.
#[derive(Clone, Debug)]
pub struct Statement {
    pub sql: String,
    pub params: Vec<SqlParam>,
}

/// The values of a list of parameters.
pub open spec fn param_views(ps: Seq<SqlParam>) -> Seq<SqlParamView> {
    ps.map_values(|p: SqlParam| p@)
}

// ---------------------------------------------------------------------------
// Browsing
// ---------------------------------------------------------------------------

/// The columns images may be sorted by.
pub open spec fn sortable_column(c: Seq<char>) -> bool {
    c == "date_taken"@ || c == "rating"@ || c == "file_name"@ || c == "created_at"@
}

/// The column images are sorted by: the one asked for when it is sortable,
/// else `date_taken`.
pub open spec fn sort_column(sort_by: Seq<char>) -> Seq<char> {
    if sortable_column(sort_by) {
        sort_by
    } else {
        "date_taken"@
    }
}

/// ASCII case folding of a code point.
pub open spec fn fold_ascii(u: u32) -> u32 {
    if 65 <= u <= 90 {
        (u + 32) as u32
    } else {
        u
    }
}

/// `str::eq_ignore_ascii_case`: equal up to the case of ASCII letters.
pub open spec fn eq_ignore_ascii_case(a: Seq<char>, b: Seq<char>) -> bool {
    a.len() == b.len() && forall|i: int|
        0 <= i < a.len() ==> fold_ascii(#[trigger] a[i] as u32) == fold_ascii(b[i] as u32)
}

/// The sort direction: `ASC` when asked for in any ASCII case, else `DESC`.
pub open spec fn sort_direction(sort_order: Seq<char>) -> Seq<char> {
    if eq_ignore_ascii_case(sort_order, "ASC"@) {
        "ASC"@
    } else {
        "DESC"@
    }
}

/// The SQL that lists a page of images in the given order.
pub open spec fn images_page_sql(sort_by: Seq<char>, sort_order: Seq<char>) -> Seq<char> {
    IMAGES_PAGE_HEAD@ + sort_column(sort_by) + seq![' '] + sort_direction(sort_order)
        + IMAGES_PAGE_TAIL@
}

/// The start of the SQL that lists a page of images, up to its sort column.
pub const IMAGES_PAGE_HEAD: &'static str =
    "SELECT id, file_path, file_name, format, width, height, date_taken, rating,
                color_label, flag, camera, lens, iso, focal_length, aperture, shutter_speed,
                edit_params, created_at
         FROM images ORDER BY ";

/// The end of the SQL that lists a page of images.
pub const IMAGES_PAGE_TAIL: &'static str = " LIMIT ? OFFSET ?";

fn fold_ascii_exec(u: u32) -> (r: u32)
    ensures
        r == fold_ascii(u),
{
    if 65 <= u && u <= 90 {
        u + 32
    } else {
        u
    }
}

/// Whether two strings are equal up to the case of ASCII letters.
pub fn str_eq_ignore_ascii_case(a: &str, b: &str) -> (r: bool)
    ensures
        r == eq_ignore_ascii_case(a@, b@),
{
    let ca = chars_of(a);
    let cb = chars_of(b);
    if ca.len() != cb.len() {
        return false;
    }
    let mut i: usize = 0;
    while i < ca.len()
        invariant
            ca@ == a@,
            cb@ == b@,
            ca.len() == cb.len(),
            i <= ca.len(),
            forall|k: int| 0 <= k < i ==> fold_ascii(#[trigger] a@[k] as u32) == fold_ascii(b@[k] as u32),
        decreases ca.len() - i,
    {
        if fold_ascii_exec(ca[i] as u32) != fold_ascii_exec(cb[i] as u32) {
            return false;
        }
        i = i + 1;
    }
    true
}

/// The column a page of images is sorted by.
pub fn images_sort_column(sort_by: &str) -> (r: String)
    ensures
        r@ == sort_column(sort_by@),
{
    let s = chars_of(sort_by);
    if eq_lit(&s, "date_taken") || eq_lit(&s, "rating") || eq_lit(&s, "file_name") || eq_lit(
        &s,
        "created_at",
    ) {
        String::from_str(sort_by)
    } else {
        String::from_str("date_taken")
    }
}

/// The direction a page of images is sorted in.
pub fn images_sort_direction(sort_order: &str) -> (r: String)
    ensures
        r@ == sort_direction(sort_order@),
{
    if str_eq_ignore_ascii_case(sort_order, "ASC") {
        String::from_str("ASC")
    } else {
        String::from_str("DESC")
    }
}

/// The statement that lists `limit` images from `offset` on, sorted by
/// `sort_by` (one of the sortable columns, else `date_taken`) in the
/// direction `sort_order` (`ASC` in any case, else `DESC`).
pub fn images_page_statement(offset: u32, limit: u32, sort_by: &str, sort_order: &str) -> (r:
    Statement)
    ensures
        r.sql@ == images_page_sql(sort_by@, sort_order@),
        param_views(r.params@) == seq![
            SqlParamView::Integer(limit as int),
            SqlParamView::Integer(offset as int),
        ],
{
    let col = images_sort_column(sort_by);
    let dir = images_sort_direction(sort_order);
    let mut sql = String::from_str(IMAGES_PAGE_HEAD);
    sql.append(col.as_str());
    push_char(&mut sql, ' ');
    sql.append(dir.as_str());
    sql.append(IMAGES_PAGE_TAIL);
    let params = vec![SqlParam::Integer(limit as i64), SqlParam::Integer(offset as i64)];
    proof {
        assert(param_views(params@) =~= seq![
            SqlParamView::Integer(limit as int),
            SqlParamView::Integer(offset as int),
        ]);
    }
    Statement { sql, params }
}

// ---------------------------------------------------------------------------
// Ratings
// ---------------------------------------------------------------------------

/// The highest rating an image can have.
pub const MAX_RATING: u8 = 5;

/// A requested rating, capped at five stars.
pub fn clamp_rating(rating: u8) -> (r: u8)
    ensures
        r == if rating <= MAX_RATING {
            rating
        } else {
            MAX_RATING
        },
{
    if rating <= MAX_RATING {
        rating
    } else {
        MAX_RATING
    }
}

/// The SQL that sets the rating of an image.
pub const SET_RATING_SQL: &'static str = "UPDATE images SET rating = ?1 WHERE id = ?2";

/// The statement that sets the rating of `image_id`, capped at five stars.
pub fn set_rating_statement(image_id: &str, rating: u8) -> (r: Statement)
    ensures
        r.sql@ == SET_RATING_SQL@,
        param_views(r.params@) == seq![
            SqlParamView::Integer(if rating <= MAX_RATING { rating as int } else { MAX_RATING as int }),
            SqlParamView::Text(image_id@),
        ],
{
    let capped = clamp_rating(rating);
    let params = vec![SqlParam::Integer(capped as i64), SqlParam::Text(String::from_str(image_id))];
    proof {
        assert(param_views(params@) =~= seq![
            SqlParamView::Integer(capped as int),
            SqlParamView::Text(image_id@),
        ]);
    }
    Statement { sql: String::from_str(SET_RATING_SQL), params }
}

// ---------------------------------------------------------------------------
// Single images, labels, flags and tags
// ---------------------------------------------------------------------------

/// The SQL that reads one image by identifier.
pub const IMAGE_BY_ID_SQL: &'static str =
    "SELECT id, file_path, file_name, format, width, height, date_taken, rating,
                color_label, flag, camera, lens, iso, focal_length, aperture, shutter_speed,
                edit_params, created_at
         FROM images WHERE id = ?1";

/// The SQL that reads the thumbnail of an image.
pub const THUMBNAIL_SQL: &'static str = "SELECT thumbnail FROM images WHERE id = ?1";

/// The SQL that sets the color label of an image.
pub const SET_COLOR_LABEL_SQL: &'static str = "UPDATE images SET color_label = ?1 WHERE id = ?2";

/// The SQL that sets the flag of an image.
pub const SET_FLAG_SQL: &'static str = "UPDATE images SET flag = ?1 WHERE id = ?2";

/// The SQL that adds a tag name unless it exists.
pub const INSERT_TAG_SQL: &'static str = "INSERT OR IGNORE INTO tags (id, name) VALUES (?1, ?2)";

/// The SQL that finds the identifier of a tag name.
pub const TAG_ID_SQL: &'static str = "SELECT id FROM tags WHERE name = ?1";

/// The SQL that tags an image unless it is tagged so already.
pub const LINK_TAG_SQL: &'static str =
    "INSERT OR IGNORE INTO image_tags (image_id, tag_id) VALUES (?1, ?2)";

/// The SQL that removes a tag, by name, from an image.
pub const REMOVE_TAG_SQL: &'static str =
    "DELETE FROM image_tags WHERE image_id = ?1 AND tag_id = (SELECT id FROM tags WHERE name = ?2)";

/// The SQL that lists the tag names of an image.
pub const TAGS_OF_IMAGE_SQL: &'static str =
    "SELECT t.name FROM tags t JOIN image_tags it ON t.id = it.tag_id WHERE it.image_id = ?1";

/// The SQL that deletes an image.
pub const DELETE_IMAGE_SQL: &'static str = "DELETE FROM images WHERE id = ?1";

/// A statement with one text value.
fn text_statement(sql: &str, a: &str) -> (r: Statement)
    ensures
        r.sql@ == sql@,
        param_views(r.params@) == seq![SqlParamView::Text(a@)],
{
    let params = vec![SqlParam::Text(String::from_str(a))];
    proof {
        assert(param_views(params@) =~= seq![SqlParamView::Text(a@)]);
    }
    Statement { sql: String::from_str(sql), params }
}

/// A statement with two text values.
fn text2_statement(sql: &str, a: &str, b: &str) -> (r: Statement)
    ensures
        r.sql@ == sql@,
        param_views(r.params@) == seq![SqlParamView::Text(a@), SqlParamView::Text(b@)],
{
    let params = vec![SqlParam::Text(String::from_str(a)), SqlParam::Text(String::from_str(b))];
    proof {
        assert(param_views(params@) =~= seq![SqlParamView::Text(a@), SqlParamView::Text(b@)]);
    }
    Statement { sql: String::from_str(sql), params }
}

/// The statement that reads the image `image_id`.
pub fn image_by_id_statement(image_id: &str) -> (r: Statement)
    ensures
        r.sql@ == IMAGE_BY_ID_SQL@,
        param_views(r.params@) == seq![SqlParamView::Text(image_id@)],
{
    text_statement(IMAGE_BY_ID_SQL, image_id)
}

/// The statement that reads the thumbnail of `image_id`.
pub fn thumbnail_statement(image_id: &str) -> (r: Statement)
    ensures
        r.sql@ == THUMBNAIL_SQL@,
        param_views(r.params@) == seq![SqlParamView::Text(image_id@)],
{
    text_statement(THUMBNAIL_SQL, image_id)
}

/// The statement that sets the color label of `image_id`.
pub fn set_color_label_statement(image_id: &str, color_label: &str) -> (r: Statement)
    ensures
        r.sql@ == SET_COLOR_LABEL_SQL@,
        param_views(r.params@) == seq![SqlParamView::Text(color_label@), SqlParamView::Text(image_id@)],
{
    text2_statement(SET_COLOR_LABEL_SQL, color_label, image_id)
}

/// The statement that sets the flag of `image_id`.
pub fn set_flag_statement(image_id: &str, flag: &str) -> (r: Statement)
    ensures
        r.sql@ == SET_FLAG_SQL@,
        param_views(r.params@) == seq![SqlParamView::Text(flag@), SqlParamView::Text(image_id@)],
{
    text2_statement(SET_FLAG_SQL, flag, image_id)
}

/// The statement that adds the tag name `name`, under the fresh identifier
/// `tag_id`, unless the name exists.
pub fn insert_tag_statement(tag_id: &str, name: &str) -> (r: Statement)
    ensures
        r.sql@ == INSERT_TAG_SQL@,
        param_views(r.params@) == seq![SqlParamView::Text(tag_id@), SqlParamView::Text(name@)],
{
    text2_statement(INSERT_TAG_SQL, tag_id, name)
}

/// The statement that finds the identifier of the tag name `name`.
pub fn tag_id_statement(name: &str) -> (r: Statement)
    ensures
        r.sql@ == TAG_ID_SQL@,
        param_views(r.params@) == seq![SqlParamView::Text(name@)],
{
    text_statement(TAG_ID_SQL, name)
}

/// The statement that tags `image_id` with the tag `tag_id`.
pub fn link_tag_statement(image_id: &str, tag_id: &str) -> (r: Statement)
    ensures
        r.sql@ == LINK_TAG_SQL@,
        param_views(r.params@) == seq![SqlParamView::Text(image_id@), SqlParamView::Text(tag_id@)],
{
    text2_statement(LINK_TAG_SQL, image_id, tag_id)
}

/// The statement that removes the tag named `tag_name` from `image_id`.
pub fn remove_tag_statement(image_id: &str, tag_name: &str) -> (r: Statement)
    ensures
        r.sql@ == REMOVE_TAG_SQL@,
        param_views(r.params@) == seq![SqlParamView::Text(image_id@), SqlParamView::Text(tag_name@)],
{
    text2_statement(REMOVE_TAG_SQL, image_id, tag_name)
}

/// The statement that lists the tag names of `image_id`.
pub fn tags_for_image_statement(image_id: &str) -> (r: Statement)
    ensures
        r.sql@ == TAGS_OF_IMAGE_SQL@,
        param_views(r.params@) == seq![SqlParamView::Text(image_id@)],
{
    text_statement(TAGS_OF_IMAGE_SQL, image_id)
}

/// The statements that delete images: one per identifier, in order.
pub fn delete_images_statements(image_ids: &Vec<String>) -> (r: Vec<Statement>)
    ensures
        r.len() == image_ids.len(),
        forall|i: int|
            0 <= i < r.len() ==> (#[trigger] r@[i]).sql@ == DELETE_IMAGE_SQL@ && param_views(
                r@[i].params@,
            ) == seq![SqlParamView::Text(image_ids@[i]@)],
{
    let mut out: Vec<Statement> = Vec::new();
    let mut i: usize = 0;
    while i < image_ids.len()
        invariant
            i <= image_ids.len(),
            out.len() == i,
            forall|k: int|
                0 <= k < i ==> (#[trigger] out@[k]).sql@ == DELETE_IMAGE_SQL@ && param_views(
                    out@[k].params@,
                ) == seq![SqlParamView::Text(image_ids@[k]@)],
        decreases image_ids.len() - i,
    {
        out.push(text_statement(DELETE_IMAGE_SQL, image_ids[i].as_str()));
        i = i + 1;
    }
    out
}

// ---------------------------------------------------------------------------
// Edits, history and snapshots
// ---------------------------------------------------------------------------

/// The SQL that stores the edit parameters of an image.
pub const SAVE_EDIT_PARAMS_SQL: &'static str = "UPDATE images SET edit_params = ?1 WHERE id = ?2";

/// The SQL that records an edit in an image's history.
pub const INSERT_HISTORY_SQL: &'static str =
    "INSERT INTO edit_history (id, image_id, action, params_json) VALUES (?1, ?2, 'edit', ?3)";

/// The SQL that reads the current edit parameters of an image.
pub const CURRENT_PARAMS_SQL: &'static str = "SELECT edit_params FROM images WHERE id = ?1";

/// The SQL that stores a snapshot.
pub const INSERT_SNAPSHOT_SQL: &'static str =
    "INSERT INTO snapshots (id, image_id, name, params_json) VALUES (?1, ?2, ?3, ?4)";

/// The SQL that reads the parameters of a snapshot.
pub const LOAD_SNAPSHOT_SQL: &'static str = "SELECT params_json FROM snapshots WHERE id = ?1";

/// The SQL that lists the latest hundred history entries of an image.
pub const HISTORY_SQL: &'static str =
    "SELECT id, image_id, action, params_json, created_at
         FROM edit_history WHERE image_id = ?1 ORDER BY created_at DESC LIMIT 100";

/// The statements that save edit parameters: first they become the image's
/// current parameters, then they are recorded, under `history_id`, as an
/// `edit` in its history.
pub fn save_edit_params_statements(image_id: &str, params_json: &str, history_id: &str) -> (r: Vec<
    Statement,
>)
    ensures
        r.len() == 2,
        r@[0].sql@ == SAVE_EDIT_PARAMS_SQL@,
        param_views(r@[0].params@) == seq![SqlParamView::Text(params_json@), SqlParamView::Text(image_id@)],
        r@[1].sql@ == INSERT_HISTORY_SQL@,
        param_views(r@[1].params@) == seq![
            SqlParamView::Text(history_id@),
            SqlParamView::Text(image_id@),
            SqlParamView::Text(params_json@),
        ],
{
    let update = text2_statement(SAVE_EDIT_PARAMS_SQL, params_json, image_id);
    let params = vec![
        SqlParam::Text(String::from_str(history_id)),
        SqlParam::Text(String::from_str(image_id)),
        SqlParam::Text(String::from_str(params_json)),
    ];
    proof {
        assert(param_views(params@) =~= seq![
            SqlParamView::Text(history_id@),
            SqlParamView::Text(image_id@),
            SqlParamView::Text(params_json@),
        ]);
    }
    let history = Statement { sql: String::from_str(INSERT_HISTORY_SQL), params };
    vec![update, history]
}

/// The statement that reads the current edit parameters of `image_id`.
pub fn current_params_statement(image_id: &str) -> (r: Statement)
    ensures
        r.sql@ == CURRENT_PARAMS_SQL@,
        param_views(r.params@) == seq![SqlParamView::Text(image_id@)],
{
    text_statement(CURRENT_PARAMS_SQL, image_id)
}

/// The values a snapshot is stored with: its id, the image's id, its name,
/// and the image's current parameters or the empty JSON object.
pub open spec fn save_snapshot_params(
    snapshot_id: Seq<char>,
    image_id: Seq<char>,
    name: Seq<char>,
    current: Option<Seq<char>>,
) -> Seq<SqlParamView> {
    seq![
        SqlParamView::Text(snapshot_id),
        SqlParamView::Text(image_id),
        SqlParamView::Text(name),
        SqlParamView::Text(
            match current {
                Some(c) => c,
                None => "{}"@,
            },
        ),
    ]
}

/// A row of the snapshots table, by its id: the image, the name and the
/// parameters (JSON).
pub struct SnapshotRow {
    pub image_id: Seq<char>,
    pub name: Seq<char>,
    pub params_json: Seq<char>,
}

/// What [`INSERT_SNAPSHOT_SQL`] bound to `params` does to the snapshots
/// table `table`, given the ids of the images in the catalog: it adds the
/// row, or fails (`None`) when the id is taken, the image is not in the
/// catalog (the foreign key), or the values are not four texts.
pub open spec fn run_insert_snapshot(
    table: Map<Seq<char>, SnapshotRow>,
    images: Set<Seq<char>>,
    params: Seq<SqlParamView>,
) -> Option<Map<Seq<char>, SnapshotRow>> {
    if params.len() == 4 && params[0] is Text && params[1] is Text && params[2] is Text
        && params[3] is Text {
        let id = params[0]->Text_0;
        let image = params[1]->Text_0;
        if table.dom().contains(id) || !images.contains(image) {
            None
        } else {
            Some(
                table.insert(
                    id,
                    SnapshotRow { image_id: image, name: params[2]->Text_0, params_json: params[3]->Text_0 },
                ),
            )
        }
    } else {
        None
    }
}

/// What [`LOAD_SNAPSHOT_SQL`] bound to `params` reads from the snapshots
/// table `table`: the parameters of the row whose id is bound, if any.
pub open spec fn run_load_snapshot(table: Map<Seq<char>, SnapshotRow>, params: Seq<SqlParamView>) -> Option<
    Seq<char>,
> {
    if params.len() == 1 && params[0] is Text && table.dom().contains(params[0]->Text_0) {
        Some(table[params[0]->Text_0].params_json)
    } else {
        None
    }
}

/// A snapshot saved and then loaded gives back what was saved: when the
/// statement [`save_snapshot_statement`] builds is run on a snapshots table
/// that lacks its id, for an image in the catalog, it succeeds, and the
/// statement [`load_snapshot_statement`] builds for that id then reads the
/// image's parameters as they were (or `{}` when it had none). For an image
/// not in the catalog, saving fails and the table is unchanged.
pub proof fn law_snapshot_round_trip(
    table: Map<Seq<char>, SnapshotRow>,
    images: Set<Seq<char>>,
    snapshot_id: Seq<char>,
    image_id: Seq<char>,
    name: Seq<char>,
    current: Option<Seq<char>>,
)
    requires
        !table.dom().contains(snapshot_id),
    ensures
        images.contains(image_id) ==> (run_insert_snapshot(
            table,
            images,
            save_snapshot_params(snapshot_id, image_id, name, current),
        ) matches Some(t) && run_load_snapshot(t, seq![SqlParamView::Text(snapshot_id)]) == Some(
            match current {
                Some(c) => c,
                None => "{}"@,
            },
        )),
        !images.contains(image_id) ==> run_insert_snapshot(
            table,
            images,
            save_snapshot_params(snapshot_id, image_id, name, current),
        ) is None,
{
}

/// The statement that stores a snapshot named `name` of `image_id`, under
/// `snapshot_id`, holding the image's current parameters (or the empty JSON
/// object when it has none).
pub fn save_snapshot_statement(snapshot_id: &str, image_id: &str, name: &str, current: Option<String>) -> (r:
    Statement)
    ensures
        r.sql@ == INSERT_SNAPSHOT_SQL@,
        param_views(r.params@) == save_snapshot_params(snapshot_id@, image_id@, name@, crate::paths::opt_view(current)),
{
    let json = snapshot_params(current);
    let ghost jv = json@;
    let params = vec![
        SqlParam::Text(String::from_str(snapshot_id)),
        SqlParam::Text(String::from_str(image_id)),
        SqlParam::Text(String::from_str(name)),
        SqlParam::Text(json),
    ];
    proof {
        assert(param_views(params@) =~= seq![
            SqlParamView::Text(snapshot_id@),
            SqlParamView::Text(image_id@),
            SqlParamView::Text(name@),
            SqlParamView::Text(jv),
        ]);
    }
    Statement { sql: String::from_str(INSERT_SNAPSHOT_SQL), params }
}

/// The statement that reads the parameters of the snapshot `snapshot_id`.
pub fn load_snapshot_statement(snapshot_id: &str) -> (r: Statement)
    ensures
        r.sql@ == LOAD_SNAPSHOT_SQL@,
        param_views(r.params@) == seq![SqlParamView::Text(snapshot_id@)],
{
    text_statement(LOAD_SNAPSHOT_SQL, snapshot_id)
}

/// The statement that lists the latest history of `image_id`, newest first.
pub fn history_statement(image_id: &str) -> (r: Statement)
    ensures
        r.sql@ == HISTORY_SQL@,
        param_views(r.params@) == seq![SqlParamView::Text(image_id@)],
{
    text_statement(HISTORY_SQL, image_id)
}

// ---------------------------------------------------------------------------
// Searching
// ---------------------------------------------------------------------------

/// The start of the search SQL, before its filters.
pub const SEARCH_HEAD: &'static str =
    "SELECT DISTINCT i.id, i.file_path, i.file_name, i.format, i.width, i.height,
                i.date_taken, i.rating, i.color_label, i.flag, i.camera, i.lens,
                i.iso, i.focal_length, i.aperture, i.shutter_speed, i.edit_params, i.created_at
         FROM images i
         LEFT JOIN image_tags it ON i.id = it.image_id
         LEFT JOIN tags t ON it.tag_id = t.id
         WHERE 1=1";

/// The end of the search SQL, after its filters.
pub const SEARCH_TAIL: &'static str = " ORDER BY i.date_taken DESC LIMIT 500";

/// The decimal digit of a placeholder number (searches bind at most four).
pub open spec fn digit(n: nat) -> char {
    if n == 1 {
        '1'
    } else if n == 2 {
        '2'
    } else if n == 3 {
        '3'
    } else {
        '4'
    }
}

/// The text filter: file name, camera or a tag name contains the text.
pub open spec fn text_clause(p: nat) -> Seq<char> {
    " AND (i.file_name LIKE ?"@ + seq![digit(p)] + " OR i.camera LIKE ?"@ + seq![digit(p)]
        + " OR t.name LIKE ?"@ + seq![digit(p)] + seq![')']
}

/// The minimum-rating filter.
pub open spec fn rating_clause(p: nat) -> Seq<char> {
    " AND i.rating >= ?"@ + seq![digit(p)]
}

/// The color-label filter.
pub open spec fn color_clause(p: nat) -> Seq<char> {
    " AND i.color_label = ?"@ + seq![digit(p)]
}

/// The flag filter.
pub open spec fn flag_clause(p: nat) -> Seq<char> {
    " AND i.flag = ?"@ + seq![digit(p)]
}

/// Which filters a search has.
pub struct SearchFilters {
    pub text: bool,
    pub rating: bool,
    pub color: bool,
    pub flag: bool,
}

/// The number of the placeholder of the rating filter.
pub open spec fn rating_index(f: SearchFilters) -> nat {
    if f.text {
        2
    } else {
        1
    }
}

/// The number of the placeholder of the color filter.
pub open spec fn color_index(f: SearchFilters) -> nat {
    rating_index(f) + if f.rating {
        1nat
    } else {
        0nat
    }
}

/// The number of the placeholder of the flag filter.
pub open spec fn flag_index(f: SearchFilters) -> nat {
    color_index(f) + if f.color {
        1nat
    } else {
        0nat
    }
}

/// `s` when `b` holds, else nothing.
pub open spec fn when(b: bool, s: Seq<char>) -> Seq<char> {
    if b {
        s
    } else {
        Seq::empty()
    }
}

/// The search SQL for the given filters: each present filter is numbered by
/// its place among the present ones.
pub open spec fn search_sql(f: SearchFilters) -> Seq<char> {
    SEARCH_HEAD@ + when(f.text, text_clause(1)) + when(f.rating, rating_clause(rating_index(f)))
        + when(f.color, color_clause(color_index(f))) + when(f.flag, flag_clause(flag_index(f)))
        + SEARCH_TAIL@
}

/// `[v]` when present, else nothing.
pub open spec fn opt_param(v: Option<SqlParamView>) -> Seq<SqlParamView> {
    match v {
        Some(p) => seq![p],
        None => Seq::empty(),
    }
}

/// The values bound to a search, in placeholder order: the text wrapped in
/// `%` wildcards, the minimum rating, the color label and the flag, each when
/// given.
pub open spec fn search_params(
    query: Seq<char>,
    rating_min: Option<u8>,
    color_label: Option<Seq<char>>,
    flag: Option<Seq<char>>,
) -> Seq<SqlParamView> {
    opt_param(
        if query.len() > 0 {
            Some(SqlParamView::Text(seq!['%'] + query + seq!['%']))
        } else {
            None
        },
    ) + opt_param(
        match rating_min {
            Some(r) => Some(SqlParamView::Integer(r as int)),
            None => None,
        },
    ) + opt_param(
        match color_label {
            Some(c) => Some(SqlParamView::Text(c)),
            None => None,
        },
    ) + opt_param(
        match flag {
            Some(c) => Some(SqlParamView::Text(c)),
            None => None,
        },
    )
}

/// The filters a search with these arguments has.
pub open spec fn search_filters(
    query: Seq<char>,
    rating_min: Option<u8>,
    color_label: Option<Seq<char>>,
    flag: Option<Seq<char>>,
) -> SearchFilters {
    SearchFilters {
        text: query.len() > 0,
        rating: rating_min is Some,
        color: color_label is Some,
        flag: flag is Some,
    }
}

/// The view of an optional string.
pub open spec fn opt_view(s: Option<&str>) -> Option<Seq<char>> {
    match s {
        Some(t) => Some(t@),
        None => None,
    }
}

fn push_digit(s: &mut String, n: usize)
    requires
        1 <= n <= 4,
    ensures
        final(s)@ == old(s)@.push(digit(n as nat)),
{
    let c = if n == 1 {
        '1'
    } else if n == 2 {
        '2'
    } else if n == 3 {
        '3'
    } else {
        '4'
    };
    push_char(s, c);
}

/// The statement of a catalog search: images whose file name, camera or a tag
/// contains `query` (when not empty), rated at least `rating_min`, with the
/// color label and the flag asked for (each when given), newest first, at
/// most 500.
pub fn search_statement(
    query: &str,
    rating_min: Option<u8>,
    color_label: Option<&str>,
    flag: Option<&str>,
) -> (r: Statement)
    ensures
        r.sql@ == search_sql(search_filters(query@, rating_min, opt_view(color_label), opt_view(flag))),
        param_views(r.params@) == search_params(query@, rating_min, opt_view(color_label), opt_view(flag)),
{
    let ghost f = search_filters(query@, rating_min, opt_view(color_label), opt_view(flag));
    let mut sql = String::from_str(SEARCH_HEAD);
    let mut params: Vec<SqlParam> = Vec::new();
    let mut idx: usize = 1;
    let ghost p0 = opt_param(
        if query@.len() > 0 {
            Some(SqlParamView::Text(seq!['%'] + query@ + seq!['%']))
        } else {
            None
        },
    );
    if !query.is_empty() {
        sql.append(" AND (i.file_name LIKE ?");
        push_digit(&mut sql, idx);
        sql.append(" OR i.camera LIKE ?");
        push_digit(&mut sql, idx);
        sql.append(" OR t.name LIKE ?");
        push_digit(&mut sql, idx);
        push_char(&mut sql, ')');
        let mut pattern = String::new();
        push_char(&mut pattern, '%');
        pattern.append(query);
        push_char(&mut pattern, '%');
        let ghost pv = pattern@;
        params.push(SqlParam::Text(pattern));
        idx = idx + 1;
        proof {
            assert(pv =~= seq!['%'] + query@ + seq!['%']);
            assert(param_views(params@) =~= seq![SqlParamView::Text(pv)]);
        }
    } else {
        proof {
            assert(param_views(params@) =~= Seq::<SqlParamView>::empty());
        }
    }
    proof {
        assert(sql@ =~= SEARCH_HEAD@ + when(f.text, text_clause(1)));
        assert(param_views(params@) =~= p0);
        assert(idx == rating_index(f));
    }
    let ghost s1 = sql@;
    let ghost q1 = param_views(params@);
    let ghost p1 = opt_param(
        match rating_min {
            Some(r) => Some(SqlParamView::Integer(r as int)),
            None => None,
        },
    );
    if let Some(min_r) = rating_min {
        sql.append(" AND i.rating >= ?");
        push_digit(&mut sql, idx);
        params.push(SqlParam::Integer(min_r as i64));
        idx = idx + 1;
    }
    proof {
        assert(sql@ =~= s1 + when(f.rating, rating_clause(rating_index(f))));
        assert(param_views(params@) =~= q1 + p1);
        assert(idx == color_index(f));
    }
    let ghost s2 = sql@;
    let ghost q2 = param_views(params@);
    let ghost p2 = opt_param(
        match opt_view(color_label) {
            Some(c) => Some(SqlParamView::Text(c)),
            None => None,
        },
    );
    if let Some(cl) = color_label {
        sql.append(" AND i.color_label = ?");
        push_digit(&mut sql, idx);
        params.push(SqlParam::Text(String::from_str(cl)));
        idx = idx + 1;
    }
    proof {
        assert(sql@ =~= s2 + when(f.color, color_clause(color_index(f))));
        assert(param_views(params@) =~= q2 + p2);
        assert(idx == flag_index(f));
    }
    let ghost s3 = sql@;
    let ghost q3 = param_views(params@);
    let ghost p3 = opt_param(
        match opt_view(flag) {
            Some(c) => Some(SqlParamView::Text(c)),
            None => None,
        },
    );
    if let Some(fl) = flag {
        sql.append(" AND i.flag = ?");
        push_digit(&mut sql, idx);
        params.push(SqlParam::Text(String::from_str(fl)));
    }
    proof {
        assert(sql@ =~= s3 + when(f.flag, flag_clause(flag_index(f))));
        assert(param_views(params@) =~= q3 + p3);
    }
    sql.append(SEARCH_TAIL);
    proof {
        assert(sql@ =~= search_sql(f));
        assert(param_views(params@) =~= search_params(
            query@,
            rating_min,
            opt_view(color_label),
            opt_view(flag),
        ));
    }
    Statement { sql, params }
}

// ---------------------------------------------------------------------------
// Collections and snapshots
// ---------------------------------------------------------------------------

/// The SQL that adds one image to a collection at a position, unless it is
/// there already.
pub const ADD_TO_COLLECTION_SQL: &'static str =
    "INSERT OR IGNORE INTO collection_images (collection_id, image_id, position) VALUES (?1, ?2, ?3)";

/// The statements that add images to a collection: one per image, in order,
/// the image at index `i` at position `i` (as a 32-bit integer).
pub fn add_to_collection_statements(collection_id: &str, image_ids: &Vec<String>) -> (r: Vec<
    Statement,
>)
    ensures
        r.len() == image_ids.len(),
        forall|i: int|
            0 <= i < r.len() ==> (#[trigger] r@[i]).sql@ == ADD_TO_COLLECTION_SQL@ && param_views(
                r@[i].params@,
            ) == seq![
                SqlParamView::Text(collection_id@),
                SqlParamView::Text(image_ids@[i]@),
                SqlParamView::Integer((i as i32) as int),
            ],
{
    let mut out: Vec<Statement> = Vec::new();
    let mut i: usize = 0;
    while i < image_ids.len()
        invariant
            i <= image_ids.len(),
            out.len() == i,
            forall|k: int|
                0 <= k < i ==> (#[trigger] out@[k]).sql@ == ADD_TO_COLLECTION_SQL@ && param_views(
                    out@[k].params@,
                ) == seq![
                    SqlParamView::Text(collection_id@),
                    SqlParamView::Text(image_ids@[k]@),
                    SqlParamView::Integer((k as i32) as int),
                ],
        decreases image_ids.len() - i,
    {
        let pos = i as i32;
        let params = vec![
            SqlParam::Text(String::from_str(collection_id)),
            SqlParam::Text(image_ids[i].clone()),
            SqlParam::Integer(pos as i64),
        ];
        proof {
            assert(param_views(params@) =~= seq![
                SqlParamView::Text(collection_id@),
                SqlParamView::Text(image_ids@[i as int]@),
                SqlParamView::Integer((i as i32) as int),
            ]);
        }
        out.push(Statement { sql: String::from_str(ADD_TO_COLLECTION_SQL), params });
        i = i + 1;
    }
    out
}

/// The SQL that creates a collection.
pub const CREATE_COLLECTION_SQL: &'static str =
    "INSERT INTO collections (id, name, parent_id) VALUES (?1, ?2, ?3)";

/// The SQL that lists collections, by name, with their image counts.
pub const COLLECTIONS_SQL: &'static str =
    "SELECT c.id, c.name, c.parent_id, c.created_at,
                (SELECT COUNT(*) FROM collection_images ci WHERE ci.collection_id = c.id) as img_count
         FROM collections c ORDER BY c.name";

/// The statement that creates the collection `id` named `name`, under
/// `parent_id` when given (else at the top, as SQL `NULL`).
pub fn create_collection_statement(id: &str, name: &str, parent_id: Option<&str>) -> (r: Statement)
    ensures
        r.sql@ == CREATE_COLLECTION_SQL@,
        param_views(r.params@) == seq![
            SqlParamView::Text(id@),
            SqlParamView::Text(name@),
            match parent_id {
                Some(p) => SqlParamView::Text(p@),
                None => SqlParamView::Null,
            },
        ],
{
    let parent = match parent_id {
        Some(p) => SqlParam::Text(String::from_str(p)),
        None => SqlParam::Null,
    };
    let ghost pv = parent@;
    let params = vec![SqlParam::Text(String::from_str(id)), SqlParam::Text(String::from_str(name)), parent];
    proof {
        assert(param_views(params@) =~= seq![SqlParamView::Text(id@), SqlParamView::Text(name@), pv]);
    }
    Statement { sql: String::from_str(CREATE_COLLECTION_SQL), params }
}

/// The record of a collection just created: no images yet.
pub fn new_collection_record(id: String, name: &str, parent_id: Option<&str>, created_at: String) -> (r:
    CollectionRecord)
    ensures
        r.id == id,
        r.name@ == name@,
        r.parent_id matches Some(p) ==> parent_id matches Some(q) && p@ == q@,
        r.parent_id is None <==> parent_id is None,
        r.image_count == 0,
        r.created_at == created_at,
{
    CollectionRecord {
        id,
        name: String::from_str(name),
        parent_id: match parent_id {
            Some(p) => Some(String::from_str(p)),
            None => None,
        },
        image_count: 0,
        created_at,
    }
}

/// The parameters a snapshot saves: the image's current edit parameters, or
/// the empty JSON object when it has none.
pub fn snapshot_params(current: Option<String>) -> (r: String)
    ensures
        current matches Some(c) ==> r == c,
        current is None ==> r@ == "{}"@,
{
    match current {
        Some(c) => c,
        None => String::from_str("{}"),
    }
}

// ---------------------------------------------------------------------------
// Importing
// ---------------------------------------------------------------------------

/// The record of a newly imported file: its path with forward slashes, its
/// file name (`unknown` when it has none), its format from its lowercased
/// extension, its dimensions and EXIF facts, no rating, no color label, no
/// flag, no edits and no tags.
pub fn import_record(
    path: &str,
    id: String,
    width: u32,
    height: u32,
    exif: ExifBasic,
    created_at: String,
) -> (r: ImageRecord)
    ensures
        r.id == id,
        r.file_path@ == forward_slashes(path@),
        r.file_name@ == file_name_or_unknown(path@),
        r.format@ == format_for(lower_extension(path@)),
        r.width == width,
        r.height == height,
        r.date_taken == exif.date_taken,
        r.rating == 0,
        r.color_label@ == "none"@,
        r.flag@ == "none"@,
        r.camera == exif.camera,
        r.lens == exif.lens,
        r.iso == exif.iso,
        r.focal_length == exif.focal_length,
        r.aperture == exif.aperture,
        r.shutter_speed == exif.shutter_speed,
        r.edit_params is None,
        r.tags@.len() == 0,
        r.created_at == created_at,
{
    let ext = lowercase_extension(path);
    ImageRecord {
        id,
        file_path: to_forward_slashes(path),
        file_name: file_name_or_default(path),
        format: format_for_extension(ext.as_str()),
        width,
        height,
        date_taken: exif.date_taken,
        rating: 0,
        color_label: String::from_str("none"),
        flag: String::from_str("none"),
        camera: exif.camera,
        lens: exif.lens,
        iso: exif.iso,
        focal_length: exif.focal_length,
        aperture: exif.aperture,
        shutter_speed: exif.shutter_speed,
        edit_params: None,
        tags: Vec::new(),
        created_at,
    }
}

/// The SQL that adds an imported image unless its path is in the catalog.
pub const INSERT_IMAGE_SQL: &'static str =
    "INSERT OR IGNORE INTO images (id, file_path, file_name, format, width, height, date_taken,
                 camera, lens, iso, focal_length, aperture, shutter_speed, thumbnail, exif_json)
                 VALUES (?1, ?2, ?3, ?4, ?5, ?6, ?7, ?8, ?9, ?10, ?11, ?12, ?13, ?14, ?15)";

/// The value bound for optional text: the text, or NULL.
pub open spec fn opt_text_view(o: Option<String>) -> SqlParamView {
    match o {
        Some(s) => SqlParamView::Text(s@),
        None => SqlParamView::Null,
    }
}

/// The value bound for an optional count: the number, or NULL.
pub open spec fn opt_count_view(o: Option<u32>) -> SqlParamView {
    match o {
        Some(n) => SqlParamView::Integer(n as int),
        None => SqlParamView::Null,
    }
}

/// The value bound for an optional measurement: the number, or NULL.
pub open spec fn opt_real_view(o: Option<FloatBits>) -> SqlParamView {
    match o {
        Some(f) => SqlParamView::Real(f.bits),
        None => SqlParamView::Null,
    }
}

fn opt_text(o: &Option<String>) -> (r: SqlParam)
    ensures
        r@ == opt_text_view(*o),
{
    match o {
        Some(s) => SqlParam::Text(s.clone()),
        None => SqlParam::Null,
    }
}

fn opt_count(o: Option<u32>) -> (r: SqlParam)
    ensures
        r@ == opt_count_view(o),
{
    match o {
        Some(n) => SqlParam::Integer(n as i64),
        None => SqlParam::Null,
    }
}

fn opt_real(o: Option<FloatBits>) -> (r: SqlParam)
    ensures
        r@ == opt_real_view(o),
{
    match o {
        Some(f) => SqlParam::Real(f),
        None => SqlParam::Null,
    }
}

/// The statement that adds the imported image `record`, with its thumbnail
/// and no EXIF data (JSON `null`), unless its path is in the catalog.
pub fn insert_image_statement(record: &ImageRecord, thumbnail: &Vec<u8>) -> (r: Statement)
    ensures
        r.sql@ == INSERT_IMAGE_SQL@,
        param_views(r.params@) == seq![
            SqlParamView::Text(record.id@),
            SqlParamView::Text(record.file_path@),
            SqlParamView::Text(record.file_name@),
            SqlParamView::Text(record.format@),
            SqlParamView::Integer(record.width as int),
            SqlParamView::Integer(record.height as int),
            opt_text_view(record.date_taken),
            opt_text_view(record.camera),
            opt_text_view(record.lens),
            opt_count_view(record.iso),
            opt_real_view(record.focal_length),
            opt_real_view(record.aperture),
            opt_text_view(record.shutter_speed),
            SqlParamView::Blob(thumbnail@),
            SqlParamView::Text("null"@),
        ],
{
    let mut params: Vec<SqlParam> = Vec::new();
    params.push(SqlParam::Text(record.id.clone()));
    params.push(SqlParam::Text(record.file_path.clone()));
    params.push(SqlParam::Text(record.file_name.clone()));
    params.push(SqlParam::Text(record.format.clone()));
    params.push(SqlParam::Integer(record.width as i64));
    params.push(SqlParam::Integer(record.height as i64));
    params.push(opt_text(&record.date_taken));
    params.push(opt_text(&record.camera));
    params.push(opt_text(&record.lens));
    params.push(opt_count(record.iso));
    params.push(opt_real(record.focal_length));
    params.push(opt_real(record.aperture));
    params.push(opt_text(&record.shutter_speed));
    params.push(SqlParam::Blob(thumbnail.clone()));
    params.push(SqlParam::Text(String::from_str("null")));
    proof {
        reveal_strlit("null");
        assert(param_views(params@) =~= seq![
            SqlParamView::Text(record.id@),
            SqlParamView::Text(record.file_path@),
            SqlParamView::Text(record.file_name@),
            SqlParamView::Text(record.format@),
            SqlParamView::Integer(record.width as int),
            SqlParamView::Integer(record.height as int),
            opt_text_view(record.date_taken),
            opt_text_view(record.camera),
            opt_text_view(record.lens),
            opt_count_view(record.iso),
            opt_real_view(record.focal_length),
            opt_real_view(record.aperture),
            opt_text_view(record.shutter_speed),
            SqlParamView::Blob(thumbnail@),
            SqlParamView::Text("null"@),
        ]);
    }
    Statement { sql: String::from_str(INSERT_IMAGE_SQL), params }
}

/// What happened to one file of an import: it could not be read (`Err` with
/// the reason), or it was read and its insertion into the catalog either
/// changed that many rows or failed with a reason.
pub struct ImportAttempt {
    pub path: String,
    pub outcome: Result<(ImageRecord, Result<usize, String>), String>,
}

/// The record an attempt adds to the catalog, if it inserted a row.
pub open spec fn attempt_record(a: ImportAttempt) -> Option<ImageRecord> {
    match a.outcome {
        Ok((rec, Ok(n))) => if n > 0 {
            Some(rec)
        } else {
            None
        },
        _ => None,
    }
}

/// The reason an attempt failed, prefixed by its path, if it failed.
pub open spec fn attempt_failure(a: ImportAttempt) -> Option<Seq<char>> {
    match a.outcome {
        Ok((_, Ok(_))) => None,
        Ok((_, Err(e))) => Some(a.path@ + ": "@ + e@),
        Err(e) => Some(a.path@ + ": "@ + e@),
    }
}

/// The records an import added, in order.
pub open spec fn imported_records(s: Seq<ImportAttempt>) -> Seq<ImageRecord>
    decreases s.len(),
{
    if s.len() == 0 {
        Seq::empty()
    } else {
        imported_records(s.drop_last()) + match attempt_record(s.last()) {
            Some(r) => seq![r],
            None => Seq::empty(),
        }
    }
}

/// The failures of an import, in order.
pub open spec fn import_failures(s: Seq<ImportAttempt>) -> Seq<Seq<char>>
    decreases s.len(),
{
    if s.len() == 0 {
        Seq::empty()
    } else {
        import_failures(s.drop_last()) + match attempt_failure(s.last()) {
            Some(f) => seq![f],
            None => Seq::empty(),
        }
    }
}

/// The message of an import in which nothing was added and something failed.
pub const IMPORT_FAILED_PREFIX: &'static str = "Failed to import the selected files. ";

fn failure_message(path: &str, err: &str) -> (r: String)
    ensures
        r@ == path@ + ": "@ + err@,
{
    let mut m = String::from_str(path);
    m.append(": ");
    m.append(err);
    m
}

/// Judges an import: the records of the files whose insertion changed a row,
/// in order; but when none did and some file failed, an error naming the
/// first failure.
pub fn summarize_import(attempts: Vec<ImportAttempt>) -> (r: Result<Vec<ImageRecord>, String>)
    ensures
        imported_records(attempts@).len() == 0 && import_failures(attempts@).len() > 0 ==> (r matches Err(
            e,
        ) && e@ == IMPORT_FAILED_PREFIX@ + import_failures(attempts@)[0]),
        !(imported_records(attempts@).len() == 0 && import_failures(attempts@).len() > 0) ==> (r matches Ok(
            v,
        ) && v@ == imported_records(attempts@)),
{
    let ghost all = attempts@;
    let n = attempts.len();
    let mut imported: Vec<ImageRecord> = Vec::new();
    let mut first_failure: Option<String> = None;
    let mut failures: usize = 0;
    proof {
        assert(all.take(all.len() as int) =~= all);
        assert(all.take(0) =~= Seq::<ImportAttempt>::empty());
    }
    for a in it: attempts.into_iter()
        invariant
            it.seq() == all,
            all.len() == n,
            0 <= it.index() <= all.len(),
            all.take(all.len() as int) == all,
            imported@ == imported_records(all.take(it.index())),
            failures == import_failures(all.take(it.index())).len(),
            failures <= it.index(),
            failures > 0 ==> (first_failure matches Some(f) && f@ == import_failures(
                all.take(it.index()),
            )[0]),
    {
        let ghost i = it.index();
        proof {
            assert(all.take(i + 1).drop_last() =~= all.take(i));
            assert(all.take(i + 1).last() == a);
        }
        let ImportAttempt { path, outcome } = a;
        match outcome {
            Ok((rec, Ok(n))) => {
                if n > 0 {
                    imported.push(rec);
                }
            },
            Ok((_, Err(e))) => {
                if failures == 0 {
                    first_failure = Some(failure_message(path.as_str(), e.as_str()));
                }
                failures = failures + 1;
            },
            Err(e) => {
                if failures == 0 {
                    first_failure = Some(failure_message(path.as_str(), e.as_str()));
                }
                failures = failures + 1;
            },
        }
        proof {
            let prev = import_failures(all.take(i));
            let now = import_failures(all.take(i + 1));
            if prev.len() > 0 {
                assert(now[0] == prev[0]);
            }
        }
    }
    if imported.len() == 0 && failures > 0 {
        let mut msg = String::from_str(IMPORT_FAILED_PREFIX);
        match first_failure {
            Some(f) => msg.append(f.as_str()),
            None => {},
        }
        return Err(msg);
    }
    Ok(imported)
}

/// What a source chosen for import turned out to be on disk.
pub enum SourceKind {
    /// A directory, with the files found under it, in the order found.
    Dir(Vec<String>),
    /// A file.
    File,
    /// Nothing.
    Missing,
}

/// A source chosen for import: the path as given, and what it is.
pub struct ImportSource {
    pub input: String,
    pub kind: SourceKind,
}

/// The supported image files among `files`, in order.
pub open spec fn supported_files(files: Seq<String>) -> Seq<Seq<char>>
    decreases files.len(),
{
    if files.len() == 0 {
        Seq::empty()
    } else if supported_path(files.last()@) {
        supported_files(files.drop_last()).push(files.last()@)
    } else {
        supported_files(files.drop_last())
    }
}

/// The message of a chosen file that is not a supported image.
pub open spec fn unsupported_file_message(input: Seq<char>) -> Seq<char> {
    "Unsupported file type: "@ + input
}

/// The message of a chosen path where nothing is.
pub open spec fn missing_source_message(input: Seq<char>) -> Seq<char> {
    "Selected path does not exist: "@ + input
}

/// The message of sources that hold no supported image.
pub open spec fn no_files_message() -> Seq<char> {
    "No supported image files were found in the selected sources."@
}

/// The files an import of `sources` takes, in the order of the sources: the
/// supported images found under each directory, and each chosen file, which
/// must be a supported image. The first source that is a file of another
/// kind, or that does not exist, fails the whole selection.
pub open spec fn source_selection(sources: Seq<ImportSource>) -> Result<Seq<Seq<char>>, Seq<char>>
    decreases sources.len(),
{
    if sources.len() == 0 {
        Ok(Seq::empty())
    } else {
        match source_selection(sources.drop_last()) {
            Err(e) => Err(e),
            Ok(prev) => {
                let s = sources.last();
                match s.kind {
                    SourceKind::Dir(files) => Ok(prev + supported_files(files@)),
                    SourceKind::File => if supported_path(s.input@) {
                        Ok(prev.push(s.input@))
                    } else {
                        Err(unsupported_file_message(s.input@))
                    },
                    SourceKind::Missing => Err(missing_source_message(s.input@)),
                }
            },
        }
    }
}

/// The views of some strings.
pub open spec fn string_views(v: Seq<String>) -> Seq<Seq<char>> {
    v.map_values(|s: String| s@)
}

/// Appends the supported images among `files` to `out`.
fn push_supported(out: &mut Vec<String>, files: &Vec<String>)
    ensures
        string_views(final(out)@) == string_views(old(out)@) + supported_files(files@),
{
    let mut i: usize = 0;
    while i < files.len()
        invariant
            i <= files.len(),
            string_views(out@) == string_views(old(out)@) + supported_files(files@.take(i as int)),
        decreases files.len() - i,
    {
        let ghost before = out@;
        proof {
            assert(files@.take(i + 1).drop_last() =~= files@.take(i as int));
            assert(files@.take(i + 1).last() == files@[i as int]);
        }
        if is_supported_image_path(files[i].as_str()) {
            let f = files[i].clone();
            assert(f@ == files@[i as int]@);
            out.push(f);
            proof {
                assert(string_views(out@) =~= string_views(before).push(files@[i as int]@));
                assert(string_views(out@) =~= string_views(old(out)@) + supported_files(files@.take(i + 1)));
            }
        }
        i = i + 1;
    }
    proof {
        assert(files@.take(files.len() as int) =~= files@);
    }
}

/// How `Path::cmp` orders the paths `a` and `b` (compared by their
/// components): -1, 0 or 1 for before, the same path, after.
pub uninterp spec fn path_order(a: Seq<char>, b: Seq<char>) -> i8;

/// Calls `Path::cmp` on two paths and tells its answer as -1, 0 or 1; the
/// answer is named [`path_order`].
#[verifier::external_body]
fn compare_paths(a: &str, b: &str) -> (r: i8)
    ensures
        r == path_order(a@, b@),
{
    match std::path::Path::new(a).cmp(std::path::Path::new(b)) {
        std::cmp::Ordering::Less => -1,
        std::cmp::Ordering::Equal => 0,
        std::cmp::Ordering::Greater => 1,
    }
}

/// Whether `s` is in path order: no path comes after a later one.
pub open spec fn path_sorted(s: Seq<Seq<char>>) -> bool {
    forall|i: int, j: int| 0 <= i < j < s.len() ==> path_order(s[i], s[j]) <= 0
}

/// Whether `Path::cmp` orders the paths of `s` as a total order does: two
/// paths compare oppositely each way round, and "no later than" is
/// transitive.
pub open spec fn order_laws(s: Seq<Seq<char>>) -> bool {
    &&& forall|i: int, j: int|
        0 <= i < s.len() && 0 <= j < s.len() ==> #[trigger] path_order(s[i], s[j]) == -path_order(
            s[j],
            s[i],
        )
    &&& forall|i: int, j: int, k: int|
        0 <= i < s.len() && 0 <= j < s.len() && 0 <= k < s.len() && #[trigger] path_order(s[i], s[j])
            <= 0 && #[trigger] path_order(s[j], s[k]) <= 0 ==> path_order(s[i], s[k]) <= 0
}

/// What `slice::sort` makes of the paths `v` (as `PathBuf`s, ordered by
/// `Path::cmp`). The sort is stable: paths that are the same path keep the
/// order they were given in.
pub uninterp spec fn std_path_sort(v: Seq<Seq<char>>) -> Seq<Seq<char>>;

/// Calls `slice::sort` on the paths `v` (as `PathBuf`s, ordered by
/// `Path::cmp`); the result is named [`std_path_sort`]. It holds the same
/// paths, each no later in path order than any that follows it. `Path`'s
/// `Ord` is a total order, as `Ord` requires, so among the result's paths
/// the order laws hold.
#[verifier::external_body]
fn sort_paths(v: Vec<String>) -> (r: Vec<String>)
    ensures
        string_views(r@) == std_path_sort(string_views(v@)),
        string_views(r@).to_multiset() == string_views(v@).to_multiset(),
        path_sorted(string_views(r@)),
        order_laws(string_views(r@)),
{
    let mut paths: Vec<std::path::PathBuf> = v.into_iter().map(std::path::PathBuf::from).collect();
    paths.sort();
    paths.into_iter().map(|p| p.to_string_lossy().to_string()).collect()
}

/// `s` with each path that is the same path as the one kept before it
/// dropped, as `Vec::dedup` does: of each run of the same path only the
/// first stays.
pub open spec fn dedup_paths(s: Seq<Seq<char>>) -> Seq<Seq<char>>
    decreases s.len(),
{
    if s.len() == 0 {
        s
    } else {
        let d = dedup_paths(s.drop_last());
        if d.len() == 0 || path_order(d.last(), s.last()) != 0 {
            d.push(s.last())
        } else {
            d
        }
    }
}

/// Whether no path of `s` is the same path as the one after it.
pub open spec fn no_repeats(s: Seq<Seq<char>>) -> bool {
    forall|i: int| 0 <= i < s.len() - 1 ==> path_order(#[trigger] s[i], s[i + 1]) != 0
}

/// What dedup keeps is among the paths it was given, and keeps the order of
/// a sorted sequence and no repeats.
proof fn lemma_dedup_paths(s: Seq<Seq<char>>)
    ensures
        forall|k: int| 0 <= k < dedup_paths(s).len() ==> s.contains(#[trigger] dedup_paths(s)[k]),
        path_sorted(s) ==> path_sorted(dedup_paths(s)),
        no_repeats(dedup_paths(s)),
        s.len() > 0 ==> dedup_paths(s).len() > 0,
    decreases s.len(),
{
    if s.len() > 0 {
        let p = s.drop_last();
        lemma_dedup_paths(p);
        let d = dedup_paths(p);
        assert forall|k: int| 0 <= k < d.len() implies s.contains(#[trigger] d[k]) by {
            let i = choose|i: int| 0 <= i < p.len() && p[i] == d[k];
            assert(s[i] == d[k]);
        }
        assert(s[s.len() - 1] == s.last());
        if path_sorted(s) {
            assert(path_sorted(p));
            if d.len() == 0 || path_order(d.last(), s.last()) != 0 {
                let e = d.push(s.last());
                assert forall|i: int, j: int| 0 <= i < j < e.len() implies path_order(e[i], e[j]) <= 0 by {
                    if j == e.len() - 1 {
                        let a = choose|a: int| 0 <= a < p.len() && p[a] == d[i];
                        assert(s[a] == e[i]);
                        assert(path_order(s[a], s[s.len() - 1]) <= 0);
                    } else {
                        assert(e[i] == d[i] && e[j] == d[j]);
                    }
                }
            }
        }
        if d.len() == 0 || path_order(d.last(), s.last()) != 0 {
            let e = d.push(s.last());
            assert forall|i: int| 0 <= i < e.len() - 1 implies path_order(#[trigger] e[i], e[i + 1]) != 0 by {
                if i == e.len() - 2 {
                    assert(e[i] == d.last());
                } else {
                    assert(e[i] == d[i] && e[i + 1] == d[i + 1]);
                }
            }
        }
    }
}

/// Whether each path of `s` comes strictly before every later one, so that
/// no path occurs twice.
pub open spec fn strictly_path_sorted(s: Seq<Seq<char>>) -> bool {
    forall|i: int, j: int| 0 <= i < j < s.len() ==> path_order(s[i], s[j]) < 0
}

/// Deduplicating a sorted sequence whose paths obey the order laws leaves
/// each path strictly before the later ones.
proof fn lemma_dedup_strict(s: Seq<Seq<char>>)
    requires
        path_sorted(s),
        order_laws(s),
    ensures
        strictly_path_sorted(dedup_paths(s)),
{
    lemma_dedup_paths(s);
    let w = dedup_paths(s);
    assert forall|i: int, j: int| 0 <= i < j < w.len() implies path_order(w[i], w[j]) < 0 by {
        assert(path_order(w[i], w[j]) <= 0);
        if path_order(w[i], w[j]) == 0 {
            assert(s.contains(w[i]));
            assert(s.contains(w[j]));
            assert(s.contains(w[i + 1]));
            let a = choose|a: int| 0 <= a < s.len() && s[a] == w[i];
            let b = choose|b: int| 0 <= b < s.len() && s[b] == w[j];
            let c = choose|c: int| 0 <= c < s.len() && s[c] == w[i + 1];
            assert(path_order(s[b], s[a]) == -path_order(s[a], s[b]));
            assert(path_order(s[c], s[b]) <= 0);
            assert(path_order(s[c], s[a]) <= 0);
            assert(path_order(s[a], s[c]) == -path_order(s[c], s[a]));
            assert(path_order(w[i], w[i + 1]) <= 0);
            assert(path_order(w[i], w[i + 1]) != 0);
        }
    }
}

/// Drops each path that is the same path as the one kept before it.
fn dedup_sorted_paths(v: Vec<String>) -> (r: Vec<String>)
    ensures
        string_views(r@) == dedup_paths(string_views(v@)),
{
    let mut out: Vec<String> = Vec::new();
    let mut i: usize = 0;
    proof {
        assert(string_views(v@).take(0) =~= Seq::<Seq<char>>::empty());
        assert(string_views(out@) =~= Seq::<Seq<char>>::empty());
    }
    while i < v.len()
        invariant
            i <= v.len(),
            string_views(out@) == dedup_paths(string_views(v@).take(i as int)),
        decreases v.len() - i,
    {
        let ghost t = string_views(v@).take(i + 1);
        proof {
            assert(t.drop_last() =~= string_views(v@).take(i as int));
            assert(t.last() == v@[i as int]@);
        }
        let keep = if out.len() == 0 {
            true
        } else {
            let last = out.len() - 1;
            proof {
                assert(string_views(out@).last() == out@[last as int]@);
            }
            compare_paths(out[last].as_str(), v[i].as_str()) != 0
        };
        if keep {
            let ghost before = string_views(out@);
            out.push(v[i].clone());
            proof {
                assert(string_views(out@) =~= before.push(v@[i as int]@));
            }
        }
        i = i + 1;
    }
    proof {
        assert(string_views(v@).take(v.len() as int) =~= string_views(v@));
    }
    out
}

/// The files an import of `sources` takes, as [`select_import_files`] gives
/// them when the selection is `Ok(sel)`: `sel` put in path order, with each
/// path that is the same as the one before it dropped.
pub open spec fn import_files_from(sel: Seq<Seq<char>>, w: Seq<Seq<char>>) -> bool {
    exists|s: Seq<Seq<char>>|
        #![trigger dedup_paths(s)]
        s.to_multiset() == sel.to_multiset() && path_sorted(s) && w == dedup_paths(s)
}

/// The files to import from the chosen sources: the supported images found
/// under each directory and each chosen file, put in path order by a stable
/// sort, with repeats of a path dropped (of paths that are the same path,
/// the first given is kept). Fails with the message of the first source
/// (in the order given) that is an unsupported file or missing, and when no
/// supported image is found at all.
pub fn select_import_files(sources: &Vec<ImportSource>) -> (r: Result<Vec<String>, String>)
    ensures
        source_selection(sources@) matches Err(e) ==> (r matches Err(m) && m@ == e),
        source_selection(sources@) matches Ok(v) ==> (v.len() == 0 ==> (r matches Err(m) && m@
            == no_files_message())),
        source_selection(sources@) matches Ok(v) ==> (v.len() > 0 ==> (r matches Ok(w)
            && string_views(w@) == dedup_paths(std_path_sort(v)) && import_files_from(
            v,
            string_views(w@),
        ) && strictly_path_sorted(string_views(w@)) && string_views(w@).len() > 0)),
{
    let mut out: Vec<String> = Vec::new();
    let mut i: usize = 0;
    proof {
        assert(string_views(out@) =~= Seq::<Seq<char>>::empty());
        assert(sources@.take(0) =~= Seq::<ImportSource>::empty());
    }
    while i < sources.len()
        invariant
            i <= sources.len(),
            source_selection(sources@.take(i as int)) == Ok::<Seq<Seq<char>>, Seq<char>>(string_views(out@)),
        decreases sources.len() - i,
    {
        let ghost before = out@;
        proof {
            assert(sources@.take(i + 1).drop_last() =~= sources@.take(i as int));
            assert(sources@.take(i + 1).last() == sources@[i as int]);
        }
        let src = &sources[i];
        match &src.kind {
            SourceKind::Dir(files) => {
                push_supported(&mut out, files);
            },
            SourceKind::File => {
                if is_supported_image_path(src.input.as_str()) {
                    let f = src.input.clone();
                    out.push(f);
                    proof {
                        assert(string_views(out@) =~= string_views(before).push(src.input@));
                    }
                } else {
                    let mut m = String::from_str("Unsupported file type: ");
                    m.append(src.input.as_str());
                    proof {
                        lemma_selection_keeps_error(sources@, i + 1);
                    }
                    return Err(m);
                }
            },
            SourceKind::Missing => {
                let mut m = String::from_str("Selected path does not exist: ");
                m.append(src.input.as_str());
                proof {
                    lemma_selection_keeps_error(sources@, i + 1);
                }
                return Err(m);
            },
        }
        i = i + 1;
    }
    proof {
        assert(sources@.take(sources.len() as int) =~= sources@);
    }
    if out.len() == 0 {
        return Err(String::from_str("No supported image files were found in the selected sources."));
    }
    let sorted = sort_paths(out);
    let kept = dedup_sorted_paths(sorted);
    proof {
        let s = string_views(sorted@);
        lemma_dedup_paths(s);
        lemma_dedup_strict(s);
        assert(s.len() > 0) by {
            broadcast use vstd::seq_lib::group_to_multiset_ensures;

            assert(string_views(out@).len() == out@.len());
            vstd::seq_lib::to_multiset_len(s);
            vstd::seq_lib::to_multiset_len(string_views(out@));
        }
        assert(import_files_from(string_views(out@), string_views(kept@)));
    }
    Ok(kept)
}

/// Once a prefix of the sources fails, the whole selection fails the same
/// way.
proof fn lemma_selection_keeps_error(sources: Seq<ImportSource>, n: int)
    requires
        0 <= n <= sources.len(),
        source_selection(sources.take(n)) is Err,
    ensures
        source_selection(sources) == source_selection(sources.take(n)),
    decreases sources.len() - n,
{
    if n < sources.len() {
        assert(sources.take(n + 1).drop_last() =~= sources.take(n));
        lemma_selection_keeps_error(sources, n + 1);
    } else {
        assert(sources.take(n) =~= sources);
    }
}

// ---------------------------------------------------------------------------
// Laws
// ---------------------------------------------------------------------------

/// Whatever is asked for, images are only ever sorted by one of the sortable
/// columns, ascending or descending: nothing else reaches the SQL text.
pub proof fn law_sort_is_whitelisted(sort_by: Seq<char>, sort_order: Seq<char>)
    ensures
        sortable_column(sort_column(sort_by)),
        sort_direction(sort_order) == "ASC"@ || sort_direction(sort_order) == "DESC"@,
{
}

/// Images are sorted by the column asked for when it is one of
/// `date_taken`, `rating`, `file_name` and `created_at`, and by `date_taken`
/// for any other name; so the page's SQL orders by that column.
pub proof fn law_sort_columns_are_kept(c: Seq<char>, sort_order: Seq<char>)
    ensures
        c == "date_taken"@ || c == "rating"@ || c == "file_name"@ || c == "created_at"@ ==> sort_column(c)
            == c,
        !(c == "date_taken"@ || c == "rating"@ || c == "file_name"@ || c == "created_at"@)
            ==> sort_column(c) == "date_taken"@,
        c == "created_at"@ ==> images_page_sql(c, sort_order) == IMAGES_PAGE_HEAD@ + "created_at"@
            + seq![' '] + sort_direction(sort_order) + IMAGES_PAGE_TAIL@,
{
}

/// A search binds one value per filter it has, and each filter's placeholder
/// number is its place among the filters present: the placeholders used are
/// exactly `?1` to `?n` for `n` bound values.
pub proof fn law_search_binds_one_value_per_filter(
    query: Seq<char>,
    rating_min: Option<u8>,
    color_label: Option<Seq<char>>,
    flag: Option<Seq<char>>,
)
    ensures
        ({
            let f = search_filters(query, rating_min, color_label, flag);
            let n = (if f.text { 1int } else { 0int }) + (if f.rating { 1int } else { 0int }) + (if f.color {
                1int
            } else {
                0int
            }) + (if f.flag { 1int } else { 0int });
            &&& search_params(query, rating_min, color_label, flag).len() == n
            &&& f.rating ==> rating_index(f) == (if f.text { 2int } else { 1int })
            &&& f.color ==> color_index(f) == n - (if f.flag { 1int } else { 0int })
            &&& f.flag ==> flag_index(f) == n
            &&& f.rating && !f.color && !f.flag ==> rating_index(f) == n
        }),
{
}

/// Each file of an import counts at most once: either as an added record or
/// as a failure (or as neither, when its row was already there).
pub proof fn law_import_counts_each_file_once(attempts: Seq<ImportAttempt>)
    ensures
        imported_records(attempts).len() <= attempts.len(),
        import_failures(attempts).len() <= attempts.len(),
        imported_records(attempts).len() + import_failures(attempts).len() <= attempts.len(),
    decreases attempts.len(),
{
    if attempts.len() > 0 {
        law_import_counts_each_file_once(attempts.drop_last());
    }
}

} // verus!
