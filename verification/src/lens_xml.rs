//! Reading lens descriptions out of lensfun XML: the `quick_xml` reader
//! hands out events, and a small state machine collects, for each `<lens>`
//! element, its maker, model and mount and the calibration entries it lists.
//! Turning the calibration attributes into numbers is left to the caller.
use vstd::prelude::*;
use vstd::string::StringExecFns;
use crate::lens_match::{lens_id_of, make_lens_id};
use quick_xml::events::Event::{Empty, End, Eof, Start, Text};
use crate::paths::eq_lit;
use crate::text::{chars_of, is_prefix, is_white_space, char_is_whitespace, starts_with, string_from_chars};

verus! {

/// A `quick_xml` reader over a string.
#[verifier::external_type_specification]
#[verifier::external_body]
#[verifier::reject_recursive_types(R)]
pub struct ExXmlReader<R>(quick_xml::Reader<R>);

/// The events a `quick_xml` reader made by `Reader::from_str` over `xml`
/// gives, as [`next_xml_event`] reads them, up to and including the first
/// end of the document (every read after that is the end again). `quick_xml`
/// moves past the bytes of each event, an ill-formed one included, and after
/// any other error reads only the end, so there are finitely many.
pub uninterp spec fn document_events(xml: Seq<char>) -> Seq<EventView>;

/// The events `reader` has yet to give, up to and including the end of the
/// document: empty once it has given that end.
pub uninterp spec fn pending_events(reader: quick_xml::Reader<&[u8]>) -> Seq<EventView>;

/// Calls `quick_xml::Reader::from_str`: a reader that has yet to give all
/// the events of `xml`.
#[verifier::external_body]
fn xml_reader<'a>(xml: &'a str) -> (r: quick_xml::Reader<&'a [u8]>)
    ensures
        pending_events(r) == document_events(xml@),
{
    quick_xml::Reader::from_str(xml)
}

/// Calls `quick_xml::Reader::read_event` and converts what it read: tag
/// names and attribute keys and values decoded as UTF-8 (lossily),
/// attributes it reports as malformed dropped, text unescaped (`None` when
/// that fails), the end of the document as `Stop`, an error as its message,
/// comments, declarations and the like as `Other`. The event is the first
/// the reader had yet to give, and the reader moves past it.
#[verifier::external_body]
fn next_xml_event(reader: &mut quick_xml::Reader<&[u8]>) -> (r: LensEvent)
    ensures
        pending_events(*old(reader)).len() > 0 ==> r@ == pending_events(*old(reader))[0]
            && pending_events(*final(reader)) == pending_events(*old(reader)).drop_first(),
        pending_events(*old(reader)).len() == 0 ==> r@ is Stop && pending_events(*final(reader)).len()
            == 0,
{
    let text = |b: &[u8]| String::from_utf8_lossy(b).into_owned();
    match reader.read_event() {
        Ok(Start(e)) => LensEvent::Start(text(e.name().0)),
        Ok(End(e)) => LensEvent::End(text(&e)),
        Ok(Empty(e)) => LensEvent::Empty(text(e.name().0), e.attributes().flatten().map(|a| (text(a.key.0), text(&a.value))).collect()),
        Ok(Text(e)) => LensEvent::Text(e.unescape().ok().map(String::from)),
        Ok(Eof) => LensEvent::Stop,
        Ok(_) => LensEvent::Other,
        Err(e) => LensEvent::Error(e.to_string()),
    }
}

// ---------------------------------------------------------------------------
// Trimming
// ---------------------------------------------------------------------------

/// `s` without its leading whitespace.
pub open spec fn trim_start(s: Seq<char>) -> Seq<char>
    decreases s.len(),
{
    if s.len() > 0 && is_white_space(s[0]) {
        trim_start(s.drop_first())
    } else {
        s
    }
}

/// `s` without its trailing whitespace.
pub open spec fn trim_end(s: Seq<char>) -> Seq<char>
    decreases s.len(),
{
    if s.len() > 0 && is_white_space(s.last()) {
        trim_end(s.drop_last())
    } else {
        s
    }
}

/// `s` without leading and trailing whitespace: `str::trim`.
pub open spec fn trimmed(s: Seq<char>) -> Seq<char> {
    trim_end(trim_start(s))
}

/// Removes leading and trailing whitespace.
pub fn trim(s: &str) -> (r: String)
    ensures
        r@ == trimmed(s@),
{
    let cs = chars_of(s);
    let mut a: usize = 0;
    proof {
        assert(s@.skip(0) =~= s@);
    }
    while a < cs.len() && char_is_whitespace(cs[a])
        invariant
            a <= cs.len(),
            cs@ == s@,
            trim_start(s@) == trim_start(s@.skip(a as int)),
        decreases cs.len() - a,
    {
        proof {
            assert(s@.skip(a as int).drop_first() =~= s@.skip(a + 1));
        }
        a = a + 1;
    }
    proof {
        assert(trim_start(s@.skip(a as int)) == s@.skip(a as int));
    }
    let mut b: usize = cs.len();
    while b > a && char_is_whitespace(cs[b - 1])
        invariant
            a <= b <= cs.len(),
            cs@ == s@,
            trimmed(s@) == trim_end(s@.subrange(a as int, b as int)),
        decreases b,
    {
        proof {
            assert(s@.subrange(a as int, b as int).drop_last() =~= s@.subrange(a as int, b - 1));
        }
        b = b - 1;
    }
    proof {
        assert(trim_end(s@.subrange(a as int, b as int)) == s@.subrange(a as int, b as int));
        assert(s@.skip(a as int) =~= s@.subrange(a as int, cs.len() as int));
    }
    let mut out: Vec<char> = Vec::new();
    let mut i: usize = a;
    while i < b
        invariant
            a <= i <= b <= cs.len(),
            cs@ == s@,
            out@ == s@.subrange(a as int, i as int),
        decreases b - i,
    {
        proof {
            assert(s@.subrange(a as int, i + 1) =~= s@.subrange(a as int, i as int).push(s@[i as int]));
        }
        out.push(cs[i]);
        i = i + 1;
    }
    string_from_chars(&out)
}

// ---------------------------------------------------------------------------
// The lens element state machine
// ---------------------------------------------------------------------------

/// An event as the lens reader sees it: tag names decoded, text unescaped
/// (`None` when that failed), attributes as key/value pairs; `Stop` for the
/// end of the document, `Error` with its message for a read error.
#[derive(Debug)]
pub enum LensEvent {
    Start(String),
    End(String),
    Empty(String, Vec<(String, String)>),
    Text(Option<String>),
    Stop,
    Error(String),
    Other,
}

/// The value of a [`LensEvent`].
pub enum EventView {
    Start(Seq<char>),
    End(Seq<char>),
    Empty(Seq<char>, Seq<(Seq<char>, Seq<char>)>),
    Text(Option<Seq<char>>),
    Stop,
    Error(Seq<char>),
    Other,
}

impl View for LensEvent {
    type V = EventView;

    open spec fn view(&self) -> EventView {
        match self {
            LensEvent::Start(t) => EventView::Start(t@),
            LensEvent::End(t) => EventView::End(t@),
            LensEvent::Empty(t, a) => EventView::Empty(t@, attr_views(a@)),
            LensEvent::Text(o) => EventView::Text(
                match o {
                    Some(x) => Some(x@),
                    None => None,
                },
            ),
            LensEvent::Stop => EventView::Stop,
            LensEvent::Error(m) => EventView::Error(m@),
            LensEvent::Other => EventView::Other,
        }
    }
}

/// A calibration entry of a lens: the tag (`distortion`, `tca` or
/// `vignetting`) and its attributes, in order.
#[derive(Debug)]
pub struct CalibrationEntry {
    pub tag: String,
    pub attrs: Vec<(String, String)>,
}

/// The value of attribute lists.
pub open spec fn attr_views(a: Seq<(String, String)>) -> Seq<(Seq<char>, Seq<char>)> {
    a.map_values(|p: (String, String)| (p.0@, p.1@))
}

/// The value of a calibration entry.
pub struct EntryView {
    pub tag: Seq<char>,
    pub attrs: Seq<(Seq<char>, Seq<char>)>,
}

/// The value of calibration entries.
pub open spec fn entry_views(v: Seq<CalibrationEntry>) -> Seq<EntryView> {
    v.map_values(|e: CalibrationEntry| EntryView { tag: e.tag@, attrs: attr_views(e.attrs@) })
}

/// What the reader has gathered of a lens element so far.
pub struct LensScan {
    pub maker: String,
    pub model: String,
    pub mount: String,
    pub current_tag: String,
    pub in_calibration: bool,
    pub calibration: Vec<CalibrationEntry>,
    pub finished: bool,
}

/// The value of a [`LensScan`].
pub struct ScanView {
    pub maker: Seq<char>,
    pub model: Seq<char>,
    pub mount: Seq<char>,
    pub current_tag: Seq<char>,
    pub in_calibration: bool,
    pub calibration: Seq<EntryView>,
    pub finished: bool,
}

impl View for LensScan {
    type V = ScanView;

    open spec fn view(&self) -> ScanView {
        ScanView {
            maker: self.maker@,
            model: self.model@,
            mount: self.mount@,
            current_tag: self.current_tag@,
            in_calibration: self.in_calibration,
            calibration: entry_views(self.calibration@),
            finished: self.finished,
        }
    }
}

/// The tags whose text the reader keeps.
pub open spec fn text_tag(t: Seq<char>) -> bool {
    t == "maker"@ || t == "model"@ || t == "mount"@
}

/// The calibration tags the reader keeps.
pub open spec fn calibration_tag(t: Seq<char>) -> bool {
    t == "distortion"@ || t == "tca"@ || t == "vignetting"@
}

/// One step of the lens element reader. A start tag of `maker`, `model` or
/// `mount` marks where text goes, `calibration` opens the calibration part,
/// any other start tag clears the mark. An end tag of `lens` finishes the
/// element, one of `calibration` closes the calibration part, and every end
/// tag clears the mark. Text, trimmed, goes to the marked field (when it
/// could be unescaped) and clears the mark. An empty calibration tag inside
/// the calibration part is kept with its attributes. The end of the document
/// or a read error finishes the element.
pub open spec fn scan_step(s: ScanView, e: EventView) -> ScanView {
    match e {
        EventView::Start(t) => if text_tag(t) {
            ScanView { current_tag: t, ..s }
        } else if t == "calibration"@ {
            ScanView { in_calibration: true, ..s }
        } else {
            ScanView { current_tag: Seq::empty(), ..s }
        },
        EventView::End(t) => if t == "lens"@ {
            ScanView { finished: true, ..s }
        } else if t == "calibration"@ {
            ScanView { in_calibration: false, current_tag: Seq::empty(), ..s }
        } else {
            ScanView { current_tag: Seq::empty(), ..s }
        },
        EventView::Text(o) => {
            let s2 = match o {
                Some(txt) => if s.current_tag == "maker"@ {
                    ScanView { maker: trimmed(txt), ..s }
                } else if s.current_tag == "model"@ {
                    ScanView { model: trimmed(txt), ..s }
                } else if s.current_tag == "mount"@ {
                    ScanView { mount: trimmed(txt), ..s }
                } else {
                    s
                },
                None => s,
            };
            ScanView { current_tag: Seq::empty(), ..s2 }
        },
        EventView::Empty(t, attrs) => if s.in_calibration && calibration_tag(t) {
            ScanView { calibration: s.calibration.push(EntryView { tag: t, attrs: attrs }), ..s }
        } else {
            s
        },
        EventView::Stop => ScanView { finished: true, ..s },
        EventView::Error(_) => ScanView { finished: true, ..s },
        EventView::Other => s,
    }
}

/// A lens element as read from the XML: names and the raw calibration
/// entries.
#[derive(Debug)]
pub struct RawLens {
    pub lens_id: String,
    pub lens_name: String,
    pub aliases: Vec<String>,
    pub mount: String,
    pub calibration: Vec<CalibrationEntry>,
}

/// A lens read from XML is named consistently: it has one alias, its model,
/// which is not empty, and its identifier is made from its full name.
pub open spec fn well_named(l: RawLens) -> bool {
    &&& l.aliases@.len() == 1
    &&& l.aliases@[0]@.len() > 0
    &&& l.lens_id@ == lens_id_of(l.lens_name@)
}

/// The full name of a lens: maker and model separated by a space, unless the
/// maker is empty or the model already starts with it, in which case the
/// model alone.
pub open spec fn full_lens_name(maker: Seq<char>, model: Seq<char>) -> Seq<char> {
    if maker.len() > 0 && !is_prefix(maker, model) {
        maker + seq![' '] + model
    } else {
        model
    }
}

/// Joins maker and model into the full name of a lens.
pub fn lens_full_name(maker: &str, model: &str) -> (r: String)
    ensures
        r@ == full_lens_name(maker@, model@),
{
    let mk = chars_of(maker);
    let md = chars_of(model);
    if mk.len() > 0 && !starts_with(&md, &mk) {
        let mut s = String::from_str(maker);
        crate::text::push_char(&mut s, ' ');
        s.append(model);
        s
    } else {
        String::from_str(model)
    }
}

/// The state at the start of a lens element: nothing gathered, no mark,
/// outside the calibration part, not finished.
pub open spec fn scan_start() -> ScanView {
    ScanView {
        maker: Seq::empty(),
        model: Seq::empty(),
        mount: Seq::empty(),
        current_tag: Seq::empty(),
        in_calibration: false,
        calibration: Seq::empty(),
        finished: false,
    }
}

/// The value of a lens read from XML.
pub struct LensView {
    pub lens_id: Seq<char>,
    pub lens_name: Seq<char>,
    pub aliases: Seq<Seq<char>>,
    pub mount: Seq<char>,
    pub calibration: Seq<EntryView>,
}

/// The value of a [`RawLens`].
pub open spec fn lens_view(l: RawLens) -> LensView {
    LensView {
        lens_id: l.lens_id@,
        lens_name: l.lens_name@,
        aliases: l.aliases@.map_values(|a: String| a@),
        mount: l.mount@,
        calibration: entry_views(l.calibration@),
    }
}

/// The value of an optional lens.
pub open spec fn opt_lens_view(o: Option<RawLens>) -> Option<LensView> {
    match o {
        Some(l) => Some(lens_view(l)),
        None => None,
    }
}

/// The lens a finished scan yields: none without a model; otherwise named
/// by maker and model, identified by that full name, with the model as its
/// one alias, its mount and its calibration entries.
pub open spec fn finish_view(s: ScanView) -> Option<LensView> {
    if s.model.len() == 0 {
        None
    } else {
        Some(
            LensView {
                lens_id: lens_id_of(full_lens_name(s.maker, s.model)),
                lens_name: full_lens_name(s.maker, s.model),
                aliases: seq![s.model],
                mount: s.mount,
                calibration: s.calibration,
            },
        )
    }
}

impl LensScan {
    /// The state at the start of a lens element.
    pub fn new() -> (r: LensScan)
        ensures
            r@ == scan_start(),
    {
        let r = LensScan {
            maker: String::new(),
            model: String::new(),
            mount: String::new(),
            current_tag: String::new(),
            in_calibration: false,
            calibration: Vec::new(),
            finished: false,
        };
        proof {
            assert(entry_views(r.calibration@) =~= Seq::<EntryView>::empty());
            assert(r@.maker =~= Seq::<char>::empty());
            assert(r@.model =~= Seq::<char>::empty());
            assert(r@.mount =~= Seq::<char>::empty());
            assert(r@.current_tag =~= Seq::<char>::empty());
        }
        r
    }

    /// Takes one event into account.
    pub fn step(&mut self, e: LensEvent)
        ensures
            final(self)@ == scan_step(old(self)@, e@),
    {
        let ghost before = self@;
        match e {
            LensEvent::Start(t) => {
                let tc = chars_of(t.as_str());
                if eq_lit(&tc, "maker") || eq_lit(&tc, "model") || eq_lit(&tc, "mount") {
                    self.current_tag = t;
                } else if eq_lit(&tc, "calibration") {
                    self.in_calibration = true;
                } else {
                    self.current_tag = String::new();
                }
            },
            LensEvent::End(t) => {
                let tc = chars_of(t.as_str());
                if eq_lit(&tc, "lens") {
                    self.finished = true;
                } else {
                    if eq_lit(&tc, "calibration") {
                        self.in_calibration = false;
                    }
                    self.current_tag = String::new();
                }
            },
            LensEvent::Text(o) => {
                match o {
                    Some(txt) => {
                        let v = trim(txt.as_str());
                        let cur = chars_of(self.current_tag.as_str());
                        if eq_lit(&cur, "maker") {
                            self.maker = v;
                        } else if eq_lit(&cur, "model") {
                            self.model = v;
                        } else if eq_lit(&cur, "mount") {
                            self.mount = v;
                        }
                    },
                    None => {},
                }
                self.current_tag = String::new();
            },
            LensEvent::Empty(t, attrs) => {
                let tc = chars_of(t.as_str());
                if self.in_calibration && (eq_lit(&tc, "distortion") || eq_lit(&tc, "tca")
                    || eq_lit(&tc, "vignetting")) {
                    let ghost ev = EntryView { tag: t@, attrs: attr_views(attrs@) };
                    let ghost cal = self.calibration@;
                    self.calibration.push(CalibrationEntry { tag: t, attrs });
                    proof {
                        assert(entry_views(self.calibration@) =~= entry_views(cal).push(ev));
                    }
                }
            },
            LensEvent::Stop => {
                self.finished = true;
            },
            LensEvent::Error(_) => {
                self.finished = true;
            },
            LensEvent::Other => {},
        }
    }

    /// The lens element read: none when it has no model; otherwise its full
    /// name, its identifier made from the full name, the model as its one
    /// alias, its mount and its calibration entries.
    pub fn finish(self) -> (r: Option<RawLens>)
        ensures
            opt_lens_view(r) == finish_view(self@),
            r matches Some(l) ==> well_named(l),
    {
        let mc = chars_of(self.model.as_str());
        if mc.len() == 0 {
            return None;
        }
        let full = lens_full_name(self.maker.as_str(), self.model.as_str());
        let id = make_lens_id(full.as_str());
        let mut aliases: Vec<String> = Vec::new();
        aliases.push(self.model);
        proof {
            assert(aliases@.map_values(|a: String| a@) =~= seq![self@.model]);
        }
        Some(RawLens { lens_id: id, lens_name: full, aliases, mount: self.mount, calibration: self.calibration })
    }
}

// ---------------------------------------------------------------------------
// Reading calibration entries
// ---------------------------------------------------------------------------

/// The value of attribute `key` in `attrs`: that of its last occurrence, as a
/// map filled in order keeps it.
pub open spec fn attr_lookup(attrs: Seq<(Seq<char>, Seq<char>)>, key: Seq<char>) -> Option<Seq<char>>
    decreases attrs.len(),
{
    if attrs.len() == 0 {
        None
    } else if attrs.last().0 == key {
        Some(attrs.last().1)
    } else {
        attr_lookup(attrs.drop_last(), key)
    }
}

/// The value of attribute `key` among `attrs` (the last one when repeated).
pub fn attribute(attrs: &Vec<(String, String)>, key: &str) -> (r: Option<String>)
    ensures
        r matches Some(v) ==> attr_lookup(attr_views(attrs@), key@) == Some(v@),
        r is None ==> attr_lookup(attr_views(attrs@), key@) is None,
{
    let k = chars_of(key);
    let mut i: usize = attrs.len();
    proof {
        assert(attr_views(attrs@).take(i as int) =~= attr_views(attrs@));
    }
    while i > 0
        invariant
            i <= attrs.len(),
            k@ == key@,
            attr_lookup(attr_views(attrs@), key@) == attr_lookup(attr_views(attrs@).take(i as int), key@),
        decreases i,
    {
        let ghost t = attr_views(attrs@).take(i as int);
        proof {
            assert(t.drop_last() =~= attr_views(attrs@).take(i - 1));
            assert(t.last() == (attrs@[i - 1].0@, attrs@[i - 1].1@));
        }
        let name = chars_of(attrs[i - 1].0.as_str());
        if crate::text::chars_eq(&name, &k) {
            return Some(attrs[i - 1].1.clone());
        }
        i = i - 1;
    }
    None
}

/// How chromatic aberration is described.
#[derive(Debug, Clone, Copy, PartialEq, Eq)]
pub enum TcaModel {
    /// Linear scales, in attributes `kr` and `kb`.
    Linear,
    /// Cubic polynomial, whose linear terms are in attributes `vr` and `vb`.
    Poly3,
    /// Any other model: no correction.
    Other,
}

/// The kind of a calibration entry that is used.
#[derive(Debug, Clone, Copy, PartialEq, Eq)]
pub enum CalibrationKind {
    /// PTLens distortion coefficients (`a`, `b`, `c`).
    Distortion,
    /// Chromatic aberration.
    Tca(TcaModel),
    /// Vignetting in the `pa` model (`k1`, `k2`, `k3`, by `aperture`).
    Vignetting,
}

/// Which calibration entries are used, and how: distortion only in the
/// `ptlens` model, chromatic aberration in any model, vignetting only in the
/// `pa` model.
pub open spec fn kind_of(tag: Seq<char>, attrs: Seq<(Seq<char>, Seq<char>)>) -> Option<CalibrationKind> {
    let model = attr_lookup(attrs, "model"@);
    if tag == "distortion"@ {
        if model == Some("ptlens"@) {
            Some(CalibrationKind::Distortion)
        } else {
            None
        }
    } else if tag == "tca"@ {
        Some(
            CalibrationKind::Tca(
                if model == Some("linear"@) {
                    TcaModel::Linear
                } else if model == Some("poly3"@) {
                    TcaModel::Poly3
                } else {
                    TcaModel::Other
                },
            ),
        )
    } else if tag == "vignetting"@ {
        if model == Some("pa"@) {
            Some(CalibrationKind::Vignetting)
        } else {
            None
        }
    } else {
        None
    }
}

fn model_is(model: &Option<String>, lit: &str) -> (r: bool)
    ensures
        r == (match model {
            Some(m) => m@ == lit@,
            None => false,
        }),
{
    match model {
        Some(m) => {
            let mc = chars_of(m.as_str());
            eq_lit(&mc, lit)
        },
        None => false,
    }
}

/// How a calibration entry is used, if it is.
pub fn calibration_kind(entry: &CalibrationEntry) -> (r: Option<CalibrationKind>)
    ensures
        r == kind_of(entry.tag@, attr_views(entry.attrs@)),
{
    let model = attribute(&entry.attrs, "model");
    let tc = chars_of(entry.tag.as_str());
    proof {
        reveal_strlit("model");
    }
    if eq_lit(&tc, "distortion") {
        if model_is(&model, "ptlens") {
            Some(CalibrationKind::Distortion)
        } else {
            None
        }
    } else if eq_lit(&tc, "tca") {
        let m = if model_is(&model, "linear") {
            TcaModel::Linear
        } else if model_is(&model, "poly3") {
            TcaModel::Poly3
        } else {
            TcaModel::Other
        };
        Some(CalibrationKind::Tca(m))
    } else if eq_lit(&tc, "vignetting") {
        if model_is(&model, "pa") {
            Some(CalibrationKind::Vignetting)
        } else {
            None
        }
    } else {
        None
    }
}

/// Reading the rest of a lens element from the events `evs` in state `s`:
/// each event is stepped in until the element is finished; once the events
/// are used up, reading gives the end of the document. The final state and
/// the events left.
pub open spec fn scan_rest(s: ScanView, evs: Seq<EventView>) -> (ScanView, Seq<EventView>)
    decreases evs.len(),
{
    if s.finished {
        (s, evs)
    } else if evs.len() == 0 {
        (scan_step(s, EventView::Stop), evs)
    } else {
        scan_rest(scan_step(s, evs[0]), evs.drop_first())
    }
}

/// Reading a lens element leaves no more events than there were.
pub proof fn lemma_scan_rest_shrinks(s: ScanView, evs: Seq<EventView>)
    ensures
        scan_rest(s, evs).1.len() <= evs.len(),
    decreases evs.len(),
{
    if !s.finished && evs.len() > 0 {
        lemma_scan_rest_shrinks(scan_step(s, evs[0]), evs.drop_first());
    }
}

/// The message of a document that is not well-formed XML.
pub open spec fn xml_error_message(detail: Seq<char>) -> Seq<char> {
    "XML parse error: "@ + detail
}

/// The lenses a document whose events are `evs` holds, in order: each
/// `<lens>` start tag begins a lens element, read as [`scan_rest`] says, and
/// yields the lens [`finish_view`] gives, if any; other events between lens
/// elements are passed over. The end of the document ends the list; a read
/// error there fails with its message, whatever came before.
pub open spec fn document_lenses(evs: Seq<EventView>) -> Result<Seq<LensView>, Seq<char>>
    decreases evs.len(),
{
    if evs.len() == 0 {
        Ok(Seq::empty())
    } else {
        match evs[0] {
            EventView::Start(t) => if t == "lens"@ {
                let rest = scan_rest(scan_start(), evs.drop_first());
                proof {
                    lemma_scan_rest_shrinks(scan_start(), evs.drop_first());
                }
                match document_lenses(rest.1) {
                    Err(e) => Err(e),
                    Ok(v) => Ok(
                        match finish_view(rest.0) {
                            Some(l) => seq![l] + v,
                            None => v,
                        },
                    ),
                }
            } else {
                document_lenses(evs.drop_first())
            },
            EventView::Stop => Ok(Seq::empty()),
            EventView::Error(m) => Err(xml_error_message(m)),
            _ => document_lenses(evs.drop_first()),
        }
    }
}

/// The values of lenses.
pub open spec fn lens_views(v: Seq<RawLens>) -> Seq<LensView> {
    v.map_values(|l: RawLens| lens_view(l))
}

/// `found` followed by the lenses of `rest`, or the error of `rest`.
pub open spec fn after(found: Seq<LensView>, rest: Result<Seq<LensView>, Seq<char>>) -> Result<
    Seq<LensView>,
    Seq<char>,
> {
    match rest {
        Ok(v) => Ok(found + v),
        Err(e) => Err(e),
    }
}

/// Reads the rest of a `<lens>` element whose start tag was just read,
/// stepping the lens reader over each event until the element ends, the
/// document ends or reading fails, and gives the lens it describes.
fn parse_lens_element(reader: &mut quick_xml::Reader<&[u8]>) -> (r: Option<RawLens>)
    ensures
        opt_lens_view(r) == finish_view(scan_rest(scan_start(), pending_events(*old(reader))).0),
        pending_events(*final(reader)) == scan_rest(scan_start(), pending_events(*old(reader))).1,
{
    let mut scan = LensScan::new();
    while !scan.finished
        invariant
            scan_rest(scan@, pending_events(*reader)) == scan_rest(scan_start(), pending_events(*old(reader))),
        decreases pending_events(*reader).len() + (if scan@.finished { 0int } else { 1int }),
    {
        let ghost p = pending_events(*reader);
        let ghost s0 = scan@;
        let ev = next_xml_event(reader);
        scan.step(ev);
        proof {
            if p.len() > 0 {
                assert(scan_rest(s0, p) == scan_rest(scan_step(s0, p[0]), p.drop_first()));
            }
        }
    }
    scan.finish()
}

/// Reads every `<lens>` element of a lensfun XML document, in order, keeping
/// those that have a model; fails with the reader's message when reading
/// meets an error outside a lens element. The lenses are those
/// [`document_lenses`] gives for the events `quick_xml` reads from `xml`.
pub fn parse_lensfun_xml(xml: &str) -> (r: Result<Vec<RawLens>, String>)
    ensures
        match r {
            Ok(v) => document_lenses(document_events(xml@)) == Ok::<Seq<LensView>, Seq<char>>(
                lens_views(v@),
            ),
            Err(m) => document_lenses(document_events(xml@)) == Err::<Seq<LensView>, Seq<char>>(m@),
        },
{
    let mut reader = xml_reader(xml);
    let mut out: Vec<RawLens> = Vec::new();
    proof {
        assert(lens_views(out@) =~= Seq::<LensView>::empty());
        assert(document_lenses(document_events(xml@)) =~= after(
            lens_views(out@),
            document_lenses(pending_events(reader)),
        )) by {
            match document_lenses(document_events(xml@)) {
                Ok(v) => {
                    assert(Seq::<LensView>::empty() + v =~= v);
                },
                Err(e) => {},
            }
        }
    }
    loop
        invariant
            document_lenses(document_events(xml@)) == after(
                lens_views(out@),
                document_lenses(pending_events(reader)),
            ),
        decreases pending_events(reader).len(),
    {
        let ghost p = pending_events(reader);
        let ghost before = lens_views(out@);
        let ev = next_xml_event(&mut reader);
        match ev {
            LensEvent::Start(name) => {
                let nc = chars_of(name.as_str());
                if eq_lit(&nc, "lens") {
                    proof {
                        lemma_scan_rest_shrinks(scan_start(), p.drop_first());
                    }
                    let found = parse_lens_element(&mut reader);
                    match found {
                        Some(l) => {
                            out.push(l);
                            proof {
                                let lv = lens_view(l);
                                assert(lens_views(out@) =~= before.push(lv));
                                match document_lenses(pending_events(reader)) {
                                    Ok(w) => {
                                        assert(before + (seq![lv] + w) =~= before.push(lv) + w);
                                    },
                                    Err(e) => {},
                                }
                            }
                        },
                        None => {},
                    }
                }
            },
            LensEvent::Stop => {
                proof {
                    assert(before + Seq::<LensView>::empty() =~= before);
                }
                return Ok(out);
            },
            LensEvent::Error(m) => {
                let mut msg = String::from_str("XML parse error: ");
                msg.append(m.as_str());
                return Err(msg);
            },
            _ => {},
        }
    }
}

} // verus!
