use photo_editor::lens_match::{
    find_profile_by_id, find_profile_by_name, make_lens_id, normalize, token_similarity, tokenize,
    LensIdentity,
};
use photo_editor::lens_xml::{
    attribute, calibration_kind, lens_full_name, parse_lensfun_xml, trim, CalibrationEntry, CalibrationKind, LensEvent, LensScan,
    TcaModel,
};

fn lens(id: &str, name: &str, aliases: &[&str]) -> LensIdentity {
    LensIdentity {
        lens_id: id.to_string(),
        lens_name: name.to_string(),
        aliases: aliases.iter().map(|a| a.to_string()).collect(),
    }
}

fn sample_profiles() -> Vec<LensIdentity> {
    vec![
        lens("canon-ef-50mm-f14-usm", "Canon EF 50mm f/1.4 USM", &["EF 50mm f/1.4 USM"]),
        lens("sony-fe-2470mm-f28-gm", "Sony FE 24-70mm f/2.8 GM", &["FE 24-70mm F2.8 GM"]),
        lens("nikon-af-s-nikkor-35mm-f18g", "Nikon AF-S Nikkor 35mm f/1.8G", &[]),
    ]
}

#[test]
fn normalize_lowercases_strips_and_collapses() {
    assert_eq!(normalize("  Sony FE 24-70mm   f/2.8 GM "), "sony fe 24-70mm f2.8 gm");
    assert_eq!(normalize("Canon EF\t50mm"), "canon ef50mm");
    assert_eq!(normalize("Canon EF \u{2003} 50mm"), "canon ef 50mm");
    assert_eq!(normalize("!!!"), "");
    assert_eq!(normalize(""), "");
}

#[test]
fn make_lens_id_joins_words_with_dashes() {
    assert_eq!(make_lens_id("TestMaker Test 50mm f/2"), "testmaker-test-50mm-f2");
    assert_eq!(make_lens_id("Sony FE 24-70mm f/2.8 GM"), "sony-fe-2470mm-f28-gm");
    assert!(!make_lens_id("  a   b  ").contains(' '));
    assert_eq!(make_lens_id("  a   b  "), "a-b");
}

#[test]
fn tokenize_splits_on_whitespace() {
    assert_eq!(tokenize("sony fe  24-70mm\tgm"), vec!["sony", "fe", "24-70mm", "gm"]);
    assert!(tokenize("   ").is_empty());
}

#[test]
fn tokens_of_normal_form_are_its_words() {
    let n = normalize("  Canon   EF 50mm  ");
    assert_eq!(tokenize(&n).join(" "), n);
}

#[test]
fn token_similarity_counts_prefix_matches() {
    let a = tokenize("canon ef 50mm");
    let b = tokenize("canon ef 50mm f1.4 usm");
    let s = token_similarity(&a, &b);
    assert_eq!((s.matches, s.total), (3, 5));
    let s2 = token_similarity(&tokenize("ef 50"), &tokenize("ef 50mm"));
    assert_eq!((s2.matches, s2.total), (2, 2));
    let e = token_similarity(&Vec::new(), &b);
    assert_eq!((e.matches, e.total), (0, 1));
}

#[test]
fn similarity_with_itself_is_full() {
    let a = tokenize("nikon af-s 35mm");
    let s = token_similarity(&a, &a);
    assert_eq!((s.matches, s.total), (3, 3));
}

#[test]
fn find_by_id_finds_first() {
    let ps = sample_profiles();
    assert_eq!(find_profile_by_id(&ps, "sony-fe-2470mm-f28-gm"), Some(1));
    assert_eq!(find_profile_by_id(&ps, "missing"), None);
    let dup = vec![lens("x", "A", &[]), lens("x", "B", &[])];
    assert_eq!(find_profile_by_id(&dup, "x"), Some(0));
}

#[test]
fn find_by_name_prefers_exact_alias_match() {
    let ps = sample_profiles();
    assert_eq!(find_profile_by_name(&ps, "EF 50mm f/1.4 USM"), Some(0));
    assert_eq!(find_profile_by_name(&ps, "sony fe 24-70mm f/2.8 gm"), Some(1));
}

#[test]
fn find_by_name_fuzzy_needs_more_than_half() {
    let ps = sample_profiles();
    assert_eq!(find_profile_by_name(&ps, "Nikon AF-S Nikkor 35mm"), Some(2));
    assert_eq!(find_profile_by_name(&ps, "Nikon 85mm"), None);
    assert_eq!(find_profile_by_name(&ps, "---"), None);
}

#[test]
fn find_by_name_keeps_first_of_equal_scores() {
    let ps = vec![lens("a", "Alpha 50mm", &[]), lens("b", "Alpha 50mm lens", &[]), lens("c", "Alpha 50mm", &[])];
    // "alpha 50" matches two of two tokens of the first and the third, two of three of the second
    assert_eq!(find_profile_by_name(&ps, "Alpha 50"), Some(0));
}

#[test]
fn test_find_by_name_sony() {
    let ps = sample_profiles();
    let p = find_profile_by_name(&ps, "Sony FE 24-70mm f/2.8 GM");
    if let Some(i) = p {
        let name = &ps[i].lens_name;
        assert!(name.contains("24-70") || name.contains("2470"), "Expected 24-70 lens, got: {}", name);
    }
}

#[test]
fn test_find_by_name_canon() {
    let ps = sample_profiles();
    let p = find_profile_by_name(&ps, "Canon EF 50mm f/1.4 USM");
    if let Some(i) = p {
        let name = &ps[i].lens_name;
        assert!(name.contains("50") && name.contains("1.4"), "Expected 50mm f/1.4, got: {}", name);
    }
}

#[test]
fn test_no_match() {
    let ps = sample_profiles();
    let p = find_profile_by_name(&ps, "Totally Unknown Lens XYZ 999");
    assert!(p.is_none());
}

#[test]
fn trim_removes_surrounding_whitespace() {
    assert_eq!(trim("  TestMaker \n"), "TestMaker");
    assert_eq!(trim("\t \n"), "");
    assert_eq!(trim("a b"), "a b");
}

#[test]
fn full_name_avoids_repeating_the_maker() {
    assert_eq!(lens_full_name("Canon", "Canon EF 50mm"), "Canon EF 50mm");
    assert_eq!(lens_full_name("Canon", "EF 50mm"), "Canon EF 50mm");
    assert_eq!(lens_full_name("", "EF 50mm"), "EF 50mm");
}

#[test]
fn lens_scan_steps() {
    let mut s = LensScan::new();
    s.step(LensEvent::Start("maker".to_string()));
    s.step(LensEvent::Text(Some(" Sigma ".to_string())));
    s.step(LensEvent::End("maker".to_string()));
    s.step(LensEvent::Start("model".to_string()));
    s.step(LensEvent::Text(Some("30mm F1.4".to_string())));
    s.step(LensEvent::End("model".to_string()));
    s.step(LensEvent::Empty("distortion".to_string(), vec![("a".to_string(), "0.1".to_string())]));
    assert!(s.calibration.is_empty());
    s.step(LensEvent::Start("calibration".to_string()));
    s.step(LensEvent::Empty("distortion".to_string(), vec![("a".to_string(), "0.1".to_string())]));
    s.step(LensEvent::Empty("other".to_string(), vec![]));
    s.step(LensEvent::End("calibration".to_string()));
    s.step(LensEvent::End("lens".to_string()));
    assert!(s.finished);
    let l = s.finish().unwrap();
    assert_eq!(l.lens_name, "Sigma 30mm F1.4");
    assert_eq!(l.lens_id, "sigma-30mm-f14");
    assert_eq!(l.aliases, vec!["30mm F1.4".to_string()]);
    assert_eq!(l.calibration.len(), 1);
    assert_eq!(l.calibration[0].tag, "distortion");
}

#[test]
fn lens_without_model_is_dropped() {
    let mut s = LensScan::new();
    s.step(LensEvent::Start("maker".to_string()));
    s.step(LensEvent::Text(Some("Sigma".to_string())));
    s.step(LensEvent::Stop);
    assert!(s.finish().is_none());
}

fn attr(e: &CalibrationEntry, key: &str) -> Option<String> {
    attribute(&e.attrs, key)
}

#[test]
fn test_parse_xml_fragment() {
    let xml = r#"<lensdatabase version="2">
            <lens>
                <maker>TestMaker</maker>
                <model>Test 50mm f/2</model>
                <mount>TestMount</mount>
                <calibration>
                    <distortion model="ptlens" focal="50" a="0.001" b="-0.005" c="0.002"/>
                    <tca model="linear" focal="50" kr="1.0003" kb="0.9997"/>
                    <vignetting model="pa" focal="50" aperture="2.0" distance="1000" k1="-0.5" k2="0.2" k3="-0.03"/>
                </calibration>
            </lens>
        </lensdatabase>"#;

    let profiles = parse_lensfun_xml(xml).unwrap();
    assert_eq!(profiles.len(), 1);
    let p = &profiles[0];
    assert_eq!(p.lens_name, "TestMaker Test 50mm f/2");
    assert_eq!(p.mount, "TestMount");
    assert_eq!(p.calibration.len(), 3);
    let focals: Vec<f64> = p.calibration.iter().map(|e| attr(e, "focal").unwrap().parse().unwrap()).collect();
    assert!(focals.iter().all(|f| (f - 50.0).abs() < 0.01));
    let dist = &p.calibration[0];
    assert_eq!(dist.tag, "distortion");
    let a: f64 = attr(dist, "a").unwrap().parse().unwrap();
    let b: f64 = attr(dist, "b").unwrap().parse().unwrap();
    assert!((a - 0.001).abs() < 1e-6);
    assert!((b - (-0.005)).abs() < 1e-6);
    let kr: f64 = attr(&p.calibration[1], "kr").unwrap().parse().unwrap();
    assert!((kr - 1.0003).abs() < 1e-6);
    let k1: f64 = attr(&p.calibration[2], "k1").unwrap().parse().unwrap();
    assert!((k1 - (-0.5)).abs() < 1e-6);
}

#[test]
fn parse_skips_lens_without_model_and_reports_errors() {
    let xml = "<db><lens><maker>X</maker></lens><lens><model>M</model></lens></db>";
    let v = parse_lensfun_xml(xml).unwrap();
    assert_eq!(v.len(), 1);
    assert_eq!(v[0].lens_name, "M");
    let err = parse_lensfun_xml("<db></dx>").unwrap_err();
    assert!(err.starts_with("XML parse error: "), "{}", err);
}

fn entry(tag: &str, attrs: &[(&str, &str)]) -> CalibrationEntry {
    CalibrationEntry { tag: tag.to_string(), attrs: attrs.iter().map(|(k, v)| (k.to_string(), v.to_string())).collect() }
}

#[test]
fn attribute_takes_the_last_occurrence() {
    let e = entry("tca", &[("focal", "50"), ("kr", "1.1"), ("focal", "85")]);
    assert_eq!(attribute(&e.attrs, "focal"), Some("85".to_string()));
    assert_eq!(attribute(&e.attrs, "kr"), Some("1.1".to_string()));
    assert_eq!(attribute(&e.attrs, "kb"), None);
    assert_eq!(attribute(&Vec::new(), "kb"), None);
}

#[test]
fn calibration_kind_follows_tag_and_model() {
    assert_eq!(calibration_kind(&entry("distortion", &[("model", "ptlens")])), Some(CalibrationKind::Distortion));
    assert_eq!(calibration_kind(&entry("distortion", &[("model", "poly3")])), None);
    assert_eq!(calibration_kind(&entry("distortion", &[])), None);
    assert_eq!(calibration_kind(&entry("tca", &[("model", "linear")])), Some(CalibrationKind::Tca(TcaModel::Linear)));
    assert_eq!(calibration_kind(&entry("tca", &[("model", "poly3")])), Some(CalibrationKind::Tca(TcaModel::Poly3)));
    assert_eq!(calibration_kind(&entry("tca", &[])), Some(CalibrationKind::Tca(TcaModel::Other)));
    assert_eq!(calibration_kind(&entry("vignetting", &[("model", "pa")])), Some(CalibrationKind::Vignetting));
    assert_eq!(calibration_kind(&entry("vignetting", &[("model", "acm")])), None);
    assert_eq!(calibration_kind(&entry("crop", &[("model", "pa")])), None);
    assert_eq!(
        calibration_kind(&entry("distortion", &[("model", "poly3"), ("model", "ptlens")])),
        Some(CalibrationKind::Distortion)
    );
}

#[test]
fn parse_reads_lenses_in_order_and_passes_over_other_markup() {
    let xml = "<?xml version=\"1.0\"?><!-- db --><lensdatabase><mount><name>X</name></mount>\
        <lens><maker>A</maker><model>A 1</model><calibration><tca model=\"linear\" focal=\"5\"/></calibration></lens>\
        <lens><model> B &amp; C </model><mount>M</mount></lens></lensdatabase>";
    let v = parse_lensfun_xml(xml).unwrap();
    assert_eq!(v.len(), 2);
    assert_eq!(v[0].lens_name, "A 1");
    assert_eq!(v[0].aliases, vec!["A 1".to_string()]);
    assert_eq!(v[0].calibration.len(), 1);
    assert_eq!(v[1].lens_name, "B & C");
    assert_eq!(v[1].lens_id, "b-c");
    assert_eq!(v[1].mount, "M");
    assert!(parse_lensfun_xml("").unwrap().is_empty());
}

#[test]
fn an_error_inside_a_lens_ends_that_lens_only() {
    let mut s = LensScan::new();
    s.step(LensEvent::Start("model".to_string()));
    s.step(LensEvent::Text(Some("M".to_string())));
    s.step(LensEvent::Error("bad".to_string()));
    assert!(s.finished);
    assert_eq!(s.finish().unwrap().lens_name, "M");
}
