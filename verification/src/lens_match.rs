//! Matching a lens name read from EXIF against the lens profile database:
//! normalisation, tokenisation, token similarity, lens identifiers and the
//! profile lookups by identifier and by name.
use vstd::prelude::*;
use crate::text::{
    all_words, is_white_space, is_word, lemma_words_are_words, lemma_words_of_join,
    alphanumeric, char_is_alphanumeric, chars_eq, chars_of, is_prefix, join, join_chars,
    lowercase, split_whitespace, starts_with, string_from_chars, to_lowercase, views, words,
};

verus! {

/// The identifying names of a lens profile: what the lookups read of it.
#[derive(Debug)]
pub struct LensIdentity {
    pub lens_id: String,
    pub lens_name: String,
    pub aliases: Vec<String>,
}

/// Characters kept by [`normalize`]: alphanumerics, space, `.` and `-`.
pub open spec fn kept_for_match(c: char) -> bool {
    alphanumeric(c) || c == ' ' || c == '.' || c == '-'
}

/// Characters kept by [`make_lens_id`]: alphanumerics and space.
pub open spec fn kept_for_id(c: char) -> bool {
    alphanumeric(c) || c == ' '
}

/// The normal form used to compare lens names: lowercased, stripped of every
/// character but alphanumerics, space, `.` and `-`, with runs of whitespace
/// collapsed to single spaces and no leading or trailing space.
pub open spec fn normal_form(s: Seq<char>) -> Seq<char> {
    join(words(lowercase(s).filter(|c: char| kept_for_match(c))), seq![' '])
}

/// The identifier of a lens: lowercased, stripped of everything but
/// alphanumerics and whitespace, with the words joined by `-`.
pub open spec fn lens_id_of(s: Seq<char>) -> Seq<char> {
    join(words(lowercase(s).filter(|c: char| kept_for_id(c))), seq!['-'])
}

/// Views of a vector of strings.
pub open spec fn string_views(v: Seq<String>) -> Seq<Seq<char>> {
    v.map_values(|s: String| s@)
}

fn filter_kept(v: &Vec<char>, for_id: bool) -> (r: Vec<char>)
    ensures
        for_id ==> r@ == v@.filter(|c: char| kept_for_id(c)),
        !for_id ==> r@ == v@.filter(|c: char| kept_for_match(c)),
{
    let ghost p = if for_id {
        |c: char| kept_for_id(c)
    } else {
        |c: char| kept_for_match(c)
    };
    let mut out: Vec<char> = Vec::new();
    let mut i: usize = 0;
    while i < v.len()
        invariant
            i <= v.len(),
            p == (if for_id {
                |c: char| kept_for_id(c)
            } else {
                |c: char| kept_for_match(c)
            }),
            out@ == v@.take(i as int).filter(p),
        decreases v.len() - i,
    {
        let c = v[i];
        let keep = char_is_alphanumeric(c) || c == ' ' || (!for_id && (c == '.' || c == '-'));
        proof {
            assert(v@.take(i + 1) =~= v@.take(i as int).push(c));
            v@.take(i as int).lemma_filter_push(c, p);
            assert(keep == p(c));
        }
        if keep {
            out.push(c);
        }
        i = i + 1;
    }
    proof {
        assert(v@.take(i as int) =~= v@);
    }
    out
}

/// Puts a lens name into the normal form used for comparison.
pub fn normalize(s: &str) -> (r: String)
    ensures
        r@ == normal_form(s@),
{
    let lower = to_lowercase(s);
    let cs = chars_of(lower.as_str());
    let kept = filter_kept(&cs, false);
    let ws = split_whitespace(&kept);
    let sep = vec![' '];
    let joined = join_chars(&ws, &sep);
    proof {
        assert(sep@ =~= seq![' ']);
    }
    string_from_chars(&joined)
}

/// Builds the identifier of a lens from its full name.
pub fn make_lens_id(name: &str) -> (r: String)
    ensures
        r@ == lens_id_of(name@),
{
    let lower = to_lowercase(name);
    let cs = chars_of(lower.as_str());
    let kept = filter_kept(&cs, true);
    let ws = split_whitespace(&kept);
    let sep = vec!['-'];
    let joined = join_chars(&ws, &sep);
    proof {
        assert(sep@ =~= seq!['-']);
    }
    string_from_chars(&joined)
}

fn tokenize_chars(s: &str) -> (r: Vec<Vec<char>>)
    ensures
        views(r@) == words(s@),
{
    let cs = chars_of(s);
    split_whitespace(&cs)
}

/// Splits a string into its whitespace-separated tokens.
pub fn tokenize(s: &str) -> (r: Vec<String>)
    ensures
        string_views(r@) == words(s@),
{
    let parts = tokenize_chars(s);
    let mut out: Vec<String> = Vec::new();
    let mut i: usize = 0;
    while i < parts.len()
        invariant
            i <= parts.len(),
            string_views(out@) == views(parts@).take(i as int),
        decreases parts.len() - i,
    {
        let t = string_from_chars(&parts[i]);
        let ghost before = out@;
        out.push(t);
        proof {
            assert(string_views(out@) =~= string_views(before).push(t@));
            assert(views(parts@).take(i + 1) =~= views(parts@).take(i as int).push(parts@[i as int]@));
        }
        i = i + 1;
    }
    proof {
        assert(views(parts@).take(i as int) =~= views(parts@));
    }
    out
}

/// The fraction of tokens that match: `matches / total`, with `total >= 1`.
#[derive(Debug)]
pub struct Similarity {
    pub matches: usize,
    pub total: usize,
}

/// A token of one name matches the other name when some token there starts
/// with it or is a start of it.
pub open spec fn token_matches(t: Seq<char>, others: Seq<Seq<char>>) -> bool {
    exists|j: int| 0 <= j < others.len() && (is_prefix(t, others[j]) || is_prefix(others[j], t))
}

/// How many tokens of `a` match `b`.
pub open spec fn match_count(a: Seq<Seq<char>>, b: Seq<Seq<char>>) -> nat
    decreases a.len(),
{
    if a.len() == 0 {
        0
    } else {
        match_count(a.drop_last(), b) + if token_matches(a.last(), b) {
            1nat
        } else {
            0nat
        }
    }
}

/// The similarity of two token lists as a fraction `(matches, total)`: the
/// number of tokens of `a` that match `b` over the length of the longer list,
/// and `0 / 1` when either list is empty.
pub open spec fn similarity(a: Seq<Seq<char>>, b: Seq<Seq<char>>) -> (nat, nat) {
    if a.len() == 0 || b.len() == 0 {
        (0, 1)
    } else {
        (match_count(a, b), if a.len() >= b.len() {
            a.len()
        } else {
            b.len()
        })
    }
}

/// Fraction `x` is strictly greater than fraction `y` (positive denominators).
pub open spec fn fraction_gt(x: (nat, nat), y: (nat, nat)) -> bool {
    x.0 * y.1 > y.0 * x.1
}

/// Fraction `x` is strictly greater than one half.
pub open spec fn above_half(x: (nat, nat)) -> bool {
    2 * x.0 > x.1
}

/// The fraction a [`Similarity`] stands for.
pub open spec fn fraction_of(s: Similarity) -> (nat, nat) {
    (s.matches as nat, s.total as nat)
}

proof fn lemma_match_count_bound(a: Seq<Seq<char>>, b: Seq<Seq<char>>)
    ensures
        match_count(a, b) <= a.len(),
    decreases a.len(),
{
    if a.len() > 0 {
        lemma_match_count_bound(a.drop_last(), b);
    }
}

fn token_matches_exec(t: &Vec<char>, others: &Vec<Vec<char>>) -> (r: bool)
    ensures
        r == token_matches(t@, views(others@)),
{
    let mut j: usize = 0;
    while j < others.len()
        invariant
            j <= others.len(),
            forall|k: int|
                0 <= k < j ==> !(is_prefix(t@, #[trigger] views(others@)[k]) || is_prefix(
                    views(others@)[k],
                    t@,
                )),
        decreases others.len() - j,
    {
        let o = &others[j];
        proof {
            assert(views(others@)[j as int] == o@);
        }
        if starts_with(o, t) || starts_with(t, o) {
            return true;
        }
        j = j + 1;
    }
    false
}

fn similarity_chars(a: &Vec<Vec<char>>, b: &Vec<Vec<char>>) -> (r: Similarity)
    ensures
        fraction_of(r) == similarity(views(a@), views(b@)),
        r.total >= 1,
        r.matches <= r.total,
{
    if a.len() == 0 || b.len() == 0 {
        return Similarity { matches: 0, total: 1 };
    }
    let ghost va = views(a@);
    let ghost vb = views(b@);
    let mut count: usize = 0;
    let mut i: usize = 0;
    while i < a.len()
        invariant
            i <= a.len(),
            va == views(a@),
            vb == views(b@),
            count == match_count(va.take(i as int), vb),
            count <= i,
        decreases a.len() - i,
    {
        let m = token_matches_exec(&a[i], b);
        proof {
            let t = va.take(i + 1);
            assert(t.drop_last() =~= va.take(i as int));
            assert(t.last() == a@[i as int]@);
        }
        if m {
            count = count + 1;
        }
        i = i + 1;
    }
    proof {
        assert(va.take(i as int) =~= va);
    }
    let total = if a.len() >= b.len() {
        a.len()
    } else {
        b.len()
    };
    Similarity { matches: count, total }
}

fn strings_to_chars(v: &Vec<String>) -> (r: Vec<Vec<char>>)
    ensures
        views(r@) == string_views(v@),
{
    let mut out: Vec<Vec<char>> = Vec::new();
    let mut i: usize = 0;
    while i < v.len()
        invariant
            i <= v.len(),
            views(out@) == string_views(v@).take(i as int),
        decreases v.len() - i,
    {
        let cs = chars_of(v[i].as_str());
        let ghost before = out@;
        out.push(cs);
        proof {
            assert(views(out@) =~= views(before).push(cs@));
            assert(string_views(v@).take(i + 1) =~= string_views(v@).take(i as int).push(v@[i as int]@));
        }
        i = i + 1;
    }
    proof {
        assert(string_views(v@).take(i as int) =~= string_views(v@));
    }
    out
}

/// The token similarity of two token lists.
pub fn token_similarity(a: &Vec<String>, b: &Vec<String>) -> (r: Similarity)
    ensures
        fraction_of(r) == similarity(string_views(a@), string_views(b@)),
        r.total >= 1,
        r.matches <= r.total,
{
    let ca = strings_to_chars(a);
    let cb = strings_to_chars(b);
    similarity_chars(&ca, &cb)
}

fn gt_exec(x: &Similarity, y: &Similarity) -> (r: bool)
    ensures
        r == fraction_gt(fraction_of(*x), fraction_of(*y)),
{
    let a = x.matches as u128;
    let b = y.total as u128;
    let c = y.matches as u128;
    let d = x.total as u128;
    proof {
        let m: u128 = 0xFFFF_FFFF_FFFF_FFFF;
        assert(a <= m && b <= m && c <= m && d <= m);
        assert(a * b <= m * m) by (nonlinear_arith)
            requires
                a <= m,
                b <= m,
        ;
        assert(c * d <= m * m) by (nonlinear_arith)
            requires
                c <= m,
                d <= m,
        ;
    }
    a * b > c * d
}

fn above_half_exec(x: &Similarity) -> (r: bool)
    ensures
        r == above_half(fraction_of(*x)),
{
    2 * (x.matches as u128) > x.total as u128
}

/// All the names a profile answers to: its full name, then its aliases.
pub open spec fn names_of(p: LensIdentity) -> Seq<Seq<char>> {
    seq![p.lens_name@] + string_views(p.aliases@)
}

/// The tokens a name is compared by.
pub open spec fn name_tokens(name: Seq<char>) -> Seq<Seq<char>> {
    words(normal_form(name))
}

/// The best similarity of `needle` to any of `names` (the first best one);
/// `names` is never empty.
pub open spec fn best_score(needle: Seq<Seq<char>>, names: Seq<Seq<char>>) -> (nat, nat)
    decreases names.len(),
{
    if names.len() <= 1 {
        similarity(needle, name_tokens(names[0]))
    } else {
        let prev = best_score(needle, names.drop_last());
        let s = similarity(needle, name_tokens(names.last()));
        if fraction_gt(s, prev) {
            s
        } else {
            prev
        }
    }
}

/// The score of a profile against the tokens of the name looked for.
pub open spec fn profile_score(needle: Seq<Seq<char>>, p: LensIdentity) -> (nat, nat) {
    best_score(needle, names_of(p))
}

/// Whether one of a profile's names has exactly the normal form looked for.
pub open spec fn exact_match(p: LensIdentity, needle: Seq<char>) -> bool {
    exists|k: int| 0 <= k < names_of(p).len() && normal_form(#[trigger] names_of(p)[k]) == needle
}

/// The fuzzy choice among `ps`: the first profile whose score is above one
/// half and higher than that of every profile before it, kept unless a later
/// profile scores strictly higher.
pub open spec fn fuzzy_pick(needle: Seq<Seq<char>>, ps: Seq<LensIdentity>) -> Option<(int, (nat, nat))>
    decreases ps.len(),
{
    if ps.len() == 0 {
        None
    } else {
        let prev = fuzzy_pick(needle, ps.drop_last());
        let s = profile_score(needle, ps.last());
        if above_half(s) && (prev is None || fraction_gt(s, prev.unwrap().1)) {
            Some((ps.len() - 1, s))
        } else {
            prev
        }
    }
}

/// Some profile of `ps` matches `needle` exactly.
pub open spec fn has_exact(ps: Seq<LensIdentity>, needle: Seq<char>) -> bool {
    exists|i: int| 0 <= i < ps.len() && exact_match(#[trigger] ps[i], needle)
}

/// `i` is the first profile of `ps` that matches `needle` exactly.
pub open spec fn is_first_exact(ps: Seq<LensIdentity>, needle: Seq<char>, i: int) -> bool {
    0 <= i < ps.len() && exact_match(ps[i], needle) && forall|j: int|
        0 <= j < i ==> !exact_match(#[trigger] ps[j], needle)
}

/// What [`find_profile_by_name`] answers for `name` over `ps`.
pub open spec fn lookup_by_name(ps: Seq<LensIdentity>, name: Seq<char>) -> Option<int> {
    let needle = normal_form(name);
    if needle.len() == 0 {
        None
    } else if has_exact(ps, needle) {
        Some(choose|i: int| is_first_exact(ps, needle, i))
    } else {
        match fuzzy_pick(words(needle), ps) {
            Some(p) => Some(p.0),
            None => None,
        }
    }
}

fn name_chars(p: &LensIdentity, k: usize) -> (r: Vec<char>)
    requires
        k < names_of(*p).len(),
    ensures
        r@ == names_of(*p)[k as int],
{
    if k == 0 {
        chars_of(p.lens_name.as_str())
    } else {
        chars_of(p.aliases[k - 1].as_str())
    }
}

fn name_count(p: &LensIdentity) -> (r: usize)
    requires
        p.aliases.len() < usize::MAX,
    ensures
        r == names_of(*p).len(),
{
    p.aliases.len() + 1
}

fn has_exact_match(p: &LensIdentity, needle: &Vec<char>) -> (r: bool)
    requires
        p.aliases.len() < usize::MAX,
    ensures
        r == exact_match(*p, needle@),
{
    let n = name_count(p);
    let mut k: usize = 0;
    while k < n
        invariant
            n == names_of(*p).len(),
            k <= n,
            forall|j: int| 0 <= j < k ==> normal_form(#[trigger] names_of(*p)[j]) != needle@,
        decreases n - k,
    {
        let nm = string_from_chars(&name_chars(p, k));
        let norm = normalize(nm.as_str());
        let nc = chars_of(norm.as_str());
        if chars_eq(&nc, needle) {
            return true;
        }
        k = k + 1;
    }
    false
}

fn score_profile(needle: &Vec<Vec<char>>, p: &LensIdentity) -> (r: Similarity)
    requires
        p.aliases.len() < usize::MAX,
    ensures
        fraction_of(r) == profile_score(views(needle@), *p),
        r.total >= 1,
{
    let ghost nt = views(needle@);
    let ghost names = names_of(*p);
    let n = name_count(p);
    let first = string_from_chars(&name_chars(p, 0));
    let mut best = similarity_chars(needle, &tokenize_chars(normalize(first.as_str()).as_str()));
    let mut k: usize = 1;
    proof {
        assert(names.take(1).len() == 1);
        assert(names.take(1)[0] == names[0]);
    }
    while k < n
        invariant
            n == names.len(),
            names == names_of(*p),
            nt == views(needle@),
            1 <= k <= n,
            fraction_of(best) == best_score(nt, names.take(k as int)),
            best.total >= 1,
        decreases n - k,
    {
        let nm = string_from_chars(&name_chars(p, k));
        let s = similarity_chars(needle, &tokenize_chars(normalize(nm.as_str()).as_str()));
        proof {
            let t = names.take(k + 1);
            assert(t.drop_last() =~= names.take(k as int));
            assert(t.last() == names[k as int]);
        }
        if gt_exec(&s, &best) {
            best = s;
        }
        k = k + 1;
    }
    proof {
        assert(names.take(k as int) =~= names);
    }
    best
}

/// Finds the first profile whose identifier is `id`.
pub fn find_profile_by_id(profiles: &Vec<LensIdentity>, id: &str) -> (r: Option<usize>)
    ensures
        r matches Some(i) ==> i < profiles.len() && profiles@[i as int].lens_id@ == id@ && forall|
            j: int,
        |
            0 <= j < i ==> (#[trigger] profiles@[j]).lens_id@ != id@,
        r is None ==> forall|j: int|
            0 <= j < profiles.len() ==> (#[trigger] profiles@[j]).lens_id@ != id@,
{
    let target = chars_of(id);
    let mut i: usize = 0;
    while i < profiles.len()
        invariant
            i <= profiles.len(),
            target@ == id@,
            forall|j: int| 0 <= j < i ==> (#[trigger] profiles@[j]).lens_id@ != id@,
        decreases profiles.len() - i,
    {
        let cand = chars_of(profiles[i].lens_id.as_str());
        if chars_eq(&cand, &target) {
            return Some(i);
        }
        i = i + 1;
    }
    None
}

/// Finds the profile for a lens name as read from EXIF: the first profile
/// with a name or alias whose normal form equals that of `lens_name`, else
/// the best fuzzy match by token similarity when it is above one half, else
/// none; nothing is found for a name whose normal form is empty.
pub fn find_profile_by_name(profiles: &Vec<LensIdentity>, lens_name: &str) -> (r: Option<usize>)
    requires
        forall|i: int| 0 <= i < profiles.len() ==> (#[trigger] profiles@[i]).aliases.len() < usize::MAX,
    ensures
        r == (match lookup_by_name(profiles@, lens_name@) {
            Some(i) => Some(i as usize),
            None => None::<usize>,
        }),
        r matches Some(i) ==> i < profiles.len(),
{
    let needle_s = normalize(lens_name);
    let needle = chars_of(needle_s.as_str());
    if needle.len() == 0 {
        return None;
    }
    let mut i: usize = 0;
    while i < profiles.len()
        invariant
            i <= profiles.len(),
            needle@ == normal_form(lens_name@),
            needle@.len() > 0,
            forall|j: int| 0 <= j < profiles.len() ==> (#[trigger] profiles@[j]).aliases.len() < usize::MAX,
            forall|j: int| 0 <= j < i ==> !exact_match(#[trigger] profiles@[j], needle@),
        decreases profiles.len() - i,
    {
        if has_exact_match(&profiles[i], &needle) {
            proof {
                let ps = profiles@;
                let nd = needle@;
                assert(exact_match(ps[i as int], nd));
                assert(has_exact(ps, nd));
                assert(is_first_exact(ps, nd, i as int));
                let w = choose|x: int| is_first_exact(ps, nd, x);
                if w < i {
                    assert(!exact_match(ps[w], nd));
                } else if w > i {
                    assert(!exact_match(ps[i as int], nd));
                }
                assert(w == i);
            }
            return Some(i);
        }
        i = i + 1;
    }
    let needle_tokens = split_whitespace(&needle);
    let ghost nt = views(needle_tokens@);
    proof {
        assert(nt == words(normal_form(lens_name@)));
    }
    let mut best: Option<(usize, Similarity)> = None;
    let mut k: usize = 0;
    while k < profiles.len()
        invariant
            k <= profiles.len(),
            nt == views(needle_tokens@),
            forall|j: int| 0 <= j < profiles.len() ==> (#[trigger] profiles@[j]).aliases.len() < usize::MAX,
            match fuzzy_pick(nt, profiles@.take(k as int)) {
                Some(p) => best matches Some(b) && b.0 as int == p.0 && fraction_of(b.1) == p.1
                    && b.1.total >= 1 && b.0 < k,
                None => best is None,
            },
        decreases profiles.len() - k,
    {
        let s = score_profile(&needle_tokens, &profiles[k]);
        proof {
            let t = profiles@.take(k + 1);
            assert(t.drop_last() =~= profiles@.take(k as int));
            assert(t.last() == profiles@[k as int]);
        }
        let take = above_half_exec(&s) && match &best {
            None => true,
            Some(b) => gt_exec(&s, &b.1),
        };
        if take {
            best = Some((k, s));
        }
        k = k + 1;
    }
    proof {
        assert(profiles@.take(k as int) =~= profiles@);
    }
    match best {
        Some(b) => Some(b.0),
        None => None,
    }
}


// ---------------------------------------------------------------------------
// Laws
// ---------------------------------------------------------------------------

/// The normal form is already collapsed: splitting it into tokens gives the
/// words it was joined from, and joining those tokens with single spaces gives
/// the normal form back. So `tokenize(normalize(s))` are exactly the kept words
/// of `s`.
pub proof fn law_normal_form_tokens(s: Seq<char>)
    ensures
        words(normal_form(s)) == words(lowercase(s).filter(|c: char| kept_for_match(c))),
        join(words(normal_form(s)), seq![' ']) == normal_form(s),
{
    let w = words(lowercase(s).filter(|c: char| kept_for_match(c)));
    lemma_words_are_words(lowercase(s).filter(|c: char| kept_for_match(c)));
    lemma_words_of_join(w);
}

proof fn lemma_join_no_white(ws: Seq<Seq<char>>, sep: Seq<char>)
    requires
        all_words(ws),
        forall|k: int| 0 <= k < sep.len() ==> !is_white_space(#[trigger] sep[k]),
    ensures
        forall|k: int| 0 <= k < join(ws, sep).len() ==> !is_white_space(#[trigger] join(ws, sep)[k]),
    decreases ws.len(),
{
    if ws.len() == 0 {
    } else if ws.len() == 1 {
        assert(is_word(ws[0]));
    } else {
        let rest = ws.drop_first();
        assert(all_words(rest)) by {
            assert forall|k: int| 0 <= k < rest.len() implies is_word(#[trigger] rest[k]) by {
                assert(rest[k] == ws[k + 1]);
            }
        }
        lemma_join_no_white(rest, sep);
        assert(is_word(ws[0]));
        let j = join(ws, sep);
        let a = ws[0];
        let b = join(rest, sep);
        assert(j =~= a + sep + b);
        assert forall|k: int| 0 <= k < j.len() implies !is_white_space(#[trigger] j[k]) by {
            if k < a.len() {
                assert(j[k] == a[k]);
            } else if k < a.len() + sep.len() {
                assert(j[k] == sep[k - a.len()]);
            } else {
                assert(j[k] == b[k - a.len() - sep.len()]);
            }
        }
    }
}

/// A lens identifier never holds whitespace: its words are joined by `-`.
pub proof fn law_lens_id_has_no_whitespace(name: Seq<char>)
    ensures
        forall|k: int|
            0 <= k < lens_id_of(name).len() ==> !is_white_space(#[trigger] lens_id_of(name)[k]),
{
    let f = lowercase(name).filter(|c: char| kept_for_id(c));
    lemma_words_are_words(f);
    assert(!is_white_space('-'));
    lemma_join_no_white(words(f), seq!['-']);
}

proof fn lemma_match_count_all(a: Seq<Seq<char>>, b: Seq<Seq<char>>)
    requires
        forall|i: int| 0 <= i < a.len() ==> b.contains(#[trigger] a[i]),
    ensures
        match_count(a, b) == a.len(),
    decreases a.len(),
{
    if a.len() > 0 {
        let t = a.last();
        assert(b.contains(a[a.len() - 1]));
        let j = choose|j: int| 0 <= j < b.len() && b[j] == t;
        assert(t.take(t.len() as int) =~= t);
        assert(is_prefix(t, b[j]));
        assert(token_matches(t, b));
        let d = a.drop_last();
        assert forall|i: int| 0 <= i < d.len() implies b.contains(#[trigger] d[i]) by {
            assert(d[i] == a[i]);
        }
        lemma_match_count_all(d, b);
    }
}

/// A non-empty token list is fully similar to itself.
pub proof fn law_similarity_with_itself(a: Seq<Seq<char>>)
    requires
        a.len() > 0,
    ensures
        similarity(a, a) == (a.len(), a.len()),
{
    assert forall|i: int| 0 <= i < a.len() implies a.contains(#[trigger] a[i]) by {}
    lemma_match_count_all(a, a);
}

/// Token matching is two-way: a token matches a name exactly when one of the
/// name's tokens starts with it or is a start of it; so `ef50mm` matches a
/// name with the token `ef`, and `ef` one with the token `ef50mm`.
pub proof fn law_token_match_is_two_way(t: Seq<char>, others: Seq<Seq<char>>)
    ensures
        token_matches(t, others) <==> exists|j: int|
            0 <= j < others.len() && (is_prefix(t, #[trigger] others[j]) || is_prefix(others[j], t)),
        forall|j: int| 0 <= j < others.len() && is_prefix(#[trigger] others[j], t) ==> token_matches(t, others),
        forall|j: int| 0 <= j < others.len() && is_prefix(t, #[trigger] others[j]) ==> token_matches(t, others),
{
}

/// When every token of `a` is matched, either way round, by a token of `b`,
/// every token of `a` counts: the similarity of `a` to `b` is all of `a`
/// over the longer length.
pub proof fn law_similarity_counts_two_way_prefixes(a: Seq<Seq<char>>, b: Seq<Seq<char>>)
    requires
        b.len() > 0,
        forall|i: int|
            #![trigger a[i]]
            0 <= i < a.len() ==> exists|j: int|
                0 <= j < b.len() && (is_prefix(#[trigger] b[j], a[i]) || is_prefix(a[i], b[j])),
    ensures
        match_count(a, b) == a.len(),
        a.len() > 0 ==> similarity(a, b) == (a.len(), if a.len() >= b.len() {
            a.len()
        } else {
            b.len()
        }),
{
    assert forall|i: int| 0 <= i < a.len() implies token_matches(#[trigger] a[i], b) by {
        let ai = a[i];
        let j = choose|j: int| 0 <= j < b.len() && (is_prefix(#[trigger] b[j], ai) || is_prefix(ai, b[j]));
        assert(0 <= j < b.len() && (is_prefix(ai, b[j]) || is_prefix(b[j], ai)));
    }
    lemma_match_count_when_all_match(a, b);
}

proof fn lemma_match_count_when_all_match(a: Seq<Seq<char>>, b: Seq<Seq<char>>)
    requires
        forall|i: int| 0 <= i < a.len() ==> token_matches(#[trigger] a[i], b),
    ensures
        match_count(a, b) == a.len(),
    decreases a.len(),
{
    if a.len() > 0 {
        let p = a.drop_last();
        assert forall|i: int| 0 <= i < p.len() implies token_matches(#[trigger] p[i], b) by {
            assert(p[i] == a[i]);
        }
        lemma_match_count_when_all_match(p, b);
        assert(token_matches(a[a.len() - 1], b));
    }
}

/// Every similarity has a positive denominator and a numerator at most it.
pub proof fn law_similarity_is_fraction(a: Seq<Seq<char>>, b: Seq<Seq<char>>)
    ensures
        similarity(a, b).1 >= 1,
        similarity(a, b).0 <= similarity(a, b).1,
{
    lemma_match_count_bound(a, b);
}

proof fn lemma_gt_ge_trans(x: (nat, nat), y: (nat, nat), z: (nat, nat))
    requires
        x.1 > 0,
        y.1 > 0,
        z.1 > 0,
        fraction_gt(x, y),
        !fraction_gt(z, y),
    ensures
        fraction_gt(x, z),
{
    let (a, b) = (x.0 as int, x.1 as int);
    let (c, d) = (y.0 as int, y.1 as int);
    let (e, f) = (z.0 as int, z.1 as int);
    assert(a * f > e * b) by (nonlinear_arith)
        requires
            b > 0,
            d > 0,
            f > 0,
            a * d > c * b,
            c * f >= e * d,
    {
        assert(a * d * f > c * b * f);
        assert(c * f * b >= e * d * b);
        assert(d * (a * f) > d * (e * b));
    }
}

proof fn lemma_half_gt(x: (nat, nat), y: (nat, nat))
    requires
        x.1 > 0,
        y.1 > 0,
        above_half(x),
        !above_half(y),
    ensures
        fraction_gt(x, y),
{
    let (a, b) = (x.0 as int, x.1 as int);
    let (c, d) = (y.0 as int, y.1 as int);
    assert(a * d > c * b) by (nonlinear_arith)
        requires
            b > 0,
            d > 0,
            c >= 0,
            2 * a > b,
            2 * c <= d,
    {
        assert(2 * a * d > b * d);
        assert(b * d >= 2 * c * b);
    }
}

proof fn lemma_gt_asym(x: (nat, nat), y: (nat, nat))
    requires
        fraction_gt(x, y),
    ensures
        !fraction_gt(y, x),
{
}

proof fn lemma_best_score_fraction(needle: Seq<Seq<char>>, names: Seq<Seq<char>>)
    ensures
        best_score(needle, names).1 >= 1,
    decreases names.len(),
{
    if names.len() <= 1 {
        law_similarity_is_fraction(needle, name_tokens(names[0]));
    } else {
        lemma_best_score_fraction(needle, names.drop_last());
        law_similarity_is_fraction(needle, name_tokens(names.last()));
    }
}

/// The score of a profile is the best similarity among its names: none of
/// them scores strictly higher.
pub proof fn law_profile_score_is_best(needle: Seq<Seq<char>>, names: Seq<Seq<char>>)
    requires
        names.len() >= 1,
    ensures
        forall|k: int|
            0 <= k < names.len() ==> !fraction_gt(
                similarity(needle, name_tokens(#[trigger] names[k])),
                best_score(needle, names),
            ),
        exists|k: int|
            0 <= k < names.len() && best_score(needle, names) == similarity(
                needle,
                name_tokens(#[trigger] names[k]),
            ),
    decreases names.len(),
{
    if names.len() == 1 {
        assert(best_score(needle, names) == similarity(needle, name_tokens(names[0])));
    } else {
        let d = names.drop_last();
        law_profile_score_is_best(needle, d);
        lemma_best_score_fraction(needle, d);
        let prev = best_score(needle, d);
        let s = similarity(needle, name_tokens(names.last()));
        law_similarity_is_fraction(needle, name_tokens(names.last()));
        let best = best_score(needle, names);
        assert forall|k: int|
            0 <= k < names.len() implies !fraction_gt(
            similarity(needle, name_tokens(#[trigger] names[k])),
            best,
        ) by {
            let sk = similarity(needle, name_tokens(names[k]));
            law_similarity_is_fraction(needle, name_tokens(names[k]));
            if k < names.len() - 1 {
                assert(names[k] == d[k]);
                assert(!fraction_gt(sk, prev));
                if fraction_gt(s, prev) {
                    lemma_gt_ge_trans(s, prev, sk);
                    lemma_gt_asym(s, sk);
                }
            } else {
                assert(names[k] == names.last());
            }
        }
        if fraction_gt(s, prev) {
            assert(best == similarity(needle, name_tokens(names[names.len() - 1])));
        } else {
            let k = choose|k: int|
                0 <= k < d.len() && prev == similarity(needle, name_tokens(#[trigger] d[k]));
            assert(names[k] == d[k]);
        }
    }
}

/// The fuzzy choice is the first best profile above one half: its score is
/// above one half, no profile scores strictly higher and every earlier profile
/// scores strictly lower. When there is none, no profile scores above one
/// half.
pub proof fn law_fuzzy_pick_is_first_best(needle: Seq<Seq<char>>, ps: Seq<LensIdentity>)
    ensures
        match fuzzy_pick(needle, ps) {
            Some(p) => {
                &&& 0 <= p.0 < ps.len()
                &&& p.1 == profile_score(needle, ps[p.0])
                &&& above_half(p.1)
                &&& forall|j: int|
                    0 <= j < ps.len() ==> !fraction_gt(
                        profile_score(needle, #[trigger] ps[j]),
                        p.1,
                    )
                &&& forall|j: int|
                    0 <= j < p.0 ==> fraction_gt(p.1, profile_score(needle, #[trigger] ps[j]))
            },
            None => forall|j: int|
                0 <= j < ps.len() ==> !above_half(profile_score(needle, #[trigger] ps[j])),
        },
    decreases ps.len(),
{
    if ps.len() > 0 {
        let d = ps.drop_last();
        law_fuzzy_pick_is_first_best(needle, d);
        let n = ps.len() - 1;
        let s = profile_score(needle, ps.last());
        lemma_best_score_fraction(needle, names_of(ps.last()));
        let prev = fuzzy_pick(needle, d);
        assert forall|j: int| 0 <= j < d.len() implies #[trigger] d[j] == ps[j] by {}
        assert forall|j: int| 0 <= j < ps.len() implies profile_score(needle, #[trigger] ps[j]).1 >= 1 by {
            lemma_best_score_fraction(needle, names_of(ps[j]));
        }
        if above_half(s) && (prev is None || fraction_gt(s, prev.unwrap().1)) {
            assert forall|j: int| 0 <= j < n implies fraction_gt(s, profile_score(needle, #[trigger] ps[j])) by {
                let sj = profile_score(needle, ps[j]);
                assert(d[j] == ps[j]);
                match prev {
                    None => {
                        lemma_half_gt(s, sj);
                    },
                    Some(p) => {
                        assert(!fraction_gt(profile_score(needle, d[j]), p.1));
                        lemma_gt_ge_trans(s, p.1, sj);
                    },
                }
            }
            assert forall|j: int| 0 <= j < ps.len() implies !fraction_gt(
                profile_score(needle, #[trigger] ps[j]),
                s,
            ) by {
                if j < n {
                    lemma_gt_asym(s, profile_score(needle, ps[j]));
                } else {
                    assert(ps[j] == ps.last());
                }
            }
            assert(ps[n] == ps.last());
        } else {
            match prev {
                None => {
                    assert forall|j: int| 0 <= j < ps.len() implies !above_half(
                        profile_score(needle, #[trigger] ps[j]),
                    ) by {
                        if j < n {
                            assert(d[j] == ps[j]);
                        } else {
                            assert(ps[j] == ps.last());
                        }
                    }
                },
                Some(p) => {
                    assert(d[p.0] == ps[p.0]);
                    assert forall|j: int| 0 <= j < ps.len() implies !fraction_gt(
                        profile_score(needle, #[trigger] ps[j]),
                        p.1,
                    ) by {
                        if j < n {
                            assert(d[j] == ps[j]);
                        } else {
                            assert(ps[j] == ps.last());
                            if !above_half(s) {
                                lemma_half_gt(p.1, s);
                                lemma_gt_asym(p.1, s);
                            }
                        }
                    }
                    assert forall|j: int| 0 <= j < p.0 implies fraction_gt(
                        p.1,
                        profile_score(needle, #[trigger] ps[j]),
                    ) by {
                        assert(d[j] == ps[j]);
                    }
                },
            }
        }
    }
}

} // verus!
