//! Character-level text primitives shared by the catalog, the path helpers and
//! the lens matcher: whitespace splitting, joining, filtering and the handful of
//! `std` string operations they rest on.
use vstd::prelude::*;
use vstd::string::StrSliceExecFns;

verus! {

/// The Unicode `White_Space` property, which is exactly what
/// `char::is_whitespace` (and therefore `str::split_whitespace`) tests.
pub open spec fn is_white_space(c: char) -> bool {
    let u = c as u32;
    ||| 0x09 <= u <= 0x0D
    ||| u == 0x20
    ||| u == 0x85
    ||| u == 0xA0
    ||| u == 0x1680
    ||| 0x2000 <= u <= 0x200A
    ||| u == 0x2028
    ||| u == 0x2029
    ||| u == 0x202F
    ||| u == 0x205F
    ||| u == 0x3000
}

/// Executable form of [`is_white_space`].
pub fn char_is_whitespace(c: char) -> (b: bool)
    ensures
        b == is_white_space(c),
{
    let u = c as u32;
    (0x09 <= u && u <= 0x0D) || u == 0x20 || u == 0x85 || u == 0xA0 || u == 0x1680 || (0x2000
        <= u && u <= 0x200A) || u == 0x2028 || u == 0x2029 || u == 0x202F || u == 0x205F || u
        == 0x3000
}

/// What `char::is_alphanumeric` answers for a character (Unicode `Alphabetic`
/// or `Numeric`).
pub uninterp spec fn alphanumeric(c: char) -> bool;

/// Calls `char::is_alphanumeric`; the answer is named [`alphanumeric`].
#[verifier::external_body]
pub(crate) fn char_is_alphanumeric(c: char) -> (b: bool)
    ensures
        b == alphanumeric(c),
{
    c.is_alphanumeric()
}

/// What `str::to_lowercase` returns for a string (Unicode lowercase mapping,
/// including its context-sensitive rules).
pub uninterp spec fn lowercase(s: Seq<char>) -> Seq<char>;

/// Calls `str::to_lowercase`; the answer is named [`lowercase`].
#[verifier::external_body]
pub(crate) fn to_lowercase(s: &str) -> (r: String)
    ensures
        r@ == lowercase(s@),
{
    s.to_lowercase()
}

/// Calls `String::push`, which appends one character.
#[verifier::external_body]
pub(crate) fn push_char(s: &mut String, c: char)
    ensures
        final(s)@ == old(s)@.push(c),
{
    s.push(c)
}

/// The characters of a string, in order.
pub fn chars_of(s: &str) -> (v: Vec<char>)
    ensures
        v@ == s@,
{
    let n = s.unicode_len();
    let mut v: Vec<char> = Vec::new();
    let mut i: usize = 0;
    while i < n
        invariant
            n == s@.len(),
            i <= n,
            v@ == s@.take(i as int),
        decreases n - i,
    {
        let c = s.get_char(i);
        proof {
            assert(s@.take(i + 1) =~= s@.take(i as int).push(c));
        }
        v.push(c);
        i = i + 1;
    }
    proof {
        assert(s@.take(i as int) =~= s@);
    }
    v
}

/// A string holding exactly the given characters.
pub fn string_from_chars(v: &Vec<char>) -> (s: String)
    ensures
        s@ == v@,
{
    let mut s = String::new();
    let mut i: usize = 0;
    while i < v.len()
        invariant
            i <= v.len(),
            s@ == v@.take(i as int),
        decreases v.len() - i,
    {
        proof {
            assert(v@.take(i + 1) =~= v@.take(i as int).push(v@[i as int]));
        }
        push_char(&mut s, v[i]);
        i = i + 1;
    }
    proof {
        assert(v@.take(i as int) =~= v@);
    }
    s
}

/// Whether `a` is a prefix of `b`.
pub open spec fn is_prefix(a: Seq<char>, b: Seq<char>) -> bool {
    a.len() <= b.len() && b.take(a.len() as int) =~= a
}

/// Executable form of [`is_prefix`]; on strings it answers `str::starts_with`.
pub fn starts_with(b: &Vec<char>, a: &Vec<char>) -> (r: bool)
    ensures
        r == is_prefix(a@, b@),
{
    if a.len() > b.len() {
        return false;
    }
    let mut i: usize = 0;
    while i < a.len()
        invariant
            a.len() <= b.len(),
            i <= a.len(),
            forall|k: int| 0 <= k < i ==> a@[k] == b@[k],
        decreases a.len() - i,
    {
        if a[i] != b[i] {
            return false;
        }
        i = i + 1;
    }
    true
}

/// Character sequences are equal.
pub fn chars_eq(a: &Vec<char>, b: &Vec<char>) -> (r: bool)
    ensures
        r == (a@ == b@),
{
    if a.len() != b.len() {
        return false;
    }
    let mut i: usize = 0;
    while i < a.len()
        invariant
            a.len() == b.len(),
            i <= a.len(),
            forall|k: int| 0 <= k < i ==> a@[k] == b@[k],
        decreases a.len() - i,
    {
        if a[i] != b[i] {
            return false;
        }
        i = i + 1;
    }
    assert(a@ =~= b@);
    true
}

/// Adds the word being built to the words found so far, unless it is empty.
pub open spec fn flush(acc: Seq<Seq<char>>, cur: Seq<char>) -> Seq<Seq<char>> {
    if cur.len() > 0 {
        acc.push(cur)
    } else {
        acc
    }
}

/// Splitting on whitespace, one character at a time: `cur` is the word being
/// built, `acc` the words already complete.
pub open spec fn words_from(s: Seq<char>, cur: Seq<char>, acc: Seq<Seq<char>>) -> Seq<Seq<char>>
    decreases s.len(),
{
    if s.len() == 0 {
        flush(acc, cur)
    } else if is_white_space(s[0]) {
        words_from(s.drop_first(), Seq::empty(), flush(acc, cur))
    } else {
        words_from(s.drop_first(), cur.push(s[0]), acc)
    }
}

/// The maximal runs of non-whitespace characters of `s`, in order: what
/// `str::split_whitespace` yields.
pub open spec fn words(s: Seq<char>) -> Seq<Seq<char>> {
    words_from(s, Seq::empty(), Seq::empty())
}

/// `ws` joined with `sep` between consecutive elements: what `join` on a slice
/// of strings yields.
pub open spec fn join(ws: Seq<Seq<char>>, sep: Seq<char>) -> Seq<char>
    decreases ws.len(),
{
    if ws.len() == 0 {
        Seq::empty()
    } else if ws.len() == 1 {
        ws[0]
    } else {
        ws[0] + sep + join(ws.drop_first(), sep)
    }
}

/// A word is non-empty and holds no whitespace.
pub open spec fn is_word(w: Seq<char>) -> bool {
    w.len() > 0 && forall|k: int| 0 <= k < w.len() ==> !is_white_space(#[trigger] w[k])
}

/// Every element of `ws` is a word.
pub open spec fn all_words(ws: Seq<Seq<char>>) -> bool {
    forall|k: int| 0 <= k < ws.len() ==> is_word(#[trigger] ws[k])
}

/// Views of a vector of character vectors.
pub open spec fn views(v: Seq<Vec<char>>) -> Seq<Seq<char>> {
    v.map_values(|w: Vec<char>| w@)
}

/// The pieces of `words_from` are all words.
pub proof fn lemma_words_from_are_words(s: Seq<char>, cur: Seq<char>, acc: Seq<Seq<char>>)
    requires
        all_words(acc),
        forall|k: int| 0 <= k < cur.len() ==> !is_white_space(#[trigger] cur[k]),
    ensures
        all_words(words_from(s, cur, acc)),
    decreases s.len(),
{
    if s.len() == 0 {
    } else if is_white_space(s[0]) {
        lemma_words_from_are_words(s.drop_first(), Seq::empty(), flush(acc, cur));
    } else {
        let c2 = cur.push(s[0]);
        assert forall|k: int| 0 <= k < c2.len() implies !is_white_space(#[trigger] c2[k]) by {
            if k < cur.len() {
                assert(c2[k] == cur[k]);
            }
        }
        lemma_words_from_are_words(s.drop_first(), c2, acc);
    }
}

/// Every piece that `split_whitespace` yields is a word.
pub proof fn lemma_words_are_words(s: Seq<char>)
    ensures
        all_words(words(s)),
{
    lemma_words_from_are_words(s, Seq::empty(), Seq::empty());
}

/// Non-whitespace characters extend the word being built.
proof fn lemma_words_from_run(a: Seq<char>, b: Seq<char>, cur: Seq<char>, acc: Seq<Seq<char>>)
    requires
        forall|k: int| 0 <= k < a.len() ==> !is_white_space(#[trigger] a[k]),
    ensures
        words_from(a + b, cur, acc) == words_from(b, cur + a, acc),
    decreases a.len(),
{
    if a.len() == 0 {
        assert(a + b =~= b);
        assert(cur + a =~= cur);
    } else {
        assert((a + b)[0] == a[0]);
        assert((a + b).drop_first() =~= a.drop_first() + b);
        lemma_words_from_run(a.drop_first(), b, cur.push(a[0]), acc);
        assert(cur.push(a[0]) + a.drop_first() =~= cur + a);
    }
}

/// Splitting words joined by a single space gives the words back, after any
/// words already found.
proof fn lemma_words_from_join(ws: Seq<Seq<char>>, acc: Seq<Seq<char>>)
    requires
        all_words(ws),
    ensures
        words_from(join(ws, seq![' ']), Seq::empty(), acc) == acc + ws,
    decreases ws.len(),
{
    if ws.len() == 0 {
        assert(acc + ws =~= acc);
    } else if ws.len() == 1 {
        assert(is_word(ws[0]));
        lemma_words_from_run(ws[0], Seq::empty(), Seq::empty(), acc);
        assert(ws[0] + Seq::<char>::empty() =~= ws[0]);
        assert(Seq::<char>::empty() + ws[0] =~= ws[0]);
        assert(acc + ws =~= acc.push(ws[0]));
    } else {
        let rest = ws.drop_first();
        assert(is_word(ws[0]));
        assert(all_words(rest)) by {
            assert forall|k: int| 0 <= k < rest.len() implies is_word(#[trigger] rest[k]) by {
                assert(rest[k] == ws[k + 1]);
            }
        }
        let tail = seq![' '] + join(rest, seq![' ']);
        assert(join(ws, seq![' ']) =~= ws[0] + tail);
        lemma_words_from_run(ws[0], tail, Seq::empty(), acc);
        assert(Seq::<char>::empty() + ws[0] =~= ws[0]);
        assert(tail[0] == ' ');
        assert(is_white_space(' '));
        assert(tail.drop_first() =~= join(rest, seq![' ']));
        lemma_words_from_join(rest, acc.push(ws[0]));
        assert(acc.push(ws[0]) + rest =~= acc + ws);
    }
}

/// Splitting words that were joined by single spaces gives the same words
/// back.
pub proof fn lemma_words_of_join(ws: Seq<Seq<char>>)
    requires
        all_words(ws),
    ensures
        words(join(ws, seq![' '])) == ws,
{
    lemma_words_from_join(ws, Seq::empty());
    assert(Seq::<Seq<char>>::empty() + ws =~= ws);
}

/// Joining one more element onto a joined prefix.
proof fn lemma_join_push(ws: Seq<Seq<char>>, sep: Seq<char>, i: int)
    requires
        1 <= i < ws.len(),
    ensures
        join(ws.take(i + 1), sep) == join(ws.take(i), sep) + sep + ws[i],
    decreases i,
{
    let t = ws.take(i + 1);
    if i == 1 {
        assert(t.drop_first() =~= seq![ws[1]]);
        assert(join(t.drop_first(), sep) == ws[1]);
        assert(join(ws.take(1), sep) == ws[0]);
    } else {
        let d = ws.drop_first();
        lemma_join_push(d, sep, i - 1);
        assert(t.drop_first() =~= d.take(i));
        assert(ws.take(i).drop_first() =~= d.take(i - 1));
        assert(d[i - 1] == ws[i]);
        assert(join(t, sep) == t[0] + sep + join(t.drop_first(), sep));
        assert(join(ws.take(i), sep) == ws[0] + sep + join(ws.take(i).drop_first(), sep));
        assert(join(t, sep) =~= join(ws.take(i), sep) + sep + ws[i]);
    }
}

/// Splits `s` into its whitespace-separated words, as `str::split_whitespace`
/// does.
pub fn split_whitespace(s: &Vec<char>) -> (r: Vec<Vec<char>>)
    ensures
        views(r@) == words(s@),
{
    let mut acc: Vec<Vec<char>> = Vec::new();
    let mut cur: Vec<char> = Vec::new();
    let mut i: usize = 0;
    proof {
        assert(s@.skip(0) =~= s@);
        assert(views(acc@) =~= Seq::<Seq<char>>::empty());
        assert(cur@ =~= Seq::<char>::empty());
    }
    while i < s.len()
        invariant
            i <= s.len(),
            words_from(s@.skip(i as int), cur@, views(acc@)) == words(s@),
        decreases s.len() - i,
    {
        let ghost rest = s@.skip(i as int);
        proof {
            assert(rest[0] == s@[i as int]);
            assert(rest.drop_first() =~= s@.skip(i + 1));
        }
        if char_is_whitespace(s[i]) {
            if cur.len() > 0 {
                let ghost before = acc@;
                let done = cur;
                acc.push(done);
                cur = Vec::new();
                proof {
                    assert(views(acc@) =~= views(before).push(done@));
                }
            }
            proof {
                assert(cur@ =~= Seq::<char>::empty());
            }
        } else {
            cur.push(s[i]);
        }
        i = i + 1;
    }
    if cur.len() > 0 {
        acc.push(cur);
    }
    proof {
        assert(s@.skip(i as int) =~= Seq::<char>::empty());
    }
    assert(views(acc@) =~= words(s@));
    acc
}

/// Joins `parts` with `sep` between consecutive parts.
pub fn join_chars(parts: &Vec<Vec<char>>, sep: &Vec<char>) -> (r: Vec<char>)
    ensures
        r@ == join(views(parts@), sep@),
{
    let ghost ws = views(parts@);
    let mut out: Vec<char> = Vec::new();
    let mut i: usize = 0;
    while i < parts.len()
        invariant
            i <= parts.len(),
            ws == views(parts@),
            out@ == join(ws.take(i as int), sep@),
        decreases parts.len() - i,
    {
        let ghost before = out@;
        if i > 0 {
            let mut k: usize = 0;
            while k < sep.len()
                invariant
                    k <= sep.len(),
                    out@ == before + sep@.take(k as int),
                decreases sep.len() - k,
            {
                proof {
                    assert(sep@.take(k + 1) =~= sep@.take(k as int).push(sep@[k as int]));
                }
                out.push(sep[k]);
                k = k + 1;
            }
            proof {
                assert(sep@.take(k as int) =~= sep@);
            }
        }
        let ghost mid = out@;
        let part = &parts[i];
        let mut k: usize = 0;
        while k < part.len()
            invariant
                k <= part.len(),
                out@ == mid + part@.take(k as int),
            decreases part.len() - k,
        {
            proof {
                assert(part@.take(k + 1) =~= part@.take(k as int).push(part@[k as int]));
            }
            out.push(part[k]);
            k = k + 1;
        }
        proof {
            assert(part@.take(k as int) =~= part@);
            assert(ws[i as int] == part@);
            if i == 0 {
                assert(ws.take(1) =~= seq![ws[0]]);
                assert(before =~= Seq::<char>::empty());
                assert(out@ =~= join(ws.take(1), sep@));
            } else {
                lemma_join_push(ws, sep@, i as int);
                assert(out@ =~= before + sep@ + part@);
            }
        }
        i = i + 1;
    }
    proof {
        assert(ws.take(i as int) =~= ws);
    }
    out
}

} // verus!
