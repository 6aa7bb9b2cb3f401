//! Text utilities over character sequences, each proved against a short
//! specification: searching, replacing, joining, splitting.
use vstd::prelude::*;

verus! {

/// `pat` occurs in `s` starting at position `i`.
pub open spec fn occurs_at(s: Seq<char>, pat: Seq<char>, i: int) -> bool {
    0 <= i && i + pat.len() <= s.len() && s.subrange(i, i + pat.len()) == pat
}

/// `pat` occurs somewhere in `s`.
pub open spec fn has_substring(s: Seq<char>, pat: Seq<char>) -> bool {
    exists|i: int| occurs_at(s, pat, i)
}

/// `s` with every occurrence of the non-empty `from`, found from left to
/// right without overlap, replaced by `to` (what `str::replace` computes).
pub open spec fn replace_all(s: Seq<char>, from: Seq<char>, to: Seq<char>) -> Seq<char>
    decreases s.len(),
{
    if s.len() == 0 {
        seq![]
    } else if from.len() > 0 && occurs_at(s, from, 0) {
        to + replace_all(s.skip(from.len() as int), from, to)
    } else {
        seq![s[0]] + replace_all(s.drop_first(), from, to)
    }
}

/// Replacing a pattern that does not occur leaves the text unchanged.
pub proof fn lemma_replace_absent(s: Seq<char>, from: Seq<char>, to: Seq<char>)
    requires
        from.len() > 0,
        forall|i: int| !#[trigger] occurs_at(s, from, i),
    ensures
        replace_all(s, from, to) == s,
    decreases s.len(),
{
    if s.len() > 0 {
        assert(!occurs_at(s, from, 0));
        let t = s.drop_first();
        assert forall|i: int| !#[trigger] occurs_at(t, from, i) by {
            if 0 <= i && i + from.len() <= t.len() {
                assert(t.subrange(i, i + from.len()) =~= s.subrange(i + 1, i + 1 + from.len()));
                assert(!occurs_at(s, from, i + 1));
            }
        }
        lemma_replace_absent(t, from, to);
        assert(s =~= seq![s[0]] + t);
    }
}

/// Replacing a one-character pattern works piece by piece: an occurrence
/// between two texts becomes the replacement between the two replaced
/// texts.
pub proof fn lemma_replace_char_split(a: Seq<char>, b: Seq<char>, x: char, to: Seq<char>)
    ensures
        replace_all(a + seq![x] + b, seq![x], to) == replace_all(a, seq![x], to) + to
            + replace_all(b, seq![x], to),
    decreases a.len(),
{
    let s = a + seq![x] + b;
    if a.len() == 0 {
        assert(s =~= seq![x] + b);
        assert(s.subrange(0, 1) =~= seq![x]);
        assert(occurs_at(s, seq![x], 0));
        assert(s.skip(1) =~= b);
        assert(replace_all(a, seq![x], to) =~= Seq::<char>::empty());
        assert(replace_all(s, seq![x], to) =~= replace_all(a, seq![x], to) + to + replace_all(
            b,
            seq![x],
            to,
        ));
    } else {
        let t = a.drop_first();
        lemma_replace_char_split(t, b, x, to);
        assert(s.subrange(0, 1) =~= seq![a[0]]);
        assert(a.subrange(0, 1) =~= seq![a[0]]);
        assert(s[0] == a[0]);
        if a[0] == x {
            assert(occurs_at(s, seq![x], 0));
            assert(occurs_at(a, seq![x], 0));
            assert(s.skip(1) =~= t + seq![x] + b);
            assert(a.skip(1) =~= t);
        } else {
            assert(s.subrange(0, 1)[0] != seq![x][0]);
            assert(!occurs_at(s, seq![x], 0));
            assert(a.subrange(0, 1)[0] != seq![x][0]);
            assert(!occurs_at(a, seq![x], 0));
            assert(s.drop_first() =~= t + seq![x] + b);
        }
        assert(replace_all(s, seq![x], to) =~= replace_all(a, seq![x], to) + to + replace_all(
            b,
            seq![x],
            to,
        ));
    }
}

/// Copies the characters of `s` into a vector.
pub fn chars_of(s: &str) -> (v: Vec<char>)
    ensures
        v@ == s@,
{
    let mut v: Vec<char> = Vec::new();
    for c in it: s.chars()
        invariant
            v@ == it.seq().take(it.index() as int),
            it.seq() == s@,
    {
        v.push(c);
    }
    v
}

/// Collects `v` with std's `FromIterator<char> for String`. Claimed, as
/// std documents it: the string holds exactly the characters of `v`, in
/// order.
#[verifier::external_body]
pub(crate) fn string_from_chars(v: &[char]) -> (s: String)
    ensures
        s@ == v@,
{
    v.iter().collect()
}

/// Appends all of `src` to `dst`.
pub fn push_all(dst: &mut Vec<char>, src: &[char])
    ensures
        final(dst)@ == old(dst)@ + src@,
{
    let mut k: usize = 0;
    while k < src.len()
        invariant
            k <= src.len(),
            dst@ == old(dst)@ + src@.take(k as int),
        decreases src.len() - k,
    {
        dst.push(src[k]);
        k += 1;
        assert(src@.take(k as int) =~= src@.take(k - 1) + seq![src@[k - 1]]);
    }
    assert(src@.take(k as int) =~= src@);
}

/// Whether `pat` occurs in `s` at position `i`.
pub fn matches_at(s: &[char], pat: &[char], i: usize) -> (r: bool)
    requires
        i <= s@.len(),
    ensures
        r == occurs_at(s@, pat@, i as int),
{
    if pat.len() > s.len() - i {
        return false;
    }
    let n = s.len();
    let mut k: usize = 0;
    while k < pat.len()
        invariant
            k <= pat.len(),
            n == s@.len(),
            i + pat@.len() <= s@.len(),
            forall|j: int| 0 <= j < k ==> s@[i + j] == pat@[j],
        decreases pat.len() - k,
    {
        assert(i + k < s@.len());
        if s[i + k] != pat[k] {
            assert(s@.subrange(i as int, i + pat@.len())[k as int] != pat@[k as int]);
            return false;
        }
        k += 1;
    }
    assert(s@.subrange(i as int, i + pat@.len()) =~= pat@);
    true
}

/// Whether `pat` occurs in `hay` (what `str::contains` answers).
pub fn contains(hay: &str, pat: &str) -> (r: bool)
    ensures
        r == has_substring(hay@, pat@),
{
    let s = chars_of(hay);
    let p = chars_of(pat);
    let mut i: usize = 0;
    while i < s.len()
        invariant
            i <= s@.len(),
            s@ == hay@,
            p@ == pat@,
            forall|j: int| 0 <= j < i ==> !occurs_at(s@, p@, j),
        decreases s@.len() - i,
    {
        if matches_at(s.as_slice(), p.as_slice(), i) {
            assert(occurs_at(s@, p@, i as int));
            return true;
        }
        i += 1;
    }
    if matches_at(s.as_slice(), p.as_slice(), i) {
        assert(occurs_at(s@, p@, i as int));
        return true;
    }
    assert forall|j: int| !occurs_at(s@, p@, j) by {
        if j > i {
            assert(j + p@.len() > s@.len());
        }
    }
    false
}

/// One step of `replace_all` at position `i` of `s`.
proof fn lemma_replace_step(s: Seq<char>, from: Seq<char>, to: Seq<char>, i: int)
    requires
        0 <= i < s.len(),
        from.len() > 0,
    ensures
        occurs_at(s, from, i) ==> replace_all(s.skip(i), from, to) == to + replace_all(
            s.skip(i + from.len()),
            from,
            to,
        ),
        !occurs_at(s, from, i) ==> replace_all(s.skip(i), from, to) == seq![s[i]]
            + replace_all(s.skip(i + 1), from, to),
{
    let t = s.skip(i);
    if occurs_at(s, from, i) {
        assert(t.subrange(0, from.len() as int) =~= s.subrange(i, i + from.len()));
        assert(t.skip(from.len() as int) =~= s.skip(i + from.len()));
    } else {
        if occurs_at(t, from, 0) {
            assert(t.subrange(0, from.len() as int) =~= s.subrange(i, i + from.len()));
        }
        assert(t.drop_first() =~= s.skip(i + 1));
    }
}

/// `s` with every occurrence of `from` replaced by `to` (what `str::replace`
/// computes for a non-empty pattern).
pub fn replace(s: &str, from: &str, to: &str) -> (r: String)
    requires
        from@.len() > 0,
    ensures
        r@ == replace_all(s@, from@, to@),
{
    let sv = chars_of(s);
    let fv = chars_of(from);
    let tv = chars_of(to);
    let mut out: Vec<char> = Vec::new();
    let mut i: usize = 0;
    assert(sv@.skip(0) =~= sv@);
    while i < sv.len()
        invariant
            i <= sv@.len(),
            fv@.len() > 0,
            out@ + replace_all(sv@.skip(i as int), fv@, tv@) == replace_all(sv@, fv@, tv@),
        decreases sv@.len() - i,
    {
        let ghost before = out@;
        proof {
            lemma_replace_step(sv@, fv@, tv@, i as int);
        }
        if matches_at(sv.as_slice(), fv.as_slice(), i) {
            push_all(&mut out, tv.as_slice());
            assert(before + (tv@ + replace_all(sv@.skip(i + fv@.len()), fv@, tv@)) =~= out@
                + replace_all(sv@.skip(i + fv@.len()), fv@, tv@));
            i += fv.len();
        } else {
            out.push(sv[i]);
            assert(before + (seq![sv@[i as int]] + replace_all(sv@.skip(i + 1), fv@, tv@))
                =~= out@ + replace_all(sv@.skip(i + 1), fv@, tv@));
            i += 1;
        }
    }
    assert(sv@.skip(i as int) =~= seq![]);
    assert(out@ + seq![] =~= out@);
    string_from_chars(out.as_slice())
}

/// The parts joined into one sequence with `sep` between neighbours
/// (what `join` on a slice of strings computes).
pub open spec fn join(parts: Seq<Seq<char>>, sep: Seq<char>) -> Seq<char>
    decreases parts.len(),
{
    if parts.len() == 0 {
        seq![]
    } else if parts.len() == 1 {
        parts[0]
    } else {
        join(parts.drop_last(), sep) + sep + parts.last()
    }
}

/// The strings of `parts` joined with `sep` between neighbours.
pub fn join_strings(parts: &Vec<String>, sep: &str) -> (r: String)
    ensures
        r@ == join(parts.deep_view(), sep@),
{
    let ghost dv = parts.deep_view();
    let mut res = String::new();
    let mut i: usize = 0;
    assert(dv.take(0) =~= Seq::<Seq<char>>::empty());
    while i < parts.len()
        invariant
            i <= parts@.len(),
            dv == parts.deep_view(),
            res@ == join(dv.take(i as int), sep@),
        decreases parts@.len() - i,
    {
        assert(dv.take(i + 1).drop_last() =~= dv.take(i as int));
        if i > 0 {
            res.append(sep);
        }
        res.append(parts[i].as_str());
        i += 1;
    }
    assert(dv.take(i as int) =~= dv);
    res
}

/// The characters that `char::is_whitespace` accepts (Unicode White_Space).
pub open spec fn is_ws(c: char) -> bool {
    let u = c as u32;
    (0x09 <= u && u <= 0x0D) || u == 0x20 || u == 0x85 || u == 0xA0 || u == 0x1680 || (0x2000
        <= u && u <= 0x200A) || u == 0x2028 || u == 0x2029 || u == 0x202F || u == 0x205F || u
        == 0x3000
}

/// Whether `c` is whitespace in the sense of `char::is_whitespace`.
pub fn is_whitespace(c: char) -> (r: bool)
    ensures
        r == is_ws(c),
{
    let u = c as u32;
    (0x09 <= u && u <= 0x0D) || u == 0x20 || u == 0x85 || u == 0xA0 || u == 0x1680 || (0x2000
        <= u && u <= 0x200A) || u == 0x2028 || u == 0x2029 || u == 0x202F || u == 0x205F || u
        == 0x3000
}

/// Length of the run of non-whitespace characters that starts `s`.
pub open spec fn word_len(s: Seq<char>) -> nat
    decreases s.len(),
{
    if s.len() > 0 && !is_ws(s[0]) {
        1 + word_len(s.drop_first())
    } else {
        0
    }
}

/// A run of non-whitespace never reaches past the end.
pub proof fn lemma_word_len_bound(s: Seq<char>)
    ensures
        word_len(s) <= s.len(),
    decreases s.len(),
{
    if s.len() > 0 && !is_ws(s[0]) {
        lemma_word_len_bound(s.drop_first());
    }
}

/// The words of `s`: its maximal runs of non-whitespace characters, in
/// order (what `str::split_whitespace` yields).
pub open spec fn words(s: Seq<char>) -> Seq<Seq<char>>
    decreases s.len(),
{
    if s.len() == 0 {
        seq![]
    } else if is_ws(s[0]) {
        words(s.drop_first())
    } else {
        proof {
            lemma_word_len_bound(s);
        }
        seq![s.take(word_len(s) as int)] + words(s.skip(word_len(s) as int))
    }
}

/// `word_len` is `m` when the first `m` characters are not whitespace and
/// the next one, if any, is.
proof fn lemma_word_len_exact(t: Seq<char>, m: int)
    requires
        0 <= m <= t.len(),
        forall|k: int| 0 <= k < m ==> !is_ws(#[trigger] t[k]),
        m == t.len() || is_ws(t[m]),
    ensures
        word_len(t) == m,
    decreases m,
{
    if m > 0 {
        let u = t.drop_first();
        assert forall|k: int| 0 <= k < m - 1 implies !is_ws(#[trigger] u[k]) by {
            assert(u[k] == t[k + 1]);
        }
        if m - 1 < u.len() {
            assert(u[m - 1] == t[m]);
        }
        lemma_word_len_exact(u, m - 1);
    }
}

/// `words` of a suffix starting at whitespace skips that character.
proof fn lemma_words_skip_ws(s: Seq<char>, i: int)
    requires
        0 <= i < s.len(),
        is_ws(s[i]),
    ensures
        words(s.skip(i)) == words(s.skip(i + 1)),
{
    assert(s.skip(i).drop_first() =~= s.skip(i + 1));
}

/// `words` of a suffix starting at a word `s[i..j]`.
proof fn lemma_words_take_word(s: Seq<char>, i: int, j: int)
    requires
        0 <= i < j <= s.len(),
        forall|k: int| i <= k < j ==> !is_ws(#[trigger] s[k]),
        j == s.len() || is_ws(s[j]),
    ensures
        words(s.skip(i)) == seq![s.subrange(i, j)] + words(s.skip(j)),
{
    let t = s.skip(i);
    assert forall|k: int| 0 <= k < j - i implies !is_ws(#[trigger] t[k]) by {
        assert(t[k] == s[i + k]);
    }
    if j < s.len() {
        assert(t[j - i] == s[j]);
    }
    lemma_word_len_exact(t, j - i);
    assert(!is_ws(t[0]));
    assert(t.take(j - i) =~= s.subrange(i, j));
    assert(t.skip(j - i) =~= s.skip(j));
}

/// The words of `s` (what `str::split_whitespace` yields).
pub fn split_whitespace(s: &str) -> (r: Vec<String>)
    ensures
        r.deep_view() == words(s@),
{
    let v = chars_of(s);
    let n = v.len();
    let mut out: Vec<String> = Vec::new();
    let mut i: usize = 0;
    assert(v@.skip(0) =~= v@);
    assert(out.deep_view() + words(v@) =~= words(v@));
    while i < n
        invariant
            i <= n,
            n == v@.len(),
            v@ == s@,
            out.deep_view() + words(v@.skip(i as int)) == words(v@),
        decreases n - i,
    {
        if is_whitespace(v[i]) {
            proof {
                lemma_words_skip_ws(v@, i as int);
            }
            i += 1;
        } else {
            let mut w: Vec<char> = Vec::new();
            let mut j: usize = i;
            while j < n && !is_whitespace(v[j])
                invariant
                    i <= j <= n,
                    n == v@.len(),
                    w@ == v@.subrange(i as int, j as int),
                    forall|k: int| i <= k < j ==> !is_ws(#[trigger] v@[k]),
                decreases n - j,
            {
                w.push(v[j]);
                j += 1;
                assert(w@ =~= v@.subrange(i as int, j as int));
            }
            proof {
                lemma_words_take_word(v@, i as int, j as int);
            }
            let ghost before = out.deep_view();
            out.push(string_from_chars(w.as_slice()));
            assert(out.deep_view() =~= before.push(w@));
            assert(before + (seq![w@] + words(v@.skip(j as int))) =~= out.deep_view() + words(
                v@.skip(j as int),
            ));
            i = j;
        }
    }
    assert(v@.skip(i as int) =~= seq![]);
    assert(out.deep_view() + seq![] =~= out.deep_view());
    out
}

/// `s` with its words joined by single spaces: leading and trailing
/// whitespace gone, every inner run of whitespace one space.
pub open spec fn normalized(s: Seq<char>) -> Seq<char> {
    join(words(s), seq![' '])
}

/// The words of `s` joined by single spaces (`split_whitespace` followed by
/// `join(" ")`).
pub fn normalize_whitespace(s: &str) -> (r: String)
    ensures
        r@ == normalized(s@),
{
    let ws = split_whitespace(s);
    let r = join_strings(&ws, " ");
    proof {
        reveal_strlit(" ");
        assert(" "@ =~= seq![' ']);
    }
    r
}

/// Number of characters before the first line feed of `s`, or its length.
pub open spec fn line_len(s: Seq<char>) -> nat
    decreases s.len(),
{
    if s.len() > 0 && s[0] != '\n' {
        1 + line_len(s.drop_first())
    } else {
        0
    }
}

/// A line never reaches past the end.
pub proof fn lemma_line_len_bound(s: Seq<char>)
    ensures
        line_len(s) <= s.len(),
    decreases s.len(),
{
    if s.len() > 0 && s[0] != '\n' {
        lemma_line_len_bound(s.drop_first());
    }
}

/// `l` without one trailing carriage return.
pub open spec fn strip_cr(l: Seq<char>) -> Seq<char> {
    if l.len() > 0 && l.last() == '\r' {
        l.drop_last()
    } else {
        l
    }
}

/// A run of non-whitespace stops at the first whitespace.
proof fn lemma_word_len_stops(s: Seq<char>, k: int)
    requires
        0 <= k < s.len(),
        is_ws(s[k]),
    ensures
        word_len(s) <= k,
    decreases k,
{
    if k > 0 && !is_ws(s[0]) {
        assert(s.drop_first()[k - 1] == s[k]);
        lemma_word_len_stops(s.drop_first(), k - 1);
    }
}

/// Appending text after a break keeps the leading run.
proof fn lemma_word_len_concat(a: Seq<char>, b: Seq<char>)
    requires
        word_len(a) < a.len() || b.len() == 0 || is_ws(b[0]),
    ensures
        word_len(a + b) == word_len(a),
    decreases a.len(),
{
    if a.len() == 0 {
        assert(a + b =~= b);
    } else if !is_ws(a[0]) {
        assert((a + b)[0] == a[0]);
        assert((a + b).drop_first() =~= a.drop_first() + b);
        lemma_word_len_concat(a.drop_first(), b);
    } else {
        assert((a + b)[0] == a[0]);
    }
}

/// The words of two texts with a break between them are the words of the
/// first followed by the words of the second.
pub proof fn lemma_words_concat(a: Seq<char>, b: Seq<char>)
    requires
        a.len() == 0 || b.len() == 0 || is_ws(a.last()) || is_ws(b[0]),
    ensures
        words(a + b) == words(a) + words(b),
    decreases a.len(),
{
    if b.len() == 0 {
        assert(a + b =~= a);
        assert(words(a) + words(b) =~= words(a));
    } else if a.len() == 0 {
        assert(a + b =~= b);
        assert(words(a) + words(b) =~= words(b));
    } else if is_ws(a[0]) {
        assert((a + b)[0] == a[0]);
        assert((a + b).drop_first() =~= a.drop_first() + b);
        if a.drop_first().len() > 0 {
            assert(a.drop_first().last() == a.last());
        }
        lemma_words_concat(a.drop_first(), b);
    } else {
        lemma_word_len_bound(a);
        if is_ws(a.last()) {
            lemma_word_len_stops(a, a.len() - 1);
        }
        lemma_word_len_concat(a, b);
        let n = word_len(a) as int;
        assert((a + b)[0] == a[0]);
        assert((a + b).take(n) =~= a.take(n));
        assert((a + b).skip(n) =~= a.skip(n) + b);
        if a.skip(n).len() > 0 {
            assert(a.skip(n).last() == a.last());
        }
        lemma_words_concat(a.skip(n), b);
        assert(words(a + b) =~= words(a) + words(b));
    }
}

/// A text of whitespace only has no words.
pub proof fn lemma_words_all_ws(s: Seq<char>)
    requires
        forall|k: int| 0 <= k < s.len() ==> is_ws(#[trigger] s[k]),
    ensures
        words(s) == Seq::<Seq<char>>::empty(),
    decreases s.len(),
{
    if s.len() > 0 {
        assert(is_ws(s[0]));
        assert forall|k: int| 0 <= k < s.drop_first().len() implies is_ws(
            #[trigger] s.drop_first()[k],
        ) by {
            assert(s.drop_first()[k] == s[k + 1]);
        }
        lemma_words_all_ws(s.drop_first());
    }
}

/// A non-empty text without whitespace is one word.
pub proof fn lemma_words_single(w: Seq<char>)
    requires
        w.len() > 0,
        forall|k: int| 0 <= k < w.len() ==> !is_ws(#[trigger] w[k]),
    ensures
        words(w) == seq![w],
{
    lemma_word_len_exact(w, w.len() as int);
    assert(!is_ws(w[0]));
    assert(w.take(w.len() as int) =~= w);
    assert(w.skip(w.len() as int) =~= Seq::<char>::empty());
    assert(words(Seq::<char>::empty()) =~= Seq::<Seq<char>>::empty());
    assert(words(w) == seq![w.take(w.len() as int)] + words(w.skip(w.len() as int)));
    assert(words(w) =~= seq![w]);
}

/// Every word is non-empty and holds no whitespace.
pub proof fn lemma_words_shape(s: Seq<char>)
    ensures
        forall|i: int|
            0 <= i < words(s).len() ==> (#[trigger] words(s)[i]).len() > 0 && forall|k: int|
                0 <= k < words(s)[i].len() ==> !is_ws(#[trigger] words(s)[i][k]),
    decreases s.len(),
{
    if s.len() == 0 {
        assert(words(s).len() == 0);
    } else {
        if is_ws(s[0]) {
            lemma_words_shape(s.drop_first());
            assert(words(s) == words(s.drop_first()));
        } else {
            lemma_word_len_bound(s);
            let n = word_len(s) as int;
            lemma_words_shape(s.skip(n));
            let ws = words(s);
            let rest = words(s.skip(n));
            assert(ws == seq![s.take(n)] + rest);
            assert(n > 0);
            assert forall|i: int| 0 <= i < ws.len() implies (#[trigger] ws[i]).len() > 0
                && forall|k: int| 0 <= k < ws[i].len() ==> !is_ws(#[trigger] ws[i][k]) by {
                if i > 0 {
                    assert(ws[i] == rest[i - 1]);
                } else {
                    assert(ws[0] == s.take(n));
                    assert forall|k: int| 0 <= k < ws[0].len() implies !is_ws(
                        #[trigger] ws[0][k],
                    ) by {
                        lemma_word_len_prefix(s, k);
                    }
                }
            }
        }
    }
}

/// The characters of the leading run are not whitespace.
proof fn lemma_word_len_prefix(s: Seq<char>, k: int)
    requires
        0 <= k < word_len(s),
    ensures
        !is_ws(s[k]),
    decreases k,
{
    lemma_word_len_bound(s);
    assert(s.len() > 0 && !is_ws(s[0]));
    if k > 0 {
        assert(s.drop_first()[k - 1] == s[k]);
        lemma_word_len_prefix(s.drop_first(), k - 1);
    }
}

/// The words of texts joined by a whitespace separator are the words of
/// each text in turn.
pub proof fn lemma_words_join(parts: Seq<Seq<char>>, sep: Seq<char>)
    requires
        sep.len() > 0,
        forall|k: int| 0 <= k < sep.len() ==> is_ws(#[trigger] sep[k]),
    ensures
        words(join(parts, sep)) == parts.map_values(|p: Seq<char>| words(p)).flatten(),
    decreases parts.len(),
{
    let f = |p: Seq<char>| words(p);
    if parts.len() == 0 {
        assert(parts.map_values(f) =~= Seq::<Seq<Seq<char>>>::empty());
    } else if parts.len() == 1 {
        assert(parts.map_values(f) =~= seq![words(parts[0])]);
        parts.map_values(f).lemma_flatten_one_element();
    } else {
        let dl = parts.drop_last();
        lemma_words_join(dl, sep);
        let a = join(dl, sep);
        lemma_words_all_ws(sep);
        lemma_words_concat(a, sep);
        assert((a + sep).last() == sep.last());
        lemma_words_concat(a + sep, parts.last());
        assert(join(parts, sep) == a + sep + parts.last());
        assert(parts.map_values(f) =~= dl.map_values(f).push(words(parts.last())));
        dl.map_values(f).lemma_flatten_push(words(parts.last()));
        assert(words(a) + Seq::<Seq<char>>::empty() =~= words(a));
    }
}

/// Joining words with single spaces and splitting again gives the words.
pub proof fn lemma_words_of_spaced(ws: Seq<Seq<char>>)
    requires
        forall|i: int|
            0 <= i < ws.len() ==> (#[trigger] ws[i]).len() > 0 && forall|k: int|
                0 <= k < ws[i].len() ==> !is_ws(#[trigger] ws[i][k]),
    ensures
        words(join(ws, seq![' '])) == ws,
    decreases ws.len(),
{
    let f = |p: Seq<char>| words(p);
    assert(is_ws(' '));
    lemma_words_join(ws, seq![' ']);
    assert forall|i: int| 0 <= i < ws.len() implies #[trigger] ws.map_values(f)[i] == seq![
        ws[i],
    ] by {
        lemma_words_single(ws[i]);
    }
    lemma_flatten_singletons(ws, ws.map_values(f));
}

/// Flattening a sequence of singletons gives their elements.
proof fn lemma_flatten_singletons(ws: Seq<Seq<char>>, m: Seq<Seq<Seq<char>>>)
    requires
        m.len() == ws.len(),
        forall|i: int| 0 <= i < ws.len() ==> #[trigger] m[i] == seq![ws[i]],
    ensures
        m.flatten() == ws,
    decreases ws.len(),
{
    if ws.len() > 0 {
        lemma_flatten_singletons(ws.drop_first(), m.drop_first());
        assert(m.first() == seq![ws[0]]);
        assert(ws =~= seq![ws[0]] + ws.drop_first());
    } else {
        assert(ws =~= Seq::<Seq<char>>::empty());
    }
}

/// Collapsing whitespace twice is collapsing it once.
pub proof fn lemma_normalized_idempotent(s: Seq<char>)
    ensures
        normalized(normalized(s)) == normalized(s),
{
    lemma_words_shape(s);
    lemma_words_of_spaced(words(s));
}

/// Texts that agree outside whitespace, and have whitespace at the same
/// places, have the same words.
pub proof fn lemma_words_same_breaks(s: Seq<char>, t: Seq<char>)
    requires
        s.len() == t.len(),
        forall|k: int| 0 <= k < s.len() ==> is_ws(#[trigger] s[k]) == is_ws(t[k]),
        forall|k: int| 0 <= k < s.len() && !is_ws(s[k]) ==> #[trigger] s[k] == t[k],
    ensures
        words(s) == words(t),
    decreases s.len(),
{
    if s.len() > 0 {
        assert(is_ws(s[0]) == is_ws(t[0]));
        if is_ws(s[0]) {
            assert forall|k: int| 0 <= k < s.drop_first().len() implies is_ws(
                #[trigger] s.drop_first()[k],
            ) == is_ws(t.drop_first()[k]) by {
                assert(s.drop_first()[k] == s[k + 1]);
                assert(t.drop_first()[k] == t[k + 1]);
            }
            assert forall|k: int|
                0 <= k < s.drop_first().len() && !is_ws(s.drop_first()[k]) implies #[trigger] s.drop_first()[k]
                == t.drop_first()[k] by {
                assert(s.drop_first()[k] == s[k + 1]);
                assert(t.drop_first()[k] == t[k + 1]);
            }
            lemma_words_same_breaks(s.drop_first(), t.drop_first());
        } else {
            lemma_word_len_bound(s);
            let n = word_len(s) as int;
            assert forall|k: int| 0 <= k < n implies !is_ws(#[trigger] t[k]) by {
                lemma_word_len_prefix(s, k);
                assert(is_ws(s[k]) == is_ws(t[k]));
            }
            if n < s.len() {
                lemma_word_len_exact_ws(s, n);
                assert(is_ws(s[n]) == is_ws(t[n]));
            }
            lemma_word_len_exact(t, n);
            assert forall|k: int| 0 <= k < n implies #[trigger] s.take(n)[k] == t.take(n)[k] by {
                lemma_word_len_prefix(s, k);
            }
            assert(s.take(n) =~= t.take(n));
            assert forall|k: int| 0 <= k < s.skip(n).len() implies is_ws(
                #[trigger] s.skip(n)[k],
            ) == is_ws(t.skip(n)[k]) by {
                assert(s.skip(n)[k] == s[k + n]);
                assert(t.skip(n)[k] == t[k + n]);
            }
            assert forall|k: int|
                0 <= k < s.skip(n).len() && !is_ws(s.skip(n)[k]) implies #[trigger] s.skip(n)[k]
                == t.skip(n)[k] by {
                assert(s.skip(n)[k] == s[k + n]);
                assert(t.skip(n)[k] == t[k + n]);
            }
            lemma_words_same_breaks(s.skip(n), t.skip(n));
        }
    }
}

/// The leading run ends at whitespace, unless it reaches the end.
proof fn lemma_word_len_exact_ws(s: Seq<char>, n: int)
    requires
        n == word_len(s),
        n < s.len(),
    ensures
        is_ws(s[n]),
    decreases s.len(),
{
    if s.len() > 0 && !is_ws(s[0]) {
        assert(s.drop_first()[n - 1] == s[n]);
        lemma_word_len_exact_ws(s.drop_first(), n - 1);
    }
}

/// Replacing one character by another, character by character.
pub proof fn lemma_replace_char(s: Seq<char>, a: char, b: char)
    ensures
        replace_all(s, seq![a], seq![b]).len() == s.len(),
        forall|k: int|
            0 <= k < s.len() ==> #[trigger] replace_all(s, seq![a], seq![b])[k] == if s[k] == a {
                b
            } else {
                s[k]
            },
    decreases s.len(),
{
    if s.len() > 0 {
        lemma_replace_char(s.drop_first(), a, b);
        let r = replace_all(s, seq![a], seq![b]);
        let rest = replace_all(s.drop_first(), seq![a], seq![b]);
        if s[0] == a {
            assert(s.subrange(0, 1) =~= seq![a]);
            assert(occurs_at(s, seq![a], 0));
            assert(s.skip(1) =~= s.drop_first());
            assert(r == seq![b] + rest);
        } else {
            assert(s.subrange(0, 1)[0] != a);
            assert(!occurs_at(s, seq![a], 0));
            assert(r == seq![s[0]] + rest);
        }
        assert forall|k: int| 0 <= k < s.len() implies #[trigger] r[k] == if s[k] == a {
            b
        } else {
            s[k]
        } by {
            if k > 0 {
                assert(r[k] == rest[k - 1]);
                assert(s.drop_first()[k - 1] == s[k]);
            }
        }
    }
}

/// Turning one whitespace character into another keeps the words.
pub proof fn lemma_words_replace_ws(s: Seq<char>, a: char, b: char)
    requires
        is_ws(a),
        is_ws(b),
    ensures
        words(replace_all(s, seq![a], seq![b])) == words(s),
{
    lemma_replace_char(s, a, b);
    let r = replace_all(s, seq![a], seq![b]);
    lemma_words_same_breaks(s, r);
}

/// The lines of `s` as `str::lines` yields them: split at each line feed,
/// a carriage return just before a line feed dropped, and no empty line
/// after a final line feed.
pub open spec fn lines(s: Seq<char>) -> Seq<Seq<char>>
    decreases s.len(),
{
    if s.len() == 0 {
        seq![]
    } else {
        proof {
            lemma_line_len_bound(s);
        }
        if line_len(s) == s.len() {
            seq![s]
        } else {
            seq![strip_cr(s.take(line_len(s) as int))] + lines(s.skip(line_len(s) as int + 1))
        }
    }
}

/// `line_len` is `m` when the first `m` characters are not line feeds and
/// the next one, if any, is.
proof fn lemma_line_len_exact(t: Seq<char>, m: int)
    requires
        0 <= m <= t.len(),
        forall|k: int| 0 <= k < m ==> #[trigger] t[k] != '\n',
        m == t.len() || t[m] == '\n',
    ensures
        line_len(t) == m,
    decreases m,
{
    if m > 0 {
        let u = t.drop_first();
        assert forall|k: int| 0 <= k < m - 1 implies #[trigger] u[k] != '\n' by {
            assert(u[k] == t[k + 1]);
        }
        if m - 1 < u.len() {
            assert(u[m - 1] == t[m]);
        }
        lemma_line_len_exact(u, m - 1);
    }
}

/// `lines` of a suffix starting at a line `s[i..j]`.
proof fn lemma_lines_step(s: Seq<char>, i: int, j: int)
    requires
        0 <= i < s.len(),
        i <= j <= s.len(),
        forall|k: int| i <= k < j ==> #[trigger] s[k] != '\n',
        j == s.len() || s[j] == '\n',
    ensures
        j == s.len() ==> lines(s.skip(i)) == seq![s.subrange(i, j)],
        j < s.len() ==> lines(s.skip(i)) == seq![strip_cr(s.subrange(i, j))] + lines(
            s.skip(j + 1),
        ),
{
    let t = s.skip(i);
    assert forall|k: int| 0 <= k < j - i implies #[trigger] t[k] != '\n' by {
        assert(t[k] == s[i + k]);
    }
    if j < s.len() {
        assert(t[j - i] == s[j]);
    }
    lemma_line_len_exact(t, j - i);
    assert(t.take(j - i) =~= s.subrange(i, j));
    if j < s.len() {
        assert(t.skip(j - i + 1) =~= s.skip(j + 1));
    }
    assert(t =~= s.subrange(i, s.len() as int));
}

/// The lines of `s` (what `str::lines` yields).
pub fn split_lines(s: &str) -> (r: Vec<String>)
    ensures
        r.deep_view() == lines(s@),
{
    let v = chars_of(s);
    let n = v.len();
    let mut out: Vec<String> = Vec::new();
    let mut i: usize = 0;
    assert(v@.skip(0) =~= v@);
    assert(out.deep_view() + lines(v@) =~= lines(v@));
    while i < n
        invariant
            i <= n,
            n == v@.len(),
            v@ == s@,
            out.deep_view() + lines(v@.skip(i as int)) == lines(v@),
        decreases n - i,
    {
        let mut w: Vec<char> = Vec::new();
        let mut j: usize = i;
        while j < n && v[j] != '\n'
            invariant
                i <= j <= n,
                n == v@.len(),
                w@ == v@.subrange(i as int, j as int),
                forall|k: int| i <= k < j ==> #[trigger] v@[k] != '\n',
            decreases n - j,
        {
            w.push(v[j]);
            j += 1;
            assert(w@ =~= v@.subrange(i as int, j as int));
        }
        proof {
            lemma_lines_step(v@, i as int, j as int);
        }
        let ghost before = out.deep_view();
        if j == n {
            out.push(string_from_chars(w.as_slice()));
            assert(out.deep_view() =~= before + seq![w@]);
            assert(v@.skip(n as int) =~= seq![]);
            assert(out.deep_view() + lines(v@.skip(n as int)) =~= out.deep_view());
            i = n;
        } else {
            if w.len() > 0 && w[w.len() - 1] == '\r' {
                w.pop();
            }
            assert(w@ == strip_cr(v@.subrange(i as int, j as int)));
            out.push(string_from_chars(w.as_slice()));
            assert(out.deep_view() =~= before + seq![w@]);
            assert(before + (seq![w@] + lines(v@.skip(j + 1))) =~= out.deep_view() + lines(
                v@.skip(j + 1),
            ));
            i = j + 1;
        }
    }
    assert(v@.skip(i as int) =~= seq![]);
    assert(out.deep_view() + seq![] =~= out.deep_view());
    out
}

/// The decimal digit for `d` (below ten).
pub open spec fn digit_char(d: nat) -> char {
    if d == 0 {
        '0'
    } else if d == 1 {
        '1'
    } else if d == 2 {
        '2'
    } else if d == 3 {
        '3'
    } else if d == 4 {
        '4'
    } else if d == 5 {
        '5'
    } else if d == 6 {
        '6'
    } else if d == 7 {
        '7'
    } else if d == 8 {
        '8'
    } else {
        '9'
    }
}

/// The decimal numeral of `n`, without leading zeros.
pub open spec fn decimal(n: nat) -> Seq<char>
    decreases n,
{
    if n < 10 {
        seq![digit_char(n)]
    } else {
        decimal(n / 10).push(digit_char(n % 10))
    }
}

/// The numeral of `n` padded with zeros to at least two digits (what the
/// format `{:02}` writes).
pub open spec fn two_digits(n: nat) -> Seq<char> {
    if n < 10 {
        seq!['0'] + decimal(n)
    } else {
        decimal(n)
    }
}

/// A numeral has at least one digit, and two from ten on.
proof fn lemma_decimal_len(n: nat)
    ensures
        decimal(n).len() >= 1,
        n >= 10 ==> decimal(n).len() >= 2,
    decreases n,
{
    if n >= 10 {
        lemma_decimal_len(n / 10);
    }
}

/// A numeral of a positive number does not start with zero.
proof fn lemma_decimal_leading(n: nat)
    requires
        n >= 1,
    ensures
        decimal(n)[0] != '0',
    decreases n,
{
    if n >= 10 {
        lemma_decimal_leading(n / 10);
        lemma_decimal_len(n / 10);
        assert(decimal(n)[0] == decimal(n / 10)[0]);
    }
}

/// Different numbers have different numerals.
pub proof fn lemma_decimal_injective(n: nat, m: nat)
    requires
        decimal(n) == decimal(m),
    ensures
        n == m,
    decreases n,
{
    lemma_decimal_len(n);
    lemma_decimal_len(m);
    if n >= 10 && m >= 10 {
        let dn = decimal(n);
        assert(dn.last() == digit_char(n % 10));
        assert(decimal(m).last() == digit_char(m % 10));
        assert(dn.drop_last() =~= decimal(n / 10));
        assert(decimal(m).drop_last() =~= decimal(m / 10));
        lemma_decimal_injective(n / 10, m / 10);
    } else if n < 10 && m < 10 {
        assert(decimal(n)[0] == digit_char(n));
        assert(decimal(m)[0] == digit_char(m));
    }
}

/// Different numbers have different two-digit numerals.
pub proof fn lemma_two_digits_injective(n: nat, m: nat)
    requires
        two_digits(n) == two_digits(m),
    ensures
        n == m,
{
    lemma_decimal_len(n);
    lemma_decimal_len(m);
    if n < 10 && m < 10 {
        assert(two_digits(n)[1] == digit_char(n));
        assert(two_digits(m)[1] == digit_char(m));
    } else if n >= 10 && m >= 10 {
        lemma_decimal_injective(n, m);
    } else if n < 10 {
        lemma_decimal_leading(m);
        assert(two_digits(n)[0] == '0');
    } else {
        lemma_decimal_leading(n);
        assert(two_digits(m)[0] == '0');
    }
}

fn digit(d: usize) -> (c: char)
    requires
        d < 10,
    ensures
        c == digit_char(d as nat),
{
    if d == 0 {
        '0'
    } else if d == 1 {
        '1'
    } else if d == 2 {
        '2'
    } else if d == 3 {
        '3'
    } else if d == 4 {
        '4'
    } else if d == 5 {
        '5'
    } else if d == 6 {
        '6'
    } else if d == 7 {
        '7'
    } else if d == 8 {
        '8'
    } else {
        '9'
    }
}

/// Appends the decimal numeral of `n`.
pub fn push_decimal(out: &mut Vec<char>, n: usize)
    ensures
        final(out)@ == old(out)@ + decimal(n as nat),
    decreases n,
{
    if n >= 10 {
        push_decimal(out, n / 10);
        let ghost mid = out@;
        out.push(digit(n % 10));
        assert(out@ =~= old(out)@ + decimal(n as nat));
    } else {
        out.push(digit(n));
        assert(out@ =~= old(out)@ + decimal(n as nat));
    }
}

/// The numeral of `n` padded with zeros to at least two digits.
pub fn format_two_digits(n: usize) -> (r: String)
    ensures
        r@ == two_digits(n as nat),
{
    let mut out: Vec<char> = Vec::new();
    if n < 10 {
        out.push('0');
    }
    push_decimal(&mut out, n);
    assert(out@ =~= two_digits(n as nat));
    string_from_chars(out.as_slice())
}

/// `join` peeled from the front: the first part, the separator, then the
/// rest joined.
pub proof fn lemma_join_front(parts: Seq<Seq<char>>, sep: Seq<char>)
    requires
        parts.len() >= 2,
    ensures
        join(parts, sep) == parts[0] + sep + join(parts.drop_first(), sep),
    decreases parts.len(),
{
    if parts.len() == 2 {
        assert(parts.drop_last().len() == 1);
        assert(parts.drop_first().len() == 1);
        assert(join(parts.drop_last(), sep) == parts[0]);
        assert(join(parts.drop_first(), sep) == parts[1]);
    } else {
        let dl = parts.drop_last();
        let df = parts.drop_first();
        lemma_join_front(dl, sep);
        assert(dl.drop_first() =~= df.drop_last());
        assert(df.last() == parts.last());
        assert(dl[0] == parts[0]);
        assert(join(df, sep) == join(df.drop_last(), sep) + sep + df.last());
        assert(join(parts, sep) == join(dl, sep) + sep + parts.last());
        assert(join(parts, sep) =~= parts[0] + sep + join(df, sep));
    }
}

/// Reading back what was written: splitting into lines the texts joined with
/// line feeds gives the texts again, when none holds a line feed, none but
/// the last ends with a carriage return, and the last is not empty.
pub proof fn lemma_lines_of_joined(xs: Seq<Seq<char>>)
    requires
        forall|i: int, k: int|
            0 <= i < xs.len() && 0 <= k < xs[i].len() ==> #[trigger] xs[i][k] != '\n',
        forall|i: int|
            0 <= i < xs.len() - 1 ==> #[trigger] xs[i].len() == 0 || xs[i].last() != '\r',
        xs.len() > 0 ==> xs.last().len() > 0,
    ensures
        lines(join(xs, "\n"@)) == xs,
    decreases xs.len(),
{
    reveal_strlit("\n");
    if xs.len() == 1 {
        let x = xs[0];
        assert forall|k: int| 0 <= k < x.len() implies #[trigger] x[k] != '\n' by {
            assert(xs[0][k] != '\n');
        }
        lemma_line_len_exact(x, x.len() as int);
        assert(lines(x) =~= seq![x]);
        assert(xs =~= seq![x]);
    } else if xs.len() >= 2 {
        let x = xs[0];
        let rest = xs.drop_first();
        lemma_join_front(xs, "\n"@);
        let s = x + "\n"@ + join(rest, "\n"@);
        assert forall|i: int, k: int|
            0 <= i < rest.len() && 0 <= k < rest[i].len() implies #[trigger] rest[i][k]
            != '\n' by {
            assert(rest[i] == xs[i + 1]);
            assert(xs[i + 1][k] != '\n');
        }
        assert forall|i: int| 0 <= i < rest.len() - 1 implies #[trigger] rest[i].len() == 0
            || rest[i].last() != '\r' by {
            assert(rest[i] == xs[i + 1]);
            assert(xs[i + 1].len() == 0 || xs[i + 1].last() != '\r');
        }
        assert(rest.last() == xs.last());
        lemma_lines_of_joined(rest);
        assert forall|k: int| 0 <= k < x.len() implies #[trigger] s[k] != '\n' by {
            assert(s[k] == x[k]);
            assert(xs[0][k] != '\n');
        }
        assert(s[x.len() as int] == '\n');
        lemma_line_len_exact(s, x.len() as int);
        assert(s.take(x.len() as int) =~= x);
        assert(s.skip(x.len() as int + 1) =~= join(rest, "\n"@));
        assert(xs[0].len() == 0 || xs[0].last() != '\r');
        assert(strip_cr(x) == x);
        assert(xs =~= seq![x] + rest);
    }
}

/// The characters of a `Result` of strings.
pub open spec fn str_result(r: Result<String, String>) -> Result<Seq<char>, Seq<char>> {
    match r {
        Ok(v) => Ok(v@),
        Err(e) => Err(e@),
    }
}

} // verus!
