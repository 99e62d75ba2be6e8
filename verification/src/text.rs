//! Character-level text utilities: Unicode whitespace, trimming, word
//! squeezing, substring replacement, line splitting and capitalisation.
//!
//! Text is handled as `Vec<char>` / `Seq<char>`; the conversions to and from
//! `&str` / `String` are the only places that touch std's string types.
use vstd::prelude::*;

verus! {

/// The Unicode `White_Space` property, which is what `char::is_whitespace`
/// tests: U+0009..U+000D, U+0020, U+0085, U+00A0, U+1680, U+2000..U+200A,
/// U+2028, U+2029, U+202F, U+205F and U+3000.
pub open spec fn is_ws(c: char) -> bool {
    let u = c as u32;
    ||| (0x09 <= u && u <= 0x0D)
    ||| u == 0x20
    ||| u == 0x85
    ||| u == 0xA0
    ||| u == 0x1680
    ||| (0x2000 <= u && u <= 0x200A)
    ||| u == 0x2028
    ||| u == 0x2029
    ||| u == 0x202F
    ||| u == 0x205F
    ||| u == 0x3000
}

/// Whether `c` is Unicode whitespace.
pub fn is_whitespace(c: char) -> (r: bool)
    ensures
        r == is_ws(c),
{
    let u = c as u32;
    (0x09 <= u && u <= 0x0D) || u == 0x20 || u == 0x85 || u == 0xA0 || u == 0x1680 || (0x2000
        <= u && u <= 0x200A) || u == 0x2028 || u == 0x2029 || u == 0x202F || u == 0x205F || u
        == 0x3000
}

/// All characters of `s` are whitespace.
pub open spec fn all_ws(s: Seq<char>) -> bool {
    forall|i: int| 0 <= i < s.len() ==> is_ws(#[trigger] s[i])
}

// ---------------------------------------------------------------------------
// Conversions between std strings and character vectors
// ---------------------------------------------------------------------------

/// The characters of `s`, in order.
pub fn chars_of(s: &str) -> (r: Vec<char>)
    ensures
        r@ == s@,
{
    let mut out: Vec<char> = Vec::new();
    for c in it: s.chars()
        invariant
            out@ == it.seq().take(it.index() as int),
    {
        out.push(c);
    }
    proof {
        broadcast use vstd::string::group_string_axioms;

    }
    out
}

/// Collects characters into a `String` (std's `FromIterator<&char>` for
/// `String`, which appends each character in order).
#[verifier::external_body]
pub(crate) fn string_from_chars(chars: &Vec<char>) -> (r: String)
    ensures
        r@ == chars@,
{
    String::from_iter(chars.iter())
}

/// What `char::to_uppercase` yields for a character (std's Unicode case
/// tables).
pub uninterp spec fn uppercase_of(c: char) -> Seq<char>;

/// Calls `char::to_uppercase`. Its documentation promises one or more
/// characters; which ones is left to the name `uppercase_of`.
#[verifier::external_body]
pub(crate) fn char_to_uppercase(c: char) -> (r: Vec<char>)
    ensures
        r@ == uppercase_of(c),
        r@.len() >= 1,
{
    c.to_uppercase().collect()
}

/// Appends all of `extra` to `out`.
pub fn push_all(out: &mut Vec<char>, extra: &Vec<char>)
    ensures
        final(out)@ == old(out)@ + extra@,
{
    let mut i: usize = 0;
    while i < extra.len()
        invariant
            i <= extra.len(),
            out@ == old(out)@ + extra@.take(i as int),
        decreases extra.len() - i,
    {
        out.push(extra[i]);
        i = i + 1;
        assert(extra@.take(i as int) == extra@.take(i - 1).push(extra@[i - 1]));
    }
    assert(extra@.take(extra.len() as int) == extra@);
}

// ---------------------------------------------------------------------------
// Trimming
// ---------------------------------------------------------------------------

/// `s` without its leading whitespace.
pub open spec fn trim_start(s: Seq<char>) -> Seq<char>
    decreases s.len(),
{
    if s.len() > 0 && is_ws(s[0]) {
        trim_start(s.drop_first())
    } else {
        s
    }
}

/// `s` without its trailing whitespace.
pub open spec fn trim_end(s: Seq<char>) -> Seq<char>
    decreases s.len(),
{
    if s.len() > 0 && is_ws(s.last()) {
        trim_end(s.drop_last())
    } else {
        s
    }
}

/// `s` without leading and trailing whitespace (`str::trim`).
pub open spec fn trim(s: Seq<char>) -> Seq<char> {
    trim_end(trim_start(s))
}

proof fn lemma_trim_start_skip(s: Seq<char>, a: int)
    requires
        0 <= a <= s.len(),
        forall|k: int| 0 <= k < a ==> is_ws(#[trigger] s[k]),
    ensures
        trim_start(s) == trim_start(s.skip(a)),
    decreases a,
{
    if a > 0 {
        assert(s.drop_first().skip(a - 1) =~= s.skip(a));
        assert forall|k: int| 0 <= k < a - 1 implies is_ws(#[trigger] s.drop_first()[k]) by {
            assert(s.drop_first()[k] == s[k + 1]);
        }
        lemma_trim_start_skip(s.drop_first(), a - 1);
    } else {
        assert(s.skip(0) =~= s);
    }
}

proof fn lemma_trim_end_take(s: Seq<char>, b: int)
    requires
        0 <= b <= s.len(),
        forall|k: int| b <= k < s.len() ==> is_ws(#[trigger] s[k]),
    ensures
        trim_end(s) == trim_end(s.take(b)),
    decreases s.len() - b,
{
    if b < s.len() {
        assert(s.drop_last().take(b) =~= s.take(b));
        assert forall|k: int| b <= k < s.drop_last().len() implies is_ws(
            #[trigger] s.drop_last()[k],
        ) by {
            assert(s.drop_last()[k] == s[k]);
        }
        lemma_trim_end_take(s.drop_last(), b);
    } else {
        assert(s.take(b) =~= s);
    }
}

/// `str::trim` on characters.
pub fn trim_chars(s: &Vec<char>) -> (r: Vec<char>)
    ensures
        r@ == trim(s@),
{
    let n = s.len();
    let mut a: usize = 0;
    while a < n && is_whitespace(s[a])
        invariant
            n == s.len(),
            a <= n,
            forall|k: int| 0 <= k < a ==> is_ws(#[trigger] s@[k]),
        decreases n - a,
    {
        a = a + 1;
    }
    proof {
        lemma_trim_start_skip(s@, a as int);
        assert(trim_start(s@.skip(a as int)) == s@.skip(a as int));
    }
    let ghost t = s@.skip(a as int);
    let mut b: usize = n;
    while b > a && is_whitespace(s[b - 1])
        invariant
            n == s.len(),
            a <= b <= n,
            t == s@.skip(a as int),
            forall|k: int| b - a <= k < t.len() ==> is_ws(#[trigger] t[k]),
        decreases b,
    {
        b = b - 1;
        assert(t[b - a] == s@[b as int]);
    }
    proof {
        lemma_trim_end_take(t, b - a);
        let u = t.take(b - a);
        if u.len() > 0 {
            assert(u.last() == s@[b - 1]);
        }
        assert(trim_end(u) == u);
    }
    let mut out: Vec<char> = Vec::new();
    let mut i: usize = a;
    while i < b
        invariant
            a <= i <= b <= n,
            n == s.len(),
            out@ == s@.subrange(a as int, i as int),
        decreases b - i,
    {
        out.push(s[i]);
        i = i + 1;
        assert(s@.subrange(a as int, i as int) == s@.subrange(a as int, i - 1).push(s@[i - 1]));
    }
    assert(t.take(b - a) =~= s@.subrange(a as int, b as int));
    out
}

// ---------------------------------------------------------------------------
// Words and joining
// ---------------------------------------------------------------------------

/// The whitespace-separated words of `s` (`str::split_whitespace`): a
/// character that is not whitespace extends the current word when the
/// character before it is not whitespace either, and starts a new word
/// otherwise.
pub open spec fn words(s: Seq<char>) -> Seq<Seq<char>>
    decreases s.len(),
{
    if s.len() == 0 {
        seq![]
    } else {
        let w = words(s.drop_last());
        let c = s.last();
        if is_ws(c) {
            w
        } else if s.len() >= 2 && !is_ws(s[s.len() - 2]) {
            w.update(w.len() - 1, w.last().push(c))
        } else {
            w.push(seq![c])
        }
    }
}

/// `parts` joined with `sep` between consecutive parts (`[T]::join`).
pub open spec fn join(parts: Seq<Seq<char>>, sep: Seq<char>) -> Seq<char>
    decreases parts.len(),
{
    if parts.len() == 0 {
        seq![]
    } else if parts.len() == 1 {
        parts[0]
    } else {
        join(parts.drop_last(), sep) + sep + parts.last()
    }
}

/// Words of `s` joined by single spaces.
pub open spec fn squeeze(s: Seq<char>) -> Seq<char> {
    join(words(s), seq![' '])
}

/// Every word is non-empty, and when `s` ends in a non-whitespace character
/// there is at least one word.
pub proof fn lemma_words_shape(s: Seq<char>)
    ensures
        forall|k: int| 0 <= k < words(s).len() ==> (#[trigger] words(s)[k]).len() > 0,
        s.len() > 0 && !is_ws(s.last()) ==> words(s).len() > 0,
    decreases s.len(),
{
    if s.len() > 0 {
        lemma_words_shape(s.drop_last());
        let w = words(s.drop_last());
        let c = s.last();
        if !is_ws(c) && s.len() >= 2 && !is_ws(s[s.len() - 2]) {
            assert(s.drop_last().last() == s[s.len() - 2]);
            let w2 = w.update(w.len() - 1, w.last().push(c));
            assert forall|k: int| 0 <= k < w2.len() implies (#[trigger] w2[k]).len() > 0 by {
                if k != w.len() - 1 {
                    assert(w2[k] == w[k]);
                }
            }
        } else if !is_ws(c) {
            let w2 = w.push(seq![c]);
            assert forall|k: int| 0 <= k < w2.len() implies (#[trigger] w2[k]).len() > 0 by {
                if k < w.len() {
                    assert(w2[k] == w[k]);
                }
            }
        }
    }
}

/// Joining with a last element extended by one character extends the join.
pub proof fn lemma_join_extend_last(parts: Seq<Seq<char>>, sep: Seq<char>, c: char)
    requires
        parts.len() > 0,
    ensures
        join(parts.update(parts.len() - 1, parts.last().push(c)), sep) == join(parts, sep).push(
            c,
        ),
{
    let p2 = parts.update(parts.len() - 1, parts.last().push(c));
    if parts.len() > 1 {
        assert(p2.drop_last() =~= parts.drop_last());
        assert(join(p2, sep) == join(parts.drop_last(), sep) + sep + parts.last().push(c));
        assert(join(parts.drop_last(), sep) + sep + parts.last().push(c) =~= (join(
            parts.drop_last(),
            sep,
        ) + sep + parts.last()).push(c));
    }
}

/// Joining with one more element.
pub proof fn lemma_join_push(parts: Seq<Seq<char>>, sep: Seq<char>, x: Seq<char>)
    ensures
        join(parts.push(x), sep) == if parts.len() == 0 {
            x
        } else {
            join(parts, sep) + sep + x
        },
{
    assert(parts.push(x).drop_last() =~= parts);
}

/// A join of non-empty parts is empty exactly when there are no parts.
pub proof fn lemma_join_empty(parts: Seq<Seq<char>>, sep: Seq<char>)
    requires
        forall|k: int| 0 <= k < parts.len() ==> (#[trigger] parts[k]).len() > 0,
    ensures
        (join(parts, sep).len() == 0) <==> (parts.len() == 0),
    decreases parts.len(),
{
    if parts.len() > 1 {
        assert(parts.last() == parts[parts.len() - 1]);
    } else if parts.len() == 1 {
        assert(parts[0].len() > 0);
    }
}

/// `split_whitespace` followed by joining with single spaces.
pub fn squeeze_whitespace(s: &Vec<char>) -> (r: Vec<char>)
    ensures
        r@ == squeeze(s@),
{
    let mut out: Vec<char> = Vec::new();
    let mut i: usize = 0;
    while i < s.len()
        invariant
            i <= s.len(),
            out@ == squeeze(s@.take(i as int)),
            (out@.len() == 0) <==> (words(s@.take(i as int)).len() == 0),
        decreases s.len() - i,
    {
        let c = s[i];
        let ghost pre = s@.take(i as int);
        let ghost cur = s@.take(i + 1);
        proof {
            assert(cur.drop_last() =~= pre);
            assert(cur.last() == c);
            lemma_words_shape(pre);
            lemma_words_shape(cur);
        }
        if !is_whitespace(c) {
            if i > 0 && !is_whitespace(s[i - 1]) {
                proof {
                    assert(cur[cur.len() - 2] == s@[i - 1]);
                    assert(pre.last() == s@[i - 1]);
                    lemma_join_extend_last(words(pre), seq![' '], c);
                }
                out.push(c);
            } else {
                proof {
                    lemma_join_push(words(pre), seq![' '], seq![c]);
                    if i > 0 {
                        assert(cur[cur.len() - 2] == s@[i - 1]);
                    }
                }
                if out.len() > 0 {
                    out.push(' ');
                }
                out.push(c);
                proof {
                    if words(pre).len() > 0 {
                        assert(out@ =~= join(words(pre), seq![' ']) + seq![' '] + seq![c]);
                    } else {
                        assert(out@ =~= seq![c]);
                    }
                }
            }
        }
        i = i + 1;
        proof {
            lemma_join_empty(words(cur), seq![' ']);
        }
    }
    assert(s@.take(s.len() as int) =~= s@);
    out
}

// ---------------------------------------------------------------------------
// Replacement
// ---------------------------------------------------------------------------

/// `s` with every leftmost, non-overlapping occurrence of `pat` replaced by
/// `rep`, scanning from the left (`str::replace`); an empty pattern leaves
/// `s` unchanged.
pub open spec fn replace_all(s: Seq<char>, pat: Seq<char>, rep: Seq<char>) -> Seq<char>
    decreases s.len(),
{
    if pat.len() == 0 || s.len() == 0 {
        s
    } else if s.len() >= pat.len() && s.take(pat.len() as int) == pat {
        rep + replace_all(s.skip(pat.len() as int), pat, rep)
    } else {
        seq![s[0]] + replace_all(s.skip(1), pat, rep)
    }
}

/// Whether `pat` occurs in `s` at position `i`.
fn occurs_at(s: &Vec<char>, i: usize, pat: &Vec<char>) -> (r: bool)
    requires
        i <= s.len(),
    ensures
        r == (pat.len() <= s.len() - i && s@.subrange(i as int, i + pat.len()) == pat@),
{
    if pat.len() > s.len() - i {
        return false;
    }
    let mut k: usize = 0;
    while k < pat.len()
        invariant
            k <= pat.len(),
            pat.len() <= s.len() - i,
            forall|j: int| 0 <= j < k ==> s@[i + j] == pat@[j],
        decreases pat.len() - k,
    {
        if s[i + k] != pat[k] {
            assert(s@.subrange(i as int, i + pat.len())[k as int] != pat@[k as int]);
            return false;
        }
        k = k + 1;
    }
    assert(s@.subrange(i as int, i + pat.len()) =~= pat@);
    true
}

/// `str::replace` on characters.
pub fn replace_chars(s: &Vec<char>, pat: &Vec<char>, rep: &Vec<char>) -> (r: Vec<char>)
    ensures
        r@ == replace_all(s@, pat@, rep@),
{
    let mut out: Vec<char> = Vec::new();
    if pat.len() == 0 {
        push_all(&mut out, s);
        return out;
    }
    let mut i: usize = 0;
    assert(s@.skip(0) =~= s@);
    while i < s.len()
        invariant
            i <= s.len(),
            pat.len() > 0,
            replace_all(s@, pat@, rep@) == out@ + replace_all(s@.skip(i as int), pat@, rep@),
        decreases s.len() - i,
    {
        let ghost t = s@.skip(i as int);
        if occurs_at(s, i, pat) {
            proof {
                assert(t.take(pat.len() as int) =~= s@.subrange(i as int, i + pat.len()));
                assert(t.skip(pat.len() as int) =~= s@.skip(i + pat.len()));
            }
            push_all(&mut out, rep);
            i = i + pat.len();
        } else {
            proof {
                if t.len() >= pat.len() {
                    assert(t.take(pat.len() as int) =~= s@.subrange(i as int, i + pat.len()));
                }
                assert(t.skip(1) =~= s@.skip(i + 1));
                assert(t[0] == s@[i as int]);
            }
            out.push(s[i]);
            i = i + 1;
        }
    }
    assert(s@.skip(s.len() as int) =~= Seq::<char>::empty());
    out
}


// ---------------------------------------------------------------------------
// Lines and capitalisation
// ---------------------------------------------------------------------------

/// The pieces of `s` between occurrences of `sep` (`str::split`); there is
/// always at least one piece.
pub open spec fn split_on(s: Seq<char>, sep: char) -> Seq<Seq<char>>
    decreases s.len(),
{
    if s.len() == 0 {
        seq![seq![]]
    } else {
        let p = split_on(s.drop_last(), sep);
        if s.last() == sep {
            p.push(seq![])
        } else {
            p.update(p.len() - 1, p.last().push(s.last()))
        }
    }
}

pub proof fn lemma_split_on_len(s: Seq<char>, sep: char)
    ensures
        split_on(s, sep).len() >= 1,
    decreases s.len(),
{
    if s.len() > 0 {
        lemma_split_on_len(s.drop_last(), sep);
    }
}

/// The pieces of `s` between line feeds.
pub open spec fn split_nl(s: Seq<char>) -> Seq<Seq<char>> {
    split_on(s, '\n')
}

pub proof fn lemma_split_nl_len(s: Seq<char>)
    ensures
        split_nl(s).len() >= 1,
{
    lemma_split_on_len(s, '\n');
}

/// A line without one trailing carriage return.
pub open spec fn strip_cr(l: Seq<char>) -> Seq<char> {
    if l.len() > 0 && l.last() == '\r' {
        l.drop_last()
    } else {
        l
    }
}

/// The lines of `s` (`str::lines`): the pieces between line feeds, where a
/// piece ended by a line feed also loses one carriage return before it, and
/// a final line feed does not start another line.
pub open spec fn lines(s: Seq<char>) -> Seq<Seq<char>> {
    if s.len() == 0 {
        seq![]
    } else {
        let p = split_nl(s);
        let head = p.drop_last().map_values(|l: Seq<char>| strip_cr(l));
        if s.last() == '\n' {
            head
        } else {
            head.push(p.last())
        }
    }
}

/// A line trimmed of surrounding whitespace, with its first character in
/// upper case.
pub open spec fn capitalized(line: Seq<char>) -> Seq<char> {
    let t = trim(line);
    if t.len() == 0 {
        seq![]
    } else {
        uppercase_of(t[0]) + t.skip(1)
    }
}

/// Each line of `s` capitalized, joined again by line feeds.
pub open spec fn capitalized_lines(s: Seq<char>) -> Seq<char> {
    join(lines(s).map_values(|l: Seq<char>| capitalized(l)), seq!['\n'])
}

/// The lines of `s` already ended by a line feed, each without its carriage
/// return and capitalized.
pub open spec fn finished_lines(s: Seq<char>) -> Seq<Seq<char>> {
    split_nl(s).drop_last().map_values(|l: Seq<char>| capitalized(strip_cr(l)))
}

fn strip_cr_chars(l: &Vec<char>) -> (r: Vec<char>)
    ensures
        r@ == strip_cr(l@),
{
    let mut out: Vec<char> = Vec::new();
    let mut n = l.len();
    if n > 0 && l[n - 1] == '\r' {
        n = n - 1;
    }
    let mut i: usize = 0;
    while i < n
        invariant
            i <= n <= l.len(),
            n == strip_cr(l@).len(),
            out@ == l@.take(i as int),
        decreases n - i,
    {
        out.push(l[i]);
        i = i + 1;
        assert(l@.take(i as int) == l@.take(i - 1).push(l@[i - 1]));
    }
    assert(strip_cr(l@) =~= l@.take(n as int));
    out
}

/// Trims `line` and puts its first character in upper case.
pub fn capitalize_chars(line: &Vec<char>) -> (r: Vec<char>)
    ensures
        r@ == capitalized(line@),
{
    let t = trim_chars(line);
    if t.len() == 0 {
        return Vec::new();
    }
    let mut out = char_to_uppercase(t[0]);
    let mut i: usize = 1;
    while i < t.len()
        invariant
            1 <= i <= t.len(),
            out@ == uppercase_of(t@[0]) + t@.subrange(1, i as int),
        decreases t.len() - i,
    {
        out.push(t[i]);
        i = i + 1;
        assert(t@.subrange(1, i as int) == t@.subrange(1, i - 1).push(t@[i - 1]));
    }
    assert(t@.subrange(1, t.len() as int) =~= t@.skip(1));
    out
}

/// The text trimmed, with its first character in upper case.
pub fn capitalize_first(text: &str) -> (r: String)
    ensures
        r@ == capitalized(text@),
{
    let chars = chars_of(text);
    let out = capitalize_chars(&chars);
    string_from_chars(&out)
}

proof fn lemma_finished_lines_step(pre: Seq<char>, c: char)
    ensures
        c == '\n' ==> finished_lines(pre.push(c)) == finished_lines(pre).push(
            capitalized(strip_cr(split_nl(pre).last())),
        ),
        c == '\n' ==> split_nl(pre.push(c)).last() == Seq::<char>::empty(),
        c != '\n' ==> finished_lines(pre.push(c)) == finished_lines(pre),
        c != '\n' ==> split_nl(pre.push(c)).last() == split_nl(pre).last().push(c),
        split_nl(pre.push(c)).len() == if c == '\n' {
            split_nl(pre).len() + 1
        } else {
            split_nl(pre).len() + 0
        },
{
    let s = pre.push(c);
    assert(s.drop_last() =~= pre);
    assert(s.last() == c);
    lemma_split_nl_len(pre);
    let p = split_nl(pre);
    if c == '\n' {
        assert(split_nl(s) == p.push(seq![]));
        assert(p.push(seq![]).drop_last() =~= p);
        assert(p =~= p.drop_last().push(p.last()));
        assert(finished_lines(s) =~= finished_lines(pre).push(capitalized(strip_cr(p.last()))));
    } else {
        let q = p.update(p.len() - 1, p.last().push(c));
        assert(split_nl(s) == q);
        assert(q.drop_last() =~= p.drop_last());
    }
}

/// Splits `s` into lines, capitalizes each line and joins them again with
/// line feeds.
pub fn capitalize_lines(s: &Vec<char>) -> (r: Vec<char>)
    ensures
        r@ == capitalized_lines(s@),
{
    let mut out: Vec<char> = Vec::new();
    let mut cur: Vec<char> = Vec::new();
    let mut any = false;
    let mut i: usize = 0;
    proof {
        assert(s@.take(0) =~= Seq::<char>::empty());
        assert(finished_lines(Seq::<char>::empty()) =~= Seq::<Seq<char>>::empty());
    }
    while i < s.len()
        invariant
            i <= s.len(),
            cur@ == split_nl(s@.take(i as int)).last(),
            out@ == join(finished_lines(s@.take(i as int)), seq!['\n']),
            any <==> finished_lines(s@.take(i as int)).len() > 0,
        decreases s.len() - i,
    {
        let c = s[i];
        let ghost pre = s@.take(i as int);
        proof {
            assert(s@.take(i + 1) =~= pre.push(c));
            lemma_finished_lines_step(pre, c);
            lemma_split_nl_len(pre);
        }
        if c == '\n' {
            let stripped = strip_cr_chars(&cur);
            let line = capitalize_chars(&stripped);
            proof {
                lemma_join_push(finished_lines(pre), seq!['\n'], line@);
            }
            if any {
                out.push('\n');
            }
            push_all(&mut out, &line);
            any = true;
            cur = Vec::new();
        } else {
            cur.push(c);
        }
        i = i + 1;
    }
    let ghost all = s@.take(s.len() as int);
    assert(all =~= s@);
    proof {
        lemma_split_nl_len(s@);
    }
    if s.len() > 0 && s[s.len() - 1] != '\n' {
        let line = capitalize_chars(&cur);
        proof {
            lemma_join_push(finished_lines(s@), seq!['\n'], line@);
            let p = split_nl(s@);
            let head = p.drop_last().map_values(|l: Seq<char>| strip_cr(l));
            assert(lines(s@) == head.push(p.last()));
            assert(head.push(p.last()).map_values(|l: Seq<char>| capitalized(l))
                =~= finished_lines(s@).push(capitalized(p.last())));
        }
        if any {
            out.push('\n');
        }
        push_all(&mut out, &line);
    } else {
        proof {
            if s.len() > 0 {
                let p = split_nl(s@);
                let head = p.drop_last().map_values(|l: Seq<char>| strip_cr(l));
                assert(head.map_values(|l: Seq<char>| capitalized(l)) =~= finished_lines(s@));
            } else {
                assert(lines(s@).map_values(|l: Seq<char>| capitalized(l)) =~= Seq::<
                    Seq<char>,
                >::empty());
            }
        }
    }
    out
}

// ---------------------------------------------------------------------------
// Dictation formatting
// ---------------------------------------------------------------------------

/// Characters that end a sentence.
pub open spec fn ends_sentence(c: char) -> bool {
    c == '.' || c == '!' || c == '?' || c == '…'
}

/// Non-empty text that does not already end a sentence gets a full stop.
pub open spec fn finish_sentence(s: Seq<char>) -> Seq<char> {
    if s.len() == 0 || ends_sentence(s.last()) {
        s
    } else {
        s.push('.')
    }
}

/// Spoken Russian punctuation, each phrase standing as a whole word between
/// spaces, replaced by its symbol (in this order: question mark, exclamation
/// mark, new line, colon, semicolon, ellipsis, comma, full stop).
pub open spec fn spoken_punctuation(s: Seq<char>) -> Seq<char> {
    let s = replace_all(s, " вопросительный знак "@, " ? "@);
    let s = replace_all(s, " восклицательный знак "@, " ! "@);
    let s = replace_all(s, " новая строка "@, " \n "@);
    let s = replace_all(s, " двоеточие "@, " : "@);
    let s = replace_all(s, " точка с запятой "@, " ; "@);
    let s = replace_all(s, " многоточие "@, " … "@);
    let s = replace_all(s, " запятая "@, " , "@);
    replace_all(s, " точка "@, " . "@)
}

/// The space before each punctuation mark removed.
pub open spec fn attach_punctuation(s: Seq<char>) -> Seq<char> {
    let s = replace_all(s, " ,"@, ","@);
    let s = replace_all(s, " ."@, "."@);
    let s = replace_all(s, " !"@, "!"@);
    let s = replace_all(s, " ?"@, "?"@);
    let s = replace_all(s, " :"@, ":"@);
    let s = replace_all(s, " ;"@, ";"@);
    replace_all(s, " …"@, "…"@)
}

/// The formatted transcript: whitespace squeezed, spoken punctuation turned
/// into symbols and attached to the word before it, each line capitalized,
/// and a full stop added where the text does not already end a sentence.
pub open spec fn postprocessed(input: Seq<char>) -> Seq<char> {
    let padded = seq![' '] + squeeze(input) + seq![' '];
    finish_sentence(
        capitalized_lines(attach_punctuation(trim(spoken_punctuation(padded)))),
    )
}

fn replace_literal(s: Vec<char>, pat: &str, rep: &str) -> (r: Vec<char>)
    ensures
        r@ == replace_all(s@, pat@, rep@),
{
    let p = chars_of(pat);
    let q = chars_of(rep);
    replace_chars(&s, &p, &q)
}

/// Formats raw transcript text.
pub fn postprocess(input: &str) -> (r: String)
    ensures
        r@ == postprocessed(input@),
{
    let chars = chars_of(input);
    let squeezed = squeeze_whitespace(&chars);
    let mut s: Vec<char> = Vec::new();
    s.push(' ');
    push_all(&mut s, &squeezed);
    s.push(' ');
    assert(s@ =~= seq![' '] + squeeze(input@) + seq![' ']);
    let s = replace_literal(s, " вопросительный знак ", " ? ");
    let s = replace_literal(s, " восклицательный знак ", " ! ");
    let s = replace_literal(s, " новая строка ", " \n ");
    let s = replace_literal(s, " двоеточие ", " : ");
    let s = replace_literal(s, " точка с запятой ", " ; ");
    let s = replace_literal(s, " многоточие ", " … ");
    let s = replace_literal(s, " запятая ", " , ");
    let s = replace_literal(s, " точка ", " . ");
    let s = trim_chars(&s);
    let s = replace_literal(s, " ,", ",");
    let s = replace_literal(s, " .", ".");
    let s = replace_literal(s, " !", "!");
    let s = replace_literal(s, " ?", "?");
    let s = replace_literal(s, " :", ":");
    let s = replace_literal(s, " ;", ";");
    let s = replace_literal(s, " …", "…");
    let mut result = capitalize_lines(&s);
    let n = result.len();
    if n > 0 {
        let last = result[n - 1];
        if !(last == '.' || last == '!' || last == '?' || last == '…') {
            result.push('.');
        }
    }
    string_from_chars(&result)
}


// ---------------------------------------------------------------------------
// Decimal numbers
// ---------------------------------------------------------------------------

/// An ASCII decimal digit.
pub open spec fn is_digit(c: char) -> bool {
    '0' <= c && c <= '9'
}

/// The value of a sequence of decimal digits (most significant first).
pub open spec fn decimal_value(ds: Seq<char>) -> int
    decreases ds.len(),
{
    if ds.len() == 0 {
        0
    } else {
        decimal_value(ds.drop_last()) * 10 + (ds.last() as int - '0' as int)
    }
}

/// Every character is a decimal digit.
pub open spec fn digits_only(ds: Seq<char>) -> bool {
    forall|i: int| 0 <= i < ds.len() ==> is_digit(#[trigger] ds[i])
}

/// What `u64::from_str` accepts: an optional `+`, then one or more decimal
/// digits whose value fits in a `u64`.
pub open spec fn parsed_u64(s: Seq<char>) -> Option<u64> {
    let ds = if s.len() > 0 && s[0] == '+' {
        s.drop_first()
    } else {
        s
    };
    if ds.len() == 0 || !digits_only(ds) || decimal_value(ds) > u64::MAX {
        None
    } else {
        Some(decimal_value(ds) as u64)
    }
}

proof fn lemma_decimal_value_nonneg(ds: Seq<char>)
    requires
        forall|i: int| 0 <= i < ds.len() ==> is_digit(#[trigger] ds[i]),
    ensures
        decimal_value(ds) >= 0,
    decreases ds.len(),
{
    if ds.len() > 0 {
        lemma_decimal_value_nonneg(ds.drop_last());
        assert(is_digit(ds[ds.len() - 1]));
    }
}

proof fn lemma_decimal_value_prefix_bound(ds: Seq<char>, k: int)
    requires
        forall|i: int| 0 <= i < ds.len() ==> is_digit(#[trigger] ds[i]),
        0 <= k <= ds.len(),
    ensures
        decimal_value(ds.take(k)) <= decimal_value(ds),
    decreases ds.len() - k,
{
    if k < ds.len() {
        lemma_decimal_value_prefix_bound(ds, k + 1);
        assert(ds.take(k + 1).drop_last() =~= ds.take(k));
        assert(ds.take(k + 1).last() == ds[k]);
        assert(is_digit(ds[k]));
        assert(forall|i: int| 0 <= i < ds.take(k).len() ==> is_digit(#[trigger] ds.take(k)[i]));
        lemma_decimal_value_nonneg(ds.take(k));
    } else {
        assert(ds.take(k) =~= ds);
    }
}

/// Parses a decimal `u64` the way `u64::from_str` does.
pub fn parse_u64(s: &str) -> (r: Option<u64>)
    ensures
        r == parsed_u64(s@),
{
    let chars = chars_of(s);
    let mut i: usize = 0;
    if chars.len() > 0 && chars[0] == '+' {
        i = 1;
    }
    let ghost ds = if s@.len() > 0 && s@[0] == '+' {
        s@.drop_first()
    } else {
        s@
    };
    assert(ds =~= chars@.skip(i as int));
    if i >= chars.len() {
        return None;
    }
    let start = i;
    let mut value: u64 = 0;
    while i < chars.len()
        invariant
            start <= i <= chars.len(),
            start < chars.len(),
            ds =~= chars@.skip(start as int),
            chars@ == s@,
            ds == if s@.len() > 0 && s@[0] == '+' {
                s@.drop_first()
            } else {
                s@
            },
            forall|j: int| 0 <= j < i - start ==> is_digit(#[trigger] ds[j]),
            value == decimal_value(ds.take(i - start)),
        decreases chars.len() - i,
    {
        let c = chars[i];
        let ghost pre = ds.take(i - start);
        proof {
            assert(ds.take(i - start + 1).drop_last() =~= pre);
            assert(ds[i - start] == c);
        }
        if !('0' <= c && c <= '9') {
            assert(!is_digit(ds[i - start]));
            assert(!digits_only(ds));
            assert(parsed_u64(s@) is None);
            return None;
        }
        let d = (c as u32 - '0' as u32) as u64;
        if value > (u64::MAX - d) / 10 {
            proof {
                assert forall|j: int| 0 <= j < i - start + 1 implies is_digit(
                    #[trigger] ds.take(i - start + 1)[j],
                ) by {
                    assert(ds.take(i - start + 1)[j] == ds[j]);
                }
                assert(decimal_value(ds.take(i - start + 1)) == value * 10 + d);
                assert(value * 10 + d > u64::MAX) by (nonlinear_arith)
                    requires
                        value > (u64::MAX - d) / 10,
                        d <= 9,
                ;
                if digits_only(ds) {
                    lemma_decimal_value_prefix_bound(ds, i - start + 1);
                    assert(decimal_value(ds) > u64::MAX);
                }
                assert(parsed_u64(s@) is None);
            }
            return None;
        }
        proof {
            assert(value * 10 + d <= u64::MAX) by (nonlinear_arith)
                requires
                    value <= (u64::MAX - d) / 10,
                    d <= 9,
            ;
        }
        value = value * 10 + d;
        i = i + 1;
        proof {
            assert(decimal_value(ds.take(i - start)) == pre.len() * 0 + decimal_value(pre) * 10 + (
            c as int - '0' as int));
        }
    }
    assert(ds.take(i - start) =~= ds);
    Some(value)
}

/// A parsed setting, or its default when absent or not a valid number.
pub open spec fn setting_or(value: Option<Seq<char>>, default: u64) -> u64 {
    match value {
        Some(v) => match parsed_u64(v) {
            Some(n) => n,
            None => default,
        },
        None => default,
    }
}

/// Reads a numeric setting: the parsed value, or `default` when the
/// setting is absent or not a decimal `u64`.
pub fn parse_setting(value: Option<&str>, default: u64) -> (r: u64)
    ensures
        r == setting_or(
            match value {
                Some(v) => Some(v@),
                None => None,
            },
            default,
        ),
{
    match value {
        Some(v) => match parse_u64(v) {
            Some(n) => n,
            None => default,
        },
        None => default,
    }
}

/// The decimal digits of `n`, most significant first, without leading
/// zeros (`0` is written `"0"`).
pub open spec fn decimal(n: nat) -> Seq<char>
    decreases n,
{
    if n < 10 {
        seq![digit_char(n)]
    } else {
        decimal(n / 10) + seq![digit_char(n % 10)]
    }
}

/// The character for a single decimal digit.
pub open spec fn digit_char(d: nat) -> char {
    if d == 0 {
        '0'
    } else if d == 1 {
        '1'
    } else if d == 2 {
        '2'
    } else if d == 3 {
        '3'
    } else if d == 4 {
        '4'
    } else if d == 5 {
        '5'
    } else if d == 6 {
        '6'
    } else if d == 7 {
        '7'
    } else if d == 8 {
        '8'
    } else {
        '9'
    }
}

fn digit_char_exec(d: u64) -> (c: char)
    requires
        d < 10,
    ensures
        c == digit_char(d as nat),
{
    if d == 0 {
        '0'
    } else if d == 1 {
        '1'
    } else if d == 2 {
        '2'
    } else if d == 3 {
        '3'
    } else if d == 4 {
        '4'
    } else if d == 5 {
        '5'
    } else if d == 6 {
        '6'
    } else if d == 7 {
        '7'
    } else if d == 8 {
        '8'
    } else {
        '9'
    }
}

/// Writes `n` in decimal (as `u64`'s `Display` does).
pub fn decimal_chars(n: u64) -> (r: Vec<char>)
    ensures
        r@ == decimal(n as nat),
    decreases n,
{
    if n < 10 {
        let mut v: Vec<char> = Vec::new();
        v.push(digit_char_exec(n));
        v
    } else {
        let mut v = decimal_chars(n / 10);
        v.push(digit_char_exec(n % 10));
        v
    }
}

/// Whether two character sequences are equal.
pub fn chars_equal(a: &Vec<char>, b: &Vec<char>) -> (r: bool)
    ensures
        r == (a@ == b@),
{
    if a.len() != b.len() {
        return false;
    }
    let mut i: usize = 0;
    while i < a.len()
        invariant
            i <= a.len(),
            a.len() == b.len(),
            forall|j: int| 0 <= j < i ==> a@[j] == b@[j],
        decreases a.len() - i,
    {
        if a[i] != b[i] {
            return false;
        }
        i = i + 1;
    }
    assert(a@ =~= b@);
    true
}

/// Whether `s` begins with `prefix`.
pub fn starts_with_chars(s: &Vec<char>, prefix: &Vec<char>) -> (r: bool)
    ensures
        r == (prefix@.len() <= s@.len() && s@.take(prefix@.len() as int) == prefix@),
{
    if prefix.len() > s.len() {
        return false;
    }
    let mut i: usize = 0;
    while i < prefix.len()
        invariant
            i <= prefix.len() <= s.len(),
            forall|j: int| 0 <= j < i ==> s@[j] == prefix@[j],
        decreases prefix.len() - i,
    {
        if s[i] != prefix[i] {
            assert(s@.take(prefix@.len() as int)[i as int] != prefix@[i as int]);
            return false;
        }
        i = i + 1;
    }
    assert(s@.take(prefix@.len() as int) =~= prefix@);
    true
}

/// The characters `from ..` of `s`.
pub fn skip_chars(s: &Vec<char>, from: usize) -> (r: Vec<char>)
    requires
        from <= s.len(),
    ensures
        r@ == s@.skip(from as int),
{
    let mut out: Vec<char> = Vec::new();
    let mut i = from;
    while i < s.len()
        invariant
            from <= i <= s.len(),
            out@ == s@.subrange(from as int, i as int),
        decreases s.len() - i,
    {
        out.push(s[i]);
        i = i + 1;
        assert(s@.subrange(from as int, i as int) == s@.subrange(from as int, i - 1).push(
            s@[i - 1],
        ));
    }
    assert(s@.subrange(from as int, s.len() as int) =~= s@.skip(from as int));
    out
}

// ---------------------------------------------------------------------------
// ASCII case
// ---------------------------------------------------------------------------

/// `char::to_ascii_lowercase`: `A`..`Z` become `a`..`z`, everything else is
/// unchanged.
pub open spec fn ascii_lower(c: char) -> char {
    if 'A' <= c && c <= 'Z' {
        ((c as u32) + 32) as char
    } else {
        c
    }
}

/// `str::to_ascii_lowercase`.
pub open spec fn ascii_lowercase(s: Seq<char>) -> Seq<char> {
    s.map_values(|c: char| ascii_lower(c))
}

fn ascii_lower_exec(c: char) -> (r: char)
    ensures
        r == ascii_lower(c),
{
    if 'A' <= c && c <= 'Z' {
        let u = (c as u32) + 32;
        assert(0x61 <= u <= 0x7a);
        let r = char_from_ascii_lowercase(u as u8);
        r
    } else {
        c
    }
}

/// The character for a code point of an ASCII lowercase letter.
fn char_from_ascii_lowercase(b: u8) -> (r: char)
    requires
        0x61 <= b <= 0x7a,
    ensures
        r == (b as u32) as char,
{
    b as char
}

/// `str::to_ascii_lowercase` on characters.
pub fn ascii_lowercase_chars(s: &Vec<char>) -> (r: Vec<char>)
    ensures
        r@ == ascii_lowercase(s@),
{
    let mut out: Vec<char> = Vec::new();
    let mut i: usize = 0;
    while i < s.len()
        invariant
            i <= s.len(),
            out@ == ascii_lowercase(s@.take(i as int)),
        decreases s.len() - i,
    {
        out.push(ascii_lower_exec(s[i]));
        i = i + 1;
        assert(ascii_lowercase(s@.take(i as int)) =~= ascii_lowercase(s@.take(i - 1)).push(
            ascii_lower(s@[i - 1]),
        ));
    }
    assert(s@.take(s.len() as int) =~= s@);
    out
}

/// Whether `needle` occurs somewhere in `s`.
pub open spec fn contains_seq(s: Seq<char>, needle: Seq<char>) -> bool {
    exists|i: int| 0 <= i && i + needle.len() <= s.len() && #[trigger] s.subrange(i, i + needle.len()) == needle
}

/// Whether `needle` occurs somewhere in `s` (`str::contains`).
pub fn contains_chars(s: &Vec<char>, needle: &Vec<char>) -> (r: bool)
    ensures
        r == contains_seq(s@, needle@),
{
    if needle.len() == 0 {
        assert(s@.subrange(0, 0 + needle@.len() as int) =~= needle@);
        assert(contains_seq(s@, needle@));
        return true;
    }
    if needle.len() > s.len() {
        return false;
    }
    let last = s.len() - needle.len();
    let mut i: usize = 0;
    while i <= last
        invariant
            needle@.len() > 0,
            last == s.len() - needle.len(),
            i <= last + 1,
            forall|j: int|
                0 <= j < i && j + needle@.len() <= s@.len() ==> #[trigger] s@.subrange(
                    j,
                    j + needle@.len(),
                ) != needle@,
        decreases last + 1 - i,
    {
        if occurs_at(s, i, needle) {
            return true;
        }
        i = i + 1;
    }
    false
}

/// Whether the text names KDE, ignoring ASCII case (as desktop names in
/// `XDG_CURRENT_DESKTOP` are matched).
pub open spec fn names_kde(desktop: Seq<char>) -> bool {
    contains_seq(ascii_lowercase(desktop), "kde"@)
}

/// Whether the text names KDE, ignoring ASCII case.
pub fn mentions_kde(desktop: &str) -> (r: bool)
    ensures
        r == names_kde(desktop@),
{
    let chars = chars_of(desktop);
    let lower = ascii_lowercase_chars(&chars);
    contains_chars(&lower, &chars_of("kde"))
}

// ---------------------------------------------------------------------------
// Laws of the formatting
// ---------------------------------------------------------------------------

proof fn lemma_words_of_blank(s: Seq<char>)
    requires
        all_ws(s),
    ensures
        words(s).len() == 0,
    decreases s.len(),
{
    if s.len() > 0 {
        assert(all_ws(s.drop_last())) by {
            assert forall|i: int| 0 <= i < s.drop_last().len() implies is_ws(
                #[trigger] s.drop_last()[i],
            ) by {
                assert(s.drop_last()[i] == s[i]);
            }
        }
        lemma_words_of_blank(s.drop_last());
        assert(is_ws(s[s.len() - 1]));
    }
}

proof fn lemma_replace_short(s: Seq<char>, pat: Seq<char>, rep: Seq<char>)
    requires
        s.len() < pat.len(),
    ensures
        replace_all(s, pat, rep) == s,
    decreases s.len(),
{
    if s.len() > 0 {
        lemma_replace_short(s.skip(1), pat, rep);
        assert(seq![s[0]] + s.skip(1) =~= s);
    }
}

proof fn lemma_trim_blank(s: Seq<char>)
    requires
        all_ws(s),
    ensures
        trim_start(s).len() == 0,
    decreases s.len(),
{
    if s.len() > 0 {
        assert(is_ws(s[0]));
        assert(all_ws(s.drop_first())) by {
            assert forall|i: int| 0 <= i < s.drop_first().len() implies is_ws(
                #[trigger] s.drop_first()[i],
            ) by {
                assert(s.drop_first()[i] == s[i + 1]);
            }
        }
        lemma_trim_blank(s.drop_first());
    }
}

/// Silence stays silent: text made only of whitespace formats to the empty
/// text, with no punctuation invented for it.
pub proof fn law_blank_input_formats_to_nothing(input: Seq<char>)
    requires
        all_ws(input),
    ensures
        postprocessed(input).len() == 0,
{
    lemma_words_of_blank(input);
    let padded = seq![' '] + squeeze(input) + seq![' '];
    assert(padded =~= seq![' ', ' ']);
    reveal_strlit(" вопросительный знак ");
    reveal_strlit(" восклицательный знак ");
    reveal_strlit(" новая строка ");
    reveal_strlit(" двоеточие ");
    reveal_strlit(" точка с запятой ");
    reveal_strlit(" многоточие ");
    reveal_strlit(" запятая ");
    reveal_strlit(" точка ");
    lemma_replace_short(padded, " вопросительный знак "@, " ? "@);
    lemma_replace_short(padded, " восклицательный знак "@, " ! "@);
    lemma_replace_short(padded, " новая строка "@, " \n "@);
    lemma_replace_short(padded, " двоеточие "@, " : "@);
    lemma_replace_short(padded, " точка с запятой "@, " ; "@);
    lemma_replace_short(padded, " многоточие "@, " … "@);
    lemma_replace_short(padded, " запятая "@, " , "@);
    lemma_replace_short(padded, " точка "@, " . "@);
    assert(spoken_punctuation(padded) == padded);
    assert(is_ws(' '));
    lemma_trim_blank(padded);
    assert(trim(padded).len() == 0);
    assert(attach_punctuation(trim(padded)).len() == 0);
    assert(lines(attach_punctuation(trim(padded))).len() == 0);
}

/// Formatted text that is not empty always ends a sentence.
pub proof fn law_formatted_text_ends_a_sentence(input: Seq<char>)
    ensures
        postprocessed(input).len() > 0 ==> ends_sentence(postprocessed(input).last()),
{
}

// ---------------------------------------------------------------------------
// Every formatted line is trimmed
// ---------------------------------------------------------------------------

/// A line with no whitespace at either end.
pub open spec fn is_trimmed(l: Seq<char>) -> bool {
    l.len() == 0 || (!is_ws(l[0]) && !is_ws(l.last()))
}

/// `s` does not contain `c`.
pub open spec fn free_of(s: Seq<char>, c: char) -> bool {
    forall|i: int| 0 <= i < s.len() ==> #[trigger] s[i] != c
}

/// What the formatting needs of std's uppercase mapping beyond its
/// contract: it yields at least one character (as its documentation says),
/// and none of them is whitespace when the character mapped is not
/// whitespace (a property of the Unicode case tables that the
/// documentation does not spell out).
pub open spec fn uppercase_keeps_words() -> bool {
    &&& forall|c: char| #[trigger] uppercase_of(c).len() >= 1
    &&& forall|c: char, i: int|
        !is_ws(c) && 0 <= i < uppercase_of(c).len() ==> !is_ws(#[trigger] uppercase_of(c)[i])
}

proof fn lemma_trim_start_shape(s: Seq<char>)
    ensures
        trim_start(s).len() <= s.len(),
        trim_start(s).len() > 0 ==> !is_ws(trim_start(s)[0]),
        free_of(s, '\n') ==> free_of(trim_start(s), '\n'),
    decreases s.len(),
{
    if s.len() > 0 && is_ws(s[0]) {
        lemma_trim_start_shape(s.drop_first());
        if free_of(s, '\n') {
            assert forall|i: int| 0 <= i < s.drop_first().len() implies #[trigger] s.drop_first()[i]
                != '\n' by {
                assert(s.drop_first()[i] == s[i + 1]);
            }
        }
    }
}

proof fn lemma_trim_end_shape(s: Seq<char>)
    ensures
        trim_end(s).len() <= s.len(),
        trim_end(s).len() > 0 ==> !is_ws(trim_end(s).last()),
        trim_end(s).len() > 0 ==> trim_end(s)[0] == s[0],
        free_of(s, '\n') ==> free_of(trim_end(s), '\n'),
    decreases s.len(),
{
    if s.len() > 0 && is_ws(s.last()) {
        lemma_trim_end_shape(s.drop_last());
        if free_of(s, '\n') {
            assert forall|i: int| 0 <= i < s.drop_last().len() implies #[trigger] s.drop_last()[i]
                != '\n' by {
                assert(s.drop_last()[i] == s[i]);
            }
        }
    }
}

proof fn lemma_trim_shape(s: Seq<char>)
    ensures
        trim(s).len() > 0 ==> !is_ws(trim(s)[0]) && !is_ws(trim(s).last()),
        free_of(s, '\n') ==> free_of(trim(s), '\n'),
{
    lemma_trim_start_shape(s);
    lemma_trim_end_shape(trim_start(s));
}

proof fn lemma_capitalized_shape(l: Seq<char>)
    requires
        uppercase_keeps_words(),
        free_of(l, '\n'),
    ensures
        is_trimmed(capitalized(l)),
        free_of(capitalized(l), '\n'),
{
    lemma_trim_shape(l);
    let t = trim(l);
    if t.len() > 0 {
        let u = uppercase_of(t[0]);
        let r = u + t.skip(1);
        assert(u.len() >= 1);
        assert(capitalized(l) == r);
        assert(!is_ws(u[0]));
        assert(r[0] == u[0]);
        if t.len() > 1 {
            assert(r.last() == t.last());
        } else {
            assert(r.last() == u.last());
            assert(!is_ws(u[u.len() - 1]));
        }
        assert(is_ws('\n'));
        assert forall|i: int| 0 <= i < r.len() implies #[trigger] r[i] != '\n' by {
            if i < u.len() {
                assert(r[i] == u[i]);
                assert(!is_ws(u[i]));
            } else {
                assert(r[i] == t[i - u.len() + 1]);
            }
        }
    }
}

proof fn lemma_split_pieces_free(s: Seq<char>, sep: char)
    ensures
        forall|k: int| 0 <= k < split_on(s, sep).len() ==> free_of(#[trigger] split_on(s, sep)[k], sep),
    decreases s.len(),
{
    if s.len() > 0 {
        lemma_split_pieces_free(s.drop_last(), sep);
        lemma_split_on_len(s.drop_last(), sep);
        let p = split_on(s.drop_last(), sep);
        if s.last() == sep {
            assert forall|k: int| 0 <= k < p.push(seq![]).len() implies free_of(
                #[trigger] p.push(seq![])[k],
                sep,
            ) by {
                if k < p.len() {
                    assert(p.push(seq![])[k] == p[k]);
                }
            }
        } else {
            let last = p.last().push(s.last());
            assert(free_of(p[p.len() - 1], sep));
            assert forall|i: int| 0 <= i < last.len() implies #[trigger] last[i] != sep by {
                if i < p.last().len() {
                    assert(last[i] == p[p.len() - 1][i]);
                }
            }
            let q = p.update(p.len() - 1, last);
            assert forall|k: int| 0 <= k < q.len() implies free_of(#[trigger] q[k], sep) by {
                if k < p.len() - 1 {
                    assert(q[k] == p[k]);
                }
            }
        }
    }
}

proof fn lemma_split_free(b: Seq<char>, sep: char)
    requires
        free_of(b, sep),
    ensures
        split_on(b, sep) == seq![b],
    decreases b.len(),
{
    if b.len() > 0 {
        assert(b.last() == b[b.len() - 1]);
        assert(free_of(b.drop_last(), sep)) by {
            assert forall|i: int| 0 <= i < b.drop_last().len() implies #[trigger] b.drop_last()[i]
                != sep by {
                assert(b.drop_last()[i] == b[i]);
            }
        }
        lemma_split_free(b.drop_last(), sep);
        assert(b.drop_last().push(b.last()) =~= b);
        assert(seq![b.drop_last()].update(0, b.drop_last().push(b.last())) =~= seq![b]);
    } else {
        assert(b =~= Seq::<char>::empty());
    }
}

proof fn lemma_split_append(a: Seq<char>, b: Seq<char>, sep: char)
    requires
        free_of(b, sep),
    ensures
        split_on(a + seq![sep] + b, sep) == split_on(a, sep).push(b),
    decreases b.len(),
{
    let s = a + seq![sep] + b;
    if b.len() == 0 {
        assert(s.drop_last() =~= a);
        assert(s.last() == sep);
        assert(b =~= Seq::<char>::empty());
    } else {
        let b1 = b.drop_last();
        assert(free_of(b1, sep)) by {
            assert forall|i: int| 0 <= i < b1.len() implies #[trigger] b1[i] != sep by {
                assert(b1[i] == b[i]);
            }
        }
        lemma_split_append(a, b1, sep);
        assert(s.drop_last() =~= a + seq![sep] + b1);
        assert(s.last() == b[b.len() - 1]);
        let p = split_on(a, sep).push(b1);
        assert(b1.push(s.last()) =~= b);
        assert(p.last() == b1);
        assert(p.update(p.len() - 1, b1.push(s.last())) =~= split_on(a, sep).push(b));
    }
}

proof fn lemma_split_join(parts: Seq<Seq<char>>, sep: char)
    requires
        parts.len() >= 1,
        forall|k: int| 0 <= k < parts.len() ==> free_of(#[trigger] parts[k], sep),
    ensures
        split_on(join(parts, seq![sep]), sep) == parts,
    decreases parts.len(),
{
    if parts.len() == 1 {
        lemma_split_free(parts[0], sep);
        assert(seq![parts[0]] =~= parts);
    } else {
        let front = parts.drop_last();
        assert forall|k: int| 0 <= k < front.len() implies free_of(#[trigger] front[k], sep) by {
            assert(front[k] == parts[k]);
        }
        lemma_split_join(front, sep);
        assert(free_of(parts[parts.len() - 1], sep));
        lemma_split_append(join(front, seq![sep]), parts.last(), sep);
        assert(front.push(parts.last()) =~= parts);
    }
}

/// Every line of the formatted text (its pieces between line feeds) has no
/// whitespace at either end: each line is trimmed before it is capitalized,
/// and the full stop that may be added is not whitespace. This rests on the
/// uppercase mapping keeping words words (`uppercase_keeps_words`).
pub proof fn law_formatted_lines_are_trimmed(input: Seq<char>)
    requires
        uppercase_keeps_words(),
    ensures
        forall|k: int|
            0 <= k < split_nl(postprocessed(input)).len() ==> is_trimmed(
                #[trigger] split_nl(postprocessed(input))[k],
            ),
{
    let padded = seq![' '] + squeeze(input) + seq![' '];
    let x = attach_punctuation(trim(spoken_punctuation(padded)));
    let ls = lines(x);
    let parts = ls.map_values(|l: Seq<char>| capitalized(l));
    let j = join(parts, seq!['\n']);
    let r = postprocessed(input);
    assert(j == capitalized_lines(x));
    assert(r == finish_sentence(j));
    assert(is_ws('\n'));
    // The lines of `x` hold no line feed, so neither do their capitalized forms.
    lemma_split_pieces_free(x, '\n');
    lemma_split_nl_len(x);
    assert forall|k: int| 0 <= k < ls.len() implies free_of(#[trigger] ls[k], '\n') by {
        let p = split_nl(x);
        if k < p.len() - 1 {
            assert(free_of(p[k], '\n'));
            let l = p.drop_last()[k];
            assert(l == p[k]);
            assert(ls[k] == strip_cr(l));
            assert forall|i: int| 0 <= i < strip_cr(l).len() implies #[trigger] strip_cr(l)[i]
                != '\n' by {
                assert(strip_cr(l)[i] == l[i]);
            }
        } else {
            assert(ls[k] == p.last());
            assert(free_of(p[p.len() - 1], '\n'));
        }
    }
    assert forall|k: int| 0 <= k < parts.len() implies free_of(#[trigger] parts[k], '\n')
        && is_trimmed(parts[k]) by {
        lemma_capitalized_shape(ls[k]);
    }
    if j.len() == 0 {
        assert(r =~= Seq::<char>::empty());
        assert(split_nl(r) =~= seq![Seq::<char>::empty()]);
    } else {
        assert(parts.len() >= 1);
        if ends_sentence(j.last()) {
            lemma_split_join(parts, '\n');
        } else {
            let last = parts.last().push('.');
            let parts2 = parts.update(parts.len() - 1, last);
            lemma_join_extend_last(parts, seq!['\n'], '.');
            assert(r == join(parts2, seq!['\n']));
            assert(free_of(parts[parts.len() - 1], '\n'));
            assert(is_trimmed(parts[parts.len() - 1]));
            assert forall|k: int| 0 <= k < parts2.len() implies free_of(#[trigger] parts2[k], '\n')
                && is_trimmed(parts2[k]) by {
                if k < parts.len() - 1 {
                    assert(parts2[k] == parts[k]);
                } else {
                    assert(parts2[k] == last);
                    assert forall|i: int| 0 <= i < last.len() implies #[trigger] last[i]
                        != '\n' by {
                        if i < parts.last().len() {
                            assert(last[i] == parts[parts.len() - 1][i]);
                        }
                    }
                    if parts.last().len() > 0 {
                        assert(last[0] == parts[parts.len() - 1][0]);
                    }
                }
            }
            lemma_split_join(parts2, '\n');
        }
    }
}


/// The transcript after squeezing, spoken punctuation and capitalization,
/// before a sentence end is added.
pub open spec fn punctuated_lines(input: Seq<char>) -> Seq<char> {
    capitalized_lines(
        attach_punctuation(trim(spoken_punctuation(seq![' '] + squeeze(input) + seq![' ']))),
    )
}

/// A full stop is added only where one is missing: text that already ends
/// with '.', '!', '?' or '…' comes out unchanged, other non-empty text gets
/// exactly one '.' appended, and empty text stays empty.
pub proof fn law_sentence_end_is_added_once(input: Seq<char>)
    ensures
        ({
            let body = punctuated_lines(input);
            &&& body.len() == 0 ==> postprocessed(input).len() == 0
            &&& body.len() > 0 && (body.last() == '.' || body.last() == '!' || body.last() == '?'
                || body.last() == '…') ==> postprocessed(input) == body
            &&& body.len() > 0 && !(body.last() == '.' || body.last() == '!' || body.last() == '?'
                || body.last() == '…') ==> postprocessed(input) == body.push('.')
        }),
{
}

} // verus!
