//! Character-level text processing: conversions between `str`/`String` and
//! character vectors, and the string operations the rest of the crate uses.
use vstd::prelude::*;

verus! {

/// Whether `a` holds the characters of `b`.
pub fn same_text(a: &str, b: &str) -> (r: bool)
    ensures
        r == (a@ == b@),
{
    a.to_owned() == b.to_owned()
}

/// Appends one character to a string (`String::push`).
#[verifier::external_body]
pub(crate) fn push_char(s: &mut String, c: char)
    ensures
        final(s)@ == old(s)@.push(c),
{
    s.push(c);
}

/// The characters of a string slice, in order.
pub fn chars_of(s: &str) -> (v: Vec<char>)
    ensures
        v@ == s@,
{
    let mut v: Vec<char> = Vec::new();
    for c in it: s.chars()
        invariant
            v@ == it.seq().take(it.index()),
            it.seq() == s@,
    {
        v.push(c);
    }
    v
}

/// A string holding exactly the given characters.
pub fn string_of(v: &Vec<char>) -> (s: String)
    ensures
        s@ == v@,
{
    let mut s = String::new();
    let mut i: usize = 0;
    while i < v.len()
        invariant
            i <= v.len(),
            s@ == v@.take(i as int),
        decreases v.len() - i,
    {
        push_char(&mut s, v[i]);
        assert(v@.take(i as int).push(v@[i as int]) == v@.take(i + 1));
        i = i + 1;
    }
    assert(v@.take(v.len() as int) == v@);
    s
}


/// The Unicode `White_Space` property, which `char::is_whitespace` tests.
pub open spec fn is_ws(c: char) -> bool {
    ||| ('\u{9}' <= c && c <= '\u{d}')
    ||| c == ' '
    ||| c == '\u{85}'
    ||| c == '\u{a0}'
    ||| c == '\u{1680}'
    ||| ('\u{2000}' <= c && c <= '\u{200a}')
    ||| c == '\u{2028}'
    ||| c == '\u{2029}'
    ||| c == '\u{202f}'
    ||| c == '\u{205f}'
    ||| c == '\u{3000}'
}

/// Whether `c` is white space in the sense of `char::is_whitespace`.
pub fn is_whitespace(c: char) -> (b: bool)
    ensures
        b == is_ws(c),
{
    ('\u{9}' <= c && c <= '\u{d}') || c == ' ' || c == '\u{85}' || c == '\u{a0}' || c
        == '\u{1680}' || ('\u{2000}' <= c && c <= '\u{200a}') || c == '\u{2028}' || c
        == '\u{2029}' || c == '\u{202f}' || c == '\u{205f}' || c == '\u{3000}'
}

/// `s` without its leading white space (`str::trim_start`).
pub open spec fn trim_start(s: Seq<char>) -> Seq<char>
    decreases s.len(),
{
    if s.len() > 0 && is_ws(s[0]) {
        trim_start(s.drop_first())
    } else {
        s
    }
}

/// `s` without its trailing white space (`str::trim_end`).
pub open spec fn trim_end(s: Seq<char>) -> Seq<char>
    decreases s.len(),
{
    if s.len() > 0 && is_ws(s.last()) {
        trim_end(s.drop_last())
    } else {
        s
    }
}

/// `s` without leading and trailing white space (`str::trim`).
pub open spec fn trim(s: Seq<char>) -> Seq<char> {
    trim_end(trim_start(s))
}

proof fn lemma_trim_start_from(s: Seq<char>, i: int)
    requires
        0 <= i <= s.len(),
        forall|j: int| 0 <= j < i ==> is_ws(#[trigger] s[j]),
    ensures
        trim_start(s) == trim_start(s.subrange(i, s.len() as int)),
    decreases i,
{
    if i > 0 {
        assert(s.drop_first().subrange(i - 1, s.drop_first().len() as int) =~= s.subrange(i, s.len() as int));
        lemma_trim_start_from(s.drop_first(), i - 1);
    } else {
        assert(s.subrange(0, s.len() as int) =~= s);
    }
}

proof fn lemma_trim_end_to(s: Seq<char>, e: int)
    requires
        0 <= e <= s.len(),
        forall|j: int| e <= j < s.len() ==> is_ws(#[trigger] s[j]),
    ensures
        trim_end(s) == trim_end(s.subrange(0, e)),
    decreases s.len() - e,
{
    if e < s.len() {
        assert(s.drop_last().subrange(0, e) =~= s.subrange(0, e));
        lemma_trim_end_to(s.drop_last(), e);
    } else {
        assert(s.subrange(0, e) =~= s);
    }
}

/// `s` with leading and trailing white space removed.
pub fn trim_chars(s: &Vec<char>) -> (t: Vec<char>)
    ensures
        t@ == trim(s@),
{
    let n = s.len();
    let mut i: usize = 0;
    while i < n && is_whitespace(s[i])
        invariant
            i <= n,
            n == s@.len(),
            forall|j: int| 0 <= j < i ==> is_ws(#[trigger] s@[j]),
        decreases n - i,
    {
        i = i + 1;
    }
    proof {
        lemma_trim_start_from(s@, i as int);
    }
    let ghost rest = s@.subrange(i as int, n as int);
    assert(trim_start(s@) == rest);
    let mut e: usize = n;
    while e > i && is_whitespace(s[e - 1])
        invariant
            i <= e <= n,
            n == s@.len(),
            forall|j: int| e <= j < n ==> is_ws(#[trigger] s@[j]),
        decreases e,
    {
        e = e - 1;
    }
    proof {
        assert forall|j: int| e - i <= j < rest.len() implies is_ws(#[trigger] rest[j]) by {
            assert(rest[j] == s@[j + i]);
        }
        lemma_trim_end_to(rest, e - i);
        assert(rest.subrange(0, e - i) =~= s@.subrange(i as int, e as int));
    }
    let mut t: Vec<char> = Vec::new();
    let mut k: usize = i;
    while k < e
        invariant
            i <= k <= e <= n,
            n == s@.len(),
            t@ == s@.subrange(i as int, k as int),
        decreases e - k,
    {
        t.push(s[k]);
        assert(s@.subrange(i as int, k + 1) =~= s@.subrange(i as int, k as int).push(s@[k as int]));
        k = k + 1;
    }
    t
}


/// `pat` occurs in `s` at position `i`.
pub open spec fn matches_at(s: Seq<char>, pat: Seq<char>, i: int) -> bool {
    0 <= i && i + pat.len() <= s.len() && s.subrange(i, i + pat.len()) == pat
}

/// The position of the leftmost occurrence of `pat` in `s` (`str::find`).
pub open spec fn find(s: Seq<char>, pat: Seq<char>) -> Option<int>
    decreases s.len(),
{
    if s.len() < pat.len() {
        None
    } else if s.subrange(0, pat.len() as int) == pat {
        Some(0)
    } else if s.len() == 0 {
        None
    } else {
        match find(s.drop_first(), pat) {
            Some(i) => Some(i + 1),
            None => None,
        }
    }
}

/// `find` gives the least position at which the pattern occurs.
pub proof fn lemma_find(s: Seq<char>, pat: Seq<char>)
    ensures
        match find(s, pat) {
            Some(i) => matches_at(s, pat, i) && forall|j: int| 0 <= j < i ==> !matches_at(s, pat, j),
            None => forall|j: int| !matches_at(s, pat, j),
        },
    decreases s.len(),
{
    if s.len() < pat.len() {
    } else if s.subrange(0, pat.len() as int) == pat {
    } else if s.len() == 0 {
        assert(s.subrange(0, pat.len() as int) =~= pat);
    } else {
        let t = s.drop_first();
        lemma_find(t, pat);
        assert forall|j: int| 0 <= j implies matches_at(s, pat, j + 1) == matches_at(t, pat, j) by {
            if j + 1 + pat.len() <= s.len() {
                assert(s.subrange(j + 1, j + 1 + pat.len()) =~= t.subrange(j, j + pat.len()));
            }
        }
        assert(!matches_at(s, pat, 0));
        match find(t, pat) {
            Some(i) => {
                assert(matches_at(s, pat, i + 1));
                assert forall|j: int| 0 <= j < i + 1 implies !matches_at(s, pat, j) by {
                    if j > 0 {
                        assert(matches_at(s, pat, (j - 1) + 1) == matches_at(t, pat, j - 1));
                    }
                }
            },
            None => {
                assert forall|j: int| !matches_at(s, pat, j) by {
                    if j > 0 {
                        assert(matches_at(s, pat, (j - 1) + 1) == matches_at(t, pat, j - 1));
                    }
                }
            },
        }
    }
}

/// A position that is the least occurrence is what `find` returns.
pub proof fn lemma_find_least(s: Seq<char>, pat: Seq<char>, i: int)
    requires
        matches_at(s, pat, i),
        forall|j: int| 0 <= j < i ==> !matches_at(s, pat, j),
    ensures
        find(s, pat) == Some(i),
{
    lemma_find(s, pat);
}

/// No occurrence at all means `find` gives nothing.
pub proof fn lemma_find_none(s: Seq<char>, pat: Seq<char>)
    requires
        forall|j: int| !matches_at(s, pat, j),
    ensures
        find(s, pat) == None::<int>,
{
    lemma_find(s, pat);
}

/// Whether `pat` occurs in `s` at position `i`.
pub fn occurs_at(s: &Vec<char>, pat: &Vec<char>, i: usize) -> (b: bool)
    ensures
        b == matches_at(s@, pat@, i as int),
{
    if pat.len() > s.len() || i > s.len() - pat.len() {
        return false;
    }
    let mut k: usize = 0;
    while k < pat.len()
        invariant
            k <= pat.len(),
            i + pat.len() <= s.len(),
            forall|j: int| 0 <= j < k ==> s@[i + j] == pat@[j],
        decreases pat.len() - k,
    {
        if s[i + k] != pat[k] {
            assert(s@.subrange(i as int, i + pat.len())[k as int] != pat@[k as int]);
            return false;
        }
        k = k + 1;
    }
    assert(s@.subrange(i as int, i + pat.len()) =~= pat@);
    true
}

/// The position of the leftmost occurrence of `pat` in `s`.
pub fn find_in(s: &Vec<char>, pat: &Vec<char>) -> (r: Option<usize>)
    ensures
        match r {
            Some(i) => find(s@, pat@) == Some(i as int),
            None => find(s@, pat@) == None::<int>,
        },
{
    if pat.len() > s.len() {
        proof {
            lemma_find_none(s@, pat@);
        }
        return None;
    }
    let last = s.len() - pat.len();
    let mut i: usize = 0;
    loop
        invariant
            last + pat.len() == s.len(),
            i <= last,
            forall|j: int| 0 <= j < i ==> !matches_at(s@, pat@, j),
        decreases last - i,
    {
        if occurs_at(s, pat, i) {
            proof {
                lemma_find_least(s@, pat@, i as int);
            }
            return Some(i);
        }
        if i == last {
            proof {
                assert forall|j: int| !matches_at(s@, pat@, j) by {
                    if 0 <= j <= last {
                    }
                }
                lemma_find_none(s@, pat@);
            }
            return None;
        }
        i = i + 1;
    }
}

/// `str::contains` with a string pattern.
pub open spec fn contains(s: Seq<char>, pat: Seq<char>) -> bool {
    find(s, pat) is Some
}

/// `str::starts_with` with a string pattern.
pub open spec fn starts_with(s: Seq<char>, pfx: Seq<char>) -> bool {
    pfx.len() <= s.len() && s.subrange(0, pfx.len() as int) == pfx
}

/// Whether `s` begins with `pfx`.
pub fn has_prefix(s: &Vec<char>, pfx: &Vec<char>) -> (b: bool)
    ensures
        b == starts_with(s@, pfx@),
{
    occurs_at(s, pfx, 0)
}

/// Whether `pat` occurs anywhere in `s`.
pub fn contains_chars(s: &Vec<char>, pat: &Vec<char>) -> (b: bool)
    ensures
        b == contains(s@, pat@),
{
    find_in(s, pat).is_some()
}

/// `s.split(pat).next()`: what precedes the first occurrence of `pat`, or
/// all of `s` where it does not occur.
pub open spec fn before_first(s: Seq<char>, pat: Seq<char>) -> Seq<char> {
    match find(s, pat) {
        Some(i) => s.subrange(0, i),
        None => s,
    }
}

/// What follows the first occurrence of `pat`, if it occurs.
pub open spec fn after_first(s: Seq<char>, pat: Seq<char>) -> Option<Seq<char>> {
    match find(s, pat) {
        Some(i) => Some(s.subrange(i + pat.len(), s.len() as int)),
        None => None,
    }
}

/// `s.split(pat).nth(1)`: the piece between the first and the second
/// occurrence of `pat` (or to the end), if `pat` occurs at all.
pub open spec fn second_piece(s: Seq<char>, pat: Seq<char>) -> Option<Seq<char>> {
    match after_first(s, pat) {
        Some(rest) => Some(before_first(rest, pat)),
        None => None,
    }
}

/// Copies `s[from..to]`.
pub fn slice_chars(s: &Vec<char>, from: usize, to: usize) -> (t: Vec<char>)
    requires
        from <= to <= s.len(),
    ensures
        t@ == s@.subrange(from as int, to as int),
{
    let mut t: Vec<char> = Vec::new();
    let mut k: usize = from;
    while k < to
        invariant
            from <= k <= to <= s.len(),
            t@ == s@.subrange(from as int, k as int),
        decreases to - k,
    {
        t.push(s[k]);
        assert(s@.subrange(from as int, k + 1) =~= s@.subrange(from as int, k as int).push(s@[k as int]));
        k = k + 1;
    }
    t
}

/// `s.split(pat).next()`.
pub fn first_piece_of(s: &Vec<char>, pat: &Vec<char>) -> (t: Vec<char>)
    ensures
        t@ == before_first(s@, pat@),
{
    proof {
        lemma_find(s@, pat@);
    }
    match find_in(s, pat) {
        Some(i) => slice_chars(s, 0, i),
        None => {
            assert(s@.subrange(0, s@.len() as int) =~= s@);
            slice_chars(s, 0, s.len())
        },
    }
}

/// `s.split(pat).nth(1)`.
pub fn second_piece_of(s: &Vec<char>, pat: &Vec<char>) -> (t: Option<Vec<char>>)
    ensures
        match t {
            Some(v) => second_piece(s@, pat@) == Some(v@),
            None => second_piece(s@, pat@) is None,
        },
{
    proof {
        lemma_find(s@, pat@);
    }
    match find_in(s, pat) {
        Some(i) => {
            let n = s.len();
            let m = pat.len();
            assert(matches_at(s@, pat@, i as int));
            assert(i + m <= n);
            let rest = slice_chars(s, i + m, n);
            Some(first_piece_of(&rest, pat))
        },
        None => None,
    }
}


/// Splits `s` at the first occurrence of `pat`, dropping the occurrence.
pub fn split_once(s: &Vec<char>, pat: &Vec<char>) -> (r: Option<(Vec<char>, Vec<char>)>)
    ensures
        match r {
            Some((a, b)) => match find(s@, pat@) {
                Some(i) => a@ == s@.subrange(0, i) && b@ == s@.subrange(i + pat@.len(), s@.len() as int),
                None => false,
            },
            None => find(s@, pat@) is None,
        },
{
    proof {
        lemma_find(s@, pat@);
    }
    match find_in(s, pat) {
        Some(i) => {
            let n = s.len();
            let m = pat.len();
            assert(matches_at(s@, pat@, i as int));
            let a = slice_chars(s, 0, i);
            let b = slice_chars(s, i + m, n);
            Some((a, b))
        },
        None => None,
    }
}

/// The character sequences held by a vector of character vectors.
pub open spec fn views(v: Seq<Vec<char>>) -> Seq<Seq<char>> {
    v.map_values(|x: Vec<char>| x@)
}

/// `s.split(pat)` for a non-empty pattern: every piece, empty ones included.
/// (`find` only gives positions at which `pat` fits, so the guard on the
/// position always holds; it is there for the termination argument.)
pub open spec fn split_all(s: Seq<char>, pat: Seq<char>) -> Seq<Seq<char>>
    decreases s.len(),
{
    match find(s, pat) {
        Some(i) => if pat.len() > 0 && 0 <= i && i + pat.len() <= s.len() {
            seq![s.subrange(0, i)] + split_all(s.subrange(i + pat.len(), s.len() as int), pat)
        } else {
            seq![]
        },
        None => seq![s],
    }
}

/// All pieces of `s` between occurrences of the non-empty pattern `pat`.
pub fn split_by(s: &Vec<char>, pat: &Vec<char>) -> (r: Vec<Vec<char>>)
    requires
        pat@.len() > 0,
    ensures
        views(r@) == split_all(s@, pat@),
{
    let mut out: Vec<Vec<char>> = Vec::new();
    let mut rest: Vec<char> = slice_chars(s, 0, s.len());
    assert(s@.subrange(0, s@.len() as int) =~= s@);
    loop
        invariant
            pat@.len() > 0,
            views(out@) + split_all(rest@, pat@) == split_all(s@, pat@),
        decreases rest@.len(),
    {
        proof {
            lemma_find(rest@, pat@);
        }
        match split_once(&rest, pat) {
            Some((a, b)) => {
                let ghost old_out = out@;
                let ghost old_rest = rest@;
                out.push(a);
                rest = b;
                proof {
                    assert(views(out@) =~= views(old_out).push(a@));
                    assert(split_all(old_rest, pat@) == seq![a@] + split_all(rest@, pat@));
                    assert(views(out@) + split_all(rest@, pat@) =~= views(old_out) + split_all(old_rest, pat@));
                }
            },
            None => {
                let ghost old_out = out@;
                out.push(rest);
                proof {
                    assert(views(out@) =~= views(old_out) + split_all(rest@, pat@));
                }
                return out;
            },
        }
    }
}

/// A line without the `'\r'` that ends it, if any.
pub open spec fn strip_cr(line: Seq<char>) -> Seq<char> {
    if line.len() > 0 && line.last() == '\r' {
        line.drop_last()
    } else {
        line
    }
}

/// `str::lines`: the pieces between `'\n'` characters, each without a final
/// `'\r'`; a final `'\n'` ends the last line rather than starting an empty one.
/// A last line that no `'\n'` ends keeps its `'\r'`. (As in `split_all`, the
/// guard on the position always holds.)
pub open spec fn lines(s: Seq<char>) -> Seq<Seq<char>>
    decreases s.len(),
{
    match find(s, seq!['\n']) {
        Some(i) => if 0 <= i && i + 1 <= s.len() {
            seq![strip_cr(s.subrange(0, i))] + lines(s.subrange(i + 1, s.len() as int))
        } else {
            seq![]
        },
        None => if s.len() == 0 {
            seq![]
        } else {
            seq![s]
        },
    }
}

/// Removes a final `'\r'`.
fn strip_cr_chars(line: Vec<char>) -> (r: Vec<char>)
    ensures
        r@ == strip_cr(line@),
{
    let mut line = line;
    if line.len() > 0 && line[line.len() - 1] == '\r' {
        line.pop();
    }
    line
}

/// The lines of `s`, as `str::lines` gives them.
pub fn lines_of(s: &Vec<char>) -> (r: Vec<Vec<char>>)
    ensures
        views(r@) == lines(s@),
{
    let mut nl: Vec<char> = Vec::new();
    nl.push('\n');
    assert(nl@ =~= seq!['\n']);
    let mut out: Vec<Vec<char>> = Vec::new();
    let mut rest: Vec<char> = slice_chars(s, 0, s.len());
    assert(s@.subrange(0, s@.len() as int) =~= s@);
    loop
        invariant
            nl@ == seq!['\n'],
            views(out@) + lines(rest@) == lines(s@),
        decreases rest@.len(),
    {
        proof {
            lemma_find(rest@, nl@);
        }
        match split_once(&rest, &nl) {
            Some((a, b)) => {
                let ghost old_out = out@;
                let ghost old_rest = rest@;
                let a = strip_cr_chars(a);
                out.push(a);
                rest = b;
                proof {
                    assert(views(out@) =~= views(old_out).push(a@));
                    assert(lines(old_rest) == seq![a@] + lines(rest@));
                    assert(views(out@) + lines(rest@) =~= views(old_out) + lines(old_rest));
                }
            },
            None => {
                let ghost old_out = out@;
                if rest.len() > 0 {
                    out.push(rest);
                    proof {
                        assert(views(out@) =~= views(old_out) + lines(rest@));
                    }
                } else {
                    proof {
                        assert(views(out@) =~= views(old_out) + lines(rest@));
                    }
                }
                return out;
            },
        }
    }
}


/// `str::split_whitespace`: the maximal runs of characters that are not
/// white space, in order.
pub open spec fn words(s: Seq<char>) -> Seq<Seq<char>>
    decreases s.len(),
{
    if s.len() == 0 {
        seq![]
    } else {
        let prev = s.drop_last();
        let c = s.last();
        let w = words(prev);
        if is_ws(c) {
            w
        } else if prev.len() > 0 && !is_ws(prev.last()) && w.len() > 0 {
            w.update(w.len() - 1, w.last().push(c))
        } else {
            w.push(seq![c])
        }
    }
}

/// A string that ends in a non-white-space character has a word.
proof fn lemma_words_nonempty(s: Seq<char>)
    requires
        s.len() > 0,
        !is_ws(s.last()),
    ensures
        words(s).len() > 0,
        words(s).last().len() > 0,
{
    let prev = s.drop_last();
    let w = words(prev);
    if prev.len() > 0 && !is_ws(prev.last()) && w.len() > 0 {
    } else {
    }
}

/// The words of `s`, as `str::split_whitespace` gives them.
pub fn words_of(s: &Vec<char>) -> (r: Vec<Vec<char>>)
    ensures
        views(r@) == words(s@),
{
    let mut out: Vec<Vec<char>> = Vec::new();
    let mut cur: Vec<char> = Vec::new();
    let n = s.len();
    let mut i: usize = 0;
    while i < n
        invariant
            n == s@.len(),
            i <= n,
            if i > 0 && !is_ws(s@[i - 1]) {
                cur@.len() > 0 && views(out@).push(cur@) == words(s@.subrange(0, i as int))
            } else {
                cur@.len() == 0 && views(out@) == words(s@.subrange(0, i as int))
            },
        decreases n - i,
    {
        let c = s[i];
        let ghost pre = s@.subrange(0, i as int);
        let ghost post = s@.subrange(0, i + 1);
        assert(post.drop_last() =~= pre);
        assert(post.last() == c);
        if is_whitespace(c) {
            if cur.len() > 0 {
                let ghost old_out = out@;
                out.push(cur);
                cur = Vec::new();
                assert(views(out@) =~= views(old_out).push(views(out@).last()));
            }
        } else {
            let ghost old_cur = cur@;
            let ghost had = i > 0 && !is_ws(s@[i - 1]);
            proof {
                if had {
                    assert(pre.last() == s@[i - 1]);
                    lemma_words_nonempty(pre);
                }
            }
            cur.push(c);
            proof {
                if had {
                    assert(views(out@).push(cur@) =~= words(pre).update(words(pre).len() - 1, words(pre).last().push(c)));
                } else {
                    assert(cur@ =~= seq![c]);
                    assert(views(out@).push(cur@) =~= words(pre).push(seq![c]));
                }
            }
        }
        i = i + 1;
    }
    assert(s@.subrange(0, n as int) =~= s@);
    if cur.len() > 0 {
        out.push(cur);
    }
    out
}

/// Appends the characters of `t` to `s`.
pub fn push_str(s: &mut String, t: &str)
    ensures
        final(s)@ == old(s)@ + t@,
{
    let v = chars_of(t);
    let mut i: usize = 0;
    while i < v.len()
        invariant
            i <= v@.len(),
            v@ == t@,
            s@ == old(s)@ + v@.subrange(0, i as int),
        decreases v@.len() - i,
    {
        push_char(s, v[i]);
        assert(old(s)@ + v@.subrange(0, i + 1) =~= old(s)@ + v@.subrange(0, i as int) + seq![v@[i as int]]);
        i = i + 1;
    }
    assert(v@.subrange(0, v@.len() as int) =~= v@);
}

/// The lines joined with `'\n'` between them (`[..].join("\n")`).
pub open spec fn join_lines(ls: Seq<Seq<char>>) -> Seq<char>
    decreases ls.len(),
{
    if ls.len() == 0 {
        seq![]
    } else if ls.len() == 1 {
        ls[0]
    } else {
        join_lines(ls.drop_last()) + seq!['\n'] + ls.last()
    }
}

/// The lines joined with `'\n'` between them.
pub fn join_with_newlines(v: &Vec<Vec<char>>) -> (s: String)
    ensures
        s@ == join_lines(views(v@)),
{
    let mut s = String::new();
    let mut i: usize = 0;
    while i < v.len()
        invariant
            i <= v@.len(),
            s@ == join_lines(views(v@).subrange(0, i as int)),
        decreases v@.len() - i,
    {
        let ghost before = s@;
        if i > 0 {
            push_char(&mut s, '\n');
        }
        let line = &v[i];
        let mut k: usize = 0;
        let ghost mid = s@;
        while k < line.len()
            invariant
                k <= line@.len(),
                s@ == mid + line@.subrange(0, k as int),
            decreases line@.len() - k,
        {
            push_char(&mut s, line[k]);
            assert(mid + line@.subrange(0, k + 1) =~= mid + line@.subrange(0, k as int) + seq![line@[k as int]]);
            k = k + 1;
        }
        assert(line@.subrange(0, line@.len() as int) =~= line@);
        let ghost p = views(v@).subrange(0, i + 1);
        assert(p.drop_last() =~= views(v@).subrange(0, i as int));
        assert(p.last() == line@);
        if i == 0 {
            assert(s@ =~= join_lines(p));
        } else {
            assert(s@ =~= join_lines(p));
        }
        i = i + 1;
    }
    assert(views(v@).subrange(0, v@.len() as int) =~= views(v@));
    s
}

/// A copy of `v`.
pub fn copy_chars(v: &Vec<char>) -> (r: Vec<char>)
    ensures
        r@ == v@,
{
    let mut r: Vec<char> = Vec::new();
    let mut i: usize = 0;
    while i < v.len()
        invariant
            i <= v@.len(),
            r@ == v@.subrange(0, i as int),
        decreases v@.len() - i,
    {
        r.push(v[i]);
        assert(v@.subrange(0, i + 1) =~= v@.subrange(0, i as int).push(v@[i as int]));
        i = i + 1;
    }
    assert(v@.subrange(0, v@.len() as int) =~= v@);
    r
}


/// The lines of `conf` where each line that begins with `pfx` is replaced by
/// `line`.
pub open spec fn replace_prefixed(ls: Seq<Seq<char>>, pfx: Seq<char>, line: Seq<char>) -> Seq<Seq<char>> {
    ls.map_values(|l: Seq<char>| if starts_with(l, pfx) { line } else { l })
}

/// A configuration text with each line that begins with `pfx` replaced by
/// `line`, or with `line` added at the end where none does; the lines are
/// joined with `'\n'`, so the text no longer ends in one.
pub open spec fn set_line(conf: Seq<char>, pfx: Seq<char>, line: Seq<char>) -> Seq<char> {
    let ls = lines(conf);
    let r = replace_prefixed(ls, pfx, line);
    if exists|i: int| 0 <= i < ls.len() && starts_with(#[trigger] ls[i], pfx) {
        join_lines(r)
    } else {
        join_lines(r.push(line))
    }
}

/// Replaces the lines of `conf` that begin with `pfx` by `line`, or adds
/// `line` where none does.
pub fn set_config_line(conf: &str, pfx: &str, line: &String) -> (r: String)
    ensures
        r@ == set_line(conf@, pfx@, line@),
{
    let cv = chars_of(conf);
    let pv = chars_of(pfx);
    let lv = chars_of(line.as_str());
    let ls = lines_of(&cv);
    let mut out: Vec<Vec<char>> = Vec::new();
    let mut found = false;
    let mut i: usize = 0;
    while i < ls.len()
        invariant
            i <= ls@.len(),
            pv@ == pfx@,
            lv@ == line@,
            views(out@) == replace_prefixed(views(ls@), pfx@, line@).subrange(0, i as int),
            found == exists|j: int| 0 <= j < i && starts_with(#[trigger] views(ls@)[j], pfx@),
        decreases ls@.len() - i,
    {
        let ghost before = views(out@);
        assert(views(ls@)[i as int] == ls@[i as int]@);
        if has_prefix(&ls[i], &pv) {
            out.push(copy_chars(&lv));
            found = true;
        } else {
            out.push(copy_chars(&ls[i]));
        }
        assert(views(out@) =~= before.push(replace_prefixed(views(ls@), pfx@, line@)[i as int]));
        assert(replace_prefixed(views(ls@), pfx@, line@).subrange(0, i + 1) =~= replace_prefixed(
            views(ls@),
            pfx@,
            line@,
        ).subrange(0, i as int).push(replace_prefixed(views(ls@), pfx@, line@)[i as int]));
        i = i + 1;
    }
    assert(replace_prefixed(views(ls@), pfx@, line@).subrange(0, ls@.len() as int) =~= replace_prefixed(
        views(ls@),
        pfx@,
        line@,
    ));
    if !found {
        let ghost before = views(out@);
        out.push(lv);
        assert(views(out@) =~= before.push(line@));
    }
    join_with_newlines(&out)
}

/// `x` holds no `'\n'`.
pub open spec fn no_newline(x: Seq<char>) -> bool {
    forall|j: int| 0 <= j < x.len() ==> x[j] != '\n'
}

/// A line that `lines` gives holds no `'\n'`.
pub proof fn lemma_lines_no_newline(s: Seq<char>)
    ensures
        forall|k: int| 0 <= k < lines(s).len() ==> no_newline(#[trigger] lines(s)[k]),
    decreases s.len(),
{
    let nl = seq!['\n'];
    lemma_find(s, nl);
    assert forall|j: int| 0 <= j < s.len() implies (s[j] == '\n') == matches_at(s, nl, j) by {
        if s[j] == '\n' {
            assert(s.subrange(j, j + 1) =~= nl);
        }
        if matches_at(s, nl, j) {
            assert(s.subrange(j, j + 1)[0] == s[j]);
        }
    }
    match find(s, nl) {
        Some(i) => {
            if 0 <= i && i + 1 <= s.len() {
                let rest = s.subrange(i + 1, s.len() as int);
                lemma_lines_no_newline(rest);
                let first = strip_cr(s.subrange(0, i));
                assert(no_newline(first));
                assert forall|k: int| 0 <= k < lines(s).len() implies no_newline(#[trigger] lines(s)[k]) by {
                    if k > 0 {
                        assert(lines(s)[k] == lines(rest)[k - 1]);
                    }
                }
            }
        },
        None => {},
    }
}

/// The lines joined, taken from the front: the first line, a `'\n'`, and the
/// rest joined.
pub proof fn lemma_join_front(ls: Seq<Seq<char>>)
    requires
        ls.len() >= 2,
    ensures
        join_lines(ls) == ls[0] + seq!['\n'] + join_lines(ls.drop_first()),
    decreases ls.len(),
{
    if ls.len() == 2 {
        assert(ls.drop_first().len() == 1);
        assert(ls.drop_last().len() == 1);
        assert(join_lines(ls.drop_last()) == ls[0]);
        assert(join_lines(ls.drop_first()) == ls[1]);
        assert(join_lines(ls) =~= ls[0] + seq!['\n'] + join_lines(ls.drop_first()));
    } else {
        let p = ls.drop_last();
        lemma_join_front(p);
        assert(p.drop_first() =~= ls.drop_first().drop_last());
        assert(ls.drop_first().last() == ls.last());
        assert(join_lines(ls.drop_first()) == join_lines(ls.drop_first().drop_last()) + seq!['\n'] + ls.last());
        assert(join_lines(ls) =~= ls[0] + seq!['\n'] + join_lines(ls.drop_first()));
    }
}

/// The lines given back when `lines` reads what `join_lines` wrote: each line
/// but the last without its final `'\r'`, then the last one unless it is
/// empty.
pub open spec fn read_back(ls: Seq<Seq<char>>) -> Seq<Seq<char>> {
    ls.drop_last().map_values(|l: Seq<char>| strip_cr(l)) + if ls.last().len() == 0 {
        Seq::<Seq<char>>::empty()
    } else {
        seq![ls.last()]
    }
}

/// What `lines` gives for lines joined with `'\n'`, none of which holds a
/// `'\n'`.
pub proof fn lemma_lines_of_join(ls: Seq<Seq<char>>)
    requires
        ls.len() >= 1,
        forall|k: int| 0 <= k < ls.len() ==> no_newline(#[trigger] ls[k]),
    ensures
        lines(join_lines(ls)) == read_back(ls),
    decreases ls.len(),
{
    let nl = seq!['\n'];
    if ls.len() == 1 {
        let s = ls[0];
        lemma_find(s, nl);
        assert forall|j: int| !matches_at(s, nl, j) by {
            if matches_at(s, nl, j) {
                assert(s.subrange(j, j + 1)[0] == s[j]);
            }
        }
        assert(find(s, nl) is None);
        assert(read_back(ls) =~= (if s.len() == 0 { Seq::<Seq<char>>::empty() } else { seq![s] }));
    } else {
        lemma_join_front(ls);
        let a = ls[0];
        let rest = ls.drop_first();
        assert forall|k: int| 0 <= k < rest.len() implies no_newline(#[trigger] rest[k]) by {
            assert(rest[k] == ls[k + 1]);
        }
        lemma_lines_of_join(rest);
        let j = join_lines(rest);
        let s = a + nl + j;
        assert(matches_at(s, nl, a.len() as int)) by {
            assert(s.subrange(a.len() as int, a.len() + 1int) =~= nl);
        }
        assert forall|q: int| 0 <= q < a.len() implies !matches_at(s, nl, q) by {
            if matches_at(s, nl, q) {
                assert(s.subrange(q, q + 1)[0] == s[q]);
                assert(s[q] == a[q]);
            }
        }
        lemma_find_least(s, nl, a.len() as int);
        assert(s.subrange(0, a.len() as int) =~= a);
        assert(s.subrange(a.len() + 1int, s.len() as int) =~= j);
        assert(lines(s) == seq![strip_cr(a)] + lines(j));
        assert(rest.drop_last() =~= ls.drop_last().drop_first());
        assert(rest.last() == ls.last());
        assert(read_back(ls) =~= seq![strip_cr(a)] + read_back(rest));
    }
}

/// Dropping a final `'\r'` does not make a line begin with a prefix.
pub proof fn lemma_strip_cr_prefix(x: Seq<char>, p: Seq<char>)
    requires
        starts_with(strip_cr(x), p),
    ensures
        starts_with(x, p),
{
    if x.len() > 0 && x.last() == '\r' {
        assert(x.subrange(0, p.len() as int) =~= strip_cr(x).subrange(0, p.len() as int));
    }
}


/// Reading back a text in which `set_line` put `line` gives `line` as a
/// line, and every line that begins with `pfx` is `line`, where `line`
/// begins with `pfx`, is not empty, holds no `'\n'` and does not end in
/// `'\r'`.
pub proof fn lemma_set_line_read_back(conf: Seq<char>, pfx: Seq<char>, line: Seq<char>)
    requires
        starts_with(line, pfx),
        no_newline(line),
        line.len() > 0,
        line.last() != '\r',
    ensures
        ({
            let r = lines(set_line(conf, pfx, line));
            &&& exists|k: int| 0 <= k < r.len() && r[k] == line
            &&& forall|k: int| 0 <= k < r.len() && starts_with(#[trigger] r[k], pfx) ==> r[k] == line
        }),
{
    let ls = lines(conf);
    lemma_lines_no_newline(conf);
    let rp = replace_prefixed(ls, pfx, line);
    let found = exists|i: int| 0 <= i < ls.len() && starts_with(#[trigger] ls[i], pfx);
    let out = if found { rp } else { rp.push(line) };
    assert forall|k: int| 0 <= k < out.len() implies no_newline(#[trigger] out[k])
        && (out[k] == line || !starts_with(out[k], pfx)) by {
        if k < rp.len() {
            assert(rp[k] == (if starts_with(ls[k], pfx) { line } else { ls[k] }));
        }
    }
    assert(out.len() >= 1) by {
        if found {
            let i = choose|i: int| 0 <= i < ls.len() && starts_with(#[trigger] ls[i], pfx);
            assert(rp.len() == ls.len());
        }
    }
    lemma_lines_of_join(out);
    assert(set_line(conf, pfx, line) == join_lines(out));
    let r = read_back(out);
    let n = out.len() - 1;
    let w = if found {
        choose|i: int| 0 <= i < ls.len() && starts_with(#[trigger] ls[i], pfx)
    } else {
        n
    };
    assert(out[w] == line);
    assert(strip_cr(line) == line);
    if w < n {
        assert(r[w] == strip_cr(out[w]));
    } else {
        assert(r[n] == out.last());
    }
    assert(exists|k: int| 0 <= k < r.len() && r[k] == line);
    assert forall|k: int| 0 <= k < r.len() && starts_with(#[trigger] r[k], pfx) implies r[k] == line by {
        if k < n {
            assert(r[k] == strip_cr(out[k]));
            lemma_strip_cr_prefix(out[k], pfx);
        } else {
            assert(r[k] == out.last());
        }
    }
}

} // verus!
