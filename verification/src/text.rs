//! Character-level text handling used by the parsers of command output.
//!
//! Every operation here is stated over `Seq<char>` with the meaning that the
//! corresponding method of `str` has (`lines`, `split`, `split_whitespace`,
//! `trim`, `contains`, `starts_with`, `replace`, `parse::<u64>`).
use vstd::prelude::*;

verus! {

/// Unicode `White_Space`, the set that `char::is_whitespace` tests.
pub open spec fn is_ws(c: char) -> bool {
    ||| ('\u{9}' <= c && c <= '\u{d}')
    ||| c == ' '
    ||| c == '\u{85}'
    ||| c == '\u{a0}'
    ||| c == '\u{1680}'
    ||| ('\u{2000}' <= c && c <= '\u{200a}')
    ||| c == '\u{2028}'
    ||| c == '\u{2029}'
    ||| c == '\u{202f}'
    ||| c == '\u{205f}'
    ||| c == '\u{3000}'
}

/// Whether `c` is Unicode white space.
pub fn is_whitespace(c: char) -> (b: bool)
    ensures
        b == is_ws(c),
{
    ('\u{9}' <= c && c <= '\u{d}') || c == ' ' || c == '\u{85}' || c == '\u{a0}' || c == '\u{1680}'
        || ('\u{2000}' <= c && c <= '\u{200a}') || c == '\u{2028}' || c == '\u{2029}' || c
        == '\u{202f}' || c == '\u{205f}' || c == '\u{3000}'
}

/// What separates the pieces of a split: one given character, or any white space.
#[derive(Clone, Copy)]
pub enum Sep {
    Char(char),
    Space,
}

pub open spec fn is_sep(sep: Sep, x: char) -> bool {
    match sep {
        Sep::Char(c) => x == c,
        Sep::Space => is_ws(x),
    }
}

/// The pieces of `s` between the characters that `sep` matches, empty pieces
/// included (`str::split` with a character pattern).
pub open spec fn split_by(s: Seq<char>, sep: Sep) -> Seq<Seq<char>>
    decreases s.len(),
{
    if s.len() == 0 {
        seq![Seq::empty()]
    } else {
        let r = split_by(s.drop_last(), sep);
        if is_sep(sep, s.last()) {
            r.push(Seq::empty())
        } else {
            r.update(r.len() - 1, r.last().push(s.last()))
        }
    }
}

/// `str::split(c)`.
pub open spec fn split_char(s: Seq<char>, c: char) -> Seq<Seq<char>> {
    split_by(s, Sep::Char(c))
}

pub open spec fn nonempty(w: Seq<char>) -> bool {
    w.len() > 0
}

/// `str::split_whitespace`: the maximal runs of non-white-space characters.
pub open spec fn words(s: Seq<char>) -> Seq<Seq<char>> {
    split_by(s, Sep::Space).filter(|w: Seq<char>| nonempty(w))
}

/// A line that was ended by `\n` loses one trailing `\r`.
pub open spec fn strip_cr(l: Seq<char>) -> Seq<char> {
    if l.len() > 0 && l.last() == '\r' {
        l.drop_last()
    } else {
        l
    }
}

/// `str::lines`: split at `\n`; a piece that a `\n` ended loses a trailing
/// `\r`; a final empty piece (text ending in `\n`) and the empty text give no line.
pub open spec fn lines(s: Seq<char>) -> Seq<Seq<char>> {
    if s.len() == 0 {
        Seq::empty()
    } else {
        let p = split_char(s, '\n');
        let ended = p.drop_last().map_values(|l: Seq<char>| strip_cr(l));
        if p.last().len() == 0 {
            ended
        } else {
            ended.push(p.last())
        }
    }
}

/// `str::trim_start`.
pub open spec fn trim_start(s: Seq<char>) -> Seq<char>
    decreases s.len(),
{
    if s.len() > 0 && is_ws(s[0]) {
        trim_start(s.drop_first())
    } else {
        s
    }
}

/// `str::trim_end`.
pub open spec fn trim_end(s: Seq<char>) -> Seq<char>
    decreases s.len(),
{
    if s.len() > 0 && is_ws(s.last()) {
        trim_end(s.drop_last())
    } else {
        s
    }
}

/// `str::trim`: white space removed from both ends.
pub open spec fn trim(s: Seq<char>) -> Seq<char> {
    trim_end(trim_start(s))
}

/// `str::starts_with`.
pub open spec fn starts_with(s: Seq<char>, p: Seq<char>) -> bool {
    p.len() <= s.len() && s.take(p.len() as int) == p
}

/// `p` stands in `s` at position `i`.
pub open spec fn occurs_at(s: Seq<char>, p: Seq<char>, i: int) -> bool {
    0 <= i && i + p.len() <= s.len() && s.subrange(i, i + p.len()) == p
}

/// The position of the first occurrence of `p` in `s` (`str::find`).
pub open spec fn find(s: Seq<char>, p: Seq<char>) -> Option<int>
    decreases s.len(),
{
    if s.len() < p.len() {
        None
    } else if s.take(p.len() as int) == p {
        Some(0)
    } else if s.len() == 0 {
        None
    } else {
        match find(s.drop_first(), p) {
            Some(i) => Some(i + 1),
            None => None,
        }
    }
}

/// `str::contains`.
pub open spec fn contains(s: Seq<char>, p: Seq<char>) -> bool {
    find(s, p) is Some
}

/// The first piece of `s.split(p)`: what comes before the first `p`.
pub open spec fn before_first(s: Seq<char>, p: Seq<char>) -> Seq<char> {
    match find(s, p) {
        Some(i) => s.take(i),
        None => s,
    }
}

/// The second piece of `s.split(p)`, or the empty text where there is none.
pub open spec fn second_piece(s: Seq<char>, p: Seq<char>) -> Seq<char> {
    match find(s, p) {
        Some(i) => before_first(s.skip(i + p.len()), p),
        None => Seq::empty(),
    }
}

/// `str::replace(p, r)` for a non-empty pattern `p`: each occurrence of `p`,
/// taken left to right without overlap, becomes `r`.
pub open spec fn replace_all(s: Seq<char>, p: Seq<char>, r: Seq<char>) -> Seq<char>
    decreases s.len(),
{
    if p.len() == 0 {
        s
    } else {
        match find(s, p) {
            Some(i) => if 0 <= i && i + p.len() <= s.len() {
                s.take(i) + r + replace_all(s.skip(i + p.len()), p, r)
            } else {
                s
            },
            None => s,
        }
    }
}

pub open spec fn is_digit(c: char) -> bool {
    '0' <= c && c <= '9'
}

pub open spec fn digit_value(c: char) -> nat {
    (c as u32 - '0' as u32) as nat
}

/// The number that a sequence of decimal digits writes.
pub open spec fn digits_value(d: Seq<char>) -> nat
    decreases d.len(),
{
    if d.len() == 0 {
        0
    } else {
        digits_value(d.drop_last()) * 10 + digit_value(d.last())
    }
}

pub open spec fn all_digits(d: Seq<char>) -> bool {
    forall|i: int| 0 <= i < d.len() ==> is_digit(#[trigger] d[i])
}

/// `str::parse::<u64>`: an optional `+`, then one or more decimal digits
/// whose value fits in a `u64`.
pub open spec fn parse_u64(s: Seq<char>) -> Option<u64> {
    let d = if s.len() > 0 && s[0] == '+' {
        s.drop_first()
    } else {
        s
    };
    if d.len() > 0 && all_digits(d) && digits_value(d) <= u64::MAX {
        Some(digits_value(d) as u64)
    } else {
        None
    }
}

/// `s.parse::<u64>().unwrap_or(0)`.
pub open spec fn parse_u64_or_zero(s: Seq<char>) -> u64 {
    match parse_u64(s) {
        Some(v) => v,
        None => 0,
    }
}

/// The views of a sequence of character vectors.
pub open spec fn views(v: Seq<Vec<char>>) -> Seq<Seq<char>> {
    v.map_values(|x: Vec<char>| x@)
}

/// The pieces are never empty as a sequence: `split_by` gives at least one.
pub proof fn lemma_split_by_len(s: Seq<char>, sep: Sep)
    ensures
        split_by(s, sep).len() >= 1,
        split_by(s, sep).len() <= s.len() + 1,
    decreases s.len(),
{
    if s.len() > 0 {
        lemma_split_by_len(s.drop_last(), sep);
    }
}

proof fn lemma_trim_start_skip(s: Seq<char>, a: int)
    requires
        0 <= a <= s.len(),
        forall|j: int| 0 <= j < a ==> is_ws(#[trigger] s[j]),
    ensures
        trim_start(s) == trim_start(s.skip(a)),
    decreases a,
{
    if a > 0 {
        assert(is_ws(s[0]));
        assert forall|j: int| 0 <= j < a - 1 implies is_ws(#[trigger] s.drop_first()[j]) by {
            assert(is_ws(s[j + 1]));
        }
        assert(s.drop_first().skip(a - 1) =~= s.skip(a));
        assert(trim_start(s) == trim_start(s.drop_first()));
        lemma_trim_start_skip(s.drop_first(), a - 1);
    } else {
        assert(s.skip(0) =~= s);
    }
}

proof fn lemma_trim_end_take(s: Seq<char>, b: int)
    requires
        0 <= b <= s.len(),
        forall|j: int| b <= j < s.len() ==> is_ws(#[trigger] s[j]),
    ensures
        trim_end(s) == trim_end(s.take(b)),
    decreases s.len() - b,
{
    if b < s.len() {
        assert(s.drop_last().take(b) =~= s.take(b));
        lemma_trim_end_take(s.drop_last(), b);
    } else {
        assert(s.take(b) =~= s);
    }
}

/// The search for `p` in `s`, stated by positions.
pub proof fn lemma_find(s: Seq<char>, p: Seq<char>, i: int)
    requires
        0 <= i,
        forall|j: int| 0 <= j < i ==> !occurs_at(s, p, j),
        occurs_at(s, p, i) || i + p.len() > s.len(),
    ensures
        find(s, p) == (if occurs_at(s, p, i) {
            Some(i)
        } else {
            None::<int>
        }),
    decreases i,
{
    if s.len() < p.len() {
    } else if i == 0 {
        assert(s.take(p.len() as int) =~= s.subrange(0, p.len() as int));
    } else {
        assert(s.take(p.len() as int) =~= s.subrange(0, p.len() as int));
        if s.len() == 0 {
            assert(s.subrange(0, 0) =~= p);
            assert(occurs_at(s, p, 0));
        }
        assert(!occurs_at(s, p, 0));
        let t = s.drop_first();
        assert forall|j: int| 0 <= j < i - 1 implies !occurs_at(t, p, j) by {
            assert(!occurs_at(s, p, j + 1));
            if j + p.len() <= t.len() {
                assert forall|k: int| 0 <= k < p.len() implies #[trigger] t.subrange(j, j + p.len())[k]
                    == s.subrange(j + 1, j + 1 + p.len())[k] by {
                    assert(t[j + k] == s[j + k + 1]);
                }
                assert(t.subrange(j, j + p.len()) =~= s.subrange(j + 1, j + 1 + p.len()));
            }
        }
        if occurs_at(s, p, i) {
            assert forall|k: int| 0 <= k < p.len() implies #[trigger] t.subrange(i - 1, i - 1 + p.len())[k]
                == s.subrange(i, i + p.len())[k] by {
                assert(t[i - 1 + k] == s[i + k]);
            }
            assert(t.subrange(i - 1, i - 1 + p.len()) =~= s.subrange(i, i + p.len()));
        }
        lemma_find(t, p, i - 1);
    }
}

/// `p` occurs in `s` exactly when it stands at some position of `s`.
pub proof fn lemma_contains_occurs(s: Seq<char>, p: Seq<char>)
    ensures
        contains(s, p) <==> exists|i: int| occurs_at(s, p, i),
{
    lemma_find_bounds(s, p);
    if let Some(i) = find(s, p) {
        assert(occurs_at(s, p, i));
    }
    if exists|i: int| occurs_at(s, p, i) {
        let i = choose|i: int| occurs_at(s, p, i);
        lemma_first_occurrence(s, p, i);
    }
}

proof fn lemma_first_occurrence(s: Seq<char>, p: Seq<char>, i: int)
    requires
        occurs_at(s, p, i),
    ensures
        find(s, p) is Some,
    decreases i,
{
    if exists|j: int| 0 <= j < i && occurs_at(s, p, j) {
        let j = choose|j: int| 0 <= j < i && occurs_at(s, p, j);
        lemma_first_occurrence(s, p, j);
    } else {
        lemma_find(s, p, i);
    }
}

proof fn lemma_digits_prefix(d: Seq<char>, i: int, k: int)
    requires
        0 <= i <= k <= d.len(),
    ensures
        digits_value(d.take(i)) <= digits_value(d.take(k)),
    decreases k - i,
{
    if i < k {
        lemma_digits_prefix(d, i, k - 1);
        assert(d.take(k).drop_last() =~= d.take(k - 1));
    }
}

/// Where `find` answers, the pattern stands there.
pub proof fn lemma_find_bounds(s: Seq<char>, p: Seq<char>)
    ensures
        find(s, p) matches Some(i) ==> occurs_at(s, p, i),
    decreases s.len(),
{
    if s.len() >= p.len() {
        if s.take(p.len() as int) == p {
            assert(s.subrange(0, p.len() as int) =~= s.take(p.len() as int));
        } else if s.len() > 0 {
            let t = s.drop_first();
            lemma_find_bounds(t, p);
            if let Some(i) = find(t, p) {
                assert forall|k: int| 0 <= k < p.len() implies #[trigger] t.subrange(i, i + p.len())[k]
                    == s.subrange(i + 1, i + 1 + p.len())[k] by {
                    assert(t[i + k] == s[i + k + 1]);
                }
                assert(t.subrange(i, i + p.len()) =~= s.subrange(i + 1, i + 1 + p.len()));
            }
        }
    }
}

/// The characters of `s`, in order.
pub fn chars_of(s: &str) -> (v: Vec<char>)
    ensures
        v@ == s@,
{
    broadcast use vstd::string::group_string_axioms;

    let mut v: Vec<char> = Vec::new();
    for c in it: s.chars()
        invariant
            v@ == it.seq().take(it.index() as int),
            it.seq() == s@,
    {
        v.push(c);
    }
    v
}

/// Appends one character to a string (`String::push`).
#[verifier::external_body]
pub(crate) fn push_char(s: &mut String, c: char)
    ensures
        final(s)@ == old(s)@.push(c),
{
    s.push(c);
}

/// Removes the last character of a string, if any (`String::pop`).
#[verifier::external_body]
pub(crate) fn pop_char(s: &mut String)
    ensures
        final(s)@ == (if old(s)@.len() == 0 {
            old(s)@
        } else {
            old(s)@.drop_last()
        }),
{
    s.pop();
}

/// A string holding the characters `cs`.
pub fn string_of(cs: &[char]) -> (s: String)
    ensures
        s@ == cs@,
{
    let mut s = String::new();
    let n = cs.len();
    for i in 0..n
        invariant
            n == cs@.len(),
            s@ == cs@.take(i as int),
    {
        push_char(&mut s, cs[i]);
        assert(cs@.take(i + 1) =~= cs@.take(i as int).push(cs@[i as int]));
    }
    assert(cs@.take(n as int) =~= cs@);
    s
}

/// Whether two character sequences are equal.
pub fn chars_eq(a: &[char], b: &[char]) -> (r: bool)
    ensures
        r == (a@ == b@),
{
    if a.len() != b.len() {
        return false;
    }
    let n = a.len();
    for i in 0..n
        invariant
            n == a@.len(),
            n == b@.len(),
            forall|j: int| 0 <= j < i ==> a@[j] == b@[j],
    {
        if a[i] != b[i] {
            return false;
        }
    }
    assert(a@ =~= b@);
    true
}

/// Whether `x` separates pieces under `sep`.
pub fn sep_hit(sep: Sep, x: char) -> (b: bool)
    ensures
        b == is_sep(sep, x),
{
    match sep {
        Sep::Char(c) => x == c,
        Sep::Space => is_whitespace(x),
    }
}

/// The pieces of `s` between the characters that `sep` matches, empty
/// pieces included.
pub fn split_on(s: &[char], sep: Sep) -> (r: Vec<Vec<char>>)
    ensures
        views(r@) == split_by(s@, sep),
{
    let mut done: Vec<Vec<char>> = Vec::new();
    let mut cur: Vec<char> = Vec::new();
    let n = s.len();
    assert(s@.take(0) =~= Seq::<char>::empty());
    for i in 0..n
        invariant
            n == s@.len(),
            views(done@).push(cur@) == split_by(s@.take(i as int), sep),
    {
        let ghost before = s@.take(i as int);
        assert(s@.take(i + 1).drop_last() =~= before);
        if sep_hit(sep, s[i]) {
            let piece = cur;
            cur = Vec::new();
            done.push(piece);
            assert(views(done@).push(cur@) =~= split_by(before, sep).push(Seq::empty()));
        } else {
            cur.push(s[i]);
            assert(views(done@).push(cur@) =~= split_by(before, sep).update(
                split_by(before, sep).len() - 1,
                split_by(before, sep).last().push(s@[i as int]),
            ));
        }
    }
    assert(s@.take(n as int) =~= s@);
    done.push(cur);
    assert(views(done@) =~= split_by(s@, sep));
    done
}

/// `str::split_whitespace`.
pub fn split_words(s: &[char]) -> (r: Vec<Vec<char>>)
    ensures
        views(r@) == words(s@),
{
    let pieces = split_on(s, Sep::Space);
    let ghost all = split_by(s@, Sep::Space);
    let ghost keep = |w: Seq<char>| nonempty(w);
    let mut r: Vec<Vec<char>> = Vec::new();
    let n = pieces.len();
    assert(all.take(0) =~= Seq::<Seq<char>>::empty());
    proof {
        reveal_with_fuel(Seq::filter, 1);
    }
    for i in 0..n
        invariant
            n == pieces@.len(),
            views(pieces@) == all,
            keep == (|w: Seq<char>| nonempty(w)),
            views(r@) == all.take(i as int).filter(keep),
    {
        proof {
            reveal_with_fuel(Seq::filter, 1);
            assert(all.take(i + 1).drop_last() =~= all.take(i as int));
            assert(all[i as int] == pieces@[i as int]@);
        }
        if pieces[i].len() > 0 {
            let w = pieces[i].clone();
            r.push(w);
            assert(views(r@) =~= all.take(i as int).filter(keep).push(all[i as int]));
        }
    }
    assert(all.take(n as int) =~= all);
    r
}

/// The characters `s[a..b]`.
pub fn slice_chars(s: &[char], a: usize, b: usize) -> (r: Vec<char>)
    requires
        a <= b <= s@.len(),
    ensures
        r@ == s@.subrange(a as int, b as int),
{
    let mut r: Vec<char> = Vec::new();
    let mut i = a;
    while i < b
        invariant
            a <= i <= b <= s@.len(),
            r@ == s@.subrange(a as int, i as int),
        decreases b - i,
    {
        r.push(s[i]);
        assert(r@ =~= s@.subrange(a as int, i + 1));
        i += 1;
    }
    r
}

/// `str::trim`.
pub fn trim_chars(s: &[char]) -> (r: Vec<char>)
    ensures
        r@ == trim(s@),
{
    let n = s.len();
    let mut a: usize = 0;
    while a < n && is_whitespace(s[a])
        invariant
            a <= n == s@.len(),
            forall|j: int| 0 <= j < a ==> is_ws(#[trigger] s@[j]),
        decreases n - a,
    {
        a += 1;
    }
    let mut b: usize = n;
    while b > a && is_whitespace(s[b - 1])
        invariant
            a <= b <= n == s@.len(),
            forall|j: int| b <= j < n ==> is_ws(#[trigger] s@[j]),
        decreases b - a,
    {
        b -= 1;
    }
    proof {
        lemma_trim_start_skip(s@, a as int);
        let t = s@.skip(a as int);
        assert(trim_start(t) == t);
        lemma_trim_end_take(t, b - a);
        assert(t.take(b - a) =~= s@.subrange(a as int, b as int));
        let u = t.take(b - a);
        if u.len() > 0 {
            assert(u.last() == s@[b - 1]);
        }
        assert(trim_end(u) == u);
    }
    slice_chars(s, a, b)
}

/// `str::starts_with`.
pub fn starts_with_chars(s: &[char], p: &[char]) -> (b: bool)
    ensures
        b == starts_with(s@, p@),
{
    if p.len() > s.len() {
        return false;
    }
    let m = p.len();
    for j in 0..m
        invariant
            m == p@.len() <= s@.len(),
            forall|k: int| 0 <= k < j ==> s@[k] == p@[k],
    {
        if s[j] != p[j] {
            assert(s@.take(m as int)[j as int] != p@[j as int]);
            return false;
        }
    }
    assert(s@.take(m as int) =~= p@);
    true
}

fn matches_at(s: &[char], p: &[char], i: usize) -> (b: bool)
    requires
        i + p@.len() <= s@.len(),
    ensures
        b == occurs_at(s@, p@, i as int),
{
    let m = p.len();
    let n = s.len();
    for j in 0..m
        invariant
            m == p@.len(),
            n == s@.len(),
            i + m <= n,
            forall|k: int| 0 <= k < j ==> s@[i + k] == p@[k],
    {
        if s[i + j] != p[j] {
            assert(s@.subrange(i as int, i + m)[j as int] != p@[j as int]);
            return false;
        }
    }
    assert(s@.subrange(i as int, i + m) =~= p@);
    true
}

/// `str::find`.
pub fn find_chars(s: &[char], p: &[char]) -> (r: Option<usize>)
    ensures
        r matches Some(i) ==> find(s@, p@) == Some(i as int),
        r is None ==> find(s@, p@) is None,
{
    let n = s.len();
    let m = p.len();
    if m > n {
        proof {
            lemma_find(s@, p@, 0);
        }
        return None;
    }
    if m == 0 {
        assert(s@.take(0) =~= p@);
        return Some(0);
    }
    let mut i: usize = 0;
    while i <= n - m
        invariant
            n == s@.len(),
            m == p@.len(),
            1 <= m <= n,
            i <= n - m + 1,
            forall|j: int| 0 <= j < i ==> !occurs_at(s@, p@, j),
        decreases n + 1 - i,
    {
        if matches_at(s, p, i) {
            proof {
                lemma_find(s@, p@, i as int);
            }
            return Some(i);
        }
        i += 1;
    }
    proof {
        lemma_find(s@, p@, i as int);
    }
    None
}

/// `str::contains`.
pub fn contains_chars(s: &[char], p: &[char]) -> (b: bool)
    ensures
        b == contains(s@, p@),
{
    find_chars(s, p).is_some()
}

/// The first piece of `s.split(p)`.
pub fn before_first_chars(s: &[char], p: &[char]) -> (r: Vec<char>)
    ensures
        r@ == before_first(s@, p@),
{
    match find_chars(s, p) {
        Some(i) => {
            proof {
                lemma_find_bounds(s@, p@);
            }
            slice_chars(s, 0, i)
        },
        None => slice_chars(s, 0, s.len()),
    }
}

/// The second piece of `s.split(p)`, or the empty text.
pub fn second_piece_chars(s: &[char], p: &[char]) -> (r: Vec<char>)
    ensures
        r@ == second_piece(s@, p@),
{
    let n = s.len();
    match find_chars(s, p) {
        Some(i) => {
            proof {
                lemma_find_bounds(s@, p@);
            }
            let rest = slice_chars(s, i + p.len(), n);
            assert(rest@ =~= s@.skip(i + p@.len()));
            before_first_chars(&rest, p)
        },
        None => Vec::new(),
    }
}

/// `str::replace(p, r)` for a non-empty pattern.
pub fn replace_chars(s: &[char], p: &[char], r: &[char]) -> (out: Vec<char>)
    requires
        p@.len() > 0,
    ensures
        out@ == replace_all(s@, p@, r@),
{
    let mut out: Vec<char> = Vec::new();
    let mut rest = slice_chars(s, 0, s.len());
    assert(rest@ =~= s@);
    loop
        invariant
            p@.len() > 0,
            out@ + replace_all(rest@, p@, r@) == replace_all(s@, p@, r@),
        decreases rest@.len(),
    {
        match find_chars(&rest, p) {
            Some(i) => {
                proof {
                    lemma_find_bounds(rest@, p@);
                }
                let ghost old_rest = rest@;
                let rn = rest.len();
                let head = slice_chars(&rest, 0, i);
                let tail = slice_chars(&rest, i + p.len(), rn);
                let ghost old_out = out@;
                let mut h = head;
                out.append(&mut h);
                let mut k: usize = 0;
                while k < r.len()
                    invariant
                        k <= r@.len(),
                        out@ == old_out + old_rest.take(i as int) + r@.take(k as int),
                    decreases r@.len() - k,
                {
                    out.push(r[k]);
                    assert(r@.take(k + 1) =~= r@.take(k as int).push(r@[k as int]));
                    k += 1;
                }
                assert(r@.take(r@.len() as int) =~= r@);
                assert(tail@ =~= old_rest.skip(i + p@.len()));
                assert(old_rest.take(i as int) + r@ + replace_all(tail@, p@, r@)
                    == replace_all(old_rest, p@, r@));
                assert(out@ + replace_all(tail@, p@, r@) =~= old_out + (old_rest.take(i as int) + r@
                    + replace_all(tail@, p@, r@)));
                rest = tail;
            },
            None => {
                let mut tail = rest;
                out.append(&mut tail);
                return out;
            },
        }
    }
}

/// `str::parse::<u64>`.
pub fn parse_u64_chars(s: &[char]) -> (r: Option<u64>)
    ensures
        r == parse_u64(s@),
{
    let start: usize = if s.len() > 0 && s[0] == '+' {
        1
    } else {
        0
    };
    let ghost d = if s@.len() > 0 && s@[0] == '+' {
        s@.drop_first()
    } else {
        s@
    };
    assert(d =~= s@.skip(start as int));
    let n = s.len();
    if start == n {
        assert(d.len() == 0);
        return None;
    }
    let mut acc: u64 = 0;
    let mut i = start;
    assert(d.take(0) =~= Seq::<char>::empty());
    while i < n
        invariant
            start <= i <= n == s@.len(),
            d == s@.skip(start as int),
            d == (if s@.len() > 0 && s@[0] == '+' {
                s@.drop_first()
            } else {
                s@
            }),
            all_digits(d.take(i - start)),
            acc as nat == digits_value(d.take(i - start)),
        decreases n - i,
    {
        let c = s[i];
        if !('0' <= c && c <= '9') {
            assert(d[i - start] == c);
            assert(!is_digit(d[i - start]));
            assert(!all_digits(d));
            return None;
        }
        let dv = (c as u32 - '0' as u32) as u64;
        assert(d.take(i + 1 - start).drop_last() =~= d.take(i - start));
        assert(d.take(i + 1 - start).last() == c);
        assert(digits_value(d.take(i + 1 - start)) == digits_value(d.take(i - start)) * 10
            + digit_value(c));
        assert(all_digits(d.take(i + 1 - start)));
        match acc.checked_mul(10) {
            Some(t) => match t.checked_add(dv) {
                Some(v) => {
                    acc = v;
                },
                None => {
                    proof {
                        lemma_digits_prefix(d, i + 1 - start, d.len() as int);
                        assert(d.take(d.len() as int) =~= d);
                        assert(digits_value(d) > u64::MAX);
                    }
                    return None;
                },
            },
            None => {
                proof {
                    lemma_digits_prefix(d, i + 1 - start, d.len() as int);
                    assert(d.take(d.len() as int) =~= d);
                    assert(acc * 10 > u64::MAX);
                    assert(digits_value(d) > u64::MAX);
                }
                return None;
            },
        }
        i += 1;
    }
    assert(d.take(n - start) =~= d);
    Some(acc)
}

/// Whether the text of `s` is exactly `lit`.
pub fn is_text(s: &String, lit: &str) -> (b: bool)
    ensures
        b == (s@ == lit@),
{
    let a = chars_of(s.as_str());
    let b = chars_of(lit);
    chars_eq(&a, &b)
}

/// The `k`-th piece, or `dflt` where there are not that many.
pub open spec fn piece_or(pieces: Seq<Seq<char>>, k: int, dflt: Seq<char>) -> Seq<char> {
    if 0 <= k < pieces.len() {
        pieces[k]
    } else {
        dflt
    }
}

/// The `k`-th piece as a string, or `dflt` where there are not that many.
pub fn piece_or_string(pieces: &Vec<Vec<char>>, k: usize, dflt: &str) -> (s: String)
    ensures
        s@ == piece_or(views(pieces@), k as int, dflt@),
{
    if k < pieces.len() {
        string_of(&pieces[k])
    } else {
        let d = chars_of(dflt);
        string_of(&d)
    }
}

/// The three texts one after the other.
pub fn join3(a: &str, b: &str, c: &str) -> (s: String)
    ensures
        s@ == a@ + b@ + c@,
{
    let mut cs = chars_of(a);
    let mut bs = chars_of(b);
    let mut tail = chars_of(c);
    cs.append(&mut bs);
    cs.append(&mut tail);
    string_of(&cs)
}

/// A string holding the text of `s`.
pub fn text_string(s: &str) -> (r: String)
    ensures
        r@ == s@,
{
    string_of(&chars_of(s))
}

/// The decimal digits of `n`.
pub open spec fn decimal(n: nat) -> Seq<char>
    decreases n,
{
    if n < 10 {
        seq![digit_char(n)]
    } else {
        decimal(n / 10).push(digit_char(n % 10))
    }
}

pub open spec fn digit_char(d: nat) -> char {
    ('0' as u32 + d) as char
}

/// `n` in decimal, at least two digits wide (`{:02}`).
pub open spec fn two_digits(n: nat) -> Seq<char> {
    if n < 10 {
        seq!['0'] + decimal(n)
    } else {
        decimal(n)
    }
}

fn digit(d: u64) -> (c: char)
    requires
        d < 10,
    ensures
        c == digit_char(d as nat),
{
    if d == 0 { '0' }
    else if d == 1 { '1' }
    else if d == 2 { '2' }
    else if d == 3 { '3' }
    else if d == 4 { '4' }
    else if d == 5 { '5' }
    else if d == 6 { '6' }
    else if d == 7 { '7' }
    else if d == 8 { '8' }
    else { '9' }
}

/// The decimal digits of `n` (`n.to_string()`).
pub fn decimal_chars(n: u64) -> (cs: Vec<char>)
    ensures
        cs@ == decimal(n as nat),
    decreases n,
{
    if n < 10 {
        let mut v: Vec<char> = Vec::new();
        v.push(digit(n));
        assert(v@ =~= seq![digit_char(n as nat)]);
        v
    } else {
        let mut v = decimal_chars(n / 10);
        v.push(digit(n % 10));
        v
    }
}

/// `n` in decimal, at least two digits wide.
pub fn two_digit_chars(n: u64) -> (cs: Vec<char>)
    ensures
        cs@ == two_digits(n as nat),
{
    let mut d = decimal_chars(n);
    if n < 10 {
        let mut v: Vec<char> = Vec::new();
        v.push('0');
        v.append(&mut d);
        v
    } else {
        d
    }
}

/// The first white-space-separated word of `s`, if any
/// (`split_whitespace().next()`).
pub fn first_word(s: &str) -> (w: Option<String>)
    ensures
        w matches Some(x) ==> words(s@).len() > 0 && x@ == words(s@)[0],
        w is None ==> words(s@).len() == 0,
{
    let cs = chars_of(s);
    let ws = split_words(&cs);
    if ws.len() > 0 {
        Some(string_of(&ws[0]))
    } else {
        None
    }
}

/// `str::lines`.
pub fn split_lines(s: &[char]) -> (r: Vec<Vec<char>>)
    ensures
        views(r@) == lines(s@),
{
    let mut r: Vec<Vec<char>> = Vec::new();
    if s.len() == 0 {
        assert(views(r@) =~= lines(s@));
        return r;
    }
    let pieces = split_on(s, Sep::Char('\n'));
    let ghost p = split_char(s@, '\n');
    proof {
        lemma_split_by_len(s@, Sep::Char('\n'));
    }
    let n = pieces.len();
    let ghost ended = p.drop_last().map_values(|l: Seq<char>| strip_cr(l));
    for i in 0..n - 1
        invariant
            n == pieces@.len(),
            n >= 1,
            views(pieces@) == p,
            ended == p.drop_last().map_values(|l: Seq<char>| strip_cr(l)),
            views(r@) == ended.take(i as int),
    {
        let mut l = pieces[i].clone();
        assert(l@ == p[i as int]);
        if l.len() > 0 && l[l.len() - 1] == '\r' {
            l.pop();
            assert(l@ =~= p[i as int].drop_last());
        }
        assert(l@ == strip_cr(p[i as int]));
        assert(ended[i as int] == strip_cr(p[i as int]));
        let ghost prev = r@;
        r.push(l);
        assert(views(r@) =~= views(prev).push(strip_cr(p[i as int])));
        assert(ended.take(i + 1) =~= ended.take(i as int).push(ended[i as int]));
    }
    assert(ended.take(n - 1) =~= ended);
    if pieces[n - 1].len() > 0 {
        let last = pieces[n - 1].clone();
        r.push(last);
        assert(views(r@) =~= ended.push(p.last()));
    }
    r
}

} // verus!
