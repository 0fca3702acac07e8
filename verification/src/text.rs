//! Text of sysfs and procfs files: trimming, searching, splitting into pieces, lines
//! and words, and reading decimal numbers, each with the meaning that Rust's `str`
//! methods of the same name have.
use vstd::prelude::*;

verus! {

broadcast use vstd::string::group_string_axioms;

/// `char::is_whitespace`: the characters with the Unicode `White_Space` property.
pub open spec fn is_whitespace(c: char) -> bool {
    let u = c as u32;
    ||| 0x09 <= u <= 0x0d
    ||| u == 0x20
    ||| u == 0x85
    ||| u == 0xa0
    ||| u == 0x1680
    ||| 0x2000 <= u <= 0x200a
    ||| u == 0x2028
    ||| u == 0x2029
    ||| u == 0x202f
    ||| u == 0x205f
    ||| u == 0x3000
}

/// `s` without its leading whitespace.
pub open spec fn trim_start(s: Seq<char>) -> Seq<char>
    decreases s.len(),
{
    if s.len() > 0 && is_whitespace(s[0]) {
        trim_start(s.drop_first())
    } else {
        s
    }
}

/// `s` without its trailing whitespace.
pub open spec fn trim_end(s: Seq<char>) -> Seq<char>
    decreases s.len(),
{
    if s.len() > 0 && is_whitespace(s.last()) {
        trim_end(s.drop_last())
    } else {
        s
    }
}

/// `str::trim`: `s` without leading and trailing whitespace.
pub open spec fn trim(s: Seq<char>) -> Seq<char> {
    trim_end(trim_start(s))
}

/// `str::starts_with` for a string pattern.
pub open spec fn starts_with(s: Seq<char>, prefix: Seq<char>) -> bool {
    prefix.len() <= s.len() && s.take(prefix.len() as int) == prefix
}

/// `pat` occurs in `s` starting at index `i`.
pub open spec fn occurs_at(s: Seq<char>, pat: Seq<char>, i: int) -> bool {
    0 <= i && i + pat.len() <= s.len() && s.subrange(i, i + pat.len()) == pat
}

/// `str::contains` for a string pattern.
pub open spec fn contains(s: Seq<char>, pat: Seq<char>) -> bool {
    exists|i: int| occurs_at(s, pat, i)
}

/// An ASCII decimal digit.
pub open spec fn is_digit(c: char) -> bool {
    '0' <= c <= '9'
}

/// The value of a string of decimal digits (zero for the empty string).
pub open spec fn digits_value(s: Seq<char>) -> nat
    decreases s.len(),
{
    if s.len() == 0 {
        0
    } else {
        digits_value(s.drop_last()) * 10 + ((s.last() as u32) - 48) as nat
    }
}

/// Every character of `s` is a decimal digit.
pub open spec fn all_digits(s: Seq<char>) -> bool {
    forall|i: int| 0 <= i < s.len() ==> is_digit(#[trigger] s[i])
}

/// `s` without one leading `+`.
pub open spec fn unsigned_digits(s: Seq<char>) -> Seq<char> {
    if s.len() > 0 && s[0] == '+' {
        s.drop_first()
    } else {
        s
    }
}

/// `str::parse::<u64>`: an optional `+` followed by at least one decimal digit, with a
/// value that fits in 64 bits.
pub open spec fn parse_u64_spec(s: Seq<char>) -> Option<u64> {
    let digits = unsigned_digits(s);
    if digits.len() > 0 && all_digits(digits) && digits_value(digits) <= u64::MAX {
        Some(digits_value(digits) as u64)
    } else {
        None
    }
}

/// Calls `String::push`. Trusted: the text afterwards is the text before with `c`
/// appended.
#[verifier::external_body]
pub(crate) fn push_char(s: &mut String, c: char)
    ensures
        final(s)@ == old(s)@.push(c),
{
    s.push(c);
}

/// The characters of `s`, in order.
pub fn chars_of(s: &str) -> (v: Vec<char>)
    ensures
        v@ == s@,
{
    let mut v: Vec<char> = Vec::new();
    for c in it: s.chars()
        invariant
            v@ == it.seq().take(it.index() as int),
            it.seq() == s@,
    {
        v.push(c);
    }
    v
}

/// The string made of `v[lo..hi]`.
pub fn string_of(v: &Vec<char>, lo: usize, hi: usize) -> (s: String)
    requires
        lo <= hi <= v.len(),
    ensures
        s@ == v@.subrange(lo as int, hi as int),
{
    let mut s = String::new();
    let mut i = lo;
    while i < hi
        invariant
            lo <= i <= hi <= v.len(),
            s@ == v@.subrange(lo as int, i as int),
        decreases hi - i,
    {
        push_char(&mut s, v[i]);
        i = i + 1;
        assert(s@ == v@.subrange(lo as int, i as int));
    }
    s
}

/// `char::is_whitespace`.
pub fn is_whitespace_char(c: char) -> (b: bool)
    ensures
        b == is_whitespace(c),
{
    let u = c as u32;
    (0x09 <= u && u <= 0x0d) || u == 0x20 || u == 0x85 || u == 0xa0 || u == 0x1680 || (0x2000
        <= u && u <= 0x200a) || u == 0x2028 || u == 0x2029 || u == 0x202f || u == 0x205f || u
        == 0x3000
}

proof fn lemma_trim_start_skip(s: Seq<char>, i: int)
    requires
        0 <= i < s.len(),
        is_whitespace(s[i]),
    ensures
        trim_start(s.skip(i)) == trim_start(s.skip(i + 1)),
{
    assert(s.skip(i).drop_first() =~= s.skip(i + 1));
}

proof fn lemma_trim_end_take(s: Seq<char>, j: int)
    requires
        0 < j <= s.len(),
        is_whitespace(s[j - 1]),
    ensures
        trim_end(s.take(j)) == trim_end(s.take(j - 1)),
{
    assert(s.take(j).drop_last() =~= s.take(j - 1));
}

/// The bounds of `trim(v)` within `v`.
pub fn trim_bounds(v: &Vec<char>) -> (r: (usize, usize))
    ensures
        r.0 <= r.1 <= v.len(),
        v@.subrange(r.0 as int, r.1 as int) == trim(v@),
{
    let mut lo: usize = 0;
    assert(v@.skip(0) =~= v@);
    while lo < v.len() && is_whitespace_char(v[lo])
        invariant
            lo <= v.len(),
            trim_start(v@) == trim_start(v@.skip(lo as int)),
        decreases v.len() - lo,
    {
        proof {
            lemma_trim_start_skip(v@, lo as int);
        }
        lo = lo + 1;
    }
    let ghost t = v@.skip(lo as int);
    assert(trim_start(t) == t);
    let mut hi: usize = v.len();
    assert(t.take(t.len() as int) =~= t);
    while hi > lo && is_whitespace_char(v[hi - 1])
        invariant
            lo <= hi <= v.len(),
            t == v@.skip(lo as int),
            trim_end(t) == trim_end(t.take(hi - lo)),
        decreases hi,
    {
        proof {
            lemma_trim_end_take(t, hi - lo);
        }
        hi = hi - 1;
    }
    assert(t.take(hi - lo) =~= v@.subrange(lo as int, hi as int));
    assert(trim_end(t.take(hi - lo)) == t.take(hi - lo));
    (lo, hi)
}

/// `str::trim`.
pub fn trim_str(s: &str) -> (t: String)
    ensures
        t@ == trim(s@),
{
    let v = chars_of(s);
    let (lo, hi) = trim_bounds(&v);
    string_of(&v, lo, hi)
}

/// `pat` occurs in `v` at index `i`.
pub fn occurs_at_exec(v: &Vec<char>, pat: &Vec<char>, i: usize) -> (b: bool)
    ensures
        b == occurs_at(v@, pat@, i as int),
{
    if i > v.len() || pat.len() > v.len() - i {
        return false;
    }
    let mut k: usize = 0;
    while k < pat.len()
        invariant
            i + pat.len() <= v.len(),
            k <= pat.len(),
            forall|j: int| 0 <= j < k ==> v@[i + j] == pat@[j],
        decreases pat.len() - k,
    {
        if v[i + k] != pat[k] {
            assert(v@.subrange(i as int, i + pat.len())[k as int] != pat@[k as int]);
            return false;
        }
        k = k + 1;
    }
    assert(v@.subrange(i as int, i + pat.len()) =~= pat@);
    true
}

/// `str::starts_with`.
pub fn starts_with_exec(v: &Vec<char>, prefix: &Vec<char>) -> (b: bool)
    ensures
        b == starts_with(v@, prefix@),
{
    let b = occurs_at_exec(v, prefix, 0);
    assert(v@.take(prefix@.len() as int) =~= v@.subrange(0, prefix@.len() as int));
    b
}

/// `str::contains`.
pub fn contains_exec(v: &Vec<char>, pat: &Vec<char>) -> (b: bool)
    ensures
        b == contains(v@, pat@),
{
    if pat.len() > v.len() {
        return false;
    }
    let last = v.len() - pat.len();
    let mut i: usize = 0;
    loop
        invariant
            i <= last,
            last + pat.len() == v.len(),
            forall|j: int| 0 <= j < i ==> !occurs_at(v@, pat@, j),
        ensures
            forall|j: int| 0 <= j <= last ==> !occurs_at(v@, pat@, j),
        decreases last - i,
    {
        if occurs_at_exec(v, pat, i) {
            return true;
        }
        if i == last {
            break;
        }
        i = i + 1;
    }
    assert forall|j: int| !occurs_at(v@, pat@, j) by {
        if 0 <= j <= last {
        }
    }
    false
}

/// `str::contains` on a `str`.
pub fn str_contains(s: &str, pat: &str) -> (b: bool)
    ensures
        b == contains(s@, pat@),
{
    let v = chars_of(s);
    let p = chars_of(pat);
    contains_exec(&v, &p)
}

/// `str::starts_with` on a `str`.
pub fn str_starts_with(s: &str, prefix: &str) -> (b: bool)
    ensures
        b == starts_with(s@, prefix@),
{
    let v = chars_of(s);
    let p = chars_of(prefix);
    starts_with_exec(&v, &p)
}

proof fn lemma_digits_value_prefix(s: Seq<char>, k: int)
    requires
        0 <= k <= s.len(),
    ensures
        digits_value(s.take(k)) <= digits_value(s),
    decreases s.len(),
{
    if k < s.len() {
        assert(s.drop_last().take(k) =~= s.take(k));
        lemma_digits_value_prefix(s.drop_last(), k);
    } else {
        assert(s.take(k) =~= s);
    }
}

/// `str::parse::<u64>` on `v[lo..hi]`.
pub fn parse_u64_range(v: &Vec<char>, lo: usize, hi: usize) -> (r: Option<u64>)
    requires
        lo <= hi <= v.len(),
    ensures
        r == parse_u64_spec(v@.subrange(lo as int, hi as int)),
{
    let ghost s = v@.subrange(lo as int, hi as int);
    let mut start = lo;
    if lo < hi && v[lo] == '+' {
        start = lo + 1;
    }
    let ghost d = v@.subrange(start as int, hi as int);
    assert(d == unsigned_digits(s));
    if start == hi {
        return None;
    }
    let mut acc: u64 = 0;
    let mut i = start;
    assert(d.take(0) =~= Seq::<char>::empty());
    while i < hi
        invariant
            start <= i <= hi <= v.len(),
            start < hi,
            d == v@.subrange(start as int, hi as int),
            s == v@.subrange(lo as int, hi as int),
            d == unsigned_digits(s),
            acc == digits_value(d.take(i - start)),
            forall|j: int| 0 <= j < i - start ==> is_digit(#[trigger] d[j]),
        decreases hi - i,
    {
        let c = v[i];
        if !('0' <= c && c <= '9') {
            assert(d[i - start] == c);
            assert(!is_digit(d[i - start]));
            assert(!all_digits(d));
            return None;
        }
        let dig = (c as u32 - 48) as u64;
        let ghost k = i - start;
        assert(d.take(k + 1).drop_last() =~= d.take(k));
        assert(d.take(k + 1).last() == c);
        if acc > (u64::MAX - dig) / 10 {
            proof {
                assert(digits_value(d.take(k + 1)) > u64::MAX);
                lemma_digits_value_prefix(d, k + 1);
                assert(digits_value(d) > u64::MAX);
            }
            return None;
        }
        acc = acc * 10 + dig;
        i = i + 1;
    }
    assert(d.take(i - start) =~= d);
    Some(acc)
}

/// `s.trim().parse::<u64>().ok()`.
pub fn parse_trimmed_u64(s: &str) -> (r: Option<u64>)
    ensures
        r == parse_u64_spec(trim(s@)),
{
    let v = chars_of(s);
    let (lo, hi) = trim_bounds(&v);
    parse_u64_range(&v, lo, hi)
}

/// `str::split` with a predicate: the pieces of `s` between the characters that
/// satisfy `is_sep`, in order; there is always at least one piece, possibly empty.
pub open spec fn split_by(s: Seq<char>, is_sep: spec_fn(char) -> bool) -> Seq<Seq<char>>
    decreases s.len(),
{
    if s.len() == 0 {
        seq![Seq::<char>::empty()]
    } else {
        let rest = split_by(s.drop_first(), is_sep);
        if is_sep(s[0]) {
            seq![Seq::<char>::empty()] + rest
        } else {
            rest.update(0, seq![s[0]] + rest[0])
        }
    }
}

/// `str::split(sep)` for a character separator.
pub open spec fn split_at_char(s: Seq<char>, sep: char) -> Seq<Seq<char>> {
    split_by(s, separates(Separator::Char(sep)))
}

/// `str::split_whitespace`: the non-empty runs of non-whitespace characters.
pub open spec fn words(s: Seq<char>) -> Seq<Seq<char>> {
    split_by(s, separates(Separator::Whitespace)).filter(nonempty())
}

/// The test that a piece is not empty.
pub open spec fn nonempty() -> spec_fn(Seq<char>) -> bool {
    |w: Seq<char>| w.len() > 0
}

/// Removing one trailing carriage return, as a function.
pub open spec fn cr_stripped() -> spec_fn(Seq<char>) -> Seq<char> {
    |l: Seq<char>| strip_cr(l)
}

/// `s` without one trailing carriage return.
pub open spec fn strip_cr(s: Seq<char>) -> Seq<char> {
    if s.len() > 0 && s.last() == '\r' {
        s.drop_last()
    } else {
        s
    }
}

/// `str::lines`: the pieces between line feeds; a line ended by `\r\n` loses the
/// `\r`, and a final empty piece (after a last line feed, or of an empty text) is not
/// a line.
pub open spec fn lines(s: Seq<char>) -> Seq<Seq<char>> {
    let parts = split_at_char(s, '\n');
    let ended = parts.drop_last().map_values(cr_stripped());
    if parts.last().len() == 0 {
        ended
    } else {
        ended.push(parts.last())
    }
}

pub proof fn lemma_split_by_len(s: Seq<char>, is_sep: spec_fn(char) -> bool)
    ensures
        split_by(s, is_sep).len() >= 1,
    decreases s.len(),
{
    if s.len() > 0 {
        lemma_split_by_len(s.drop_first(), is_sep);
    }
}

pub proof fn lemma_split_by_push(s: Seq<char>, c: char, is_sep: spec_fn(char) -> bool)
    ensures
        split_by(s.push(c), is_sep) == (if is_sep(c) {
            split_by(s, is_sep).push(Seq::<char>::empty())
        } else {
            split_by(s, is_sep).update(
                split_by(s, is_sep).len() - 1,
                split_by(s, is_sep).last().push(c),
            )
        }),
    decreases s.len(),
{
    lemma_split_by_len(s, is_sep);
    lemma_split_by_len(s.push(c), is_sep);
    if s.len() == 0 {
        assert(s =~= Seq::<char>::empty());
        assert(s.push(c).drop_first() =~= Seq::<char>::empty());
        assert(split_by(s, is_sep) == seq![Seq::<char>::empty()]);
        assert(s.push(c)[0] == c);
        assert(split_by(s.push(c), is_sep) =~= (if is_sep(c) {
            split_by(s, is_sep).push(Seq::<char>::empty())
        } else {
            split_by(s, is_sep).update(0, split_by(s, is_sep)[0].push(c))
        }));
    } else {
        let t = s.drop_first();
        assert(s.push(c).drop_first() =~= t.push(c));
        lemma_split_by_push(t, c, is_sep);
        lemma_split_by_len(t, is_sep);
        lemma_split_by_len(t.push(c), is_sep);
        let p = split_by(t, is_sep);
        let r = split_by(t.push(c), is_sep);
        if is_sep(s[0]) {
            if is_sep(c) {
                assert(split_by(s.push(c), is_sep) =~= split_by(s, is_sep).push(
                    Seq::<char>::empty(),
                ));
            } else {
                assert(split_by(s.push(c), is_sep) =~= split_by(s, is_sep).update(
                    split_by(s, is_sep).len() - 1,
                    split_by(s, is_sep).last().push(c),
                ));
            }
        } else {
            if is_sep(c) {
                assert(split_by(s.push(c), is_sep) =~= split_by(s, is_sep).push(
                    Seq::<char>::empty(),
                ));
            } else {
                if p.len() == 1 {
                    assert(seq![s[0]] + p[0].push(c) =~= (seq![s[0]] + p[0]).push(c));
                }
                assert(split_by(s.push(c), is_sep) =~= split_by(s, is_sep).update(
                    split_by(s, is_sep).len() - 1,
                    split_by(s, is_sep).last().push(c),
                ));
            }
        }
    }
}

/// A separator of `str::split`: one character, or any whitespace.
pub enum Separator {
    Char(char),
    Whitespace,
}

/// The characters that `sep` separates at.
pub open spec fn separates(sep: Separator) -> spec_fn(char) -> bool {
    match sep {
        Separator::Char(c) => |x: char| x == c,
        Separator::Whitespace => |x: char| is_whitespace(x),
    }
}

fn is_separator(sep: &Separator, c: char) -> (b: bool)
    ensures
        b == (separates(*sep))(c),
{
    match sep {
        Separator::Char(d) => c == *d,
        Separator::Whitespace => is_whitespace_char(c),
    }
}

/// A copy of `v[lo..hi]`.
pub fn copy_range(v: &Vec<char>, lo: usize, hi: usize) -> (r: Vec<char>)
    requires
        lo <= hi <= v.len(),
    ensures
        r@ == v@.subrange(lo as int, hi as int),
{
    let mut r: Vec<char> = Vec::new();
    let mut i = lo;
    while i < hi
        invariant
            lo <= i <= hi <= v.len(),
            r@ == v@.subrange(lo as int, i as int),
        decreases hi - i,
    {
        r.push(v[i]);
        i = i + 1;
        assert(r@ == v@.subrange(lo as int, i as int));
    }
    r
}

/// The views of a sequence of character vectors.
pub open spec fn views(v: Seq<Vec<char>>) -> Seq<Seq<char>> {
    v.map_values(|x: Vec<char>| x@)
}

/// `str::split`, collected.
pub fn split_pieces(v: &Vec<char>, sep: Separator) -> (pieces: Vec<Vec<char>>)
    ensures
        views(pieces@) == split_by(v@, separates(sep)),
        pieces.len() >= 1,
{
    let mut done: Vec<Vec<char>> = Vec::new();
    let mut cur: Vec<char> = Vec::new();
    assert(v@.take(0) =~= Seq::<char>::empty());
    assert(views(done@).push(cur@) =~= split_by(v@.take(0), separates(sep)));
    for i in 0..v.len()
        invariant
            views(done@).push(cur@) == split_by(v@.take(i as int), separates(sep)),
    {
        proof {
            lemma_split_by_push(v@.take(i as int), v@[i as int], separates(sep));
            assert(v@.take(i + 1) =~= v@.take(i as int).push(v@[i as int]));
        }
        if is_separator(&sep, v[i]) {
            let ghost old_done = views(done@);
            done.push(cur);
            cur = Vec::new();
            assert(views(done@) =~= old_done.push(split_by(v@.take(i as int), separates(sep)).last()));
            assert(views(done@).push(cur@) =~= split_by(v@.take(i + 1), separates(sep)));
        } else {
            cur.push(v[i]);
            assert(views(done@).push(cur@) =~= split_by(v@.take(i + 1), separates(sep)));
        }
    }
    let ghost old_done = views(done@);
    done.push(cur);
    assert(views(done@) =~= old_done.push(cur@));
    assert(v@.take(v@.len() as int) =~= v@);
    done
}

/// `str::split_whitespace`, collected.
pub fn words_of(v: &Vec<char>) -> (ws: Vec<Vec<char>>)
    ensures
        views(ws@) == words(v@),
{
    let pieces = split_pieces(v, Separator::Whitespace);
    let ghost all = views(pieces@);
    let ghost keep = nonempty();
    let mut ws: Vec<Vec<char>> = Vec::new();
    assert(all.take(0) =~= Seq::<Seq<char>>::empty());
    proof {
        reveal(Seq::filter);
    }
    for i in 0..pieces.len()
        invariant
            all == views(pieces@),
            keep == nonempty(),
            views(ws@) == all.take(i as int).filter(keep),
    {
        proof {
            all.take(i as int).lemma_filter_push(all[i as int], keep);
            assert(all.take(i + 1) =~= all.take(i as int).push(all[i as int]));
        }
        assert(all[i as int] == pieces@[i as int]@);
        if pieces[i].len() > 0 {
            let w = copy_range(&pieces[i], 0, pieces[i].len());
            let ghost old_ws = views(ws@);
            ws.push(w);
            assert(w@ =~= all[i as int]);
            assert(views(ws@) =~= old_ws.push(all[i as int]));
        } else {
            assert(!keep(all[i as int]));
        }
    }
    assert(all.take(all.len() as int) =~= all);
    ws
}

/// `str::lines`, collected.
pub fn lines_of(v: &Vec<char>) -> (ls: Vec<Vec<char>>)
    ensures
        views(ls@) == lines(v@),
{
    let parts = split_pieces(v, Separator::Char('\n'));
    let ghost all = views(parts@);
    let n = parts.len();
    let mut ls: Vec<Vec<char>> = Vec::new();
    for i in 0..n - 1
        invariant
            n == parts.len() >= 1,
            all == views(parts@),
            views(ls@) == all.take(i as int).map_values(cr_stripped()),
    {
        let len = parts[i].len();
        let line = if len > 0 && parts[i][len - 1] == '\r' {
            copy_range(&parts[i], 0, len - 1)
        } else {
            copy_range(&parts[i], 0, len)
        };
        let ghost old_ls = views(ls@);
        ls.push(line);
        assert(all[i as int] == parts@[i as int]@);
        assert(line@ =~= strip_cr(all[i as int]));
        assert(views(ls@) =~= old_ls.push(line@));
        assert(all.take(i + 1).map_values(cr_stripped()) =~= all.take(i as int).map_values(
            cr_stripped(),
        ).push(strip_cr(all[i as int])));
    }
    assert(all.take(n - 1) =~= all.drop_last());
    if parts[n - 1].len() > 0 {
        let last = copy_range(&parts[n - 1], 0, parts[n - 1].len());
        let ghost old_ls = views(ls@);
        ls.push(last);
        assert(all.last() == parts@[n - 1]@);
        assert(last@ =~= all.last());
        assert(views(ls@) =~= old_ls.push(all.last()));
    }
    ls
}

/// Whether `a` and `b` hold the same characters.
pub fn chars_eq(a: &Vec<char>, b: &Vec<char>) -> (r: bool)
    ensures
        r == (a@ == b@),
{
    if a.len() != b.len() {
        return false;
    }
    let mut i: usize = 0;
    while i < a.len()
        invariant
            a.len() == b.len(),
            i <= a.len(),
            forall|j: int| 0 <= j < i ==> a@[j] == b@[j],
        decreases a.len() - i,
    {
        if a[i] != b[i] {
            return false;
        }
        i = i + 1;
    }
    assert(a@ =~= b@);
    true
}

/// Whether `v` holds the characters of `s`.
pub fn chars_eq_str(v: &Vec<char>, s: &str) -> (r: bool)
    ensures
        r == (v@ == s@),
{
    let w = chars_of(s);
    chars_eq(v, &w)
}

/// The characters of `s.trim()`.
pub fn trimmed_chars(s: &str) -> (v: Vec<char>)
    ensures
        v@ == trim(s@),
{
    let w = chars_of(s);
    let (lo, hi) = trim_bounds(&w);
    copy_range(&w, lo, hi)
}

/// Whether `s.trim()` equals `expected`.
pub fn trimmed_equals(s: &str, expected: &str) -> (r: bool)
    ensures
        r == (trim(s@) == expected@),
{
    let v = trimmed_chars(s);
    chars_eq_str(&v, expected)
}

/// The string holding the characters of `v`.
pub fn string_from(v: &Vec<char>) -> (s: String)
    ensures
        s@ == v@,
{
    let s = string_of(v, 0, v.len());
    assert(v@.subrange(0, v@.len() as int) =~= v@);
    s
}

/// The view of an optional string.
pub open spec fn opt_view(o: Option<&str>) -> Option<Seq<char>> {
    match o {
        Some(s) => Some(s@),
        None => None,
    }
}

/// The number that a sysfs file holds: its trimmed text read as a `u64`, and zero
/// when the file could not be read (`None`) or does not hold such a number.
pub open spec fn u64_or_zero(content: Option<Seq<char>>) -> u64 {
    match content {
        Some(c) => match parse_u64_spec(trim(c)) {
            Some(v) => v,
            None => 0,
        },
        None => 0,
    }
}

/// Reads the number that a sysfs file holds (`content` is `None` when the file
/// could not be read); zero when there is none.
pub fn read_u64_or_zero(content: Option<&str>) -> (v: u64)
    ensures
        v == u64_or_zero(opt_view(content)),
{
    match content {
        Some(c) => match parse_trimmed_u64(c) {
            Some(v) => v,
            None => 0,
        },
        None => 0,
    }
}

/// A `String` holding the characters of `s`.
pub fn owned(s: &str) -> (r: String)
    ensures
        r@ == s@,
{
    String::from_str(s)
}

/// `s.split(pat).next()`: the part of `s` before the first occurrence of `pat`, or
/// all of `s` when `pat` does not occur.
pub open spec fn prefix_before(s: Seq<char>, pat: Seq<char>) -> Seq<char>
    decreases s.len(),
{
    if starts_with(s, pat) {
        Seq::<char>::empty()
    } else if s.len() == 0 {
        s
    } else {
        seq![s[0]] + prefix_before(s.drop_first(), pat)
    }
}

/// `str::trim_end_matches(c)`: `s` without the run of `c` at its end.
pub open spec fn strip_trailing(s: Seq<char>, c: char) -> Seq<char>
    decreases s.len(),
{
    if s.len() > 0 && s.last() == c {
        strip_trailing(s.drop_last(), c)
    } else {
        s
    }
}

/// The characters of `v` before the first occurrence of `pat`.
pub fn prefix_before_exec(v: &Vec<char>, pat: &Vec<char>) -> (r: Vec<char>)
    ensures
        r@ == prefix_before(v@, pat@),
{
    let mut i: usize = 0;
    assert(v@.skip(0) =~= v@);
    assert(v@.take(0) + prefix_before(v@.skip(0), pat@) =~= prefix_before(v@, pat@));
    while i < v.len()
        invariant
            i <= v.len(),
            prefix_before(v@, pat@) == v@.take(i as int) + prefix_before(v@.skip(i as int), pat@),
        decreases v.len() - i,
    {
        let ghost t = v@.skip(i as int);
        assert(t.take(pat@.len() as int) =~= v@.subrange(i as int, i + pat@.len()) || pat@.len() > t.len());
        if occurs_at_exec(v, pat, i) {
            assert(starts_with(t, pat@));
            assert(v@.take(i as int) + Seq::<char>::empty() =~= v@.take(i as int));
            return copy_range(v, 0, i);
        }
        assert(!starts_with(t, pat@));
        assert(t.drop_first() =~= v@.skip(i + 1));
        assert(v@.take(i as int) + (seq![t[0]] + prefix_before(v@.skip(i + 1), pat@)) =~= v@.take(
            i + 1,
        ) + prefix_before(v@.skip(i + 1), pat@));
        i = i + 1;
    }
    let ghost t = v@.skip(i as int);
    assert(t =~= Seq::<char>::empty());
    assert(v@.take(i as int) =~= v@);
    proof {
        if starts_with(t, pat@) {
            assert(v@.take(i as int) + Seq::<char>::empty() =~= v@);
        }
    }
    copy_range(v, 0, v.len())
}

/// The characters of `v` without the run of `c` at its end.
pub fn strip_trailing_exec(v: &Vec<char>, c: char) -> (r: Vec<char>)
    ensures
        r@ == strip_trailing(v@, c),
{
    let mut hi = v.len();
    assert(v@.take(hi as int) =~= v@);
    while hi > 0 && v[hi - 1] == c
        invariant
            hi <= v.len(),
            strip_trailing(v@, c) == strip_trailing(v@.take(hi as int), c),
        decreases hi,
    {
        assert(v@.take(hi as int).drop_last() =~= v@.take(hi - 1));
        hi = hi - 1;
    }
    copy_range(v, 0, hi)
}

/// `str::trim_start_matches(c)`: `s` without the run of `c` at its start.
pub open spec fn strip_leading_char(s: Seq<char>, c: char) -> Seq<char>
    decreases s.len(),
{
    if s.len() > 0 && s[0] == c {
        strip_leading_char(s.drop_first(), c)
    } else {
        s
    }
}

/// `str::trim_matches(c)`: `s` without the runs of `c` at both ends.
pub open spec fn strip_both(s: Seq<char>, c: char) -> Seq<char> {
    strip_trailing(strip_leading_char(s, c), c)
}

/// The characters of `v` without the run of `c` at its start.
pub fn strip_leading_exec(v: &Vec<char>, c: char) -> (r: Vec<char>)
    ensures
        r@ == strip_leading_char(v@, c),
{
    let mut lo: usize = 0;
    assert(v@.skip(0) =~= v@);
    while lo < v.len() && v[lo] == c
        invariant
            lo <= v.len(),
            strip_leading_char(v@, c) == strip_leading_char(v@.skip(lo as int), c),
        decreases v.len() - lo,
    {
        assert(v@.skip(lo as int).drop_first() =~= v@.skip(lo + 1));
        lo = lo + 1;
    }
    let r = copy_range(v, lo, v.len());
    assert(r@ =~= v@.skip(lo as int));
    r
}

proof fn lemma_trim_start_shape(s: Seq<char>)
    ensures
        exists|k: int|
            0 <= k <= s.len() && #[trigger] s.skip(k) == trim_start(s) && (forall|i: int|
                0 <= i < k ==> is_whitespace(#[trigger] s[i])),
        trim_start(s).len() > 0 ==> !is_whitespace(trim_start(s)[0]),
    decreases s.len(),
{
    if s.len() > 0 && is_whitespace(s[0]) {
        lemma_trim_start_shape(s.drop_first());
        let k = choose|k: int|
            0 <= k <= s.drop_first().len() && #[trigger] s.drop_first().skip(k) == trim_start(
                s.drop_first(),
            ) && (forall|i: int| 0 <= i < k ==> is_whitespace(#[trigger] s.drop_first()[i]));
        assert(s.skip(k + 1) =~= s.drop_first().skip(k));
        assert forall|i: int| 0 <= i < k + 1 implies is_whitespace(#[trigger] s[i]) by {
            if i > 0 {
                assert(s[i] == s.drop_first()[i - 1]);
            }
        }
    } else {
        assert(s.skip(0) =~= s);
    }
}

proof fn lemma_trim_end_shape(s: Seq<char>)
    ensures
        exists|j: int|
            0 <= j <= s.len() && #[trigger] s.take(j) == trim_end(s) && (forall|i: int|
                j <= i < s.len() ==> is_whitespace(#[trigger] s[i])),
        trim_end(s).len() > 0 ==> !is_whitespace(trim_end(s).last()),
    decreases s.len(),
{
    if s.len() > 0 && is_whitespace(s.last()) {
        lemma_trim_end_shape(s.drop_last());
        let j = choose|j: int|
            0 <= j <= s.drop_last().len() && #[trigger] s.drop_last().take(j) == trim_end(
                s.drop_last(),
            ) && (forall|i: int| j <= i < s.drop_last().len() ==> is_whitespace(
                #[trigger] s.drop_last()[i],
            ));
        assert(s.take(j) =~= s.drop_last().take(j));
        assert forall|i: int| j <= i < s.len() implies is_whitespace(#[trigger] s[i]) by {
            if i < s.len() - 1 {
                assert(s[i] == s.drop_last()[i]);
            }
        }
    } else {
        assert(s.take(s.len() as int) =~= s);
    }
}

/// Trimming removes exactly the whitespace at both ends: the result is a stretch of
/// the text with only whitespace before and after it, and (when not empty) it starts
/// and ends with a character that is not whitespace.
pub proof fn law_trim_shape(s: Seq<char>)
    ensures
        trim(s).len() > 0 ==> !is_whitespace(trim(s)[0]) && !is_whitespace(trim(s).last()),
        exists|a: int|
            0 <= a && a + trim(s).len() <= s.len() && #[trigger] s.subrange(a, a + trim(s).len())
                == trim(s) && (forall|i: int| 0 <= i < a ==> is_whitespace(#[trigger] s[i])) && (
            forall|i: int| a + trim(s).len() <= i < s.len() ==> is_whitespace(#[trigger] s[i])),
{
    lemma_trim_start_shape(s);
    let t = trim_start(s);
    let k = choose|k: int|
        0 <= k <= s.len() && #[trigger] s.skip(k) == t && (forall|i: int|
            0 <= i < k ==> is_whitespace(#[trigger] s[i]));
    lemma_trim_end_shape(t);
    let j = choose|j: int|
        0 <= j <= t.len() && #[trigger] t.take(j) == trim_end(t) && (forall|i: int|
            j <= i < t.len() ==> is_whitespace(#[trigger] t[i]));
    let r = trim(s);
    assert(r.len() == j);
    assert(s.subrange(k, k + j) =~= r);
    assert forall|i: int| k + j <= i < s.len() implies is_whitespace(#[trigger] s[i]) by {
        assert(s[i] == t[i - k]);
    }
    if r.len() > 0 {
        assert(r[0] == t[0]);
    }
}

/// Splitting cuts at every separator and nowhere else: no piece holds a separator,
/// and a text without separators is one piece, itself.
pub proof fn law_split_pieces_hold_no_separator(s: Seq<char>, is_sep: spec_fn(char) -> bool)
    ensures
        forall|k: int, i: int|
            0 <= k < split_by(s, is_sep).len() && 0 <= i < split_by(s, is_sep)[k].len()
                ==> !is_sep(#[trigger] split_by(s, is_sep)[k][i]),
        (forall|i: int| 0 <= i < s.len() ==> !is_sep(#[trigger] s[i])) ==> split_by(s, is_sep)
            == seq![s],
    decreases s.len(),
{
    if s.len() > 0 {
        let rest = split_by(s.drop_first(), is_sep);
        law_split_pieces_hold_no_separator(s.drop_first(), is_sep);
        lemma_split_by_len(s.drop_first(), is_sep);
        let all = split_by(s, is_sep);
        if is_sep(s[0]) {
            assert forall|k: int, i: int| 0 <= k < all.len() && 0 <= i < all[k].len() implies !is_sep(
                #[trigger] all[k][i],
            ) by {
                assert(all[k] == rest[k - 1]);
            }
        } else {
            assert forall|k: int, i: int| 0 <= k < all.len() && 0 <= i < all[k].len() implies !is_sep(
                #[trigger] all[k][i],
            ) by {
                if k == 0 {
                    if i > 0 {
                        assert(all[0][i] == rest[0][i - 1]);
                    }
                } else {
                    assert(all[k] == rest[k]);
                }
            }
            if forall|i: int| 0 <= i < s.len() ==> !is_sep(#[trigger] s[i]) {
                assert forall|i: int| 0 <= i < s.drop_first().len() implies !is_sep(
                    #[trigger] s.drop_first()[i],
                ) by {
                    assert(s.drop_first()[i] == s[i + 1]);
                }
                assert(seq![s[0]] + s.drop_first() =~= s);
                assert(all =~= seq![s]);
            }
        }
    } else {
        assert(s =~= Seq::<char>::empty());
    }
}

/// The characters of the pieces come from the text: a property that no character of
/// the text has, no character of a piece has.
pub proof fn lemma_split_pieces_keep_absence(
    s: Seq<char>,
    is_sep: spec_fn(char) -> bool,
    absent: spec_fn(char) -> bool,
)
    requires
        forall|i: int| 0 <= i < s.len() ==> !absent(#[trigger] s[i]),
    ensures
        forall|k: int, i: int|
            0 <= k < split_by(s, is_sep).len() && 0 <= i < split_by(s, is_sep)[k].len()
                ==> !absent(#[trigger] split_by(s, is_sep)[k][i]),
    decreases s.len(),
{
    if s.len() > 0 {
        let rest = split_by(s.drop_first(), is_sep);
        assert forall|i: int| 0 <= i < s.drop_first().len() implies !absent(
            #[trigger] s.drop_first()[i],
        ) by {
            assert(s.drop_first()[i] == s[i + 1]);
        }
        lemma_split_pieces_keep_absence(s.drop_first(), is_sep, absent);
        lemma_split_by_len(s.drop_first(), is_sep);
        let all = split_by(s, is_sep);
        assert forall|k: int, i: int| 0 <= k < all.len() && 0 <= i < all[k].len() implies !absent(
            #[trigger] all[k][i],
        ) by {
            if is_sep(s[0]) {
                assert(all[k] == rest[k - 1]);
            } else if k == 0 {
                if i > 0 {
                    assert(all[0][i] == rest[0][i - 1]);
                }
            } else {
                assert(all[k] == rest[k]);
            }
        }
    }
}

} // verus!
