//! Character-level text handling: the splitting, trimming and number parsing
//! that the rest of the library uses to read the output of system tools.
use vstd::prelude::*;

verus! {

broadcast use vstd::string::group_string_axioms;

/// Unicode `White_Space`, the set that `char::is_whitespace` tests.
pub open spec fn is_ws(c: char) -> bool {
    let u = c as u32;
    ||| 0x09 <= u <= 0x0d
    ||| u == 0x20
    ||| u == 0x85
    ||| u == 0xa0
    ||| u == 0x1680
    ||| 0x2000 <= u <= 0x200a
    ||| u == 0x2028
    ||| u == 0x2029
    ||| u == 0x202f
    ||| u == 0x205f
    ||| u == 0x3000
}

/// Tests a character for Unicode white space.
pub fn char_is_whitespace(c: char) -> (b: bool)
    ensures
        b == is_ws(c),
{
    let u = c as u32;
    (0x09 <= u && u <= 0x0d) || u == 0x20 || u == 0x85 || u == 0xa0 || u == 0x1680 || (0x2000
        <= u && u <= 0x200a) || u == 0x2028 || u == 0x2029 || u == 0x202f || u == 0x205f || u
        == 0x3000
}

/// The characters of a string slice, in order.
pub fn chars_of(s: &str) -> (v: Vec<char>)
    ensures
        v@ == s@,
{
    let mut v: Vec<char> = Vec::new();
    for c in it: s.chars()
        invariant
            v@ == it.seq().take(it.index() as int),
            it.seq() == s@,
    {
        v.push(c);
    }
    v
}


/// Appends one character to a `String` (std's `String::push`).
#[verifier::external_body]
pub(crate) fn push_char(s: &mut String, c: char)
    ensures
        final(s)@ == old(s)@.push(c),
{
    s.push(c);
}

/// A `String` holding exactly the given characters.
pub fn string_of(v: &[char]) -> (s: String)
    ensures
        s@ == v@,
{
    let mut s = String::new();
    for i in 0..v.len()
        invariant
            s@ == v@.take(i as int),
    {
        push_char(&mut s, v[i]);
        assert(v@.take(i + 1) =~= v@.take(i as int).push(v@[i as int]));
    }
    assert(v@.take(v@.len() as int) =~= v@);
    s
}

/// The characters `v[lo..hi]`, copied.
pub fn sub_chars(v: &Vec<char>, lo: usize, hi: usize) -> (r: Vec<char>)
    requires
        lo <= hi <= v.len(),
    ensures
        r@ == v@.subrange(lo as int, hi as int),
{
    let mut r: Vec<char> = Vec::new();
    let mut i = lo;
    while i < hi
        invariant
            lo <= i <= hi <= v.len(),
            r@ == v@.subrange(lo as int, i as int),
        decreases hi - i,
    {
        r.push(v[i]);
        i = i + 1;
        assert(r@ =~= v@.subrange(lo as int, i as int));
    }
    r
}

/// What separates the pieces of a text.
#[derive(Clone, Copy)]
pub enum Sep {
    /// One given character.
    Char(char),
    /// Any white-space character.
    Whitespace,
}

impl Sep {
    pub open spec fn matches(self, c: char) -> bool {
        match self {
            Sep::Char(x) => c == x,
            Sep::Whitespace => is_ws(c),
        }
    }

    /// Tests whether `c` separates pieces.
    pub fn test(&self, c: char) -> (b: bool)
        ensures
            b == self.matches(c),
    {
        match self {
            Sep::Char(x) => c == *x,
            Sep::Whitespace => char_is_whitespace(c),
        }
    }
}

/// The pieces of `s` between separators, read left to right; once `limit`
/// pieces exist, the last one takes the rest of the text, separators included
/// (the semantics of `str::split` and, with a limit, `str::splitn`).
pub open spec fn pieces(s: Seq<char>, sep: Sep, limit: nat) -> Seq<Seq<char>>
    decreases s.len(),
{
    if s.len() == 0 {
        seq![Seq::<char>::empty()]
    } else {
        let init = pieces(s.drop_last(), sep, limit);
        if sep.matches(s.last()) && init.len() < limit {
            init.push(Seq::<char>::empty())
        } else {
            init.update(init.len() - 1, init.last().push(s.last()))
        }
    }
}

/// Splitting without a limit.
pub open spec fn split(s: Seq<char>, sep: Sep) -> Seq<Seq<char>> {
    pieces(s, sep, usize::MAX as nat)
}

pub proof fn lemma_pieces_len(s: Seq<char>, sep: Sep, limit: nat)
    ensures
        1 <= pieces(s, sep, limit).len() <= s.len() + 1,
        limit >= 1 ==> pieces(s, sep, limit).len() <= limit,
    decreases s.len(),
{
    if s.len() > 0 {
        lemma_pieces_len(s.drop_last(), sep, limit);
    }
}

/// Splits `s` into pieces (see `pieces`).
pub fn split_pieces(s: &Vec<char>, sep: Sep, limit: usize) -> (r: Vec<Vec<char>>)
    requires
        limit >= 1,
    ensures
        r.deep_view() == pieces(s@, sep, limit as nat),
{
    let mut out: Vec<Vec<char>> = Vec::new();
    let mut cur: Vec<char> = Vec::new();
    assert(s@.take(0) =~= Seq::<char>::empty());
    for i in 0..s.len()
        invariant
            limit >= 1,
            out.deep_view().push(cur@) == pieces(s@.take(i as int), sep, limit as nat),
    {
        let c = s[i];
        let ghost before = pieces(s@.take(i as int), sep, limit as nat);
        assert(s@.take(i + 1).drop_last() =~= s@.take(i as int));
        assert(s@.take(i + 1).last() == c);
        proof {
            lemma_pieces_len(s@.take(i as int), sep, limit as nat);
        }
        if sep.test(c) && out.len() < limit - 1 {
            let ghost ov = out.deep_view();
            let done = cur;
            assert(done.deep_view() =~= done@);
            out.push(done);
            cur = Vec::new();
            assert(out.deep_view() =~= ov.push(done@));
            assert(out.deep_view().push(cur@) =~= before.push(Seq::<char>::empty()));
        } else {
            cur.push(c);
            assert(out.deep_view().push(cur@) =~= before.update(
                before.len() - 1,
                before.last().push(c),
            ));
        }
    }
    assert(s@.take(s.len() as int) =~= s@);
    let ghost ov = out.deep_view();
    assert(cur.deep_view() =~= cur@);
    out.push(cur);
    assert(out.deep_view() =~= ov.push(cur@));
    out
}

pub open spec fn nonempty(w: Seq<char>) -> bool {
    w.len() > 0
}

/// The white-space separated words of `s` (`str::split_whitespace`).
pub open spec fn words(s: Seq<char>) -> Seq<Seq<char>> {
    split(s, Sep::Whitespace).filter(|w: Seq<char>| nonempty(w))
}

/// Keeps the non-empty pieces, in order.
pub fn drop_empty(v: Vec<Vec<char>>) -> (r: Vec<Vec<char>>)
    ensures
        r.deep_view() == v.deep_view().filter(|w: Seq<char>| nonempty(w)),
{
    let ghost vv = v.deep_view();
    let mut r: Vec<Vec<char>> = Vec::new();
    let mut v = v;
    let n = v.len();
    let mut i: usize = 0;
    while i < n
        invariant
            n == v.len(),
            vv == v.deep_view(),
            0 <= i <= n,
            r.deep_view() == vv.take(i as int).filter(|w: Seq<char>| nonempty(w)),
        decreases n - i,
    {
        reveal_with_fuel(Seq::filter, 1);
        assert(vv.take(i + 1).drop_last() =~= vv.take(i as int));
        let w = v[i].clone();
        assert(w@ == vv[i as int]);
        if w.len() > 0 {
            let ghost rv = r.deep_view();
            r.push(w);
            assert(r.deep_view() =~= rv.push(vv[i as int]));
        }
        i = i + 1;
    }
    assert(vv.take(n as int) =~= vv);
    r
}

/// The white-space separated words of a character sequence.
pub fn split_words(s: &Vec<char>) -> (r: Vec<Vec<char>>)
    ensures
        r.deep_view() == words(s@),
{
    let p = split_pieces(s, Sep::Whitespace, usize::MAX);
    drop_empty(p)
}


// ─── Lines ──────────────────────────────────────────────────────────────────

/// Drops one trailing carriage return.
pub open spec fn strip_cr(l: Seq<char>) -> Seq<char> {
    if l.len() > 0 && l.last() == '\r' {
        l.drop_last()
    } else {
        l
    }
}

/// The lines of `s` as `str::lines` yields them: pieces between line feeds,
/// a `\r` before a line feed dropped, and no empty last line after a final
/// line feed (so the empty text has no lines).
pub open spec fn lines(s: Seq<char>) -> Seq<Seq<char>> {
    let p = split(s, Sep::Char('\n'));
    let body = p.drop_last().map_values(|l: Seq<char>| strip_cr(l));
    if p.last().len() == 0 {
        body
    } else {
        body.push(p.last())
    }
}

/// Drops a trailing carriage return from a line.
pub fn without_cr(l: &Vec<char>) -> (r: Vec<char>)
    ensures
        r@ == strip_cr(l@),
{
    if l.len() > 0 && l[l.len() - 1] == '\r' {
        sub_chars(l, 0, l.len() - 1)
    } else {
        sub_chars(l, 0, l.len())
    }
}

/// The lines of a character sequence (see `lines`).
pub fn split_lines(s: &Vec<char>) -> (r: Vec<Vec<char>>)
    ensures
        r.deep_view() == lines(s@),
{
    let p = split_pieces(s, Sep::Char('\n'), usize::MAX);
    proof {
        lemma_pieces_len(s@, Sep::Char('\n'), usize::MAX as nat);
    }
    let ghost pv = p.deep_view();
    let ghost body = pv.drop_last().map_values(|l: Seq<char>| strip_cr(l));
    let last = p.len() - 1;
    let mut r: Vec<Vec<char>> = Vec::new();
    for i in 0..last
        invariant
            last == p.len() - 1,
            pv == p.deep_view(),
            body == pv.drop_last().map_values(|l: Seq<char>| strip_cr(l)),
            r.deep_view() == body.take(i as int),
    {
        let l = without_cr(&p[i]);
        assert(p[i as int].deep_view() =~= p[i as int]@);
        let ghost rv = r.deep_view();
        assert(l.deep_view() =~= l@);
        r.push(l);
        assert(r.deep_view() =~= rv.push(l@));
        assert(pv[i as int] == p[i as int]@);
        assert(body[i as int] == strip_cr(pv[i as int]));
        assert(r.deep_view() =~= body.take(i + 1));
    }
    assert(body.take(last as int) =~= body);
    assert(p[last as int].deep_view() =~= p[last as int]@);
    if p[last].len() > 0 {
        let l = sub_chars(&p[last], 0, p[last].len());
        let ghost rv = r.deep_view();
        assert(l.deep_view() =~= l@);
        r.push(l);
        assert(r.deep_view() =~= rv.push(l@));
        assert(pv.last() == p[last as int]@);
        assert(l@ =~= p[last as int]@);
        assert(rv =~= body);
        assert(r.deep_view() =~= body.push(pv.last()));
    }
    r
}

// ─── Trimming ───────────────────────────────────────────────────────────────

/// `s` without leading white space.
pub open spec fn trim_start(s: Seq<char>) -> Seq<char>
    decreases s.len(),
{
    if s.len() > 0 && is_ws(s[0]) {
        trim_start(s.drop_first())
    } else {
        s
    }
}

/// `s` without trailing white space.
pub open spec fn trim_end(s: Seq<char>) -> Seq<char>
    decreases s.len(),
{
    if s.len() > 0 && is_ws(s.last()) {
        trim_end(s.drop_last())
    } else {
        s
    }
}

/// `s` without leading and trailing white space (`str::trim`).
pub open spec fn trim(s: Seq<char>) -> Seq<char> {
    trim_end(trim_start(s))
}

/// Trims white space from both ends of a character sequence.
pub fn trim_chars(v: &Vec<char>) -> (r: Vec<char>)
    ensures
        r@ == trim(v@),
{
    let n = v.len();
    let mut lo: usize = 0;
    assert(v@.subrange(0, n as int) =~= v@);
    while lo < n && char_is_whitespace(v[lo])
        invariant
            lo <= n == v.len(),
            trim_start(v@) == trim_start(v@.subrange(lo as int, n as int)),
        decreases n - lo,
    {
        assert(v@.subrange(lo as int, n as int).drop_first() =~= v@.subrange(lo + 1, n as int));
        lo = lo + 1;
    }
    let mut hi: usize = n;
    while hi > lo && char_is_whitespace(v[hi - 1])
        invariant
            lo <= hi <= n == v.len(),
            trim_start(v@) == v@.subrange(lo as int, n as int),
            trim(v@) == trim_end(v@.subrange(lo as int, hi as int)),
        decreases hi,
    {
        assert(v@.subrange(lo as int, hi as int).drop_last() =~= v@.subrange(lo as int, hi - 1));
        hi = hi - 1;
    }
    sub_chars(v, lo, hi)
}

/// The trimmed text of a string slice.
pub fn trim_str(s: &str) -> (r: String)
    ensures
        r@ == trim(s@),
{
    let v = chars_of(s);
    let t = trim_chars(&v);
    string_of(t.as_slice())
}

// ─── Searching ──────────────────────────────────────────────────────────────

/// `t` occurs in `s` at position `i`.
pub open spec fn occurs_at(s: Seq<char>, t: Seq<char>, i: int) -> bool {
    0 <= i && i + t.len() <= s.len() && s.subrange(i, i + t.len()) == t
}

/// `t` occurs somewhere in `s` (`str::contains` with a string pattern).
pub open spec fn has_sub(s: Seq<char>, t: Seq<char>) -> bool {
    exists|i: int| occurs_at(s, t, i)
}

fn matches_at(s: &Vec<char>, t: &Vec<char>, i: usize) -> (b: bool)
    requires
        i + t.len() <= s.len(),
    ensures
        b == occurs_at(s@, t@, i as int),
{
    let m = t.len();
    let mut j: usize = 0;
    while j < m
        invariant
            m == t.len(),
            i + m <= s.len(),
            j <= m,
            s@.subrange(i as int, i + j) == t@.take(j as int),
        decreases m - j,
    {
        if s[i + j] != t[j] {
            assert(s@.subrange(i as int, i + m)[j as int] != t@[j as int]);
            return false;
        }
        assert(s@.subrange(i as int, i + j + 1) =~= t@.take(j + 1));
        j = j + 1;
    }
    assert(t@.take(m as int) =~= t@);
    true
}

/// Tests whether `t` occurs in `s`.
pub fn contains_chars(s: &Vec<char>, t: &Vec<char>) -> (b: bool)
    ensures
        b == has_sub(s@, t@),
{
    if t.len() > s.len() {
        return false;
    }
    let last = s.len() - t.len();
    let mut i: usize = 0;
    loop
        invariant
            last == s.len() - t.len(),
            t.len() <= s.len(),
            i <= last,
            forall|k: int| 0 <= k < i ==> !occurs_at(s@, t@, k),
        decreases last - i,
    {
        if matches_at(s, t, i) {
            return true;
        }
        if i == last {
            return false;
        }
        i = i + 1;
    }
}

/// Tests whether the text `t` occurs in the text `s`.
pub fn str_contains(s: &str, t: &str) -> (b: bool)
    ensures
        b == has_sub(s@, t@),
{
    let sv = chars_of(s);
    let tv = chars_of(t);
    contains_chars(&sv, &tv)
}


// ─── Affixes ────────────────────────────────────────────────────────────────

/// `s` without the suffix `t`, when it ends with it (`str::strip_suffix`).
pub open spec fn strip_suffix(s: Seq<char>, t: Seq<char>) -> Option<Seq<char>> {
    if t.len() <= s.len() && s.subrange(s.len() - t.len(), s.len() as int) == t {
        Some(s.take(s.len() - t.len()))
    } else {
        None
    }
}

/// `s` with the suffix `t` removed where it has it, else `s` itself.
pub open spec fn without_suffix(s: Seq<char>, t: Seq<char>) -> Seq<char> {
    match strip_suffix(s, t) {
        Some(r) => r,
        None => s,
    }
}

/// Removes the suffix `t` from `s` where `s` ends with it.
pub fn chars_without_suffix(s: &Vec<char>, t: &Vec<char>) -> (r: Vec<char>)
    ensures
        r@ == without_suffix(s@, t@),
{
    if t.len() <= s.len() && matches_at(s, t, s.len() - t.len()) {
        sub_chars(s, 0, s.len() - t.len())
    } else {
        sub_chars(s, 0, s.len())
    }
}

/// `s` with every trailing `c` removed (`str::trim_end_matches` with a char).
pub open spec fn trim_end_char(s: Seq<char>, c: char) -> Seq<char>
    decreases s.len(),
{
    if s.len() > 0 && s.last() == c {
        trim_end_char(s.drop_last(), c)
    } else {
        s
    }
}

/// Removes every trailing `c` from `s`.
pub fn chars_trim_end_char(s: &Vec<char>, c: char) -> (r: Vec<char>)
    ensures
        r@ == trim_end_char(s@, c),
{
    let mut hi = s.len();
    assert(s@.subrange(0, hi as int) =~= s@);
    while hi > 0 && s[hi - 1] == c
        invariant
            hi <= s.len(),
            trim_end_char(s@, c) == trim_end_char(s@.subrange(0, hi as int), c),
        decreases hi,
    {
        assert(s@.subrange(0, hi as int).drop_last() =~= s@.subrange(0, hi - 1));
        hi = hi - 1;
    }
    sub_chars(s, 0, hi)
}

// ─── Joining and quoting ────────────────────────────────────────────────────

/// The pieces in order with `sep` between each two of them.
pub open spec fn join(ps: Seq<Seq<char>>, sep: Seq<char>) -> Seq<char>
    decreases ps.len(),
{
    if ps.len() == 0 {
        Seq::empty()
    } else if ps.len() == 1 {
        ps[0]
    } else {
        join(ps.drop_last(), sep) + sep + ps.last()
    }
}

/// Joins `ps[from..]` with single spaces.
pub fn join_from(ps: &Vec<Vec<char>>, from: usize) -> (r: Vec<char>)
    requires
        from <= ps.len(),
    ensures
        r@ == join(ps.deep_view().skip(from as int), seq![' ']),
{
    let ghost all = ps.deep_view().skip(from as int);
    let mut r: Vec<char> = Vec::new();
    let mut i = from;
    assert(all.take(0) =~= Seq::<Seq<char>>::empty());
    while i < ps.len()
        invariant
            from <= i <= ps.len(),
            all == ps.deep_view().skip(from as int),
            r@ == join(all.take(i - from), seq![' ']),
        decreases ps.len() - i,
    {
        let ghost k = i - from;
        assert(all.take(k + 1).drop_last() =~= all.take(k));
        assert(ps[i as int].deep_view() =~= ps[i as int]@);
        assert(all[k] == ps[i as int]@);
        if i > from {
            r.push(' ');
        }
        let mut j: usize = 0;
        let ghost base = r@;
        while j < ps[i].len()
            invariant
                i < ps.len(),
                j <= ps[i as int].len(),
                r@ == base + ps[i as int]@.take(j as int),
            decreases ps[i as int].len() - j,
        {
            r.push(ps[i][j]);
            assert(ps[i as int]@.take(j + 1) =~= ps[i as int]@.take(j as int).push(ps[i as int]@[j as int]));
            j = j + 1;
        }
        assert(ps[i as int]@.take(j as int) =~= ps[i as int]@);
        if i == from {
            assert(all.take(1).len() == 1);
        } else {
            assert(r@ =~= join(all.take(k), seq![' ']) + seq![' '] + all.take(k + 1).last());
        }
        i = i + 1;
    }
    assert(all.take(ps.len() - from) =~= all);
    r
}

/// The four characters that stand for one single quote inside a
/// single-quoted shell word: close the quote, an escaped quote, reopen.
pub open spec fn quoted_quote() -> Seq<char> {
    seq!['\'', '\\', '\'', '\'']
}

/// `s` with every single quote replaced by `'\''`
/// (`str::replace("'", "'\\''")`).
pub open spec fn escape_quotes(s: Seq<char>) -> Seq<char>
    decreases s.len(),
{
    if s.len() == 0 {
        Seq::empty()
    } else {
        escape_quotes(s.drop_last()) + if s.last() == '\'' {
            quoted_quote()
        } else {
            seq![s.last()]
        }
    }
}

/// Replaces each single quote by the sequence that keeps it inside a
/// single-quoted shell word.
pub fn escape_quotes_chars(s: &Vec<char>) -> (r: Vec<char>)
    ensures
        r@ == escape_quotes(s@),
{
    let mut r: Vec<char> = Vec::new();
    assert(s@.take(0) =~= Seq::<char>::empty());
    for i in 0..s.len()
        invariant
            r@ == escape_quotes(s@.take(i as int)),
    {
        assert(s@.take(i + 1).drop_last() =~= s@.take(i as int));
        let ghost before = r@;
        if s[i] == '\'' {
            r.push('\'');
            r.push('\\');
            r.push('\'');
            r.push('\'');
            assert(r@ =~= before + quoted_quote());
        } else {
            r.push(s[i]);
            assert(r@ =~= before + seq![s[i as int]]);
        }
    }
    assert(s@.take(s.len() as int) =~= s@);
    r
}

// ─── Numbers ────────────────────────────────────────────────────────────────

/// Why text is not an unsigned integer (the kinds of `ParseIntError` that an
/// unsigned parse can give).
#[derive(Clone, Copy, PartialEq, Eq, Structural, Debug)]
pub enum IntError {
    Empty,
    InvalidDigit,
    PosOverflow,
}

pub open spec fn is_digit(c: char) -> bool {
    '0' <= c && c <= '9'
}

pub open spec fn digit_value(c: char) -> int {
    c as int - '0' as int
}

/// Reads decimal digits left to right; the first character that is no
/// digit, or the first that takes the value above `max`, decides the error.
pub open spec fn scan_digits(d: Seq<char>, max: int) -> Result<int, IntError>
    decreases d.len(),
{
    if d.len() == 0 {
        Ok(0)
    } else {
        match scan_digits(d.drop_last(), max) {
            Err(e) => Err(e),
            Ok(v) => if !is_digit(d.last()) {
                Err(IntError::InvalidDigit)
            } else if v * 10 + digit_value(d.last()) > max {
                Err(IntError::PosOverflow)
            } else {
                Ok(v * 10 + digit_value(d.last()))
            },
        }
    }
}

/// The unsigned integer, at most `max`, that `s` spells in decimal with an
/// optional leading `+` (`str::parse` for unsigned integer types).
pub open spec fn parse_uint(s: Seq<char>, max: int) -> Result<int, IntError> {
    if s.len() == 0 {
        Err(IntError::Empty)
    } else if s.len() == 1 && (s[0] == '+' || s[0] == '-') {
        Err(IntError::InvalidDigit)
    } else if s[0] == '+' {
        scan_digits(s.drop_first(), max)
    } else {
        scan_digits(s, max)
    }
}

proof fn lemma_scan_bounds(d: Seq<char>, max: int)
    requires
        max >= 0,
    ensures
        scan_digits(d, max) matches Ok(v) ==> 0 <= v <= max,
    decreases d.len(),
{
    if d.len() > 0 {
        lemma_scan_bounds(d.drop_last(), max);
    }
}

fn scan_digits_exec(s: &Vec<char>, from: usize, max: u64) -> (r: Result<u64, IntError>)
    requires
        from <= s.len(),
    ensures
        match scan_digits(s@.skip(from as int), max as int) {
            Ok(v) => r == Ok::<u64, IntError>(v as u64),
            Err(e) => r == Err::<u64, IntError>(e),
        },
{
    let ghost d = s@.skip(from as int);
    let mut v: u64 = 0;
    let mut i = from;
    assert(d.take(0) =~= Seq::<char>::empty());
    while i < s.len()
        invariant
            from <= i <= s.len(),
            d == s@.skip(from as int),
            scan_digits(d.take(i - from), max as int) == Ok::<int, IntError>(v as int),
        decreases s.len() - i,
    {
        let ghost k = i - from;
        assert(d.take(k + 1).drop_last() =~= d.take(k));
        assert(d.take(k + 1).last() == s@[i as int]);
        proof {
            lemma_scan_bounds(d.take(k), max as int);
        }
        let c = s[i];
        if !('0' <= c && c <= '9') {
            proof {
                lemma_scan_prefix_err(d, k + 1, IntError::InvalidDigit, max as int);
            }
            return Err(IntError::InvalidDigit);
        }
        let dv = (c as u32 - '0' as u32) as u64;
        let next: u128 = (v as u128) * 10 + dv as u128;
        if next > max as u128 {
            proof {
                lemma_scan_prefix_err(d, k + 1, IntError::PosOverflow, max as int);
            }
            return Err(IntError::PosOverflow);
        }
        v = next as u64;
        i = i + 1;
    }
    assert(d.take(s.len() - from) =~= d);
    Ok(v)
}

/// Once a prefix of the digits fails, the whole text fails the same way.
proof fn lemma_scan_prefix_err(d: Seq<char>, k: int, e: IntError, max: int)
    requires
        0 < k <= d.len(),
        scan_digits(d.take(k), max) == Err::<int, IntError>(e),
    ensures
        scan_digits(d, max) == Err::<int, IntError>(e),
    decreases d.len() - k,
{
    if k < d.len() {
        assert(d.take(k + 1).drop_last() =~= d.take(k));
        lemma_scan_prefix_err(d, k + 1, e, max);
    } else {
        assert(d.take(k) =~= d);
    }
}

/// Parses an unsigned decimal integer of at most `max` (see `parse_uint`).
pub fn parse_uint_chars(s: &Vec<char>, max: u64) -> (r: Result<u64, IntError>)
    ensures
        match parse_uint(s@, max as int) {
            Ok(v) => r == Ok::<u64, IntError>(v as u64),
            Err(e) => r == Err::<u64, IntError>(e),
        },
{
    if s.len() == 0 {
        Err(IntError::Empty)
    } else if s.len() == 1 && (s[0] == '+' || s[0] == '-') {
        Err(IntError::InvalidDigit)
    } else if s[0] == '+' {
        assert(s@.skip(1) =~= s@.drop_first());
        scan_digits_exec(s, 1, max)
    } else {
        assert(s@.skip(0) =~= s@);
        scan_digits_exec(s, 0, max)
    }
}

/// The value of `parse_uint`, or 0 where it fails (`parse().unwrap_or(0)`).
pub open spec fn uint_or_zero(s: Seq<char>, max: int) -> int {
    match parse_uint(s, max) {
        Ok(v) => v,
        Err(_) => 0,
    }
}

/// Parses a `u64`, giving 0 for text that is not one.
pub fn u64_or_zero(s: &Vec<char>) -> (r: u64)
    ensures
        r == uint_or_zero(s@, u64::MAX as int),
{
    proof {
        lemma_parse_bounds(s@, u64::MAX as int);
    }
    match parse_uint_chars(s, u64::MAX) {
        Ok(v) => v,
        Err(_) => 0,
    }
}

/// Parses a `u32`, giving 0 for text that is not one.
pub fn u32_or_zero(s: &Vec<char>) -> (r: u32)
    ensures
        r == uint_or_zero(s@, u32::MAX as int),
{
    proof {
        lemma_parse_bounds(s@, u32::MAX as int);
    }
    match parse_uint_chars(s, u32::MAX as u64) {
        Ok(v) => v as u32,
        Err(_) => 0,
    }
}

pub proof fn lemma_parse_bounds(s: Seq<char>, max: int)
    requires
        max >= 0,
    ensures
        parse_uint(s, max) matches Ok(v) ==> 0 <= v <= max,
{
    if s.len() > 0 {
        lemma_scan_bounds(s, max);
        lemma_scan_bounds(s.drop_first(), max);
    }
}

/// The text that `ParseIntError` displays for each kind.
pub open spec fn int_error_text(e: IntError) -> Seq<char> {
    match e {
        IntError::Empty => "cannot parse integer from empty string"@,
        IntError::InvalidDigit => "invalid digit found in string"@,
        IntError::PosOverflow => "number too large to fit in target type"@,
    }
}

impl IntError {
    /// The message of this error, as `ParseIntError` displays it.
    pub fn message(&self) -> (r: String)
        ensures
            r@ == int_error_text(*self),
    {
        match self {
            IntError::Empty => String::from_str("cannot parse integer from empty string"),
            IntError::InvalidDigit => String::from_str("invalid digit found in string"),
            IntError::PosOverflow => String::from_str("number too large to fit in target type"),
        }
    }
}

/// The digit character for a value below 16, lower-case past 9.
pub open spec fn digit_char(d: nat) -> char {
    if d < 10 {
        (48 + d) as char
    } else {
        (87 + d) as char
    }
}

/// `n` written in base `b` without leading zeros ("0" for zero).
pub open spec fn radix_text(n: nat, b: nat) -> Seq<char>
    recommends
        2 <= b <= 16,
    decreases n,
{
    if b < 2 || n < b {
        seq![digit_char(n % 16)]
    } else {
        proof {
            assert(n / b < n) by (nonlinear_arith)
                requires
                    b >= 2,
                    n >= b,
            ;
        }
        radix_text(n / b, b).push(digit_char(n % b))
    }
}

/// `n` in decimal (`to_string` of an unsigned integer).
pub open spec fn decimal(n: nat) -> Seq<char> {
    radix_text(n, 10)
}

/// `n` in lower-case hexadecimal (`format!("{:x}", n)`).
pub open spec fn hex(n: nat) -> Seq<char> {
    radix_text(n, 16)
}

fn digit_char_exec(d: u64) -> (c: char)
    requires
        d < 16,
    ensures
        c == digit_char(d as nat),
{
    if d < 10 {
        ((48 + d) as u8) as char
    } else {
        ((87 + d) as u8) as char
    }
}

fn push_radix(n: u64, b: u64, out: &mut Vec<char>)
    requires
        b == 10 || b == 16,
    ensures
        final(out)@ == old(out)@ + radix_text(n as nat, b as nat),
    decreases n,
{
    if n < b {
        out.push(digit_char_exec(n));
        assert(n as nat % 16 == n);
    } else {
        push_radix(n / b, b, out);
        out.push(digit_char_exec(n % b));
    }
}

/// `n` in decimal.
pub fn decimal_chars(n: u64) -> (r: Vec<char>)
    ensures
        r@ == decimal(n as nat),
{
    let mut r: Vec<char> = Vec::new();
    push_radix(n, 10, &mut r);
    assert(r@ =~= decimal(n as nat));
    r
}

/// `n` in lower-case hexadecimal.
pub fn hex_chars(n: u64) -> (r: Vec<char>)
    ensures
        r@ == hex(n as nat),
{
    let mut r: Vec<char> = Vec::new();
    push_radix(n, 16, &mut r);
    assert(r@ =~= hex(n as nat));
    r
}

/// `n` in decimal, as a `String`.
pub fn decimal_string(n: u64) -> (s: String)
    ensures
        s@ == decimal(n as nat),
{
    let v = decimal_chars(n);
    string_of(v.as_slice())
}

/// `s` padded on the left with zeros to at least `w` characters
/// (the `0` flag with a width in `format!`).
pub open spec fn zero_pad(s: Seq<char>, w: nat) -> Seq<char> {
    if s.len() >= w {
        s
    } else {
        Seq::new((w - s.len()) as nat, |_i: int| '0') + s
    }
}

/// Pads on the left with zeros to at least `w` characters.
pub fn zero_pad_chars(s: &Vec<char>, w: usize) -> (r: Vec<char>)
    ensures
        r@ == zero_pad(s@, w as nat),
{
    let mut r: Vec<char> = Vec::new();
    if s.len() < w {
        let k = w - s.len();
        let mut i: usize = 0;
        while i < k
            invariant
                i <= k,
                r@ == Seq::new(i as nat, |_i: int| '0'),
            decreases k - i,
        {
            r.push('0');
            i = i + 1;
            assert(r@ =~= Seq::new(i as nat, |_i: int| '0'));
        }
    }
    let ghost pre = r@;
    let mut j: usize = 0;
    while j < s.len()
        invariant
            j <= s.len(),
            r@ == pre + s@.take(j as int),
        decreases s.len() - j,
    {
        r.push(s[j]);
        assert(s@.take(j + 1) =~= s@.take(j as int).push(s@[j as int]));
        j = j + 1;
    }
    assert(s@.take(s.len() as int) =~= s@);
    if s.len() >= w {
        assert(r@ =~= s@);
    } else {
        assert(r@ =~= zero_pad(s@, w as nat));
    }
    r
}


/// Tests two texts for equality.
pub fn str_eq(a: &str, b: &str) -> (r: bool)
    ensures
        r == (a@ == b@),
{
    let x = chars_of(a);
    let y = chars_of(b);
    if x.len() != y.len() {
        return false;
    }
    let mut i: usize = 0;
    while i < x.len()
        invariant
            x@ == a@,
            y@ == b@,
            x.len() == y.len(),
            i <= x.len(),
            forall|k: int| 0 <= k < i ==> x@[k] == y@[k],
        decreases x.len() - i,
    {
        if x[i] != y[i] {
            assert(x@[i as int] != y@[i as int]);
            return false;
        }
        i = i + 1;
    }
    assert(x@ =~= y@);
    true
}

/// `s` with each single quote written as `'\\''`.
pub fn escape_quotes_str(s: &str) -> (r: String)
    ensures
        r@ == escape_quotes(s@),
{
    let v = chars_of(s);
    let e = escape_quotes_chars(&v);
    string_of(e.as_slice())
}


proof fn lemma_scan_decimal(n: nat, max: int)
    requires
        n <= max,
    ensures
        scan_digits(decimal(n), max) == Ok::<int, IntError>(n as int),
        decimal(n).len() > 0,
        is_digit(decimal(n)[0]),
    decreases n,
{
    let d = decimal(n);
    if n < 10 {
        assert(d =~= seq![digit_char(n)]);
        assert(d.drop_last() =~= Seq::<char>::empty());
        assert(digit_value(digit_char(n)) == n);
        assert(is_digit(d.last()));
        assert(scan_digits(d.drop_last(), max) == Ok::<int, IntError>(0));
        assert(0 * 10 + digit_value(d.last()) == n);
    } else {
        assert(n / 10 < n) by (nonlinear_arith)
            requires
                n >= 10,
        ;
        assert(n / 10 <= max) by (nonlinear_arith)
            requires
                n <= max,
                n >= 10,
        ;
        lemma_scan_decimal(n / 10, max);
        assert(d.drop_last() =~= decimal(n / 10));
        assert(d.last() == digit_char(n % 10));
        assert(digit_value(digit_char(n % 10)) == n % 10);
        assert((n / 10) * 10 + n % 10 == n) by (nonlinear_arith);
        assert(d[0] == decimal(n / 10)[0]);
        assert(is_digit(d.last()));
        assert(scan_digits(d.drop_last(), max) == Ok::<int, IntError>((n / 10) as int));
        assert((n / 10) * 10 + digit_value(d.last()) == n);
    }
}

/// Reading back a number written in decimal gives the number: parsing
/// undoes `decimal_string` for every value the parse admits.
pub proof fn law_decimal_round_trip(n: nat, max: int)
    requires
        n <= max,
    ensures
        parse_uint(decimal(n), max) == Ok::<int, IntError>(n as int),
{
    lemma_scan_decimal(n, max);
    let d = decimal(n);
    assert(d[0] != '+' && d[0] != '-');
}

} // verus!
