//! Character-level text handling: trimming, line splitting, searching and
//! decimal rendering, each stated over `Seq<char>`.
use vstd::prelude::*;

verus! {

/// `String::push` appends one character.
pub assume_specification[ String::push ](s: &mut String, ch: char)
    ensures
        final(s)@ == old(s)@.push(ch),
;

/// The Unicode `White_Space` property, which is what `char::is_whitespace`
/// (and so `str::trim` and `str::split_whitespace`) tests.
pub open spec fn is_white_space(c: char) -> bool {
    ||| ('\t' <= c && c <= '\r')
    ||| c == ' '
    ||| c == '\u{85}'
    ||| c == '\u{a0}'
    ||| c == '\u{1680}'
    ||| ('\u{2000}' <= c && c <= '\u{200a}')
    ||| c == '\u{2028}'
    ||| c == '\u{2029}'
    ||| c == '\u{202f}'
    ||| c == '\u{205f}'
    ||| c == '\u{3000}'
}

pub fn is_white_space_char(c: char) -> (r: bool)
    ensures
        r == is_white_space(c),
{
    ('\t' <= c && c <= '\r') || c == ' ' || c == '\u{85}' || c == '\u{a0}' || c == '\u{1680}'
        || ('\u{2000}' <= c && c <= '\u{200a}') || c == '\u{2028}' || c == '\u{2029}'
        || c == '\u{202f}' || c == '\u{205f}' || c == '\u{3000}'
}

/// `s` without its leading white space.
pub open spec fn trim_start(s: Seq<char>) -> Seq<char>
    decreases s.len(),
{
    if s.len() > 0 && is_white_space(s[0]) {
        trim_start(s.drop_first())
    } else {
        s
    }
}

/// `s` without its trailing white space.
pub open spec fn trim_end(s: Seq<char>) -> Seq<char>
    decreases s.len(),
{
    if s.len() > 0 && is_white_space(s.last()) {
        trim_end(s.drop_last())
    } else {
        s
    }
}

/// `str::trim`: white space removed at both ends.
pub open spec fn trim(s: Seq<char>) -> Seq<char> {
    trim_end(trim_start(s))
}

/// The pieces of `s` between occurrences of `sep`, as `str::split` and
/// `slice::split` give them: always at least one piece, empty pieces kept.
pub open spec fn split_on<A>(s: Seq<A>, sep: A) -> Seq<Seq<A>>
    decreases s.len(),
{
    if s.len() == 0 {
        seq![Seq::<A>::empty()]
    } else {
        let p = split_on(s.drop_last(), sep);
        if s.last() == sep {
            p.push(Seq::<A>::empty())
        } else {
            p.update(p.len() - 1, p.last().push(s.last()))
        }
    }
}

/// A line without the carriage return that ended it.
pub open spec fn strip_cr(l: Seq<char>) -> Seq<char> {
    if l.len() > 0 && l.last() == '\r' {
        l.drop_last()
    } else {
        l
    }
}

/// `str::lines`: split at `\n`; a line that a `\n` ended loses one `\r`
/// before it; a final empty piece is no line.
pub open spec fn lines_of(s: Seq<char>) -> Seq<Seq<char>> {
    let p = split_on(s, '\n');
    p.take(p.len() - 1).map_values(|l: Seq<char>| strip_cr(l)) + if p.last().len() > 0 {
        seq![p.last()]
    } else {
        Seq::<Seq<char>>::empty()
    }
}

/// `BufRead::split(b'\n')`: the pieces between newline bytes, without a
/// final empty piece.
pub open spec fn byte_segments(b: Seq<u8>) -> Seq<Seq<u8>> {
    let p = split_on(b, 10u8);
    p.take(p.len() - 1) + if p.last().len() > 0 {
        seq![p.last()]
    } else {
        Seq::<Seq<u8>>::empty()
    }
}

/// `str::trim_end_matches('\r')`.
pub open spec fn trim_end_cr(s: Seq<char>) -> Seq<char>
    decreases s.len(),
{
    if s.len() > 0 && s.last() == '\r' {
        trim_end_cr(s.drop_last())
    } else {
        s
    }
}

pub open spec fn has_prefix<A>(s: Seq<A>, p: Seq<A>) -> bool {
    p.len() <= s.len() && s.take(p.len() as int) == p
}

pub open spec fn has_suffix<A>(s: Seq<A>, p: Seq<A>) -> bool {
    p.len() <= s.len() && s.skip(s.len() - p.len()) == p
}

pub open spec fn has_infix<A>(s: Seq<A>, p: Seq<A>) -> bool {
    exists|i: int| 0 <= i && i + p.len() <= s.len() && #[trigger] s.subrange(i, i + p.len()) == p
}

/// The trailing run of non-white-space characters of `t`.
pub open spec fn word_tail(t: Seq<char>) -> Seq<char>
    decreases t.len(),
{
    if t.len() > 0 && !is_white_space(t.last()) {
        word_tail(t.drop_last()).push(t.last())
    } else {
        Seq::<char>::empty()
    }
}

/// `s.split_whitespace().last()`.
pub open spec fn last_word(s: Seq<char>) -> Option<Seq<char>> {
    let w = word_tail(trim_end(s));
    if w.len() == 0 {
        None
    } else {
        Some(w)
    }
}

pub open spec fn digit_char(d: nat) -> char {
    ((48 + d) as u8) as char
}

/// Decimal digits of `n`, as `Display` writes an unsigned integer.
pub open spec fn decimal_nat(n: nat) -> Seq<char>
    decreases n,
{
    if n < 10 {
        seq![digit_char(n)]
    } else {
        decimal_nat(n / 10).push(digit_char(n % 10))
    }
}

/// `Display` of a signed integer.
pub open spec fn decimal_int(i: int) -> Seq<char> {
    if i < 0 {
        seq!['-'] + decimal_nat((-i) as nat)
    } else {
        decimal_nat(i as nat)
    }
}

pub open spec fn views(v: Seq<String>) -> Seq<Seq<char>> {
    v.map_values(|s: String| s@)
}

pub open spec fn opt_view(o: Option<String>) -> Option<Seq<char>> {
    match o {
        Some(s) => Some(s@),
        None => None,
    }
}

/// The characters of `s`.
pub fn chars_of(s: &str) -> (v: Vec<char>)
    ensures
        v@ == s@,
{
    let mut v: Vec<char> = Vec::new();
    for c in it: s.chars()
        invariant
            v@ == it.seq().take(it.index() as int),
    {
        v.push(c);
    }
    v
}

/// The string made of the characters `v[from..to]`.
pub fn string_of_range(v: &[char], from: usize, to: usize) -> (s: String)
    requires
        from <= to <= v@.len(),
    ensures
        s@ == v@.subrange(from as int, to as int),
{
    let mut s = String::new();
    let mut i: usize = from;
    while i < to
        invariant
            from <= i <= to <= v@.len(),
            s@ == v@.subrange(from as int, i as int),
        decreases to - i,
    {
        s.push(v[i]);
        i = i + 1;
        assert(s@ == v@.subrange(from as int, i as int));
    }
    s
}

pub fn string_of(v: &[char]) -> (s: String)
    ensures
        s@ == v@,
{
    assert(v@.subrange(0, v@.len() as int) == v@);
    string_of_range(v, 0, v.len())
}

/// `a` followed by `b`.
pub fn concat(a: &str, b: &str) -> (s: String)
    ensures
        s@ == a@ + b@,
{
    let mut s = a.to_string();
    s.append(b);
    s
}

/// Index of the first character that is not white space (or the length).
pub fn trim_start_index(v: &[char]) -> (i: usize)
    ensures
        i <= v@.len(),
        trim_start(v@) == v@.skip(i as int),
        forall|k: int| 0 <= k < i ==> is_white_space(#[trigger] v@[k]),
{
    let mut i: usize = 0;
    assert(v@.skip(0) == v@);
    while i < v.len() && is_white_space_char(v[i])
        invariant
            i <= v@.len(),
            trim_start(v@) == trim_start(v@.skip(i as int)),
            forall|k: int| 0 <= k < i ==> is_white_space(#[trigger] v@[k]),
        decreases v.len() - i,
    {
        assert(v@.skip(i as int).drop_first() == v@.skip(i + 1));
        i = i + 1;
    }
    i
}

/// End of `v[from..to]` once trailing white space is dropped.
pub fn trim_end_index(v: &[char], from: usize, to: usize) -> (j: usize)
    requires
        from <= to <= v@.len(),
    ensures
        from <= j <= to,
        trim_end(v@.subrange(from as int, to as int)) == v@.subrange(from as int, j as int),
        j == from || !is_white_space(v@[j - 1]),
{
    let mut j: usize = to;
    while j > from && is_white_space_char(v[j - 1])
        invariant
            from <= j <= to <= v@.len(),
            trim_end(v@.subrange(from as int, to as int)) == trim_end(
                v@.subrange(from as int, j as int),
            ),
        decreases j,
    {
        assert(v@.subrange(from as int, j as int).drop_last() == v@.subrange(
            from as int,
            j - 1,
        ));
        j = j - 1;
    }
    j
}

/// Bounds `[a, b)` of `trim(v)` within `v`.
pub fn trim_bounds(v: &[char]) -> (r: (usize, usize))
    ensures
        r.0 <= r.1 <= v@.len(),
        trim(v@) == v@.subrange(r.0 as int, r.1 as int),
{
    let a = trim_start_index(v);
    assert(v@.subrange(a as int, v@.len() as int) == v@.skip(a as int));
    let b = trim_end_index(v, a, v.len());
    (a, b)
}

/// `s.trim().to_string()`.
pub fn trim_string(s: &str) -> (r: String)
    ensures
        r@ == trim(s@),
{
    let v = chars_of(s);
    let (a, b) = trim_bounds(v.as_slice());
    string_of_range(v.as_slice(), a, b)
}

/// `s.trim().is_empty()`.
pub fn is_blank(s: &str) -> (r: bool)
    ensures
        r == (trim(s@).len() == 0),
{
    let v = chars_of(s);
    let (a, b) = trim_bounds(v.as_slice());
    a == b
}

/// Whether `v[at..]` starts with `p`.
pub fn matches_at(v: &[char], at: usize, p: &[char]) -> (r: bool)
    requires
        at <= v@.len(),
    ensures
        r == (at + p@.len() <= v@.len() && v@.subrange(at as int, at + p@.len()) == p@),
{
    if p.len() > v.len() - at {
        return false;
    }
    let mut k: usize = 0;
    while k < p.len()
        invariant
            at + p@.len() <= v@.len(),
            v@.len() == v.len(),
            k <= p@.len(),
            forall|m: int| 0 <= m < k ==> v@[at + m] == p@[m],
        decreases p.len() - k,
    {
        if v[at + k] != p[k] {
            assert(v@.subrange(at as int, at + p@.len())[k as int] != p@[k as int]);
            return false;
        }
        k = k + 1;
    }
    assert(v@.subrange(at as int, at + p@.len()) == p@);
    true
}

pub fn starts_with_chars(v: &[char], p: &[char]) -> (r: bool)
    ensures
        r == has_prefix(v@, p@),
{
    let r = matches_at(v, 0, p);
    assert(r ==> v@.subrange(0, p@.len() as int) == v@.take(p@.len() as int));
    proof {
        if p@.len() <= v@.len() {
            assert(v@.subrange(0, p@.len() as int) == v@.take(p@.len() as int));
        }
    }
    r
}

pub fn ends_with_chars(v: &[char], p: &[char]) -> (r: bool)
    ensures
        r == has_suffix(v@, p@),
{
    if p.len() > v.len() {
        return false;
    }
    let at = v.len() - p.len();
    let r = matches_at(v, at, p);
    assert(v@.subrange(at as int, at + p@.len()) == v@.skip(at as int));
    r
}

pub fn contains_chars(v: &[char], p: &[char]) -> (r: bool)
    ensures
        r == has_infix(v@, p@),
{
    if p.len() > v.len() {
        return false;
    }
    if p.len() == 0 {
        assert(v@.subrange(0, 0 + p@.len() as int) == p@);
        return true;
    }
    let last = v.len() - p.len();
    let mut i: usize = 0;
    while i <= last
        invariant
            last + p@.len() == v@.len(),
            v@.len() == v.len(),
            p@.len() > 0,
            i <= last + 1,
            forall|k: int| 0 <= k < i ==> #[trigger] v@.subrange(k, k + p@.len()) != p@,
        decreases last + 1 - i,
    {
        if matches_at(v, i, p) {
            return true;
        }
        i = i + 1;
    }
    assert forall|k: int| 0 <= k && k + p@.len() <= v@.len() implies #[trigger] v@.subrange(
        k,
        k + p@.len(),
    ) != p@ by {}
    false
}

/// `s.ends_with(p)`.
pub fn str_ends_with(s: &str, p: &str) -> (r: bool)
    ensures
        r == has_suffix(s@, p@),
{
    let v = chars_of(s);
    let q = chars_of(p);
    ends_with_chars(v.as_slice(), q.as_slice())
}

/// `s.starts_with(p)`.
pub fn str_starts_with(s: &str, p: &str) -> (r: bool)
    ensures
        r == has_prefix(s@, p@),
{
    let v = chars_of(s);
    let q = chars_of(p);
    starts_with_chars(v.as_slice(), q.as_slice())
}

/// `s.contains(p)`.
pub fn str_contains(s: &str, p: &str) -> (r: bool)
    ensures
        r == has_infix(s@, p@),
{
    let v = chars_of(s);
    let q = chars_of(p);
    contains_chars(v.as_slice(), q.as_slice())
}

/// `s.lines()`, each line as a `String`.
pub fn lines(s: &str) -> (r: Vec<String>)
    ensures
        views(r@) == lines_of(s@),
{
    let v = chars_of(s);
    let mut out: Vec<String> = Vec::new();
    let mut start: usize = 0;
    let mut i: usize = 0;
    proof {
        assert(v@.take(0) =~= Seq::<char>::empty());
        assert(views(out@) =~= split_on(v@.take(0), '\n').take(0).map_values(
            |l: Seq<char>| strip_cr(l),
        ));
    }
    while i < v.len()
        invariant
            start <= i <= v@.len(),
            v@ == s@,
            split_on(v@.take(i as int), '\n').len() >= 1,
            views(out@) == ({
                let p = split_on(v@.take(i as int), '\n');
                p.take(p.len() - 1).map_values(|l: Seq<char>| strip_cr(l))
            }),
            split_on(v@.take(i as int), '\n').last() == v@.subrange(start as int, i as int),
        decreases v.len() - i,
    {
        let ghost p = split_on(v@.take(i as int), '\n');
        let ghost t = v@.take(i + 1);
        assert(t.drop_last() =~= v@.take(i as int));
        assert(t.last() == v@[i as int]);
        if v[i] == '\n' {
            let end = if i > start && v[i - 1] == '\r' {
                i - 1
            } else {
                i
            };
            let piece = string_of_range(v.as_slice(), start, end);
            proof {
                assert(piece@ == strip_cr(p.last()));
                let q = p.push(Seq::<char>::empty());
                assert(split_on(t, '\n') == q);
                assert(q.take(q.len() - 1) =~= p);
                assert(p.map_values(|l: Seq<char>| strip_cr(l)) =~= p.take(p.len() - 1).map_values(
                    |l: Seq<char>| strip_cr(l),
                ).push(strip_cr(p.last())));
            }
            let ghost old_out = out@;
            out.push(piece);
            assert(views(out@) =~= views(old_out).push(piece@));
            start = i + 1;
            assert(v@.subrange(start as int, (i + 1) as int) =~= Seq::<char>::empty());
        } else {
            proof {
                let q = p.update(p.len() - 1, p.last().push(v@[i as int]));
                assert(split_on(t, '\n') == q);
                assert(q.take(q.len() - 1) =~= p.take(p.len() - 1));
                assert(q.last() =~= v@.subrange(start as int, i + 1));
            }
        }
        i = i + 1;
    }
    proof {
        assert(v@.take(v@.len() as int) =~= v@);
    }
    let ghost p = split_on(v@, '\n');
    if start < v.len() {
        let piece = string_of_range(v.as_slice(), start, v.len());
        let ghost old_out = out@;
        out.push(piece);
        assert(views(out@) =~= views(old_out).push(piece@));
        assert(views(out@) =~= lines_of(s@));
    } else {
        assert(views(out@) =~= lines_of(s@));
    }
    out
}

/// The bytes `b[from..to]`.
pub fn bytes_of_range(b: &[u8], from: usize, to: usize) -> (r: Vec<u8>)
    requires
        from <= to <= b@.len(),
    ensures
        r@ == b@.subrange(from as int, to as int),
{
    let mut r: Vec<u8> = Vec::new();
    let mut i: usize = from;
    while i < to
        invariant
            from <= i <= to <= b@.len(),
            r@ == b@.subrange(from as int, i as int),
        decreases to - i,
    {
        r.push(b[i]);
        i = i + 1;
        assert(r@ == b@.subrange(from as int, i as int));
    }
    r
}

pub open spec fn byte_views(v: Seq<Vec<u8>>) -> Seq<Seq<u8>> {
    v.map_values(|x: Vec<u8>| x@)
}

/// `b.split(b'\n')` as `BufRead` yields it.
pub fn segments(b: &[u8]) -> (r: Vec<Vec<u8>>)
    ensures
        byte_views(r@) == byte_segments(b@),
{
    let mut out: Vec<Vec<u8>> = Vec::new();
    let mut start: usize = 0;
    let mut i: usize = 0;
    proof {
        assert(b@.take(0) =~= Seq::<u8>::empty());
        assert(byte_views(out@) =~= split_on(b@.take(0), 10u8).take(0));
    }
    while i < b.len()
        invariant
            start <= i <= b@.len(),
            split_on(b@.take(i as int), 10u8).len() >= 1,
            byte_views(out@) == ({
                let p = split_on(b@.take(i as int), 10u8);
                p.take(p.len() - 1)
            }),
            split_on(b@.take(i as int), 10u8).last() == b@.subrange(start as int, i as int),
        decreases b.len() - i,
    {
        let ghost p = split_on(b@.take(i as int), 10u8);
        let ghost t = b@.take(i + 1);
        assert(t.drop_last() =~= b@.take(i as int));
        assert(t.last() == b@[i as int]);
        if b[i] == 10u8 {
            let piece = bytes_of_range(b, start, i);
            proof {
                let q = p.push(Seq::<u8>::empty());
                assert(split_on(t, 10u8) == q);
                assert(q.take(q.len() - 1) =~= p);
                assert(p =~= p.take(p.len() - 1).push(p.last()));
            }
            let ghost old_out = out@;
            out.push(piece);
            assert(byte_views(out@) =~= byte_views(old_out).push(piece@));
            start = i + 1;
            assert(b@.subrange(start as int, (i + 1) as int) =~= Seq::<u8>::empty());
        } else {
            proof {
                let q = p.update(p.len() - 1, p.last().push(b@[i as int]));
                assert(split_on(t, 10u8) == q);
                assert(q.take(q.len() - 1) =~= p.take(p.len() - 1));
                assert(q.last() =~= b@.subrange(start as int, i + 1));
            }
        }
        i = i + 1;
    }
    proof {
        assert(b@.take(b@.len() as int) =~= b@);
    }
    if start < b.len() {
        let piece = bytes_of_range(b, start, b.len());
        let ghost old_out = out@;
        out.push(piece);
        assert(byte_views(out@) =~= byte_views(old_out).push(piece@));
        assert(byte_views(out@) =~= byte_segments(b@));
    } else {
        assert(byte_views(out@) =~= byte_segments(b@));
    }
    out
}

/// `s.trim_end_matches('\r')`.
pub fn trim_end_cr_string(s: &str) -> (r: String)
    ensures
        r@ == trim_end_cr(s@),
{
    let v = chars_of(s);
    let mut j: usize = v.len();
    assert(v@.subrange(0, v@.len() as int) =~= v@);
    while j > 0 && v[j - 1] == '\r'
        invariant
            j <= v@.len(),
            trim_end_cr(v@) == trim_end_cr(v@.subrange(0, j as int)),
        decreases j,
    {
        assert(v@.subrange(0, j as int).drop_last() =~= v@.subrange(0, j - 1));
        j = j - 1;
    }
    string_of_range(v.as_slice(), 0, j)
}

/// `s[..end].split_whitespace().last()`, as bounds within `v`.
pub fn last_word_bounds(v: &[char], end: usize) -> (r: Option<(usize, usize)>)
    requires
        end <= v@.len(),
    ensures
        match r {
            Some((k, j)) => k < j <= end && last_word(v@.take(end as int)) == Some(
                v@.subrange(k as int, j as int),
            ),
            None => last_word(v@.take(end as int)) is None,
        },
{
    let j = trim_end_index(v, 0, end);
    assert(v@.subrange(0, end as int) =~= v@.take(end as int));
    let mut k: usize = j;
    assert(v@.subrange(0, j as int) =~= v@.take(j as int));
    assert(v@.subrange(j as int, j as int) =~= Seq::<char>::empty());
    assert(word_tail(v@.take(j as int)) =~= word_tail(v@.take(k as int)) + v@.subrange(
        k as int,
        j as int,
    ));
    while k > 0 && !is_white_space_char(v[k - 1])
        invariant
            k <= j <= end <= v@.len(),
            word_tail(v@.take(j as int)) == word_tail(v@.take(k as int)) + v@.subrange(
                k as int,
                j as int,
            ),
        decreases k,
    {
        let ghost t = v@.take(k as int);
        assert(t.drop_last() =~= v@.take(k - 1));
        assert(word_tail(t) == word_tail(v@.take(k - 1)).push(v@[k - 1]));
        assert(word_tail(v@.take(k - 1)) + v@.subrange(k - 1, j as int) =~= word_tail(t)
            + v@.subrange(k as int, j as int));
        k = k - 1;
    }
    assert(word_tail(v@.take(k as int)) =~= Seq::<char>::empty());
    assert(word_tail(v@.take(j as int)) =~= v@.subrange(k as int, j as int));
    if k < j {
        Some((k, j))
    } else {
        None
    }
}

/// Appends the decimal digits of `n`.
pub fn push_decimal(s: &mut String, n: u64)
    ensures
        final(s)@ == old(s)@ + decimal_nat(n as nat),
    decreases n,
{
    if n >= 10 {
        push_decimal(s, n / 10);
    }
    let d: u8 = (n % 10) as u8;
    s.push((48u8 + d) as char);
    proof {
        if n >= 10 {
            assert(decimal_nat(n as nat) == decimal_nat((n / 10) as nat).push(
                digit_char((n % 10) as nat),
            ));
        }
    }
    assert(final(s)@ =~= old(s)@ + decimal_nat(n as nat));
}

/// `n.to_string()` for an `i32`.
pub fn decimal_i32(n: i32) -> (r: String)
    ensures
        r@ == decimal_int(n as int),
{
    let mut s = String::new();
    if n < 0 {
        s.push('-');
        let m: i64 = -(n as i64);
        push_decimal(&mut s, m as u64);
    } else {
        push_decimal(&mut s, n as u64);
    }
    assert(s@ =~= decimal_int(n as int));
    s
}

/// What `String::from_utf8_lossy` makes of the bytes `b`: their characters,
/// with U+FFFD for each ill-formed sequence.
pub uninterp spec fn utf8_lossy(b: Seq<u8>) -> Seq<char>;

/// Calls `String::from_utf8_lossy`. Claims that the result is `utf8_lossy`
/// of the bytes, and, as its documentation says, that well-formed UTF-8 is
/// decoded as it stands.
#[verifier::external_body]
pub(crate) fn lossy_string(b: &[u8]) -> (r: String)
    ensures
        r@ == utf8_lossy(b@),
        vstd::utf8::valid_utf8(b@) ==> r@ == vstd::utf8::decode_utf8(b@),
{
    String::from_utf8_lossy(b).into_owned()
}

/// What `str::to_lowercase` makes of `s` (Unicode lowercase mapping).
pub uninterp spec fn lowercase(s: Seq<char>) -> Seq<char>;

/// Calls `str::to_lowercase`; claims that the result is `lowercase` of `s`.
#[verifier::external_body]
pub(crate) fn to_lowercase(s: &str) -> (r: String)
    ensures
        r@ == lowercase(s@),
{
    s.to_lowercase()
}

/// `l` followed by one newline, for every `l` of `lines`, in order.
pub open spec fn newline_terminated(lines: Seq<Seq<char>>) -> Seq<char>
    decreases lines.len(),
{
    if lines.len() == 0 {
        Seq::<char>::empty()
    } else {
        newline_terminated(lines.drop_last()) + lines.last() + seq!['\n']
    }
}

/// The items of `parts` with `sep` between them.
pub open spec fn joined(parts: Seq<Seq<char>>, sep: Seq<char>) -> Seq<char>
    decreases parts.len(),
{
    if parts.len() == 0 {
        Seq::<char>::empty()
    } else if parts.len() == 1 {
        parts[0]
    } else {
        joined(parts.drop_last(), sep) + sep + parts.last()
    }
}

/// Each of `lines` followed by a newline, concatenated.
pub fn join_terminated(lines: &Vec<String>) -> (r: String)
    ensures
        r@ == newline_terminated(views(lines@)),
{
    let mut r = String::new();
    let mut i: usize = 0;
    while i < lines.len()
        invariant
            i <= lines@.len(),
            r@ == newline_terminated(views(lines@).take(i as int)),
        decreases lines.len() - i,
    {
        assert(views(lines@).take(i + 1).drop_last() =~= views(lines@).take(i as int));
        r.append(lines[i].as_str());
        r.push('\n');
        i = i + 1;
    }
    assert(views(lines@).take(lines@.len() as int) =~= views(lines@));
    r
}

/// The items of `parts` with `sep` between them.
pub fn join_with(parts: &Vec<String>, sep: &str) -> (r: String)
    ensures
        r@ == joined(views(parts@), sep@),
{
    let mut r = String::new();
    let mut i: usize = 0;
    while i < parts.len()
        invariant
            i <= parts@.len(),
            r@ == joined(views(parts@).take(i as int), sep@),
        decreases parts.len() - i,
    {
        assert(views(parts@).take(i + 1).drop_last() =~= views(parts@).take(i as int));
        if i > 0 {
            r.append(sep);
        } else {
            assert(r@ + parts@[0]@ =~= parts@[0]@);
        }
        r.append(parts[i].as_str());
        i = i + 1;
    }
    assert(views(parts@).take(parts@.len() as int) =~= views(parts@));
    r
}

proof fn lemma_split_single<A>(s: Seq<A>, c: A)
    ensures
        split_on(s, c).len() >= 1,
        split_on(s, c).len() == 1 <==> forall|j: int| 0 <= j < s.len() ==> s[j] != c,
    decreases s.len(),
{
    if s.len() > 0 {
        let d = s.drop_last();
        lemma_split_single(d, c);
        if forall|j: int| 0 <= j < s.len() ==> s[j] != c {
            assert forall|j: int| 0 <= j < d.len() implies d[j] != c by {
                assert(d[j] == s[j]);
            }
        }
        if forall|j: int| 0 <= j < d.len() ==> d[j] != c {
            if s.last() != c {
                assert forall|j: int| 0 <= j < s.len() implies s[j] != c by {
                    if j < d.len() {
                        assert(d[j] == s[j]);
                    }
                }
            }
        }
    }
}

/// The first piece of a split is everything before the first separator.
pub proof fn lemma_split_first_piece<A>(s: Seq<A>, c: A, i: int)
    requires
        0 <= i <= s.len(),
        forall|j: int| 0 <= j < i ==> s[j] != c,
        i == s.len() || s[i] == c,
    ensures
        split_on(s, c)[0] == s.take(i),
    decreases s.len(),
{
    lemma_split_single(s, c);
    if s.len() > 0 {
        let d = s.drop_last();
        lemma_split_single(d, c);
        if i == s.len() {
            lemma_split_first_piece(d, c, d.len() as int);
            assert(d.take(d.len() as int) =~= d);
            assert(s.take(i) =~= d.push(s.last()));
        } else if i == s.len() - 1 {
            assert forall|j: int| 0 <= j < d.len() implies d[j] != c by {
                assert(d[j] == s[j]);
            }
            lemma_split_first_piece(d, c, d.len() as int);
            assert(d.take(d.len() as int) =~= d);
            assert(s.take(i) =~= d);
        } else {
            assert(d[i] == s[i]);
            lemma_split_first_piece(d, c, i);
            assert(d.take(i) =~= s.take(i));
            assert(split_on(d, c).len() != 1);
        }
    }
}

/// Index of the first `c` in `v`, or the length when there is none; what
/// comes before it is the first piece of splitting `v` at `c`.
pub fn first_index_of(v: &[char], c: char) -> (i: usize)
    ensures
        i <= v@.len(),
        split_on(v@, c)[0] == v@.take(i as int),
        i < v@.len() <==> split_on(v@, c).len() > 1,
{
    let mut i: usize = 0;
    while i < v.len() && v[i] != c
        invariant
            i <= v@.len(),
            forall|j: int| 0 <= j < i ==> v@[j] != c,
        decreases v.len() - i,
    {
        i = i + 1;
    }
    proof {
        lemma_split_first_piece(v@, c, i as int);
        lemma_split_single(v@, c);
    }
    i
}

} // verus!

