//! Character-level text utilities with exact specifications: trimming,
//! splitting on a pattern, joining, replacing and decimal numerals.

use vstd::prelude::*;

verus! {

/// Appending one character to a `String`.
pub assume_specification[ std::string::String::push ](s: &mut std::string::String, ch: char)
    ensures
        final(s)@ == old(s)@.push(ch),
;

/// The views of a sequence of strings.
pub open spec fn views(v: Seq<String>) -> Seq<Seq<char>> {
    v.map_values(|s: String| s@)
}

/// Unicode `White_Space`, the set that `char::is_whitespace` tests.
pub open spec fn is_ws(c: char) -> bool {
    ||| '\u{9}' <= c <= '\u{d}'
    ||| c == ' '
    ||| c == '\u{85}'
    ||| c == '\u{a0}'
    ||| c == '\u{1680}'
    ||| '\u{2000}' <= c <= '\u{200a}'
    ||| c == '\u{2028}'
    ||| c == '\u{2029}'
    ||| c == '\u{202f}'
    ||| c == '\u{205f}'
    ||| c == '\u{3000}'
}

/// `s` without its leading whitespace.
pub open spec fn trim_start_spec(s: Seq<char>) -> Seq<char>
    decreases s.len(),
{
    if s.len() > 0 && is_ws(s[0]) {
        trim_start_spec(s.drop_first())
    } else {
        s
    }
}

/// `s` without its trailing whitespace.
pub open spec fn trim_end_spec(s: Seq<char>) -> Seq<char>
    decreases s.len(),
{
    if s.len() > 0 && is_ws(s.last()) {
        trim_end_spec(s.drop_last())
    } else {
        s
    }
}

/// `s` without leading and trailing whitespace, as `str::trim` gives it.
pub open spec fn trim_spec(s: Seq<char>) -> Seq<char> {
    trim_end_spec(trim_start_spec(s))
}

/// `p` occurs in `s` at position `i`.
pub open spec fn occurs_at(s: Seq<char>, p: Seq<char>, i: int) -> bool {
    0 <= i && i + p.len() <= s.len() && s.subrange(i, i + p.len()) == p
}

/// The pieces of `s` between the leftmost non-overlapping occurrences of
/// `p`, scanning from `pos` with the current piece begun at `start`.
pub open spec fn split_from(s: Seq<char>, p: Seq<char>, start: int, pos: int) -> Seq<Seq<char>>
    decreases s.len() - pos,
{
    if p.len() == 0 || pos < 0 || pos + p.len() > s.len() {
        seq![s.subrange(start, s.len() as int)]
    } else if s.subrange(pos, pos + p.len()) == p {
        seq![s.subrange(start, pos)] + split_from(s, p, pos + p.len(), pos + p.len())
    } else {
        split_from(s, p, start, pos + 1)
    }
}

/// The pieces of `s` between the leftmost non-overlapping occurrences of a
/// non-empty pattern `p`, as `str::split` gives them.
pub open spec fn split_spec(s: Seq<char>, p: Seq<char>) -> Seq<Seq<char>> {
    split_from(s, p, 0, 0)
}

/// The pieces joined with `sep` between each two of them, as `join` gives it.
pub open spec fn join_spec(parts: Seq<Seq<char>>, sep: Seq<char>) -> Seq<char>
    decreases parts.len(),
{
    if parts.len() == 0 {
        Seq::empty()
    } else if parts.len() == 1 {
        parts[0]
    } else {
        join_spec(parts.drop_last(), sep) + sep + parts.last()
    }
}

/// `s` with every leftmost non-overlapping occurrence of `from` replaced by
/// `to`, as `str::replace` gives it.
pub open spec fn replace_spec(s: Seq<char>, from: Seq<char>, to: Seq<char>) -> Seq<char> {
    join_spec(split_spec(s, from), to)
}

/// The decimal digit for `d < 10`.
pub open spec fn digit_spec(d: nat) -> char {
    if d == 0 {
        '0'
    } else if d == 1 {
        '1'
    } else if d == 2 {
        '2'
    } else if d == 3 {
        '3'
    } else if d == 4 {
        '4'
    } else if d == 5 {
        '5'
    } else if d == 6 {
        '6'
    } else if d == 7 {
        '7'
    } else if d == 8 {
        '8'
    } else {
        '9'
    }
}

/// The decimal numeral of `n`, without leading zeros, as `{}` prints it.
pub open spec fn decimal_spec(n: nat) -> Seq<char>
    decreases n,
{
    if n < 10 {
        seq![digit_spec(n)]
    } else {
        decimal_spec(n / 10).push(digit_spec(n % 10))
    }
}

/// The decimal numeral of a signed integer, with a leading `-` when negative.
pub open spec fn signed_decimal_spec(n: int) -> Seq<char> {
    if n < 0 {
        seq!['-'] + decimal_spec((-n) as nat)
    } else {
        decimal_spec(n as nat)
    }
}

/// The characters of a string slice, in order.
pub fn chars_of(s: &str) -> (r: Vec<char>)
    ensures
        r@ == s@,
{
    let mut out: Vec<char> = Vec::new();
    for c in it: s.chars()
        invariant
            out@ == it.seq().take(it.index() as int),
    {
        out.push(c);
    }
    out
}

/// The string made of the characters `cs[from..to]`.
pub fn string_of_range(cs: &Vec<char>, from: usize, to: usize) -> (r: String)
    requires
        from <= to <= cs.len(),
    ensures
        r@ == cs@.subrange(from as int, to as int),
{
    let mut out = String::new();
    let mut i: usize = from;
    while i < to
        invariant
            from <= i <= to <= cs.len(),
            out@ == cs@.subrange(from as int, i as int),
        decreases to - i,
    {
        out.push(cs[i]);
        i = i + 1;
        assert(out@ =~= cs@.subrange(from as int, i as int));
    }
    out
}

/// Whether `c` is whitespace, as `char::is_whitespace` decides it.
pub fn is_whitespace(c: char) -> (b: bool)
    ensures
        b == is_ws(c),
{
    ('\u{9}' <= c && c <= '\u{d}') || c == ' ' || c == '\u{85}' || c == '\u{a0}' || c
        == '\u{1680}' || ('\u{2000}' <= c && c <= '\u{200a}') || c == '\u{2028}' || c
        == '\u{2029}' || c == '\u{202f}' || c == '\u{205f}' || c == '\u{3000}'
}

/// `s` without leading and trailing whitespace.
pub fn trim(s: &str) -> (r: String)
    ensures
        r@ == trim_spec(s@),
{
    let cs = chars_of(s);
    let n = cs.len();
    let mut i: usize = 0;
    assert(cs@.subrange(0, n as int) =~= cs@);
    while i < n && is_whitespace(cs[i])
        invariant
            i <= n == cs@.len(),
            trim_start_spec(cs@) == trim_start_spec(cs@.subrange(i as int, n as int)),
        decreases n - i,
    {
        assert(cs@.subrange(i as int, n as int).drop_first() =~= cs@.subrange(
            i + 1,
            n as int,
        ));
        i = i + 1;
    }
    assert(trim_start_spec(cs@) == cs@.subrange(i as int, n as int));
    let mut j: usize = n;
    while j > i && is_whitespace(cs[j - 1])
        invariant
            i <= j <= n == cs@.len(),
            trim_spec(cs@) == trim_end_spec(cs@.subrange(i as int, j as int)),
        decreases j - i,
    {
        assert(cs@.subrange(i as int, j as int).drop_last() =~= cs@.subrange(
            i as int,
            j - 1,
        ));
        j = j - 1;
    }
    string_of_range(&cs, i, j)
}

/// Trimming twice trims no more than trimming once.
pub proof fn lemma_trim_idempotent(s: Seq<char>)
    ensures
        trim_spec(trim_spec(s)) == trim_spec(s),
{
    lemma_trim_start_stops(s);
    lemma_trim_end_stops(trim_start_spec(s));
    lemma_trim_end_keeps_start(trim_start_spec(s));
    let t = trim_spec(s);
    assert(trim_start_spec(t) == t);
    lemma_trim_end_fixed(t);
}

proof fn lemma_trim_start_stops(s: Seq<char>)
    ensures
        trim_start_spec(s).len() == 0 || !is_ws(trim_start_spec(s)[0]),
    decreases s.len(),
{
    if s.len() > 0 && is_ws(s[0]) {
        lemma_trim_start_stops(s.drop_first());
    }
}

proof fn lemma_trim_end_stops(s: Seq<char>)
    ensures
        trim_end_spec(s).len() == 0 || !is_ws(trim_end_spec(s).last()),
    decreases s.len(),
{
    if s.len() > 0 && is_ws(s.last()) {
        lemma_trim_end_stops(s.drop_last());
    }
}

/// Trimming the end keeps a prefix, so a first character that is not
/// whitespace stays first.
proof fn lemma_trim_end_keeps_start(s: Seq<char>)
    requires
        s.len() == 0 || !is_ws(s[0]),
    ensures
        trim_end_spec(s).len() == 0 || !is_ws(trim_end_spec(s)[0]),
        trim_start_spec(trim_end_spec(s)) == trim_end_spec(s),
    decreases s.len(),
{
    if s.len() > 0 && is_ws(s.last()) {
        if s.len() > 1 {
            assert(s.drop_last()[0] == s[0]);
        }
        lemma_trim_end_keeps_start(s.drop_last());
    }
}

proof fn lemma_trim_end_fixed(s: Seq<char>)
    requires
        s.len() == 0 || !is_ws(s.last()),
    ensures
        trim_end_spec(s) == s,
{
}

/// Whether `p` occurs in `cs` at position `i`.
fn occurs_at_exec(cs: &Vec<char>, p: &Vec<char>, i: usize) -> (b: bool)
    requires
        i + p.len() <= cs.len(),
    ensures
        b == (cs@.subrange(i as int, i + p.len()) == p@),
{
    let mut k: usize = 0;
    while k < p.len()
        invariant
            k <= p.len(),
            i + p.len() <= cs.len(),
            forall|t: int| 0 <= t < k ==> cs@[i + t] == p@[t],
        decreases p.len() - k,
    {
        if cs[i + k] != p[k] {
            assert(cs@.subrange(i as int, i + p.len())[k as int] != p@[k as int]);
            return false;
        }
        k = k + 1;
    }
    assert(cs@.subrange(i as int, i + p.len()) =~= p@);
    true
}

/// The pieces of `s` between the leftmost non-overlapping occurrences of
/// the non-empty pattern `pat`.
pub fn split(s: &str, pat: &str) -> (r: Vec<String>)
    requires
        pat@.len() > 0,
    ensures
        views(r@) == split_spec(s@, pat@),
{
    let cs = chars_of(s);
    let ps = chars_of(pat);
    let n = cs.len();
    let m = ps.len();
    let mut out: Vec<String> = Vec::new();
    let mut start: usize = 0;
    let mut pos: usize = 0;
    while pos < n && m <= n - pos
        invariant
            n == cs@.len(),
            m == ps@.len(),
            m > 0,
            start <= pos <= n,
            views(out@) + split_from(cs@, ps@, start as int, pos as int) == split_spec(
                cs@,
                ps@,
            ),
        decreases n - pos,
    {
        if occurs_at_exec(&cs, &ps, pos) {
            let piece = string_of_range(&cs, start, pos);
            let ghost before = out@;
            out.push(piece);
            assert(views(out@) =~= views(before).push(piece@));
            assert(views(out@) + split_from(cs@, ps@, (pos + m) as int, (pos + m) as int)
                =~= views(before) + split_from(cs@, ps@, start as int, pos as int));
            pos = pos + m;
            start = pos;
        } else {
            pos = pos + 1;
        }
    }
    let last = string_of_range(&cs, start, n);
    let ghost before = out@;
    out.push(last);
    assert(views(out@) =~= views(before).push(last@));
    assert(views(out@) =~= views(before) + split_from(cs@, ps@, start as int, pos as int));
    out
}

/// The parts joined with `sep` between each two of them.
pub fn join(parts: &Vec<String>, sep: &str) -> (r: String)
    ensures
        r@ == join_spec(views(parts@), sep@),
{
    let mut out = String::new();
    let mut i: usize = 0;
    while i < parts.len()
        invariant
            i <= parts.len(),
            out@ == join_spec(views(parts@).take(i as int), sep@),
        decreases parts.len() - i,
    {
        assert(views(parts@).take(i + 1).drop_last() =~= views(parts@).take(i as int));
        if i != 0 {
            out.append(sep);
        }
        out.append(parts[i].as_str());
        i = i + 1;
        assert(out@ =~= join_spec(views(parts@).take(i as int), sep@));
    }
    assert(views(parts@).take(parts.len() as int) =~= views(parts@));
    out
}

/// `s` with every leftmost non-overlapping occurrence of the non-empty
/// pattern `from` replaced by `to`.
pub fn replace(s: &str, from: &str, to: &str) -> (r: String)
    requires
        from@.len() > 0,
    ensures
        r@ == replace_spec(s@, from@, to@),
{
    let pieces = split(s, from);
    join(&pieces, to)
}

/// The decimal digit for `d < 10`.
fn digit(d: u64) -> (c: char)
    requires
        d < 10,
    ensures
        c == digit_spec(d as nat),
{
    if d == 0 {
        '0'
    } else if d == 1 {
        '1'
    } else if d == 2 {
        '2'
    } else if d == 3 {
        '3'
    } else if d == 4 {
        '4'
    } else if d == 5 {
        '5'
    } else if d == 6 {
        '6'
    } else if d == 7 {
        '7'
    } else if d == 8 {
        '8'
    } else {
        '9'
    }
}

/// The decimal numeral of `n`, as `{}` prints an unsigned integer.
pub fn decimal(n: u64) -> (r: String)
    ensures
        r@ == decimal_spec(n as nat),
    decreases n,
{
    if n < 10 {
        let mut s = String::new();
        s.push(digit(n));
        assert(s@ =~= seq![digit_spec(n as nat)]);
        s
    } else {
        let mut s = decimal(n / 10);
        s.push(digit(n % 10));
        s
    }
}

/// The decimal numeral of `n`, as `{}` prints a signed integer.
pub fn signed_decimal(n: i64) -> (r: String)
    ensures
        r@ == signed_decimal_spec(n as int),
{
    if n < 0 {
        let magnitude: u64 = ((-(n + 1)) as u64) + 1;
        let digits = decimal(magnitude);
        let mut s = String::new();
        s.push('-');
        s.append(digits.as_str());
        assert(s@ =~= seq!['-'] + decimal_spec((-(n as int)) as nat));
        s
    } else {
        decimal(n as u64)
    }
}

/// The pieces of a split are never none.
pub proof fn lemma_split_from_nonempty(s: Seq<char>, p: Seq<char>, start: int, pos: int)
    ensures
        split_from(s, p, start, pos).len() >= 1,
    decreases s.len() - pos,
{
    if p.len() == 0 || pos < 0 || pos + p.len() > s.len() {
    } else if s.subrange(pos, pos + p.len()) == p {
        lemma_split_from_nonempty(s, p, pos + p.len(), pos + p.len());
    } else {
        lemma_split_from_nonempty(s, p, start, pos + 1);
    }
}

/// Joining a part in front of other parts puts the separator after it.
pub proof fn lemma_join_prepend(a: Seq<char>, rest: Seq<Seq<char>>, sep: Seq<char>)
    requires
        rest.len() >= 1,
    ensures
        join_spec(seq![a] + rest, sep) == a + sep + join_spec(rest, sep),
    decreases rest.len(),
{
    let all = seq![a] + rest;
    if rest.len() == 1 {
        assert(all.drop_last() =~= seq![a]);
        assert(join_spec(rest, sep) == rest[0]);
    } else {
        assert(all.drop_last() =~= seq![a] + rest.drop_last());
        lemma_join_prepend(a, rest.drop_last(), sep);
        assert(join_spec(all, sep) == join_spec(all.drop_last(), sep) + sep + all.last());
        assert(join_spec(rest, sep) == join_spec(rest.drop_last(), sep) + sep + rest.last());
        assert(join_spec(all, sep) =~= a + sep + join_spec(rest, sep));
    }
}

proof fn lemma_split_from_absent(s: Seq<char>, p: Seq<char>, pos: int)
    requires
        p.len() > 0,
        0 <= pos,
        forall|i: int| !occurs_at(s, p, i),
    ensures
        split_from(s, p, 0, pos) == seq![s],
    decreases s.len() - pos,
{
    if pos + p.len() > s.len() {
        assert(s.subrange(0, s.len() as int) =~= s);
    } else {
        assert(!occurs_at(s, p, pos));
        lemma_split_from_absent(s, p, pos + 1);
    }
}

/// Where the pattern does not occur, splitting gives the text whole, as
/// one piece.
pub proof fn lemma_split_without_pattern(s: Seq<char>, p: Seq<char>)
    requires
        p.len() > 0,
        forall|i: int| !occurs_at(s, p, i),
    ensures
        split_spec(s, p) == seq![s],
{
    lemma_split_from_absent(s, p, 0);
}

proof fn lemma_replace_char_from(s: Seq<char>, p: char, q: char, start: int, pos: int)
    requires
        0 <= start <= pos <= s.len(),
        forall|k: int| start <= k < pos ==> s[k] != p,
    ensures
        join_spec(split_from(s, seq![p], start, pos), seq![q]).len() == s.len() - start,
        forall|k: int|
            0 <= k < s.len() - start ==> #[trigger] join_spec(
                split_from(s, seq![p], start, pos),
                seq![q],
            )[k] == (if s[start + k] == p {
                q
            } else {
                s[start + k]
            }),
    decreases s.len() - pos,
{
    let pp = seq![p];
    let qq = seq![q];
    if pos + 1 > s.len() {
        let piece = s.subrange(start, s.len() as int);
        assert(split_from(s, pp, start, pos) == seq![piece]);
        assert(join_spec(seq![piece], qq) == piece);
    } else if s.subrange(pos, pos + 1) == pp {
        assert(s[pos] == s.subrange(pos, pos + 1)[0]);
        let piece = s.subrange(start, pos);
        let rest = split_from(s, pp, pos + 1, pos + 1);
        lemma_replace_char_from(s, p, q, pos + 1, pos + 1);
        lemma_split_from_nonempty(s, pp, pos + 1, pos + 1);
        lemma_join_prepend(piece, rest, qq);
        assert(split_from(s, pp, start, pos) == seq![piece] + rest);
        let j = join_spec(split_from(s, pp, start, pos), qq);
        let jr = join_spec(rest, qq);
        assert(j == piece + qq + jr);
        assert forall|k: int| 0 <= k < s.len() - start implies #[trigger] j[k] == (if s[start
            + k] == p {
            q
        } else {
            s[start + k]
        }) by {
            if k < pos - start {
                assert(j[k] == piece[k]);
            } else if k == pos - start {
                assert(j[k] == q);
            } else {
                assert(j[k] == jr[k - (pos - start) - 1]);
            }
        }
    } else {
        assert(s[pos] != p) by {
            if s[pos] == p {
                assert(s.subrange(pos, pos + 1) =~= pp);
            }
        }
        lemma_replace_char_from(s, p, q, start, pos + 1);
    }
}

/// Replacing one character by another changes those characters and no
/// other: the length stays, and each position holds `q` where the text held
/// `p`, and the text's own character elsewhere.
pub proof fn lemma_replace_char(s: Seq<char>, p: char, q: char)
    ensures
        replace_spec(s, seq![p], seq![q]).len() == s.len(),
        forall|k: int|
            0 <= k < s.len() ==> #[trigger] replace_spec(s, seq![p], seq![q])[k] == (if s[k] == p {
                q
            } else {
                s[k]
            }),
{
    lemma_replace_char_from(s, p, q, 0, 0);
    assert forall|k: int| 0 <= k < s.len() implies #[trigger] replace_spec(s, seq![p], seq![q])[k]
        == (if s[k] == p {
        q
    } else {
        s[k]
    }) by {
        assert(s[0 + k] == s[k]);
    }
}

proof fn lemma_split_from_shift(x: Seq<char>, y: Seq<char>, p: Seq<char>, start: int, pos: int)
    requires
        p.len() > 0,
        0 <= start <= pos <= y.len(),
    ensures
        split_from(x + y, p, x.len() + start, x.len() + pos) == split_from(y, p, start, pos),
    decreases y.len() - pos,
{
    let s = x + y;
    let n = x.len() as int;
    if pos + p.len() > y.len() {
        assert(s.subrange(n + start, s.len() as int) =~= y.subrange(start, y.len() as int));
    } else {
        assert(s.subrange(n + pos, n + pos + p.len()) =~= y.subrange(pos, pos + p.len()));
        if y.subrange(pos, pos + p.len()) == p {
            assert(s.subrange(n + start, n + pos) =~= y.subrange(start, pos));
            lemma_split_from_shift(x, y, p, pos + p.len(), pos + p.len());
        } else {
            lemma_split_from_shift(x, y, p, start, pos + 1);
        }
    }
}

proof fn lemma_split_from_before(s: Seq<char>, p: Seq<char>, a: int, pos: int)
    requires
        p.len() > 0,
        0 <= pos <= a,
        a + p.len() <= s.len(),
        forall|i: int| 0 <= i < a ==> !occurs_at(s, p, i),
    ensures
        split_from(s, p, 0, pos) == split_from(s, p, 0, a),
    decreases a - pos,
{
    if pos < a {
        assert(!occurs_at(s, p, pos));
        lemma_split_from_before(s, p, a, pos + 1);
    }
}

/// Splitting at a first occurrence of the pattern: the text before it is
/// the first piece, and the pieces of the text after it follow.
pub proof fn lemma_split_at_first(a: Seq<char>, p: Seq<char>, b: Seq<char>)
    requires
        p.len() > 0,
        forall|i: int| 0 <= i < a.len() ==> !occurs_at(a + p + b, p, i),
    ensures
        split_spec(a + p + b, p) == seq![a] + split_spec(b, p),
{
    let s = a + p + b;
    let n = a.len() as int;
    lemma_split_from_before(s, p, n, 0);
    assert(s.subrange(n, n + p.len()) =~= p);
    assert(s.subrange(0, n) =~= a);
    assert(s =~= (a + p) + b);
    lemma_split_from_shift(a + p, b, p, 0, 0);
}

proof fn lemma_join_split_from(s: Seq<char>, p: Seq<char>, start: int, pos: int)
    requires
        p.len() > 0,
        0 <= start <= pos <= s.len(),
    ensures
        join_spec(split_from(s, p, start, pos), p) == s.subrange(start, s.len() as int),
    decreases s.len() - pos,
{
    if pos + p.len() > s.len() {
        assert(join_spec(seq![s.subrange(start, s.len() as int)], p) == s.subrange(
            start,
            s.len() as int,
        ));
    } else if s.subrange(pos, pos + p.len()) == p {
        let rest = split_from(s, p, pos + p.len(), pos + p.len());
        lemma_join_split_from(s, p, pos + p.len(), pos + p.len());
        lemma_split_from_nonempty(s, p, pos + p.len(), pos + p.len());
        lemma_join_prepend(s.subrange(start, pos), rest, p);
        assert(split_from(s, p, start, pos) == seq![s.subrange(start, pos)] + rest);
        assert(s.subrange(start, pos) + p + s.subrange(pos + p.len(), s.len() as int)
            =~= s.subrange(start, s.len() as int));
    } else {
        lemma_join_split_from(s, p, start, pos + 1);
    }
}

/// Splitting loses nothing: the pieces joined with the pattern give the
/// text back.
pub proof fn lemma_join_split(s: Seq<char>, p: Seq<char>)
    requires
        p.len() > 0,
    ensures
        join_spec(split_spec(s, p), p) == s,
{
    lemma_join_split_from(s, p, 0, 0);
    assert(s.subrange(0, s.len() as int) =~= s);
}

/// The value of a numeral of ASCII digits, read from the left.
pub open spec fn numeral_value(t: Seq<char>) -> int
    decreases t.len(),
{
    if t.len() == 0 {
        0
    } else {
        numeral_value(t.drop_last()) * 10 + (t.last() as int - '0' as int)
    }
}

/// The decimal numeral of `n` is a run of ASCII digits that reads back as
/// `n`, with no leading zero but for `0` itself.
pub proof fn lemma_decimal_reads_back(n: nat)
    ensures
        decimal_spec(n).len() > 0,
        forall|k: int|
            0 <= k < decimal_spec(n).len() ==> '0' <= #[trigger] decimal_spec(n)[k] <= '9',
        numeral_value(decimal_spec(n)) == n,
        decimal_spec(n)[0] == '0' ==> n == 0,
    decreases n,
{
    if n < 10 {
        let d = decimal_spec(n);
        assert(d.drop_last() =~= Seq::<char>::empty());
        assert(numeral_value(Seq::<char>::empty()) == 0);
        assert(numeral_value(d) == d.last() as int - '0' as int);
        assert(d.last() as int - '0' as int == n);
    } else {
        lemma_decimal_reads_back(n / 10);
        let h = decimal_spec(n / 10);
        let d = decimal_spec(n);
        assert(d == h.push(digit_spec(n % 10)));
        assert(d.drop_last() =~= h);
        assert(digit_spec(n % 10) as int - '0' as int == n % 10) by {
            let m = n % 10;
            assert(m < 10);
        }
        assert(d[0] == h[0]);
    }
}

proof fn lemma_trim_start_at(s: Seq<char>) -> (i: int)
    ensures
        0 <= i <= s.len(),
        trim_start_spec(s) == s.subrange(i, s.len() as int),
        forall|k: int| 0 <= k < i ==> is_ws(#[trigger] s[k]),
        i < s.len() ==> !is_ws(s[i]),
    decreases s.len(),
{
    if s.len() > 0 && is_ws(s[0]) {
        let rest = s.drop_first();
        let j = lemma_trim_start_at(rest);
        assert(rest.subrange(j, rest.len() as int) =~= s.subrange(j + 1, s.len() as int));
        assert forall|k: int| 0 <= k < j + 1 implies is_ws(#[trigger] s[k]) by {
            if k > 0 {
                assert(s[k] == rest[k - 1]);
            }
        }
        j + 1
    } else {
        assert(s.subrange(0, s.len() as int) =~= s);
        0
    }
}

proof fn lemma_trim_end_at(s: Seq<char>) -> (j: int)
    ensures
        0 <= j <= s.len(),
        trim_end_spec(s) == s.subrange(0, j),
        forall|k: int| j <= k < s.len() ==> is_ws(#[trigger] s[k]),
        j > 0 ==> !is_ws(s[j - 1]),
    decreases s.len(),
{
    if s.len() > 0 && is_ws(s.last()) {
        let rest = s.drop_last();
        let j = lemma_trim_end_at(rest);
        assert(rest.subrange(0, j) =~= s.subrange(0, j));
        assert forall|k: int| j <= k < s.len() implies is_ws(#[trigger] s[k]) by {
            if k < s.len() - 1 {
                assert(s[k] == rest[k]);
            }
        }
        j
    } else {
        assert(s.subrange(0, s.len() as int) =~= s);
        s.len() as int
    }
}

/// Trimming removes whitespace from the two ends and nothing else: the
/// result is the stretch of the text between a whitespace prefix and a
/// whitespace suffix, and it neither begins nor ends with whitespace.
pub proof fn lemma_trim_strips_ends(s: Seq<char>)
    ensures
        exists|i: int, j: int|
            {
                &&& 0 <= i <= j <= s.len()
                &&& trim_spec(s) == s.subrange(i, j)
                &&& forall|k: int| 0 <= k < i ==> is_ws(#[trigger] s[k])
                &&& forall|k: int| j <= k < s.len() ==> is_ws(#[trigger] s[k])
                &&& i < j ==> !is_ws(s[i]) && !is_ws(s[j - 1])
            },
{
    let i = lemma_trim_start_at(s);
    let t = s.subrange(i, s.len() as int);
    let j = lemma_trim_end_at(t);
    assert(t.subrange(0, j) =~= s.subrange(i, i + j));
    assert forall|k: int| i + j <= k < s.len() implies is_ws(#[trigger] s[k]) by {
        assert(s[k] == t[k - i]);
    }
    if 0 < j {
        assert(s[i] == t[0]);
        assert(s[i + j - 1] == t[j - 1]);
    }
    assert(0 <= i <= i + j <= s.len());
    assert(trim_spec(s) == s.subrange(i, i + j));
}

} // verus!
