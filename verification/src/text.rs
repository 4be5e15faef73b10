//! Text as sequences of characters: ordering, whitespace, trimming and
//! splitting. Identifiers, tag lists and console answers are all handled
//! through the definitions of this module.

use vstd::prelude::*;
use vstd::string::*;

verus! {

/// Result of comparing two texts lexicographically.
#[derive(Clone, Copy, Debug, PartialEq, Eq, Structural)]
pub enum Order {
    Less,
    Equal,
    Greater,
}

/// Lexicographic "less than" on the parts of `a` and `b` that start at `i`,
/// given that the two agree before `i`. Characters compare by code point.
pub open spec fn lex_lt_from(a: Seq<char>, b: Seq<char>, i: int) -> bool
    decreases a.len() - i,
{
    if i >= b.len() {
        false
    } else if i >= a.len() {
        true
    } else if a[i] != b[i] {
        a[i] < b[i]
    } else {
        lex_lt_from(a, b, i + 1)
    }
}

/// Strict lexicographic order on texts: the order in which listings are given.
pub open spec fn lex_lt(a: Seq<char>, b: Seq<char>) -> bool {
    lex_lt_from(a, b, 0)
}

proof fn lemma_lex_from_irreflexive(a: Seq<char>, i: int)
    requires
        0 <= i,
    ensures
        !lex_lt_from(a, a, i),
    decreases a.len() - i,
{
    if i < a.len() {
        lemma_lex_from_irreflexive(a, i + 1);
    }
}

proof fn lemma_lex_from_total(a: Seq<char>, b: Seq<char>, i: int)
    requires
        0 <= i <= a.len(),
        i <= b.len(),
        a.subrange(0, i) == b.subrange(0, i),
    ensures
        a == b || lex_lt_from(a, b, i) || lex_lt_from(b, a, i),
        !(lex_lt_from(a, b, i) && lex_lt_from(b, a, i)),
    decreases a.len() - i,
{
    if i >= a.len() || i >= b.len() {
        if i >= a.len() && i >= b.len() {
            assert(a.subrange(0, i) == a);
            assert(b.subrange(0, i) == b);
        }
    } else if a[i] == b[i] {
        assert(a.subrange(0, i + 1) == a.subrange(0, i).push(a[i]));
        assert(b.subrange(0, i + 1) == b.subrange(0, i).push(b[i]));
        lemma_lex_from_total(a, b, i + 1);
    }
}

proof fn lemma_lex_from_transitive(a: Seq<char>, b: Seq<char>, c: Seq<char>, i: int)
    requires
        0 <= i,
        lex_lt_from(a, b, i),
        lex_lt_from(b, c, i),
    ensures
        lex_lt_from(a, c, i),
    decreases a.len() - i,
{
    if i < a.len() && a[i] == b[i] && b[i] == c[i] {
        lemma_lex_from_transitive(a, b, c, i + 1);
    }
}

/// No text comes before itself.
pub proof fn lemma_lex_irreflexive(a: Seq<char>)
    ensures
        !lex_lt(a, a),
{
    lemma_lex_from_irreflexive(a, 0);
}

/// Of two different texts exactly one comes before the other.
pub proof fn lemma_lex_total(a: Seq<char>, b: Seq<char>)
    ensures
        a == b || lex_lt(a, b) || lex_lt(b, a),
        !(lex_lt(a, b) && lex_lt(b, a)),
{
    assert(a.subrange(0, 0) == b.subrange(0, 0));
    lemma_lex_from_total(a, b, 0);
}

/// The order is transitive.
pub proof fn lemma_lex_transitive(a: Seq<char>, b: Seq<char>, c: Seq<char>)
    requires
        lex_lt(a, b),
        lex_lt(b, c),
    ensures
        lex_lt(a, c),
{
    lemma_lex_from_transitive(a, b, c, 0);
}

/// The characters of a string slice, in order.
pub fn chars_of(s: &str) -> (v: Vec<char>)
    ensures
        v@ == s@,
{
    let mut v: Vec<char> = Vec::new();
    for c in it: s.chars()
        invariant
            v@ == it.seq().subrange(0, it.index() as int),
            it.seq() == s@,
    {
        v.push(c);
    }
    v
}

/// Compares two character sequences lexicographically.
pub fn compare_chars(a: &Vec<char>, b: &Vec<char>) -> (o: Order)
    ensures
        o == Order::Less <==> lex_lt(a@, b@),
        o == Order::Equal <==> a@ == b@,
        o == Order::Greater <==> lex_lt(b@, a@),
{
    let mut i: usize = 0;
    proof {
        lemma_lex_total(a@, b@);
        lemma_lex_irreflexive(a@);
        assert(a@.subrange(0, 0) == b@.subrange(0, 0));
    }
    while i < a.len() && i < b.len()
        invariant
            i <= a.len(),
            i <= b.len(),
            a@.subrange(0, i as int) == b@.subrange(0, i as int),
            lex_lt_from(a@, b@, i as int) == lex_lt(a@, b@),
            lex_lt_from(b@, a@, i as int) == lex_lt(b@, a@),
        decreases a.len() - i,
    {
        let x = a[i];
        let y = b[i];
        if x < y {
            return Order::Less;
        }
        if y < x {
            return Order::Greater;
        }
        proof {
            assert(a@.subrange(0, i + 1) == a@.subrange(0, i as int).push(a@[i as int]));
            assert(b@.subrange(0, i + 1) == b@.subrange(0, i as int).push(b@[i as int]));
        }
        i += 1;
    }
    if i < b.len() {
        Order::Less
    } else if i < a.len() {
        Order::Greater
    } else {
        proof {
            assert(a@.subrange(0, i as int) == a@);
            assert(b@.subrange(0, i as int) == b@);
        }
        Order::Equal
    }
}

/// Compares two string slices lexicographically by code point.
pub fn compare(a: &str, b: &str) -> (o: Order)
    ensures
        o == Order::Less <==> lex_lt(a@, b@),
        o == Order::Equal <==> a@ == b@,
        o == Order::Greater <==> lex_lt(b@, a@),
{
    let av = chars_of(a);
    let bv = chars_of(b);
    compare_chars(&av, &bv)
}

/// Whether `c` is white space: the characters with the Unicode property
/// `White_Space`.
pub open spec fn is_white_space(c: char) -> bool {
    let n = c as u32;
    ||| 0x0009 <= n <= 0x000D
    ||| n == 0x0020
    ||| n == 0x0085
    ||| n == 0x00A0
    ||| n == 0x1680
    ||| 0x2000 <= n <= 0x200A
    ||| n == 0x2028
    ||| n == 0x2029
    ||| n == 0x202F
    ||| n == 0x205F
    ||| n == 0x3000
}

/// Tests a character for white space.
pub fn is_whitespace(c: char) -> (b: bool)
    ensures
        b == is_white_space(c),
{
    let n: u32 = c as u32;
    (0x0009 <= n && n <= 0x000D) || n == 0x0020 || n == 0x0085 || n == 0x00A0 || n == 0x1680 || (
    0x2000 <= n && n <= 0x200A) || n == 0x2028 || n == 0x2029 || n == 0x202F || n == 0x205F || n
        == 0x3000
}

/// Index of the first character at or after `from` that is not white space;
/// the length of `s` if there is none.
pub open spec fn ink_start(s: Seq<char>, from: int) -> int
    decreases s.len() - from,
{
    if from >= s.len() {
        s.len() as int
    } else if !is_white_space(s[from]) {
        from
    } else {
        ink_start(s, from + 1)
    }
}

/// One past the index of the last character before `upto` that is not white
/// space; 0 if there is none.
pub open spec fn ink_end(s: Seq<char>, upto: int) -> int
    decreases upto,
{
    if upto <= 0 {
        0
    } else if !is_white_space(s[upto - 1]) {
        upto
    } else {
        ink_end(s, upto - 1)
    }
}

/// `s` without its leading and trailing white space.
pub open spec fn trimmed(s: Seq<char>) -> Seq<char> {
    let lo = ink_start(s, 0);
    let hi = ink_end(s, s.len() as int);
    if lo < hi {
        s.subrange(lo, hi)
    } else {
        Seq::empty()
    }
}

proof fn lemma_ink_start_bounds(s: Seq<char>, from: int)
    requires
        0 <= from <= s.len(),
    ensures
        from <= ink_start(s, from) <= s.len(),
        ink_start(s, from) < s.len() ==> !is_white_space(s[ink_start(s, from)]),
        forall|k: int| from <= k < ink_start(s, from) ==> is_white_space(#[trigger] s[k]),
    decreases s.len() - from,
{
    if from < s.len() && is_white_space(s[from]) {
        lemma_ink_start_bounds(s, from + 1);
    }
}

proof fn lemma_ink_end_bounds(s: Seq<char>, upto: int)
    requires
        0 <= upto <= s.len(),
    ensures
        0 <= ink_end(s, upto) <= upto,
        ink_end(s, upto) > 0 ==> !is_white_space(s[ink_end(s, upto) - 1]),
        forall|k: int| ink_end(s, upto) <= k < upto ==> is_white_space(#[trigger] s[k]),
    decreases upto,
{
    if upto > 0 && is_white_space(s[upto - 1]) {
        lemma_ink_end_bounds(s, upto - 1);
    }
}

/// Trimming the part `s[lo..hi]` of a text: the bounds of what is left, as
/// indices into `s`. Where nothing is left the two bounds are equal.
pub fn trim_range(s: &Vec<char>, lo: usize, hi: usize) -> (r: (usize, usize))
    requires
        lo <= hi <= s.len(),
    ensures
        lo <= r.0 <= r.1 <= hi,
        s@.subrange(r.0 as int, r.1 as int) == trimmed(s@.subrange(lo as int, hi as int)),
{
    let ghost part = s@.subrange(lo as int, hi as int);
    let mut a: usize = lo;
    while a < hi && is_whitespace(s[a])
        invariant
            lo <= a <= hi <= s.len(),
            part == s@.subrange(lo as int, hi as int),
            ink_start(part, a - lo) == ink_start(part, 0),
        decreases hi - a,
    {
        a += 1;
    }
    let mut b: usize = hi;
    while b > a && is_whitespace(s[b - 1])
        invariant
            lo <= a <= b <= hi <= s.len(),
            part == s@.subrange(lo as int, hi as int),
            ink_end(part, b - lo) == ink_end(part, part.len() as int),
        decreases b,
    {
        b -= 1;
    }
    proof {
        let start = ink_start(part, 0);
        let end = ink_end(part, part.len() as int);
        lemma_ink_start_bounds(part, 0);
        lemma_ink_end_bounds(part, part.len() as int);
        assert(start == a - lo);
        if a < b {
            assert(end == b - lo);
            assert(s@.subrange(a as int, b as int) == part.subrange(start, end));
        } else {
            // everything from `a` on is white space, so nothing is left
            assert(a == b);
            if a < hi {
                assert(!is_white_space(part[a - lo]));
                if end > start {
                    lemma_ink_end_bounds(part, b - lo);
                }
            }
            assert(end <= start) by {
                if end > start {
                    assert(!is_white_space(part[end - 1]));
                    if a == hi {
                        assert(is_white_space(part[end - 1]));
                    } else {
                        assert(ink_end(part, b - lo) == end);
                        assert(end <= b - lo);
                    }
                }
            }
            assert(s@.subrange(a as int, b as int) == Seq::<char>::empty());
        }
    }
    (a, b)
}

/// Whether a line read from the console says yes: after trimming, it
/// starts with `y` or `Y`.
pub open spec fn says_yes(line: Seq<char>) -> bool {
    let answer = trimmed(line);
    answer.len() > 0 && (answer[0] == 'y' || answer[0] == 'Y')
}

/// Whether a line read from the console says yes.
pub fn is_yes(line: &str) -> (b: bool)
    ensures
        b == says_yes(line@),
{
    let chars = chars_of(line);
    let (lo, hi) = trim_range(&chars, 0, chars.len());
    assert(chars@.subrange(0, chars@.len() as int) == chars@);
    if lo < hi {
        let c = chars[lo];
        assert(chars@.subrange(lo as int, hi as int)[0] == c);
        c == 'y' || c == 'Y'
    } else {
        assert(chars@.subrange(lo as int, hi as int).len() == 0);
        false
    }
}

/// The bounds of the pieces into which `sep` cuts `s`, for the piece that
/// starts at `start` and has been read up to `i`, and the pieces after it.
/// There is always at least one piece: an empty text is one empty piece, and
/// a text that ends in `sep` ends in an empty piece.
pub open spec fn piece_bounds(s: Seq<char>, sep: char, start: int, i: int) -> Seq<(int, int)>
    decreases s.len() - i,
{
    if i >= s.len() {
        seq![(start, s.len() as int)]
    } else if s[i] == sep {
        seq![(start, i)] + piece_bounds(s, sep, i + 1, i + 1)
    } else {
        piece_bounds(s, sep, start, i + 1)
    }
}

/// The pieces into which `sep` cuts `s`.
pub open spec fn split(s: Seq<char>, sep: char) -> Seq<Seq<char>> {
    let bounds = piece_bounds(s, sep, 0, 0);
    Seq::new(bounds.len(), |k: int| s.subrange(bounds[k].0, bounds[k].1))
}

proof fn lemma_piece_bounds_valid(s: Seq<char>, sep: char, start: int, i: int)
    requires
        0 <= start <= i <= s.len(),
    ensures
        piece_bounds(s, sep, start, i).len() >= 1,
        forall|k: int|
            0 <= k < piece_bounds(s, sep, start, i).len() ==> start <= (#[trigger] piece_bounds(
                s,
                sep,
                start,
                i,
            )[k]).0 <= piece_bounds(s, sep, start, i)[k].1 <= s.len(),
    decreases s.len() - i,
{
    if i < s.len() {
        if s[i] == sep {
            lemma_piece_bounds_valid(s, sep, i + 1, i + 1);
            let rest = piece_bounds(s, sep, i + 1, i + 1);
            let all = piece_bounds(s, sep, start, i);
            assert(all == seq![(start, i)] + rest);
            assert forall|k: int| 0 <= k < all.len() implies start <= (#[trigger] all[k]).0
                <= all[k].1 <= s.len() by {
                if k > 0 {
                    assert(all[k] == rest[k - 1]);
                }
            }
        } else {
            lemma_piece_bounds_valid(s, sep, start, i + 1);
        }
    }
}

/// The empty text is one empty piece.
pub proof fn lemma_split_empty(sep: char)
    ensures
        split(Seq::<char>::empty(), sep) == seq![Seq::<char>::empty()],
{
    let none = Seq::<char>::empty();
    assert(piece_bounds(none, sep, 0, 0) =~= seq![(0int, 0int)]);
    assert(split(none, sep).len() == 1);
    assert(split(none, sep)[0] =~= none);
    assert(split(none, sep) =~= seq![none]);
}

/// Whether `s` holds no `sep`.
pub open spec fn plain(s: Seq<char>, sep: char) -> bool {
    forall|j: int| 0 <= j < s.len() ==> s[j] != sep
}

proof fn lemma_piece_bounds_of_plain_tail(s: Seq<char>, sep: char, start: int, i: int)
    requires
        0 <= start <= i <= s.len(),
        forall|j: int| i <= j < s.len() ==> s[j] != sep,
    ensures
        piece_bounds(s, sep, start, i) == seq![(start, s.len() as int)],
    decreases s.len() - i,
{
    if i < s.len() {
        lemma_piece_bounds_of_plain_tail(s, sep, start, i + 1);
    }
}

proof fn lemma_piece_bounds_appended(
    u: Seq<char>,
    c: Seq<char>,
    sep: char,
    start: int,
    i: int,
)
    requires
        0 <= start <= i <= u.len(),
        plain(c, sep),
    ensures
        piece_bounds(u + seq![sep] + c, sep, start, i) == piece_bounds(u, sep, start, i).push(
            ((u.len() + 1) as int, (u.len() + 1 + c.len()) as int),
        ),
    decreases u.len() - i,
{
    let t = u + seq![sep] + c;
    let last = ((u.len() + 1) as int, (u.len() + 1 + c.len()) as int);
    assert(t.len() == u.len() + 1 + c.len());
    if i == u.len() {
        assert(t[i] == sep);
        assert forall|j: int| u.len() + 1 <= j < t.len() implies t[j] != sep by {
            assert(t[j] == c[j - u.len() - 1]);
        }
        lemma_piece_bounds_of_plain_tail(t, sep, (u.len() + 1) as int, (u.len() + 1) as int);
        assert(piece_bounds(t, sep, start, i) =~= seq![(start, i)] + seq![last]);
        assert(piece_bounds(u, sep, start, i) =~= seq![(start, i)]);
        assert(piece_bounds(t, sep, start, i) =~= piece_bounds(u, sep, start, i).push(last));
    } else {
        assert(t[i] == u[i]);
        if u[i] == sep {
            lemma_piece_bounds_appended(u, c, sep, i + 1, i + 1);
            assert(piece_bounds(t, sep, start, i) =~= (seq![(start, i)] + piece_bounds(
                u,
                sep,
                i + 1,
                i + 1,
            )).push(last));
        } else {
            lemma_piece_bounds_appended(u, c, sep, start, i + 1);
        }
    }
}

/// A text followed by a separator and a piece that holds no separator is
/// cut into the pieces of the text and then that piece.
pub proof fn lemma_split_appended(u: Seq<char>, c: Seq<char>, sep: char)
    requires
        plain(c, sep),
    ensures
        split(u + seq![sep] + c, sep) == split(u, sep).push(c),
{
    let t = u + seq![sep] + c;
    lemma_piece_bounds_appended(u, c, sep, 0, 0);
    lemma_piece_bounds_valid(u, sep, 0, 0);
    let bu = piece_bounds(u, sep, 0, 0);
    let bt = piece_bounds(t, sep, 0, 0);
    assert(bt.len() == bu.len() + 1);
    assert forall|k: int| 0 <= k < bt.len() implies split(t, sep)[k] == split(u, sep).push(
        c,
    )[k] by {
        if k < bu.len() {
            assert(bt[k] == bu[k]);
            assert(0 <= bu[k].0 <= bu[k].1 <= u.len());
            assert(t.subrange(bu[k].0, bu[k].1) =~= u.subrange(bu[k].0, bu[k].1));
        } else {
            assert(bt[k] == ((u.len() + 1) as int, (u.len() + 1 + c.len()) as int));
            assert(t.subrange((u.len() + 1) as int, (u.len() + 1 + c.len()) as int) =~= c);
        }
    }
    assert(split(t, sep) =~= split(u, sep).push(c));
}

/// Bounds moved to the right by `by`.
pub open spec fn shifted(bounds: Seq<(int, int)>, by: int) -> Seq<(int, int)> {
    Seq::new(bounds.len(), |k: int| (bounds[k].0 + by, bounds[k].1 + by))
}

proof fn lemma_piece_bounds_shifted(u: Seq<char>, y: Seq<char>, sep: char, start: int, i: int)
    requires
        0 <= start <= i <= y.len(),
    ensures
        piece_bounds(u + seq![sep] + y, sep, u.len() + 1 + start, u.len() + 1 + i) == shifted(
            piece_bounds(y, sep, start, i),
            (u.len() + 1) as int,
        ),
    decreases y.len() - i,
{
    let t = u + seq![sep] + y;
    let base = (u.len() + 1) as int;
    assert(t.len() == base + y.len());
    if i < y.len() {
        assert(t[base + i] == y[i]);
        if y[i] == sep {
            lemma_piece_bounds_shifted(u, y, sep, i + 1, i + 1);
            assert(piece_bounds(t, sep, base + start, base + i) =~= shifted(
                piece_bounds(y, sep, start, i),
                base,
            ));
        } else {
            lemma_piece_bounds_shifted(u, y, sep, start, i + 1);
        }
    } else {
        assert(piece_bounds(t, sep, base + start, base + i) =~= shifted(
            piece_bounds(y, sep, start, i),
            base,
        ));
    }
}

proof fn lemma_piece_bounds_joined(u: Seq<char>, y: Seq<char>, sep: char, start: int, i: int)
    requires
        0 <= start <= i <= u.len(),
    ensures
        piece_bounds(u + seq![sep] + y, sep, start, i) == piece_bounds(u, sep, start, i) + shifted(
            piece_bounds(y, sep, 0, 0),
            (u.len() + 1) as int,
        ),
    decreases u.len() - i,
{
    let t = u + seq![sep] + y;
    let tail = shifted(piece_bounds(y, sep, 0, 0), (u.len() + 1) as int);
    if i == u.len() {
        assert(t[i] == sep);
        lemma_piece_bounds_shifted(u, y, sep, 0, 0);
        assert(piece_bounds(t, sep, start, i) =~= seq![(start, i)] + tail);
        assert(piece_bounds(u, sep, start, i) =~= seq![(start, i)]);
    } else {
        assert(t[i] == u[i]);
        if u[i] == sep {
            lemma_piece_bounds_joined(u, y, sep, i + 1, i + 1);
            assert(piece_bounds(t, sep, start, i) =~= (seq![(start, i)] + piece_bounds(
                u,
                sep,
                i + 1,
                i + 1,
            )) + tail);
        } else {
            lemma_piece_bounds_joined(u, y, sep, start, i + 1);
        }
    }
}

/// Two texts with a separator between them are cut into the pieces of the
/// first and then the pieces of the second.
pub proof fn lemma_split_joined(u: Seq<char>, y: Seq<char>, sep: char)
    ensures
        split(u + seq![sep] + y, sep) == split(u, sep) + split(y, sep),
{
    let t = u + seq![sep] + y;
    let base = (u.len() + 1) as int;
    lemma_piece_bounds_joined(u, y, sep, 0, 0);
    lemma_piece_bounds_valid(u, sep, 0, 0);
    lemma_piece_bounds_valid(y, sep, 0, 0);
    let bu = piece_bounds(u, sep, 0, 0);
    let by = piece_bounds(y, sep, 0, 0);
    let bt = piece_bounds(t, sep, 0, 0);
    assert(bt.len() == bu.len() + by.len());
    assert forall|k: int| 0 <= k < bt.len() implies split(t, sep)[k] == (split(u, sep) + split(
        y,
        sep,
    ))[k] by {
        if k < bu.len() {
            assert(bt[k] == bu[k]);
            assert(0 <= bu[k].0 <= bu[k].1 <= u.len());
            assert(t.subrange(bu[k].0, bu[k].1) =~= u.subrange(bu[k].0, bu[k].1));
        } else {
            let m = k - bu.len();
            assert(bt[k] == shifted(by, base)[m]);
            assert(0 <= by[m].0 <= by[m].1 <= y.len());
            assert(t.subrange(by[m].0 + base, by[m].1 + base) =~= y.subrange(by[m].0, by[m].1));
        }
    }
    assert(split(t, sep) =~= split(u, sep) + split(y, sep));
}

/// A text that holds no separator is one piece.
pub proof fn lemma_split_plain(x: Seq<char>, sep: char)
    requires
        plain(x, sep),
    ensures
        split(x, sep) == seq![x],
{
    lemma_piece_bounds_of_plain_tail(x, sep, 0, 0);
    assert(split(x, sep).len() == 1);
    assert(split(x, sep)[0] =~= x);
    assert(split(x, sep) =~= seq![x]);
}

proof fn lemma_piece_bounds_plain(s: Seq<char>, sep: char, start: int, i: int)
    requires
        0 <= start <= i <= s.len(),
        forall|j: int| start <= j < i ==> s[j] != sep,
    ensures
        forall|k: int|
            0 <= k < piece_bounds(s, sep, start, i).len() ==> plain(
                s.subrange(
                    (#[trigger] piece_bounds(s, sep, start, i)[k]).0,
                    piece_bounds(s, sep, start, i)[k].1,
                ),
                sep,
            ),
    decreases s.len() - i,
{
    lemma_piece_bounds_valid(s, sep, start, i);
    let all = piece_bounds(s, sep, start, i);
    if i >= s.len() {
        assert(all[0] == (start, s.len() as int));
        assert(plain(s.subrange(start, s.len() as int), sep)) by {
            assert forall|j: int| 0 <= j < s.len() - start implies s.subrange(
                start,
                s.len() as int,
            )[j] != sep by {
                assert(s.subrange(start, s.len() as int)[j] == s[start + j]);
            }
        }
    } else if s[i] == sep {
        lemma_piece_bounds_plain(s, sep, i + 1, i + 1);
        let rest = piece_bounds(s, sep, i + 1, i + 1);
        assert(all == seq![(start, i)] + rest);
        assert(plain(s.subrange(start, i), sep)) by {
            assert forall|j: int| 0 <= j < i - start implies s.subrange(start, i)[j] != sep by {
                assert(s.subrange(start, i)[j] == s[start + j]);
            }
        }
        assert forall|k: int| 0 <= k < all.len() implies plain(
            s.subrange((#[trigger] all[k]).0, all[k].1),
            sep,
        ) by {
            if k > 0 {
                assert(all[k] == rest[k - 1]);
            } else {
                assert(all[0] == (start, i));
            }
        }
    } else {
        lemma_piece_bounds_plain(s, sep, start, i + 1);
        assert(all == piece_bounds(s, sep, start, i + 1));
    }
}

/// No piece of a split holds the separator.
pub proof fn lemma_split_pieces_plain(s: Seq<char>, sep: char)
    ensures
        split(s, sep).len() >= 1,
        forall|k: int| 0 <= k < split(s, sep).len() ==> plain(#[trigger] split(s, sep)[k], sep),
{
    lemma_piece_bounds_plain(s, sep, 0, 0);
    lemma_piece_bounds_valid(s, sep, 0, 0);
}

/// Cuts `s` at every `sep` and gives the bounds of the pieces, in order.
pub fn split_bounds(s: &Vec<char>, sep: char) -> (r: Vec<(usize, usize)>)
    ensures
        r@.len() == split(s@, sep).len(),
        r@.len() >= 1,
        forall|k: int|
            0 <= k < r@.len() ==> (#[trigger] r@[k]).0 <= r@[k].1 <= s@.len() && s@.subrange(
                r@[k].0 as int,
                r@[k].1 as int,
            ) == split(s@, sep)[k],
{
    let n = s.len();
    let mut r: Vec<(usize, usize)> = Vec::new();
    let mut start: usize = 0;
    let mut i: usize = 0;
    let ghost all = piece_bounds(s@, sep, 0, 0);
    while i < n
        invariant
            n == s@.len(),
            start <= i <= n,
            all == piece_bounds(s@, sep, 0, 0),
            all.len() == r@.len() + piece_bounds(s@, sep, start as int, i as int).len(),
            forall|k: int|
                0 <= k < r@.len() ==> (#[trigger] r@[k]).0 == all[k].0 && r@[k].1 == all[k].1,
            forall|k: int|
                0 <= k < piece_bounds(s@, sep, start as int, i as int).len() ==> all[r@.len() + k]
                    == #[trigger] piece_bounds(s@, sep, start as int, i as int)[k],
        decreases n - i,
    {
        if s[i] == sep {
            proof {
                let here = piece_bounds(s@, sep, start as int, i as int);
                let rest = piece_bounds(s@, sep, i + 1, i + 1);
                assert(here == seq![(start as int, i as int)] + rest);
                assert(here[0] == (start as int, i as int));
                assert forall|k: int| 0 <= k < rest.len() implies all[r@.len() + 1 + k]
                    == #[trigger] rest[k] by {
                    assert(here[k + 1] == rest[k]);
                }
            }
            r.push((start, i));
            start = i + 1;
        }
        i += 1;
    }
    proof {
        let here = piece_bounds(s@, sep, start as int, i as int);
        assert(here == seq![(start as int, n as int)]);
        assert(here[0] == (start as int, n as int));
    }
    r.push((start, n));
    proof {
        lemma_piece_bounds_valid(s@, sep, 0, 0);
        assert(r@.len() == all.len());
        assert forall|k: int| 0 <= k < r@.len() implies (#[trigger] r@[k]).0 <= r@[k].1
            <= s@.len() && s@.subrange(r@[k].0 as int, r@[k].1 as int) == split(s@, sep)[k] by {
            assert(r@[k].0 == all[k].0 && r@[k].1 == all[k].1);
        }
    }
    r
}

/// Copies the part `s[lo..hi]` of a character vector.
pub fn copy_range(s: &Vec<char>, lo: usize, hi: usize) -> (r: Vec<char>)
    requires
        lo <= hi <= s.len(),
    ensures
        r@ == s@.subrange(lo as int, hi as int),
{
    let mut r: Vec<char> = Vec::new();
    let mut i: usize = lo;
    while i < hi
        invariant
            lo <= i <= hi <= s.len(),
            r@ == s@.subrange(lo as int, i as int),
        decreases hi - i,
    {
        r.push(s[i]);
        i += 1;
    }
    r
}

/// Whether two character vectors hold the same text.
pub fn same_chars(a: &Vec<char>, b: &Vec<char>) -> (r: bool)
    ensures
        r == (a@ == b@),
{
    if a.len() != b.len() {
        return false;
    }
    let mut i: usize = 0;
    while i < a.len()
        invariant
            i <= a.len(),
            a.len() == b.len(),
            a@.subrange(0, i as int) == b@.subrange(0, i as int),
        decreases a.len() - i,
    {
        if a[i] != b[i] {
            return false;
        }
        proof {
            assert(a@.subrange(0, i + 1) == a@.subrange(0, i as int).push(a@[i as int]));
            assert(b@.subrange(0, i + 1) == b@.subrange(0, i as int).push(b@[i as int]));
        }
        i += 1;
    }
    proof {
        assert(a@.subrange(0, i as int) == a@);
        assert(b@.subrange(0, i as int) == b@);
    }
    true
}

/// The texts `a`, `b` and `c` joined.
pub fn join3(a: &str, b: &str, c: &str) -> (r: String)
    ensures
        r@ == a@ + b@ + c@,
{
    let mut r = String::from_str(a);
    r.append(b);
    r.append(c);
    r
}

/// The texts `a` and `b` joined.
pub fn join2(a: &str, b: &str) -> (r: String)
    ensures
        r@ == a@ + b@,
{
    let mut r = String::from_str(a);
    r.append(b);
    r
}

/// The decimal digits of `n`, most significant first.
pub open spec fn decimal(n: nat) -> Seq<char>
    decreases n,
{
    if n < 10 {
        seq![digit(n)]
    } else {
        decimal(n / 10).push(digit(n % 10))
    }
}

/// The character for a single decimal digit.
pub open spec fn digit(d: nat) -> char {
    if d == 0 {
        '0'
    } else if d == 1 {
        '1'
    } else if d == 2 {
        '2'
    } else if d == 3 {
        '3'
    } else if d == 4 {
        '4'
    } else if d == 5 {
        '5'
    } else if d == 6 {
        '6'
    } else if d == 7 {
        '7'
    } else if d == 8 {
        '8'
    } else {
        '9'
    }
}

fn digit_str(d: usize) -> (s: &'static str)
    requires
        d < 10,
    ensures
        s@ == seq![digit(d as nat)],
{
    proof {
        reveal_strlit("0");
        reveal_strlit("1");
        reveal_strlit("2");
        reveal_strlit("3");
        reveal_strlit("4");
        reveal_strlit("5");
        reveal_strlit("6");
        reveal_strlit("7");
        reveal_strlit("8");
        reveal_strlit("9");
    }
    let s = if d == 0 {
        "0"
    } else if d == 1 {
        "1"
    } else if d == 2 {
        "2"
    } else if d == 3 {
        "3"
    } else if d == 4 {
        "4"
    } else if d == 5 {
        "5"
    } else if d == 6 {
        "6"
    } else if d == 7 {
        "7"
    } else if d == 8 {
        "8"
    } else {
        "9"
    };
    assert(s@ =~= seq![digit(d as nat)]);
    s
}

/// Writes a number in decimal.
pub fn to_decimal(n: usize) -> (s: String)
    ensures
        s@ == decimal(n as nat),
    decreases n,
{
    if n < 10 {
        String::from_str(digit_str(n))
    } else {
        let mut s = to_decimal(n / 10);
        s.append(digit_str(n % 10));
        assert(s@ =~= decimal(n as nat));
        s
    }
}

} // verus!
