//! The identity of file records: `/`-separated paths, made absolute against
//! the working directory and brought to their canonical form, and the name
//! under which a file is exported.

use crate::text::{
    chars_of, lemma_split_appended, lemma_split_empty, lemma_split_pieces_plain, plain, split,
    split_bounds,
};
use vstd::prelude::*;
use vstd::string::*;

verus! {

/// Whether a path starts at the root.
pub open spec fn is_absolute_path(path: Seq<char>) -> bool {
    path.len() > 0 && path[0] == '/'
}

/// `path` joined onto the directory `base`: a separator stands between the
/// two unless `base` is empty or ends in one.
pub open spec fn joined(base: Seq<char>, path: Seq<char>) -> Seq<char> {
    if base.len() == 0 || base.last() == '/' {
        base + path
    } else {
        base + seq!['/'] + path
    }
}

/// `filename` as an absolute path: the path itself where it is absolute,
/// else the path joined onto the working directory.
pub open spec fn absolute_path(filename: Seq<char>, cwd: Seq<char>) -> Seq<char> {
    if is_absolute_path(filename) {
        filename
    } else {
        joined(cwd, filename)
    }
}

/// Whether a path starts at the root.
pub fn is_absolute(path: &str) -> (b: bool)
    ensures
        b == is_absolute_path(path@),
{
    path.unicode_len() > 0 && path.get_char(0) == '/'
}

/// Makes `filename` absolute against the working directory `cwd`.
pub fn resolve(filename: &str, cwd: &str) -> (r: String)
    ensures
        r@ == absolute_path(filename@, cwd@),
{
    if is_absolute(filename) {
        String::from_str(filename)
    } else {
        let n = cwd.unicode_len();
        let mut r = String::from_str(cwd);
        if n > 0 && cwd.get_char(n - 1) != '/' {
            proof {
                reveal_strlit("/");
            }
            r.append("/");
            assert("/"@ =~= seq!['/']);
        }
        r.append(filename);
        r
    }
}

/// Whether a piece of a path names something: it is neither empty nor `.`.
pub open spec fn is_named(piece: Seq<char>) -> bool {
    piece.len() > 0 && piece != seq!['.']
}

/// The components after one more piece: a piece that is empty or `.` adds
/// nothing, `..` takes the last component away (at the root there is none
/// to take), and any other piece is one more component.
pub open spec fn stepped(before: Seq<Seq<char>>, piece: Seq<char>) -> Seq<Seq<char>> {
    if !is_named(piece) {
        before
    } else if piece == seq!['.', '.'] {
        if before.len() > 0 {
            before.drop_last()
        } else {
            before
        }
    } else {
        before.push(piece)
    }
}

/// The components `stack` after the first `n` of `pieces` were taken, one
/// after the other.
pub open spec fn grown(stack: Seq<Seq<char>>, pieces: Seq<Seq<char>>, n: int) -> Seq<Seq<char>>
    decreases n,
{
    if n <= 0 {
        stack
    } else {
        stepped(grown(stack, pieces, n - 1), pieces[n - 1])
    }
}

/// The components that the first `n` pieces of a path come to.
pub open spec fn components(pieces: Seq<Seq<char>>, n: int) -> Seq<Seq<char>> {
    grown(Seq::empty(), pieces, n)
}

/// The first `n` components written as a path: each after a separator.
pub open spec fn rooted(components: Seq<Seq<char>>, n: int) -> Seq<char>
    decreases n,
{
    if n <= 0 {
        Seq::empty()
    } else {
        rooted(components, n - 1) + seq!['/'] + components[n - 1]
    }
}

/// The canonical form of an absolute path: the root, or its components
/// each after one separator. It holds no empty piece, no `.` and no `..`,
/// so that every spelling of a path comes to the same text.
pub open spec fn canonical_path(path: Seq<char>) -> Seq<char> {
    let pieces = split(path, '/');
    let parts = components(pieces, pieces.len() as int);
    if parts.len() == 0 {
        seq!['/']
    } else {
        rooted(parts, parts.len() as int)
    }
}

/// The identifier of the file record for `filename`: the canonical form of
/// its absolute path, taken against the working directory `cwd`.
pub open spec fn record_path(filename: Seq<char>, cwd: Seq<char>) -> Seq<char> {
    canonical_path(absolute_path(filename, cwd))
}

/// Whether a piece is a component of a canonical path: a name that is not
/// `..` and holds no separator.
pub open spec fn is_component(piece: Seq<char>) -> bool {
    is_named(piece) && piece != seq!['.', '.'] && plain(piece, '/')
}

proof fn lemma_grown_holds(stack: Seq<Seq<char>>, pieces: Seq<Seq<char>>, n: int)
    requires
        0 <= n <= pieces.len(),
        forall|k: int| 0 <= k < pieces.len() ==> plain(#[trigger] pieces[k], '/'),
        forall|i: int| 0 <= i < stack.len() ==> is_component(#[trigger] stack[i]),
    ensures
        grown(stack, pieces, n).len() <= stack.len() + n,
        forall|i: int|
            0 <= i < grown(stack, pieces, n).len() ==> is_component(
                #[trigger] grown(stack, pieces, n)[i],
            ),
    decreases n,
{
    if n > 0 {
        lemma_grown_holds(stack, pieces, n - 1);
    }
}

/// What `components` keeps are components, where no piece holds a
/// separator.
pub proof fn lemma_components_hold(pieces: Seq<Seq<char>>, n: int)
    requires
        0 <= n <= pieces.len(),
        forall|k: int| 0 <= k < pieces.len() ==> plain(#[trigger] pieces[k], '/'),
    ensures
        components(pieces, n).len() <= n,
        forall|i: int|
            0 <= i < components(pieces, n).len() ==> is_component(
                #[trigger] components(pieces, n)[i],
            ),
{
    lemma_grown_holds(Seq::empty(), pieces, n);
}

proof fn lemma_grown_prefix(
    stack: Seq<Seq<char>>,
    p: Seq<Seq<char>>,
    q: Seq<Seq<char>>,
    n: int,
)
    requires
        0 <= n <= p.len(),
        n <= q.len(),
        forall|i: int| 0 <= i < n ==> p[i] == q[i],
    ensures
        grown(stack, p, n) == grown(stack, q, n),
    decreases n,
{
    if n > 0 {
        lemma_grown_prefix(stack, p, q, n - 1);
    }
}

/// Taking the pieces of `a` and then `k` pieces of `b` is taking that many
/// pieces of `a + b`.
pub proof fn lemma_grown_joined(
    stack: Seq<Seq<char>>,
    a: Seq<Seq<char>>,
    b: Seq<Seq<char>>,
    k: int,
)
    requires
        0 <= k <= b.len(),
    ensures
        grown(stack, a + b, a.len() + k) == grown(grown(stack, a, a.len() as int), b, k),
    decreases k,
{
    if k <= 0 {
        lemma_grown_prefix(stack, a + b, a, a.len() as int);
    } else {
        lemma_grown_joined(stack, a, b, k - 1);
        assert((a + b)[a.len() + k - 1] == b[k - 1]);
    }
}

/// A piece that is empty or `.` may stand before any pieces and changes
/// nothing.
pub proof fn lemma_grown_skips(stack: Seq<Seq<char>>, x: Seq<char>, b: Seq<Seq<char>>, k: int)
    requires
        0 <= k <= b.len(),
        !is_named(x),
    ensures
        grown(stack, seq![x] + b, 1 + k) == grown(stack, b, k),
    decreases k,
{
    let p = seq![x] + b;
    if k <= 0 {
        assert(p[0] == x);
        assert(grown(stack, p, 0) == stack);
    } else {
        lemma_grown_skips(stack, x, b, k - 1);
        assert(p[k] == b[k - 1]);
    }
}

/// A name and then `..` may stand before any pieces and change nothing.
pub proof fn lemma_grown_steps_back(
    stack: Seq<Seq<char>>,
    c: Seq<char>,
    b: Seq<Seq<char>>,
    k: int,
)
    requires
        0 <= k <= b.len(),
        is_named(c),
        c != seq!['.', '.'],
    ensures
        grown(stack, seq![c, seq!['.', '.']] + b, 2 + k) == grown(stack, b, k),
    decreases k,
{
    let up = seq!['.', '.'];
    let p = seq![c, up] + b;
    if k <= 0 {
        assert(p[0] == c);
        assert(p[1] == up);
        assert(grown(stack, p, 0) == stack);
        assert(grown(stack, p, 1) == stack.push(c));
        assert(is_named(up)) by {
            assert(up.len() == 2);
        }
        assert(stack.push(c).drop_last() =~= stack);
    } else {
        lemma_grown_steps_back(stack, c, b, k - 1);
        assert(p[k + 1] == b[k - 1]);
    }
}

/// Components written as a path are cut back into an empty piece, which
/// stands before the root, and the components.
pub proof fn lemma_rooted_split(parts: Seq<Seq<char>>, n: int)
    requires
        0 <= n <= parts.len(),
        forall|i: int| 0 <= i < parts.len() ==> plain(#[trigger] parts[i], '/'),
    ensures
        split(rooted(parts, n), '/') == seq![Seq::<char>::empty()] + parts.subrange(0, n),
    decreases n,
{
    if n <= 0 {
        assert(rooted(parts, n) =~= Seq::<char>::empty());
        lemma_split_empty('/');
        assert(parts.subrange(0, n) =~= Seq::<Seq<char>>::empty());
        assert(seq![Seq::<char>::empty()] + Seq::<Seq<char>>::empty() =~= seq![
            Seq::<char>::empty(),
        ]);
    } else {
        lemma_rooted_split(parts, n - 1);
        lemma_split_appended(rooted(parts, n - 1), parts[n - 1], '/');
        assert((seq![Seq::<char>::empty()] + parts.subrange(0, n - 1)).push(parts[n - 1]) =~= seq![
            Seq::<char>::empty(),
        ] + parts.subrange(0, n));
    }
}

/// Components written as a path start at the root.
pub proof fn lemma_rooted_starts_at_root(parts: Seq<Seq<char>>, n: int)
    requires
        1 <= n <= parts.len(),
    ensures
        is_absolute_path(rooted(parts, n)),
    decreases n,
{
    if n > 1 {
        lemma_rooted_starts_at_root(parts, n - 1);
    } else {
        assert(rooted(parts, 0) =~= Seq::<char>::empty());
    }
}

/// Components stay as they are: an empty piece and then components come to
/// those components again.
pub proof fn lemma_components_of_components(parts: Seq<Seq<char>>, n: int)
    requires
        0 <= n <= parts.len(),
        forall|i: int| 0 <= i < parts.len() ==> is_component(#[trigger] parts[i]),
    ensures
        components(seq![Seq::<char>::empty()] + parts, n + 1) == parts.subrange(0, n),
    decreases n,
{
    let pieces = seq![Seq::<char>::empty()] + parts;
    if n <= 0 {
        assert(components(pieces, 0) =~= Seq::<Seq<char>>::empty());
        assert(pieces[0] == Seq::<char>::empty());
        assert(components(pieces, 1) =~= parts.subrange(0, 0));
    } else {
        lemma_components_of_components(parts, n - 1);
        assert(pieces[n] == parts[n - 1]);
        assert(is_component(parts[n - 1]));
        assert(parts.subrange(0, n - 1).push(parts[n - 1]) =~= parts.subrange(0, n));
    }
}

/// What a canonical path is made of: it is the root, or it is cut by the
/// separator into one empty piece, which stands before the root, and then
/// components only. It holds no empty piece after the root, no `.` and no
/// `..`.
pub proof fn lemma_canonical_pieces(path: Seq<char>)
    ensures
        ({
            let pieces = split(path, '/');
            let parts = components(pieces, pieces.len() as int);
            &&& forall|i: int| 0 <= i < parts.len() ==> is_component(#[trigger] parts[i])
            &&& parts.len() == 0 ==> canonical_path(path) == seq!['/']
            &&& parts.len() > 0 ==> split(canonical_path(path), '/') == seq![
                Seq::<char>::empty(),
            ] + parts
        }),
{
    let pieces = split(path, '/');
    let parts = components(pieces, pieces.len() as int);
    lemma_split_pieces_plain(path, '/');
    lemma_components_hold(pieces, pieces.len() as int);
    if parts.len() > 0 {
        lemma_rooted_split(parts, parts.len() as int);
        assert(parts.subrange(0, parts.len() as int) =~= parts);
    }
}

/// A canonical path is its own canonical form.
pub proof fn lemma_canonical_fixed(path: Seq<char>)
    ensures
        canonical_path(canonical_path(path)) == canonical_path(path),
{
    let pieces = split(path, '/');
    let parts = components(pieces, pieces.len() as int);
    let r = canonical_path(path);
    lemma_canonical_pieces(path);
    if parts.len() == 0 {
        let none = Seq::<char>::empty();
        assert(r =~= none + seq!['/'] + none);
        assert(plain(none, '/'));
        lemma_split_appended(none, none, '/');
        lemma_split_empty('/');
        let again = split(r, '/');
        assert(again =~= seq![none, none]);
        assert(components(again, 0) =~= Seq::<Seq<char>>::empty());
        assert(components(again, 1) =~= Seq::<Seq<char>>::empty());
        assert(components(again, 2) =~= Seq::<Seq<char>>::empty());
    } else {
        lemma_components_of_components(parts, parts.len() as int);
        assert(parts.subrange(0, parts.len() as int) =~= parts);
        assert(split(r, '/').len() == parts.len() + 1);
    }
}

/// The canonical form of an absolute path.
pub fn canonicalize(path: &str) -> (r: String)
    ensures
        r@ == canonical_path(path@),
{
    let chars = chars_of(path);
    let bounds = split_bounds(&chars, '/');
    let ghost pieces = split(path@, '/');
    let mut stack: Vec<(usize, usize)> = Vec::new();
    let mut k: usize = 0;
    while k < bounds.len()
        invariant
            chars@ == path@,
            pieces == split(path@, '/'),
            k <= bounds@.len(),
            bounds@.len() == pieces.len(),
            forall|m: int|
                0 <= m < bounds@.len() ==> (#[trigger] bounds@[m]).0 <= bounds@[m].1 <= chars@.len()
                    && chars@.subrange(bounds@[m].0 as int, bounds@[m].1 as int) == pieces[m],
            stack@.len() == components(pieces, k as int).len(),
            forall|i: int|
                0 <= i < stack@.len() ==> (#[trigger] stack@[i]).0 <= stack@[i].1 <= chars@.len()
                    && chars@.subrange(stack@[i].0 as int, stack@[i].1 as int) == components(
                    pieces,
                    k as int,
                )[i],
        decreases bounds@.len() - k,
    {
        let (lo, hi) = bounds[k];
        assert(bounds@[k as int].0 == lo && bounds@[k as int].1 == hi);
        let ghost piece = pieces[k as int];
        assert(piece == chars@.subrange(lo as int, hi as int));
        let len = hi - lo;
        if len == 0 {
        } else if len == 1 && chars[lo] == '.' {
            assert(piece =~= seq!['.']);
        } else {
            assert(is_named(piece)) by {
                if piece == seq!['.'] {
                    assert(piece.len() == 1);
                    assert(piece[0] == '.');
                }
            }
            if len == 2 && chars[lo] == '.' && chars[lo + 1] == '.' {
                assert(piece =~= seq!['.', '.']);
                if stack.len() > 0 {
                    stack.pop();
                }
            } else {
                assert(piece != seq!['.', '.']) by {
                    if piece == seq!['.', '.'] {
                        assert(piece.len() == 2);
                        assert(piece[0] == '.' && piece[1] == '.');
                    }
                }
                stack.push((lo, hi));
            }
        }
        k += 1;
    }
    let ghost parts = components(pieces, pieces.len() as int);
    if stack.len() == 0 {
        proof {
            reveal_strlit("/");
        }
        let r = String::from_str("/");
        assert(r@ =~= seq!['/']);
        return r;
    }
    let mut r = String::new();
    let mut i: usize = 0;
    while i < stack.len()
        invariant
            chars@ == path@,
            i <= stack@.len(),
            stack@.len() == parts.len(),
            forall|j: int|
                0 <= j < stack@.len() ==> (#[trigger] stack@[j]).0 <= stack@[j].1 <= chars@.len()
                    && chars@.subrange(stack@[j].0 as int, stack@[j].1 as int) == parts[j],
            r@ == rooted(parts, i as int),
        decreases stack@.len() - i,
    {
        let (lo, hi) = stack[i];
        assert(stack@[i as int].0 == lo && stack@[i as int].1 == hi);
        proof {
            reveal_strlit("/");
        }
        r.append("/");
        assert("/"@ =~= seq!['/']);
        r.append(path.substring_char(lo, hi));
        i += 1;
    }
    r
}

/// The identifier of the file record for `filename`, against the working
/// directory `cwd`; `cwd` is not looked at where `filename` is absolute.
pub fn identify(filename: &str, cwd: &str) -> (r: String)
    ensures
        r@ == record_path(filename@, cwd@),
{
    let absolute = resolve(filename, cwd);
    canonicalize(absolute.as_str())
}

/// The last of the first `upto` pieces that names something.
pub open spec fn last_named(pieces: Seq<Seq<char>>, upto: int) -> Option<Seq<char>>
    decreases upto,
{
    if upto <= 0 {
        None
    } else if is_named(pieces[upto - 1]) {
        Some(pieces[upto - 1])
    } else {
        last_named(pieces, upto - 1)
    }
}

/// The final component of a path, if it has one: the last piece between
/// separators that is neither empty nor `.`, unless that piece is `..`.
pub open spec fn file_name_of(path: Seq<char>) -> Option<Seq<char>> {
    let pieces = split(path, '/');
    match last_named(pieces, pieces.len() as int) {
        Some(piece) => if piece == seq!['.', '.'] {
            None
        } else {
            Some(piece)
        },
        None => None,
    }
}

/// The final component of a path, if it has one.
pub fn file_name(path: &str) -> (r: Option<String>)
    ensures
        r is Some == file_name_of(path@) is Some,
        r matches Some(name) ==> Some(name@) == file_name_of(path@),
{
    let chars = chars_of(path);
    let bounds = split_bounds(&chars, '/');
    let ghost pieces = split(path@, '/');
    let mut k: usize = bounds.len();
    while k > 0
        invariant
            chars@ == path@,
            pieces == split(path@, '/'),
            k <= bounds@.len(),
            bounds@.len() == pieces.len(),
            forall|m: int|
                0 <= m < bounds@.len() ==> (#[trigger] bounds@[m]).0 <= bounds@[m].1 <= chars@.len()
                    && chars@.subrange(bounds@[m].0 as int, bounds@[m].1 as int) == pieces[m],
            last_named(pieces, k as int) == last_named(pieces, pieces.len() as int),
        decreases k,
    {
        let (lo, hi) = bounds[k - 1];
        assert(bounds@[k - 1].0 == lo && bounds@[k - 1].1 == hi);
        let ghost piece = pieces[k - 1];
        assert(piece == chars@.subrange(lo as int, hi as int));
        let len = hi - lo;
        if len == 0 {
            k -= 1;
        } else if len == 1 && chars[lo] == '.' {
            assert(piece =~= seq!['.']);
            k -= 1;
        } else {
            assert(is_named(piece)) by {
                if piece == seq!['.'] {
                    assert(piece.len() == 1);
                    assert(piece[0] == '.');
                }
            }
            if len == 2 && chars[lo] == '.' && chars[lo + 1] == '.' {
                assert(piece =~= seq!['.', '.']);
                return None;
            }
            assert(piece != seq!['.', '.']) by {
                if piece == seq!['.', '.'] {
                    assert(piece.len() == 2);
                    assert(piece[0] == '.' && piece[1] == '.');
                }
            }
            let name = String::from_str(path.substring_char(lo, hi));
            return Some(name);
        }
    }
    None
}

} // verus!
