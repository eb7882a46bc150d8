use vstd::prelude::*;

verus! {

/// `p` occurs in `s` starting at index `i`.
pub open spec fn matches_at(s: Seq<char>, p: Seq<char>, i: int) -> bool {
    0 <= i && i + p.len() <= s.len() && s.subrange(i, i + p.len()) == p
}

/// `p` occurs somewhere in `s`.
pub open spec fn occurs_in(s: Seq<char>, p: Seq<char>) -> bool {
    exists|i: int| matches_at(s, p, i)
}

/// The leftmost index at or after `i` where `p` occurs in `s`.
pub open spec fn first_match_from(s: Seq<char>, p: Seq<char>, i: int) -> Option<int>
    decreases s.len() + 1 - i,
{
    if i < 0 || i + p.len() > s.len() {
        None
    } else if matches_at(s, p, i) {
        Some(i)
    } else {
        first_match_from(s, p, i + 1)
    }
}

/// What `first_match_from` finds is a match, and nothing before it is.
pub proof fn lemma_first_match(s: Seq<char>, p: Seq<char>, i: int)
    requires
        0 <= i,
    ensures
        match first_match_from(s, p, i) {
            Some(k) => i <= k && matches_at(s, p, k) && forall|j: int|
                i <= j < k ==> !#[trigger] matches_at(s, p, j),
            None => forall|j: int| i <= j ==> !#[trigger] matches_at(s, p, j),
        },
    decreases s.len() + 1 - i,
{
    if i + p.len() > s.len() {
    } else if matches_at(s, p, i) {
    } else {
        lemma_first_match(s, p, i + 1);
    }
}

/// The pieces of `s[pos..]` between the non-overlapping matches of `p`,
/// found left to right (for a non-empty `p`).
pub open spec fn split_from(s: Seq<char>, p: Seq<char>, pos: int) -> Seq<Seq<char>>
    decreases s.len() - pos,
{
    if p.len() == 0 || pos < 0 || pos > s.len() {
        Seq::empty()
    } else {
        match first_match_from(s, p, pos) {
            Some(k) => {
                proof {
                    lemma_first_match(s, p, pos);
                }
                seq![s.subrange(pos, k)] + split_from(s, p, k + p.len())
            },
            None => seq![s.subrange(pos, s.len() as int)],
        }
    }
}

/// The pieces of `s` between the non-overlapping matches of `p`, left to
/// right: what splitting a string on a pattern yields.
pub open spec fn split_pieces(s: Seq<char>, p: Seq<char>) -> Seq<Seq<char>> {
    split_from(s, p, 0)
}

/// The pieces joined, with `sep` between each two neighbours.
pub open spec fn join(pieces: Seq<Seq<char>>, sep: Seq<char>) -> Seq<char>
    decreases pieces.len(),
{
    if pieces.len() == 0 {
        Seq::empty()
    } else if pieces.len() == 1 {
        pieces[0]
    } else {
        pieces[0] + sep + join(pieces.drop_first(), sep)
    }
}

/// `s` with every match of `p` (left to right, non-overlapping) replaced by `r`.
pub open spec fn replace_all(s: Seq<char>, p: Seq<char>, r: Seq<char>) -> Seq<char> {
    join(split_pieces(s, p), r)
}

/// One step of splitting: the first piece, then the pieces after the match.
pub proof fn lemma_split_step(s: Seq<char>, p: Seq<char>, pos: int)
    requires
        p.len() > 0,
        0 <= pos <= s.len(),
    ensures
        split_from(s, p, pos).len() >= 1,
        match first_match_from(s, p, pos) {
            Some(k) => pos <= k && k + p.len() <= s.len() && split_from(s, p, pos) == seq![
                s.subrange(pos, k),
            ] + split_from(s, p, k + p.len()) && split_from(s, p, k + p.len()).len() >= 1,
            None => split_from(s, p, pos) == seq![s.subrange(pos, s.len() as int)],
        },
{
    lemma_first_match(s, p, pos);
    match first_match_from(s, p, pos) {
        Some(k) => {
            lemma_first_match(s, p, k + p.len());
            match first_match_from(s, p, k + p.len()) {
                Some(k2) => {
                    lemma_first_match(s, p, k2 + p.len());
                },
                None => {},
            }
        },
        None => {},
    }
}

/// When `p` does not occur in `s[pos..]`, that whole suffix is the only piece.
pub proof fn lemma_split_no_match(s: Seq<char>, p: Seq<char>, pos: int)
    requires
        p.len() > 0,
        0 <= pos <= s.len(),
        forall|j: int| pos <= j ==> !#[trigger] matches_at(s, p, j),
    ensures
        split_from(s, p, pos) == seq![s.subrange(pos, s.len() as int)],
{
    lemma_first_match(s, p, pos);
    if first_match_from(s, p, pos) is Some {
        let k = first_match_from(s, p, pos)->0;
        assert(matches_at(s, p, k));
    }
}

/// Joining the pieces of a split with the pattern gives back the text.
pub proof fn lemma_join_split_from(s: Seq<char>, p: Seq<char>, pos: int)
    requires
        p.len() > 0,
        0 <= pos <= s.len(),
    ensures
        join(split_from(s, p, pos), p) == s.subrange(pos, s.len() as int),
    decreases s.len() - pos,
{
    lemma_split_step(s, p, pos);
    lemma_first_match(s, p, pos);
    match first_match_from(s, p, pos) {
        Some(k) => {
            let rest = split_from(s, p, k + p.len());
            let whole = split_from(s, p, pos);
            lemma_join_split_from(s, p, k + p.len());
            assert(whole.drop_first() =~= rest);
            assert(whole[0] == s.subrange(pos, k));
            assert(s.subrange(pos, s.len() as int) =~= s.subrange(pos, k) + p + s.subrange(
                k + p.len(),
                s.len() as int,
            ));
        },
        None => {},
    }
}

/// Law: splitting a text on a non-empty pattern and joining the pieces with
/// that pattern gives back the text.
pub proof fn lemma_split_then_join(s: Seq<char>, p: Seq<char>)
    requires
        p.len() > 0,
    ensures
        join(split_pieces(s, p), p) == s,
{
    lemma_join_split_from(s, p, 0);
    assert(s.subrange(0, s.len() as int) =~= s);
}

/// Law: replacing a pattern by itself leaves a text unchanged.
pub proof fn lemma_replace_by_itself(s: Seq<char>, p: Seq<char>)
    requires
        p.len() > 0,
    ensures
        replace_all(s, p, p) == s,
{
    lemma_split_then_join(s, p);
}

/// Law: a text in which the pattern does not occur is its own only piece,
/// so replacing the pattern leaves it unchanged.
pub proof fn lemma_absent_pattern(s: Seq<char>, p: Seq<char>, r: Seq<char>)
    requires
        p.len() > 0,
        !occurs_in(s, p),
    ensures
        split_pieces(s, p) == seq![s],
        replace_all(s, p, r) == s,
{
    assert forall|j: int| 0 <= j implies !#[trigger] matches_at(s, p, j) by {
        if matches_at(s, p, j) {
            assert(occurs_in(s, p));
        }
    }
    lemma_split_no_match(s, p, 0);
    assert(s.subrange(0, s.len() as int) =~= s);
}

/// No piece of `s[pos..]` holds a match of `p`.
proof fn lemma_pieces_free_from(s: Seq<char>, p: Seq<char>, pos: int)
    requires
        p.len() > 0,
        0 <= pos <= s.len(),
    ensures
        forall|n: int|
            0 <= n < split_from(s, p, pos).len() ==> !occurs_in(
                #[trigger] split_from(s, p, pos)[n],
                p,
            ),
    decreases s.len() - pos,
{
    lemma_split_step(s, p, pos);
    lemma_first_match(s, p, pos);
    let end = match first_match_from(s, p, pos) {
        Some(k) => k,
        None => s.len() as int,
    };
    let piece = s.subrange(pos, end);
    assert(split_from(s, p, pos)[0] == piece);
    assert(!occurs_in(piece, p)) by {
        if occurs_in(piece, p) {
            let j = choose|j: int| matches_at(piece, p, j);
            assert(s.subrange(pos + j, pos + j + p.len()) =~= piece.subrange(j, j + p.len()));
            assert(matches_at(s, p, pos + j));
        }
    }
    match first_match_from(s, p, pos) {
        Some(k) => {
            lemma_pieces_free_from(s, p, k + p.len());
            let rest = split_from(s, p, k + p.len());
            assert forall|n: int| 0 <= n < split_from(s, p, pos).len() implies !occurs_in(
                #[trigger] split_from(s, p, pos)[n],
                p,
            ) by {
                if n > 0 {
                    assert(split_from(s, p, pos)[n] == rest[n - 1]);
                }
            }
        },
        None => {},
    }
}

/// Law: no piece of a split holds the pattern, and joining the pieces with
/// the pattern gives back the text.
pub proof fn lemma_split_pieces(s: Seq<char>, p: Seq<char>)
    requires
        p.len() > 0,
    ensures
        forall|n: int|
            0 <= n < split_pieces(s, p).len() ==> !occurs_in(#[trigger] split_pieces(s, p)[n], p),
        join(split_pieces(s, p), p) == s,
{
    lemma_pieces_free_from(s, p, 0);
    lemma_split_then_join(s, p);
}

proof fn lemma_match_shift(s: Seq<char>, p: Seq<char>, pos: int, j: int)
    requires
        0 <= pos <= s.len(),
        0 <= j,
    ensures
        matches_at(s.subrange(pos, s.len() as int), p, j) == matches_at(s, p, pos + j),
{
    let t = s.subrange(pos, s.len() as int);
    if j + p.len() <= t.len() {
        assert(t.subrange(j, j + p.len()) =~= s.subrange(pos + j, pos + j + p.len()));
    }
}

proof fn lemma_first_match_shift(s: Seq<char>, p: Seq<char>, pos: int, j: int)
    requires
        0 <= pos <= s.len(),
        0 <= j,
    ensures
        first_match_from(s.subrange(pos, s.len() as int), p, j) == match first_match_from(
            s,
            p,
            pos + j,
        ) {
            Some(k) => Some(k - pos),
            None => None,
        },
    decreases s.len() - pos + 1 - j,
{
    lemma_match_shift(s, p, pos, j);
    if j + p.len() > s.len() - pos {
    } else if matches_at(s, p, pos + j) {
    } else {
        lemma_first_match_shift(s, p, pos, j + 1);
    }
}

proof fn lemma_split_shift(s: Seq<char>, p: Seq<char>, pos: int, j: int)
    requires
        p.len() > 0,
        0 <= pos <= s.len(),
        0 <= j <= s.len() - pos,
    ensures
        split_from(s.subrange(pos, s.len() as int), p, j) == split_from(s, p, pos + j),
    decreases s.len() - pos - j,
{
    let t = s.subrange(pos, s.len() as int);
    lemma_first_match_shift(s, p, pos, j);
    lemma_first_match(s, p, pos + j);
    lemma_split_step(s, p, pos + j);
    lemma_split_step(t, p, j);
    match first_match_from(s, p, pos + j) {
        Some(k) => {
            lemma_split_shift(s, p, pos, k - pos + p.len());
            assert(t.subrange(j, k - pos) =~= s.subrange(pos + j, k));
        },
        None => {
            assert(t.subrange(j, t.len() as int) =~= s.subrange(pos + j, s.len() as int));
        },
    }
}

/// Law: splitting takes the text before the leftmost match of the pattern
/// as the first piece and splits the rest after that match; without a
/// match the text is its only piece.
pub proof fn lemma_split_at_first_match(s: Seq<char>, p: Seq<char>)
    requires
        p.len() > 0,
    ensures
        match first_match_from(s, p, 0) {
            Some(k) => split_pieces(s, p) == seq![s.subrange(0, k)] + split_pieces(
                s.subrange(k + p.len(), s.len() as int),
                p,
            ),
            None => split_pieces(s, p) == seq![s],
        },
{
    lemma_split_step(s, p, 0);
    lemma_first_match(s, p, 0);
    match first_match_from(s, p, 0) {
        Some(k) => {
            lemma_split_shift(s, p, k + p.len(), 0);
        },
        None => {
            assert(s.subrange(0, s.len() as int) =~= s);
        },
    }
}

/// Law: replacing puts `r` in place of the leftmost match of the pattern
/// and goes on replacing after it; a text without a match is unchanged.
pub proof fn lemma_replace_at_first_match(s: Seq<char>, p: Seq<char>, r: Seq<char>)
    requires
        p.len() > 0,
    ensures
        match first_match_from(s, p, 0) {
            Some(k) => replace_all(s, p, r) == s.subrange(0, k) + r + replace_all(
                s.subrange(k + p.len(), s.len() as int),
                p,
                r,
            ),
            None => replace_all(s, p, r) == s,
        },
{
    lemma_split_at_first_match(s, p);
    lemma_first_match(s, p, 0);
    match first_match_from(s, p, 0) {
        Some(k) => {
            let t = s.subrange(k + p.len(), s.len() as int);
            lemma_split_step(t, p, 0);
            let whole = split_pieces(s, p);
            assert(whole.drop_first() =~= split_pieces(t, p));
        },
        None => {},
    }
}

/// When `p` occurs in `s` only at `k`, the split has exactly the two pieces
/// around that match.
pub proof fn lemma_split_single_match(s: Seq<char>, p: Seq<char>, k: int)
    requires
        p.len() > 0,
        matches_at(s, p, k),
        forall|j: int| j != k ==> !#[trigger] matches_at(s, p, j),
    ensures
        split_pieces(s, p) == seq![s.subrange(0, k), s.subrange(k + p.len(), s.len() as int)],
{
    lemma_first_match(s, p, 0);
    match first_match_from(s, p, 0) {
        Some(k2) => {
            assert(k2 == k);
        },
        None => {
            assert(matches_at(s, p, k));
        },
    }
    lemma_split_step(s, p, 0);
    lemma_split_no_match(s, p, k + p.len());
    assert(split_pieces(s, p) =~= seq![
        s.subrange(0, k),
        s.subrange(k + p.len(), s.len() as int),
    ]);
}

/// No proper suffix of `key` is also a prefix of it, so two matches of `key`
/// can never overlap.
pub open spec fn self_overlap_free(key: Seq<char>) -> bool {
    forall|j: int|
        0 < j < key.len() ==> #[trigger] key.subrange(j, key.len() as int) != key.subrange(
            0,
            key.len() - j,
        )
}

/// Splitting `key + a` on `key`, where `key` cannot overlap itself and does
/// not occur in `a`, gives an empty piece and then `a`.
pub proof fn lemma_split_after_key(key: Seq<char>, a: Seq<char>)
    requires
        key.len() > 0,
        self_overlap_free(key),
        !occurs_in(a, key),
    ensures
        split_pieces(key + a, key) == seq![Seq::<char>::empty(), a],
{
    let u = key + a;
    let n = key.len() as int;
    assert(u.subrange(0, n) =~= key);
    assert forall|j: int| j != 0 implies !#[trigger] matches_at(u, key, j) by {
        if matches_at(u, key, j) {
            if j < n {
                assert(u.subrange(j, j + n).subrange(0, n - j) =~= u.subrange(j, n));
                assert(u.subrange(j, n) =~= key.subrange(j, n));
                assert(key.subrange(j, n) == key.subrange(0, n - j));
            } else {
                assert(u.subrange(j, j + n) =~= a.subrange(j - n, j - n + n));
                assert(matches_at(a, key, j - n));
            }
        }
    }
    lemma_split_single_match(u, key, 0);
    assert(u.subrange(0, 0) =~= Seq::<char>::empty());
    assert(u.subrange(n, u.len() as int) =~= a);
}

/// The characters of `s`, in order.
pub fn chars_of(s: &str) -> (v: Vec<char>)
    ensures
        v@ == s@,
{
    let n = s.unicode_len();
    let mut v: Vec<char> = Vec::new();
    let mut i: usize = 0;
    while i < n
        invariant
            i <= n,
            n == s@.len(),
            v@ == s@.subrange(0, i as int),
        decreases n - i,
    {
        v.push(s.get_char(i));
        i = i + 1;
        assert(v@ =~= s@.subrange(0, i as int));
    }
    assert(v@ =~= s@);
    v
}

fn matches_at_exec(s: &Vec<char>, p: &Vec<char>, i: usize) -> (b: bool)
    ensures
        b == matches_at(s@, p@, i as int),
{
    if i > s.len() || p.len() > s.len() - i {
        return false;
    }
    let mut j: usize = 0;
    while j < p.len()
        invariant
            j <= p.len(),
            i + p.len() <= s.len(),
            forall|m: int| 0 <= m < j ==> s@[i + m] == p@[m],
        decreases p.len() - j,
    {
        if s[i + j] != p[j] {
            assert(s@.subrange(i as int, i + p.len())[j as int] != p@[j as int]);
            return false;
        }
        j = j + 1;
    }
    assert(s@.subrange(i as int, i + p.len()) =~= p@);
    true
}

fn find_from(s: &Vec<char>, p: &Vec<char>, pos: usize) -> (r: Option<usize>)
    requires
        p@.len() > 0,
    ensures
        match r {
            Some(k) => first_match_from(s@, p@, pos as int) == Some(k as int),
            None => first_match_from(s@, p@, pos as int) is None,
        },
{
    let mut i: usize = pos;
    while i <= s.len() && p.len() <= s.len() - i
        invariant
            pos <= i,
            p@.len() > 0,
            first_match_from(s@, p@, pos as int) == first_match_from(s@, p@, i as int),
        decreases s.len() + 1 - i,
    {
        if matches_at_exec(s, p, i) {
            return Some(i);
        }
        i = i + 1;
    }
    None
}

/// Char range of piece `n` of `s` split on `p`.
fn piece_range(s: &Vec<char>, p: &Vec<char>, n: usize) -> (r: Option<(usize, usize)>)
    requires
        p@.len() > 0,
    ensures
        match r {
            Some((a, b)) => n < split_pieces(s@, p@).len() && a <= b <= s@.len() && s@.subrange(
                a as int,
                b as int,
            ) == split_pieces(s@, p@)[n as int],
            None => n >= split_pieces(s@, p@).len(),
        },
{
    let slen = s.len();
    let mut pos: usize = 0;
    let mut i: usize = 0;
    let ghost mut taken: Seq<Seq<char>> = Seq::empty();
    assert(split_pieces(s@, p@) =~= taken + split_from(s@, p@, 0));
    while i < n
        invariant
            p@.len() > 0,
            i <= n,
            slen == s@.len(),
            pos <= s@.len(),
            taken.len() == i,
            split_pieces(s@, p@) == taken + split_from(s@, p@, pos as int),
        decreases n - i,
    {
        proof {
            lemma_split_step(s@, p@, pos as int);
        }
        match find_from(s, p, pos) {
            Some(k) => {
                proof {
                    lemma_first_match(s@, p@, pos as int);
                    assert(matches_at(s@, p@, k as int));
                    let piece = s@.subrange(pos as int, k as int);
                    let rest = split_from(s@, p@, k + p@.len());
                    assert(taken + split_from(s@, p@, pos as int) =~= taken.push(piece) + rest);
                    taken = taken.push(piece);
                }
                pos = k + p.len();
                i = i + 1;
            },
            None => {
                return None;
            },
        }
    }
    proof {
        lemma_split_step(s@, p@, pos as int);
    }
    let end = match find_from(s, p, pos) {
        Some(k) => k,
        None => s.len(),
    };
    assert((taken + split_from(s@, p@, pos as int))[n as int] == split_from(
        s@,
        p@,
        pos as int,
    )[0]);
    Some((pos, end))
}

/// Piece `n` (counting from 0) of `text` split on `pattern`, or `None` when
/// the split yields `n` pieces or fewer.
pub fn split_piece(text: &str, pattern: &str, n: usize) -> (piece: Option<String>)
    requires
        pattern@.len() > 0,
    ensures
        match piece {
            Some(t) => n < split_pieces(text@, pattern@).len() && t@ == split_pieces(
                text@,
                pattern@,
            )[n as int],
            None => n >= split_pieces(text@, pattern@).len(),
        },
{
    let s = chars_of(text);
    let p = chars_of(pattern);
    match piece_range(&s, &p, n) {
        Some((a, b)) => Some(text.substring_char(a, b).to_owned()),
        None => None,
    }
}

/// `text` with every match of `pattern` replaced by `with`, scanning left to
/// right without overlaps.
pub fn replace_all_matches(text: &str, pattern: &str, with: &str) -> (out: String)
    requires
        pattern@.len() > 0,
    ensures
        out@ == replace_all(text@, pattern@, with@),
{
    let s = chars_of(text);
    let p = chars_of(pattern);
    let mut out = String::new();
    let mut pos: usize = 0;
    let slen = s.len();
    loop
        invariant
            p@.len() > 0,
            slen == s@.len(),
            s@ == text@,
            p@ == pattern@,
            pos <= s@.len(),
            replace_all(text@, pattern@, with@) == out@ + join(
                split_from(s@, p@, pos as int),
                with@,
            ),
        decreases s@.len() - pos,
    {
        proof {
            lemma_split_step(s@, p@, pos as int);
        }
        match find_from(&s, &p, pos) {
            Some(k) => {
                proof {
                    lemma_first_match(s@, p@, pos as int);
                    assert(matches_at(s@, p@, k as int));
                }
                let ghost rest = split_from(s@, p@, k + p@.len());
                let ghost whole = split_from(s@, p@, pos as int);
                assert(whole.drop_first() =~= rest);
                let ghost before = out@;
                out.append(text.substring_char(pos, k));
                out.append(with);
                assert(out@ + join(rest, with@) =~= before + join(whole, with@));
                pos = k + p.len();
            },
            None => {
                out.append(text.substring_char(pos, slen));
                return out;
            },
        }
    }
}

} // verus!
