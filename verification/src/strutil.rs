//! Character-level text utilities: locating a character, comparing
//! strings, and splitting a document into lines the way the parser
//! needs it (split at `\n`, drop a final empty chunk, strip one
//! trailing `\r` from each line).

use vstd::prelude::*;

verus! {

/// Index of the first occurrence of `c` in `s`, or `-1` if absent.
pub open spec fn find_first(s: Seq<char>, c: char) -> int
    decreases s.len(),
{
    if s.len() == 0 {
        -1
    } else if s[0] == c {
        0
    } else {
        let r = find_first(s.drop_first(), c);
        if r < 0 {
            -1
        } else {
            r + 1
        }
    }
}

pub proof fn lemma_find_first_props(s: Seq<char>, c: char)
    ensures
        find_first(s, c) < 0 ==> forall|j: int| 0 <= j < s.len() ==> s[j] != c,
        find_first(s, c) >= 0 ==> find_first(s, c) < s.len() && s[find_first(s, c)] == c && (forall|
            j: int,
        |
            0 <= j < find_first(s, c) ==> s[j] != c),
    decreases s.len(),
{
    if s.len() > 0 && s[0] != c {
        lemma_find_first_props(s.drop_first(), c);
        let r = find_first(s.drop_first(), c);
        if r < 0 {
            assert forall|j: int| 0 <= j < s.len() implies s[j] != c by {
                if j > 0 {
                    assert(s.drop_first()[j - 1] == s[j]);
                }
            }
        } else {
            assert forall|j: int| 0 <= j < find_first(s, c) implies s[j] != c by {
                if j > 0 {
                    assert(s.drop_first()[j - 1] == s[j]);
                }
            }
        }
    }
}

/// If `c` first appears at `i`, then `find_first` returns `i`.
pub proof fn lemma_find_first_at(s: Seq<char>, c: char, i: int)
    requires
        0 <= i < s.len(),
        s[i] == c,
        forall|j: int| 0 <= j < i ==> s[j] != c,
    ensures
        find_first(s, c) == i,
    decreases i,
{
    if i > 0 {
        assert(s[0] != c);
        assert(s.drop_first()[i - 1] == c);
        assert forall|j: int| 0 <= j < i - 1 implies s.drop_first()[j] != c by {
            assert(s.drop_first()[j] == s[j + 1]);
        }
        lemma_find_first_at(s.drop_first(), c, i - 1);
    }
}

pub proof fn lemma_find_first_none(s: Seq<char>, c: char)
    requires
        forall|j: int| 0 <= j < s.len() ==> s[j] != c,
    ensures
        find_first(s, c) == -1,
    decreases s.len(),
{
    if s.len() > 0 {
        assert forall|j: int| 0 <= j < s.drop_first().len() implies s.drop_first()[j] != c by {
            assert(s.drop_first()[j] == s[j + 1]);
        }
        lemma_find_first_none(s.drop_first(), c);
    }
}

/// Finds the first occurrence of `c` in `s`.
pub fn find_char(s: &str, c: char) -> (r: Option<usize>)
    ensures
        match r {
            Some(i) => 0 <= i < s@.len() && find_first(s@, c) == i,
            None => find_first(s@, c) == -1,
        },
{
    let n = s.unicode_len();
    let mut i: usize = 0;
    while i < n
        invariant
            i <= n,
            n == s@.len(),
            forall|j: int| 0 <= j < i ==> s@[j] != c,
        decreases n - i,
    {
        if s.get_char(i) == c {
            proof {
                lemma_find_first_at(s@, c, i as int);
            }
            return Some(i);
        }
        i += 1;
    }
    proof {
        lemma_find_first_none(s@, c);
    }
    None
}

/// Character-wise string equality.
pub fn str_eq(a: &str, b: &str) -> (r: bool)
    ensures
        r == (a@ == b@),
{
    let n = a.unicode_len();
    if n != b.unicode_len() {
        return false;
    }
    let mut i: usize = 0;
    while i < n
        invariant
            i <= n,
            n == a@.len(),
            n == b@.len(),
            forall|j: int| 0 <= j < i ==> a@[j] == b@[j],
        decreases n - i,
    {
        if a.get_char(i) != b.get_char(i) {
            return false;
        }
        i += 1;
    }
    proof {
        assert(a@ =~= b@);
    }
    true
}

/// Concatenation of character sequences is associative.
pub proof fn lemma_cat_assoc(a: Seq<char>, b: Seq<char>, c: Seq<char>)
    ensures
        (a + b) + c == a + (b + c),
{
    assert((a + b) + c =~= a + (b + c));
}

/// A line with one trailing carriage return removed.
pub open spec fn strip_cr(l: Seq<char>) -> Seq<char> {
    if l.len() > 0 && l.last() == '\r' {
        l.drop_last()
    } else {
        l
    }
}

/// The chunks of `t` delimited by `\n` (always at least one chunk).
pub open spec fn split_nl(t: Seq<char>) -> Seq<Seq<char>>
    decreases t.len(),
{
    if t.len() == 0 {
        seq![Seq::<char>::empty()]
    } else if t[0] == '\n' {
        seq![Seq::<char>::empty()] + split_nl(t.drop_first())
    } else {
        let r = split_nl(t.drop_first());
        seq![seq![t[0]] + r[0]] + r.drop_first()
    }
}

pub proof fn lemma_split_nl_len(t: Seq<char>)
    ensures
        split_nl(t).len() >= 1,
    decreases t.len(),
{
    if t.len() > 0 {
        lemma_split_nl_len(t.drop_first());
    }
}

/// A prefix without newlines followed by `\n` is split off as one chunk.
pub proof fn lemma_split_nl_prepend(x: Seq<char>, rest: Seq<char>)
    requires
        forall|j: int| 0 <= j < x.len() ==> x[j] != '\n',
    ensures
        split_nl(x + seq!['\n'] + rest) == seq![x] + split_nl(rest),
    decreases x.len(),
{
    let t = x + seq!['\n'] + rest;
    if x.len() == 0 {
        assert(t =~= seq!['\n'] + rest);
        assert(t.drop_first() =~= rest);
        assert(x =~= Seq::<char>::empty());
        assert(seq![Seq::<char>::empty()] + split_nl(rest) =~= seq![x] + split_nl(rest));
    } else {
        assert(t[0] == x[0]);
        assert(x[0] != '\n');
        assert(t.drop_first() =~= x.drop_first() + seq!['\n'] + rest);
        assert forall|j: int| 0 <= j < x.drop_first().len() implies x.drop_first()[j] != '\n' by {
            assert(x.drop_first()[j] == x[j + 1]);
        }
        lemma_split_nl_prepend(x.drop_first(), rest);
        let r = split_nl(t.drop_first());
        assert(r == seq![x.drop_first()] + split_nl(rest));
        assert(r[0] == x.drop_first());
        assert(seq![t[0]] + r[0] =~= x);
        assert(r.drop_first() =~= split_nl(rest));
        assert(split_nl(t) =~= seq![x] + split_nl(rest));
    }
}

/// A text without newlines is a single chunk.
pub proof fn lemma_split_nl_single(x: Seq<char>)
    requires
        forall|j: int| 0 <= j < x.len() ==> x[j] != '\n',
    ensures
        split_nl(x) == seq![x],
    decreases x.len(),
{
    if x.len() > 0 {
        assert forall|j: int| 0 <= j < x.drop_first().len() implies x.drop_first()[j] != '\n' by {
            assert(x.drop_first()[j] == x[j + 1]);
        }
        lemma_split_nl_single(x.drop_first());
        let r = split_nl(x.drop_first());
        assert(r[0] == x.drop_first());
        assert(seq![x[0]] + r[0] =~= x);
        assert(r.drop_first() =~= Seq::<Seq<char>>::empty());
        assert(split_nl(x) =~= seq![x]);
    } else {
        assert(x =~= Seq::<char>::empty());
        assert(split_nl(x) =~= seq![x]);
    }
}

/// No chunk produced by `split_nl` contains a newline.
pub proof fn lemma_split_nl_no_nl(t: Seq<char>)
    ensures
        forall|k: int, j: int|
            0 <= k < split_nl(t).len() && 0 <= j < split_nl(t)[k].len() ==> split_nl(t)[k][j]
                != '\n',
    decreases t.len(),
{
    if t.len() == 0 {
    } else if t[0] == '\n' {
        lemma_split_nl_no_nl(t.drop_first());
        assert forall|k: int, j: int|
            0 <= k < split_nl(t).len() && 0 <= j < split_nl(t)[k].len() implies split_nl(t)[k][j]
            != '\n' by {
            if k > 0 {
                assert(split_nl(t)[k] == split_nl(t.drop_first())[k - 1]);
            }
        }
    } else {
        lemma_split_nl_no_nl(t.drop_first());
        let r = split_nl(t.drop_first());
        lemma_split_nl_len(t.drop_first());
        assert forall|k: int, j: int|
            0 <= k < split_nl(t).len() && 0 <= j < split_nl(t)[k].len() implies split_nl(t)[k][j]
            != '\n' by {
            if k == 0 {
                if j == 0 {
                } else {
                    assert(split_nl(t)[0][j] == r[0][j - 1]);
                }
            } else {
                assert(split_nl(t)[k] == r.drop_first()[k - 1]);
                assert(r.drop_first()[k - 1] == r[k]);
            }
        }
    }
}

/// The lines of a document: chunks split at `\n`, a final empty chunk
/// dropped, one trailing `\r` stripped from each line.
pub open spec fn spec_lines(t: Seq<char>) -> Seq<Seq<char>> {
    let chunks = split_nl(t);
    let kept = if chunks.len() > 0 && chunks.last().len() == 0 {
        chunks.drop_last()
    } else {
        chunks
    };
    kept.map_values(|l: Seq<char>| strip_cr(l))
}

/// No line produced by `spec_lines` contains a newline.
pub proof fn lemma_lines_no_nl(t: Seq<char>)
    ensures
        forall|k: int, j: int|
            0 <= k < spec_lines(t).len() && 0 <= j < spec_lines(t)[k].len() ==> spec_lines(t)[k][j]
                != '\n',
{
    lemma_split_nl_no_nl(t);
    let chunks = split_nl(t);
    let kept = if chunks.len() > 0 && chunks.last().len() == 0 {
        chunks.drop_last()
    } else {
        chunks
    };
    assert forall|k: int, j: int|
        0 <= k < spec_lines(t).len() && 0 <= j < spec_lines(t)[k].len() implies spec_lines(
        t,
    )[k][j] != '\n' by {
        assert(spec_lines(t)[k] == strip_cr(kept[k]));
        assert(kept[k] == chunks[k]);
        if kept[k].len() > 0 && kept[k].last() == '\r' {
            assert(spec_lines(t)[k][j] == chunks[k][j]);
        } else {
            assert(spec_lines(t)[k][j] == chunks[k][j]);
        }
    }
}

/// Splits a document into lines.
pub fn split_lines(s: &str) -> (r: Vec<String>)
    ensures
        r@.len() == spec_lines(s@).len(),
        forall|k: int| 0 <= k < r@.len() ==> r@[k]@ == spec_lines(s@)[k],
{
    let n = s.unicode_len();
    let mut lines: Vec<String> = Vec::new();
    let mut start: usize = 0;
    let mut i: usize = 0;
    let ghost mut done: Seq<Seq<char>> = Seq::empty();
    proof {
        assert(s@.skip(0) =~= s@);
        assert(split_nl(s@) =~= done + split_nl(s@.skip(0)));
    }
    while i < n
        invariant
            start <= i <= n,
            n == s@.len(),
            forall|j: int| start <= j < i ==> s@[j] != '\n',
            split_nl(s@) == done + split_nl(s@.skip(start as int)),
            lines@.len() == done.len(),
            forall|k: int| 0 <= k < done.len() ==> lines@[k]@ == strip_cr(done[k]),
        decreases n - i,
    {
        if s.get_char(i) == '\n' {
            let ghost chunk = s@.subrange(start as int, i as int);
            proof {
                assert(s@.skip(start as int) =~= chunk + seq!['\n'] + s@.skip(i + 1));
                lemma_split_nl_prepend(chunk, s@.skip(i + 1));
                assert(done + (seq![chunk] + split_nl(s@.skip(i + 1))) =~= (done + seq![chunk])
                    + split_nl(s@.skip(i + 1)));
            }
            let e: usize = if i > start && s.get_char(i - 1) == '\r' {
                i - 1
            } else {
                i
            };
            proof {
                if i > start && s@[i - 1] == '\r' {
                    assert(chunk.last() == s@[i - 1]);
                    assert(chunk.drop_last() =~= s@.subrange(start as int, i - 1));
                } else {
                    if chunk.len() > 0 {
                        assert(chunk.last() == s@[i - 1]);
                    }
                }
                assert(strip_cr(chunk) == s@.subrange(start as int, e as int));
            }
            let line = s.substring_char(start, e).to_owned();
            lines.push(line);
            proof {
                done = done + seq![chunk];
            }
            start = i + 1;
        }
        i += 1;
    }
    let ghost rem = s@.skip(start as int);
    proof {
        lemma_split_nl_single(rem);
        assert(split_nl(s@) == done + seq![rem]);
        assert((done + seq![rem]).last() == rem);
    }
    if start < n {
        let e: usize = if s.get_char(n - 1) == '\r' {
            n - 1
        } else {
            n
        };
        proof {
            assert(rem.len() == n - start);
            assert(rem.last() == s@[n - 1]);
            if s@[n - 1] == '\r' {
                assert(rem.drop_last() =~= s@.subrange(start as int, n - 1));
            }
            assert(strip_cr(rem) == s@.subrange(start as int, e as int));
        }
        let line = s.substring_char(start, e).to_owned();
        lines.push(line);
        proof {
            let chunks = split_nl(s@);
            assert(chunks.last().len() != 0);
            let kept = chunks;
            assert(spec_lines(s@) == kept.map_values(|l: Seq<char>| strip_cr(l)));
            assert(kept.len() == done.len() + 1);
            assert(lines@.len() == kept.len());
            assert forall|k: int| 0 <= k < lines@.len() implies lines@[k]@ == spec_lines(s@)[k] by {
                assert(spec_lines(s@)[k] == strip_cr(kept[k]));
                if k < done.len() {
                    assert(kept[k] == done[k]);
                } else {
                    assert(kept[k] == rem);
                }
            }
        }
    } else {
        proof {
            let chunks = split_nl(s@);
            assert(rem.len() == 0);
            assert(chunks.last().len() == 0);
            let kept = chunks.drop_last();
            assert(kept =~= done);
            assert(spec_lines(s@) == kept.map_values(|l: Seq<char>| strip_cr(l)));
            assert forall|k: int| 0 <= k < lines@.len() implies lines@[k]@ == spec_lines(s@)[k] by {
                assert(spec_lines(s@)[k] == strip_cr(kept[k]));
            }
        }
    }
    lines
}

} // verus!
