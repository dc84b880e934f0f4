//! Small verified text utilities: character-exact string comparison used by
//! the tag dispatch and the mapping tables.

use vstd::prelude::*;

verus! {

/// Character-by-character string equality, proved against the string views.
pub fn str_eq(a: &str, b: &str) -> (r: bool)
    ensures
        r == (a@ == b@),
{
    let n = a.unicode_len();
    let m = b.unicode_len();
    if n != m {
        proof {
            assert(a@ != b@) by {
                assert(a@.len() != b@.len());
            }
        }
        return false;
    }
    let mut i: usize = 0;
    while i < n
        invariant
            n == a@.len(),
            n == b@.len(),
            i <= n,
            forall|j: int| 0 <= j < i ==> a@[j] == b@[j],
        decreases n - i,
    {
        let ca = a.get_char(i);
        let cb = b.get_char(i);
        if ca != cb {
            proof {
                assert(a@[i as int] != b@[i as int]);
            }
            return false;
        }
        i += 1;
    }
    proof {
        assert(a@ =~= b@);
    }
    true
}

/// Whether `s` begins with the characters of `p`.
pub open spec fn spec_has_prefix(s: Seq<char>, p: Seq<char>) -> bool {
    s.len() >= p.len() && s.take(p.len() as int) == p
}

/// Prefix test, proved against the string views.
pub fn has_prefix(s: &str, p: &str) -> (r: bool)
    ensures
        r == spec_has_prefix(s@, p@),
{
    let n = s.unicode_len();
    let m = p.unicode_len();
    if n < m {
        return false;
    }
    let mut i: usize = 0;
    while i < m
        invariant
            i <= m,
            m <= n,
            n == s@.len(),
            m == p@.len(),
            forall|j: int| 0 <= j < i ==> s@[j] == p@[j],
        decreases m - i,
    {
        if s.get_char(i) != p.get_char(i) {
            proof {
                assert(s@.take(p@.len() as int)[i as int] != p@[i as int]);
            }
            return false;
        }
        i += 1;
    }
    proof {
        assert(s@.take(p@.len() as int) =~= p@);
    }
    true
}

/// The views of a vector of strings.
pub open spec fn seq_views(v: Seq<String>) -> Seq<Seq<char>> {
    v.map_values(|x: String| x@)
}

/// The whitespace characters the tolerant grammar recognizes.
pub open spec fn spec_is_ws(c: char) -> bool {
    c == ' ' || c == '\t' || c == '\n' || c == '\r'
}

/// Split on a separator character: the pieces between separators, in order,
/// empty pieces kept. One more piece than separators.
pub open spec fn spec_split(s: Seq<char>, sep: char) -> Seq<Seq<char>>
    decreases s.len(),
{
    if s.len() == 0 {
        seq![Seq::empty()]
    } else if s.last() == sep {
        spec_split(s.drop_last(), sep).push(Seq::empty())
    } else {
        let r = spec_split(s.drop_last(), sep);
        r.update(r.len() - 1, r.last().push(s.last()))
    }
}

/// Split on whitespace, empty pieces kept.
pub open spec fn spec_split_ws(s: Seq<char>) -> Seq<Seq<char>>
    decreases s.len(),
{
    if s.len() == 0 {
        seq![Seq::empty()]
    } else if spec_is_ws(s.last()) {
        spec_split_ws(s.drop_last()).push(Seq::empty())
    } else {
        let r = spec_split_ws(s.drop_last());
        r.update(r.len() - 1, r.last().push(s.last()))
    }
}

/// The whitespace-separated tokens of a line: split on whitespace with
/// runs collapsed, the way the mesh grammar reads its statements.
pub open spec fn spec_ws_tokens(s: Seq<char>) -> Seq<Seq<char>> {
    spec_split_ws(s).filter(|t: Seq<char>| t.len() > 0)
}

pub proof fn lemma_split_len(s: Seq<char>, sep: char)
    ensures
        spec_split(s, sep).len() >= 1,
    decreases s.len(),
{
    if s.len() > 0 {
        lemma_split_len(s.drop_last(), sep);
    }
}

pub proof fn lemma_split_ws_len(s: Seq<char>)
    ensures
        spec_split_ws(s).len() >= 1,
    decreases s.len(),
{
    if s.len() > 0 {
        lemma_split_ws_len(s.drop_last());
    }
}

/// Splits `s` at every occurrence of `sep`, proved against `spec_split`.
pub fn split_char(s: &str, sep: char) -> (r: Vec<String>)
    ensures
        seq_views(r@) == spec_split(s@, sep),
        r@.len() >= 1,
{
    let n = s.unicode_len();
    let mut out: Vec<String> = Vec::new();
    let mut start: usize = 0;
    let mut i: usize = 0;
    proof {
        assert(s@.take(0) =~= Seq::<char>::empty());
        assert(seq_views(out@) =~= spec_split(s@.take(0), sep).drop_last());
        assert(spec_split(s@.take(0), sep).last() =~= s@.subrange(0, 0));
    }
    while i < n
        invariant
            start <= i <= n,
            n == s@.len(),
            spec_split(s@.take(i as int), sep).len() == out@.len() + 1,
            seq_views(out@) == spec_split(s@.take(i as int), sep).drop_last(),
            spec_split(s@.take(i as int), sep).last() == s@.subrange(start as int, i as int),
        decreases n - i,
    {
        let ghost prev = spec_split(s@.take(i as int), sep);
        let c = s.get_char(i);
        proof {
            lemma_split_len(s@.take(i as int), sep);
            assert(s@.take(i as int + 1).drop_last() =~= s@.take(i as int));
            assert(s@.take(i as int + 1).last() == s@[i as int]);
        }
        if c == sep {
            let piece = s.substring_char(start, i).to_owned();
            let ghost pv = piece@;
            let ghost prev_out = out@;
            out.push(piece);
            proof {
                let cur = spec_split(s@.take(i as int + 1), sep);
                assert(cur == prev.push(Seq::<char>::empty()));
                assert(seq_views(out@).len() == out@.len());
                assert(out@.len() == prev.len());
                assert(cur.drop_last().len() == prev.len());
                assert(pv == prev.last());
                assert(seq_views(out@)[out@.len() - 1] == pv);
                assert(forall|j: int|
                    0 <= j < out@.len() - 1 ==> #[trigger] seq_views(out@)[j] == seq_views(
                        prev_out,
                    )[j]);
                assert(seq_views(out@) =~~= cur.drop_last());
                assert(cur.last() =~= s@.subrange(i as int + 1, i as int + 1));
            }
            start = i + 1;
        } else {
            proof {
                let cur = spec_split(s@.take(i as int + 1), sep);
                assert(cur == prev.update(prev.len() - 1, prev.last().push(s@[i as int])));
                assert(cur.drop_last() =~= prev.drop_last());
                assert(seq_views(out@) == cur.drop_last());
                assert(cur.last() =~= s@.subrange(start as int, i as int + 1));
            }
        }
        i += 1;
    }
    let piece = s.substring_char(start, n).to_owned();
    out.push(piece);
    proof {
        assert(s@.take(n as int) =~= s@);
        let sp = spec_split(s@, sep);
        lemma_split_len(s@, sep);
        assert(seq_views(out@) =~= sp.drop_last().push(sp.last()));
        assert(sp.drop_last().push(sp.last()) =~= sp);
    }
    out
}

/// Splits `s` at every whitespace character, proved against
/// `spec_split_ws`.
pub fn split_ws(s: &str) -> (r: Vec<String>)
    ensures
        seq_views(r@) == spec_split_ws(s@),
        r@.len() >= 1,
{
    let n = s.unicode_len();
    let mut out: Vec<String> = Vec::new();
    let mut start: usize = 0;
    let mut i: usize = 0;
    proof {
        assert(s@.take(0) =~= Seq::<char>::empty());
        assert(seq_views(out@) =~= spec_split_ws(s@.take(0)).drop_last());
        assert(spec_split_ws(s@.take(0)).last() =~= s@.subrange(0, 0));
    }
    while i < n
        invariant
            start <= i <= n,
            n == s@.len(),
            spec_split_ws(s@.take(i as int)).len() == out@.len() + 1,
            seq_views(out@) == spec_split_ws(s@.take(i as int)).drop_last(),
            spec_split_ws(s@.take(i as int)).last() == s@.subrange(start as int, i as int),
        decreases n - i,
    {
        let ghost prev = spec_split_ws(s@.take(i as int));
        let c = s.get_char(i);
        proof {
            lemma_split_ws_len(s@.take(i as int));
            assert(s@.take(i as int + 1).drop_last() =~= s@.take(i as int));
            assert(s@.take(i as int + 1).last() == s@[i as int]);
        }
        if c == ' ' || c == '\t' || c == '\n' || c == '\r' {
            let piece = s.substring_char(start, i).to_owned();
            let ghost pv = piece@;
            let ghost prev_out = out@;
            out.push(piece);
            proof {
                let cur = spec_split_ws(s@.take(i as int + 1));
                assert(cur == prev.push(Seq::<char>::empty()));
                assert(seq_views(out@).len() == out@.len());
                assert(out@.len() == prev.len());
                assert(cur.drop_last().len() == prev.len());
                assert(pv == prev.last());
                assert(seq_views(out@)[out@.len() - 1] == pv);
                assert(forall|j: int|
                    0 <= j < out@.len() - 1 ==> #[trigger] seq_views(out@)[j] == seq_views(
                        prev_out,
                    )[j]);
                assert(seq_views(out@) =~~= cur.drop_last());
                assert(cur.last() =~= s@.subrange(i as int + 1, i as int + 1));
            }
            start = i + 1;
        } else {
            proof {
                let cur = spec_split_ws(s@.take(i as int + 1));
                assert(cur == prev.update(prev.len() - 1, prev.last().push(s@[i as int])));
                assert(cur.drop_last() =~= prev.drop_last());
                assert(seq_views(out@) == cur.drop_last());
                assert(cur.last() =~= s@.subrange(start as int, i as int + 1));
            }
        }
        i += 1;
    }
    let piece = s.substring_char(start, n).to_owned();
    out.push(piece);
    proof {
        assert(s@.take(n as int) =~= s@);
        let sp = spec_split_ws(s@);
        lemma_split_ws_len(s@);
        assert(seq_views(out@) =~= sp.drop_last().push(sp.last()));
        assert(sp.drop_last().push(sp.last()) =~= sp);
    }
    out
}

/// The whitespace-separated tokens of `s`, empties collapsed, proved
/// against `spec_ws_tokens`.
pub fn ws_tokens(s: &str) -> (r: Vec<String>)
    ensures
        seq_views(r@) == spec_ws_tokens(s@),
{
    broadcast use vstd::seq_lib::group_filter_ensures;

    let pieces = split_ws(s);
    let ghost all = seq_views(pieces@);
    let mut out: Vec<String> = Vec::new();
    let mut i: usize = 0;
    proof {
        reveal(Seq::filter);
        assert(all.take(0) =~= Seq::<Seq<char>>::empty());
        assert(seq_views(out@) =~= all.take(0).filter(|t: Seq<char>| t.len() > 0));
    }
    while i < pieces.len()
        invariant
            i <= pieces@.len(),
            all == seq_views(pieces@),
            seq_views(out@) == all.take(i as int).filter(|t: Seq<char>| t.len() > 0),
        decreases pieces@.len() - i,
    {
        let ghost prevf = all.take(i as int).filter(|t: Seq<char>| t.len() > 0);
        let keep = !pieces[i].as_str().is_empty();
        proof {
            reveal(Seq::filter);
            assert(all.take(i as int + 1).drop_last() =~= all.take(i as int));
            assert(all.take(i as int + 1).last() == pieces@[i as int]@);
        }
        if keep {
            let piece = pieces[i].clone();
            out.push(piece);
            proof {
                assert(seq_views(out@) =~= prevf.push(pieces@[i as int]@));
            }
        }
        i += 1;
    }
    proof {
        assert(all.take(pieces@.len() as int) =~= all);
    }
    out
}

/// Whether `s` holds nothing but whitespace.
pub open spec fn spec_is_blank(s: Seq<char>) -> bool {
    forall|i: int| 0 <= i < s.len() ==> spec_is_ws(#[trigger] s[i])
}

/// Blank test: true when every character is whitespace, as trimming to
/// emptiness would find.
pub fn is_blank(s: &str) -> (r: bool)
    ensures
        r == spec_is_blank(s@),
{
    let n = s.unicode_len();
    let mut i: usize = 0;
    while i < n
        invariant
            i <= n,
            n == s@.len(),
            forall|j: int| 0 <= j < i ==> spec_is_ws(#[trigger] s@[j]),
        decreases n - i,
    {
        let c = s.get_char(i);
        if !(c == ' ' || c == '\t' || c == '\n' || c == '\r') {
            return false;
        }
        i += 1;
    }
    true
}

/// One raw line with a trailing carriage return removed.
pub open spec fn spec_strip_cr(l: Seq<char>) -> Seq<char> {
    if l.len() > 0 && l.last() == '\r' {
        l.drop_last()
    } else {
        l
    }
}

/// The lines of a text: split at every newline, a trailing empty piece
/// dropped, and a trailing carriage return removed from each line.
pub open spec fn spec_text_lines(s: Seq<char>) -> Seq<Seq<char>> {
    let raw = spec_split(s, '\n');
    let kept = if raw.last().len() == 0 {
        raw.drop_last()
    } else {
        raw
    };
    Seq::new(kept.len(), |i: int| spec_strip_cr(kept[i]))
}

/// Splits a text into lines, proved against `spec_text_lines`.
pub fn split_lines(s: &str) -> (r: Vec<String>)
    ensures
        seq_views(r@) == spec_text_lines(s@),
{
    let mut raw = split_char(s, '\n');
    proof {
        assert(seq_views(raw@).last() == raw@[raw@.len() - 1]@);
    }
    if raw[raw.len() - 1].as_str().is_empty() {
        let ghost prev = raw@;
        raw.pop();
        proof {
            assert(seq_views(raw@) =~= seq_views(prev).drop_last());
        }
    }
    let ghost kept = seq_views(raw@);
    let mut out: Vec<String> = Vec::new();
    let mut i: usize = 0;
    while i < raw.len()
        invariant
            i <= raw@.len(),
            kept == seq_views(raw@),
            out@.len() == i,
            forall|j: int| 0 <= j < i ==> (#[trigger] out@[j])@ == spec_strip_cr(kept[j]),
        decreases raw@.len() - i,
    {
        let line = raw[i].as_str();
        let n = line.unicode_len();
        proof {
            assert(seq_views(raw@)[i as int] == raw@[i as int]@);
        }
        if n > 0 && line.get_char(n - 1) == '\r' {
            let stripped = line.substring_char(0, n - 1).to_owned();
            proof {
                assert(stripped@ =~= kept[i as int].drop_last());
            }
            out.push(stripped);
        } else {
            out.push(raw[i].clone());
        }
        i += 1;
    }
    proof {
        assert(seq_views(out@) =~= spec_text_lines(s@));
    }
    out
}

/// Whether positions `j` and `j+1` of `s` hold the pin-record separator.
pub open spec fn spec_caret2_at(s: Seq<char>, j: int) -> bool {
    0 <= j && j + 1 < s.len() && s[j] == '^' && s[j + 1] == '^'
}

/// Index of the first `^^` pair in `s`, or -1.
pub open spec fn spec_find_caret2(s: Seq<char>) -> int
    decreases s.len(),
{
    if s.len() < 2 {
        -1
    } else if s[0] == '^' && s[1] == '^' {
        0
    } else {
        let r = spec_find_caret2(s.skip(1));
        if r == -1 {
            -1
        } else {
            r + 1
        }
    }
}

/// Split on the two-character `^^` separator, front to back, the segments
/// of a pin record.
pub open spec fn spec_split_caret2(s: Seq<char>) -> Seq<Seq<char>>
    decreases s.len(),
{
    let p = spec_find_caret2(s);
    if 0 <= p && p + 2 <= s.len() {
        seq![s.take(p)] + spec_split_caret2(s.skip(p + 2))
    } else {
        seq![s]
    }
}

pub proof fn lemma_find_caret2_none(s: Seq<char>)
    requires
        forall|j: int| #![trigger spec_caret2_at(s, j)] !spec_caret2_at(s, j),
    ensures
        spec_find_caret2(s) == -1,
    decreases s.len(),
{
    if s.len() >= 2 {
        assert(!spec_caret2_at(s, 0));
        let t = s.skip(1);
        assert forall|j: int| #![trigger spec_caret2_at(t, j)] !spec_caret2_at(t, j) by {
            if 0 <= j && j + 1 < t.len() {
                assert(t[j] == s[j + 1]);
                assert(t[j + 1] == s[j + 2]);
                assert(!spec_caret2_at(s, j + 1));
            }
        }
        lemma_find_caret2_none(t);
    }
}

pub proof fn lemma_find_caret2_at(s: Seq<char>, k: int)
    requires
        spec_caret2_at(s, k),
        forall|j: int| #![trigger spec_caret2_at(s, j)] 0 <= j < k ==> !spec_caret2_at(s, j),
    ensures
        spec_find_caret2(s) == k,
    decreases s.len(),
{
    if k == 0 {
    } else {
        assert(!spec_caret2_at(s, 0));
        let t = s.skip(1);
        assert(spec_caret2_at(t, k - 1)) by {
            assert(t[k - 1] == s[k] && t[k] == s[k + 1]);
        }
        assert forall|j: int| #![trigger spec_caret2_at(t, j)] 0 <= j < k - 1 implies !spec_caret2_at(
            t,
            j,
        ) by {
            if j + 1 < t.len() {
                assert(t[j] == s[j + 1]);
                assert(t[j + 1] == s[j + 2]);
                assert(!spec_caret2_at(s, j + 1));
            }
        }
        lemma_find_caret2_at(t, k - 1);
    }
}

/// First position at or after `from` where a `^^` pair starts, or the
/// length when there is none.
fn find_caret2_from(s: &str, from: usize) -> (r: usize)
    requires
        from <= s@.len(),
    ensures
        from <= r <= s@.len(),
        forall|j: int| #![trigger spec_caret2_at(s@, j)] from <= j < r ==> !spec_caret2_at(s@, j),
        r < s@.len() ==> spec_caret2_at(s@, r as int),
{
    let n = s.unicode_len();
    if n == 0 {
        return 0;
    }
    let mut i: usize = from;
    while i < n - 1
        invariant
            from <= i <= n,
            n == s@.len(),
            n >= 1,
            forall|j: int| #![trigger spec_caret2_at(s@, j)] from <= j < i ==> !spec_caret2_at(s@, j),
        decreases n - i,
    {
        if s.get_char(i) == '^' && s.get_char(i + 1) == '^' {
            return i;
        }
        proof {
            assert(!spec_caret2_at(s@, i as int));
        }
        i += 1;
    }
    proof {
        assert forall|j: int| #![trigger spec_caret2_at(s@, j)] from <= j < n implies !spec_caret2_at(
            s@,
            j,
        ) by {
            if j < i {
            } else {
                assert(j + 1 >= n);
            }
        }
    }
    n
}

/// Splits `s` at every `^^`, proved against `spec_split_caret2`.
pub fn split_caret2(s: &str) -> (r: Vec<String>)
    ensures
        seq_views(r@) == spec_split_caret2(s@),
        r@.len() >= 1,
{
    let n = s.unicode_len();
    let mut out: Vec<String> = Vec::new();
    let mut pos: usize = 0;
    proof {
        assert(s@.skip(0) =~= s@);
        assert(seq_views(out@) + spec_split_caret2(s@) =~= spec_split_caret2(s@));
    }
    loop
        invariant
            pos <= n,
            n == s@.len(),
            seq_views(out@) + spec_split_caret2(s@.skip(pos as int)) =~= spec_split_caret2(s@),
        decreases n - pos,
    {
        let ghost tail = s@.skip(pos as int);
        let r = find_caret2_from(s, pos);
        if r == n {
            proof {
                assert forall|j: int| #![trigger spec_caret2_at(tail, j)] !spec_caret2_at(
                    tail,
                    j,
                ) by {
                    if 0 <= j && j + 1 < tail.len() {
                        assert(tail[j] == s@[pos + j]);
                        assert(tail[j + 1] == s@[pos + j + 1]);
                        assert(!spec_caret2_at(s@, pos + j));
                    }
                }
                lemma_find_caret2_none(tail);
            }
            let piece = s.substring_char(pos, n).to_owned();
            let ghost prev_out = out@;
            let ghost pv = piece@;
            out.push(piece);
            proof {
                assert(spec_split_caret2(tail) == seq![tail]);
                assert(pv == tail);
                assert(seq_views(out@) =~~= seq_views(prev_out).push(pv));
                assert(seq_views(prev_out).push(pv) =~~= seq_views(prev_out) + seq![tail]);
                assert(seq_views(out@) =~~= spec_split_caret2(s@));
            }
            return out;
        }
        proof {
            assert(spec_caret2_at(tail, r - pos)) by {
                assert(tail[r - pos] == s@[r as int] && tail[r - pos + 1] == s@[r as int + 1]);
            }
            assert forall|j: int| #![trigger spec_caret2_at(tail, j)] 0 <= j < r - pos implies !spec_caret2_at(
                tail,
                j,
            ) by {
                if j + 1 < tail.len() {
                    assert(tail[j] == s@[pos + j]);
                    assert(tail[j + 1] == s@[pos + j + 1]);
                    assert(!spec_caret2_at(s@, pos + j));
                }
            }
            lemma_find_caret2_at(tail, r - pos);
        }
        let piece = s.substring_char(pos, r).to_owned();
        let ghost prev_out = out@;
        let ghost pv = piece@;
        out.push(piece);
        proof {
            assert(spec_split_caret2(tail) == seq![tail.take(r - pos)] + spec_split_caret2(
                tail.skip(r - pos + 2),
            ));
            assert(pv =~= tail.take(r - pos));
            assert(tail.skip(r - pos + 2) =~= s@.skip(r as int + 2));
            assert(seq_views(out@) =~~= seq_views(prev_out).push(pv));
            assert(seq_views(out@) + spec_split_caret2(s@.skip(r as int + 2)) =~~= seq_views(
                prev_out,
            ) + spec_split_caret2(tail));
        }
        pos = r + 2;
    }
}

} // verus!
