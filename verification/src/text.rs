//! Character-level text handling: splitting, trimming, de-duplication,
//! joining and decimal rendering, each stated over `Seq<char>`.
use vstd::prelude::*;

verus! {

// ---------------------------------------------------------------------------
// Specifications
// ---------------------------------------------------------------------------

/// Unicode `White_Space`, the set `char::is_whitespace` (and so `str::trim`)
/// tests against.
pub open spec fn is_ws(c: char) -> bool {
    let n = c as u32;
    ||| 0x09 <= n <= 0x0D
    ||| n == 0x20
    ||| n == 0x85
    ||| n == 0xA0
    ||| n == 0x1680
    ||| 0x2000 <= n <= 0x200A
    ||| n == 0x2028
    ||| n == 0x2029
    ||| n == 0x202F
    ||| n == 0x205F
    ||| n == 0x3000
}

/// `s` without its leading whitespace.
pub open spec fn trim_start(s: Seq<char>) -> Seq<char>
    decreases s.len(),
{
    if s.len() > 0 && is_ws(s[0]) {
        trim_start(s.drop_first())
    } else {
        s
    }
}

/// `s` without its trailing whitespace.
pub open spec fn trim_end(s: Seq<char>) -> Seq<char>
    decreases s.len(),
{
    if s.len() > 0 && is_ws(s.last()) {
        trim_end(s.drop_last())
    } else {
        s
    }
}

/// `s` without leading and trailing whitespace (`str::trim`).
pub open spec fn trim(s: Seq<char>) -> Seq<char> {
    trim_end(trim_start(s))
}

/// `s` without any trailing occurrence of `c` (`str::trim_end_matches(c)`).
pub open spec fn strip_trailing(s: Seq<char>, c: char) -> Seq<char>
    decreases s.len(),
{
    if s.len() > 0 && s.last() == c {
        strip_trailing(s.drop_last(), c)
    } else {
        s
    }
}

/// The pieces of `s` between occurrences of `sep` (`str::split(sep)`): one
/// more piece than there are separators, empty pieces included.
pub open spec fn split(s: Seq<char>, sep: char) -> Seq<Seq<char>>
    decreases s.len(),
{
    if s.len() == 0 {
        seq![Seq::<char>::empty()]
    } else {
        let pieces = split(s.drop_last(), sep);
        if s.last() == sep {
            pieces.push(Seq::<char>::empty())
        } else {
            pieces.update(pieces.len() - 1, pieces.last().push(s.last()))
        }
    }
}

/// The non-empty pieces of `s`, in order.
pub open spec fn non_empty_pieces(s: Seq<Seq<char>>) -> Seq<Seq<char>>
    decreases s.len(),
{
    if s.len() == 0 {
        s
    } else if s.last().len() > 0 {
        non_empty_pieces(s.drop_last()).push(s.last())
    } else {
        non_empty_pieces(s.drop_last())
    }
}

/// Every piece of `s`, trimmed.
pub open spec fn trim_each(s: Seq<Seq<char>>) -> Seq<Seq<char>>
    decreases s.len(),
{
    if s.len() == 0 {
        s
    } else {
        trim_each(s.drop_last()).push(trim(s.last()))
    }
}

/// `s` with every element after its first occurrence removed; the first
/// occurrences keep their order.
pub open spec fn dedup<A>(s: Seq<A>) -> Seq<A>
    decreases s.len(),
{
    if s.len() == 0 {
        s
    } else {
        let kept = dedup(s.drop_last());
        if kept.contains(s.last()) {
            kept
        } else {
            kept.push(s.last())
        }
    }
}

/// The pieces of `parts` with `sep` between each two (`[..].join(sep)`).
pub open spec fn join(parts: Seq<Seq<char>>, sep: Seq<char>) -> Seq<char>
    decreases parts.len(),
{
    if parts.len() == 0 {
        Seq::<char>::empty()
    } else if parts.len() == 1 {
        parts[0]
    } else {
        join(parts.drop_last(), sep) + sep + parts.last()
    }
}

/// The decimal digit character for `d` in `0..10`.
pub open spec fn digit_char(d: int) -> char {
    if d == 0 {
        '0'
    } else if d == 1 {
        '1'
    } else if d == 2 {
        '2'
    } else if d == 3 {
        '3'
    } else if d == 4 {
        '4'
    } else if d == 5 {
        '5'
    } else if d == 6 {
        '6'
    } else if d == 7 {
        '7'
    } else if d == 8 {
        '8'
    } else {
        '9'
    }
}

/// The decimal rendering of `n`, without leading zeros (`n.to_string()`).
pub open spec fn decimal(n: nat) -> Seq<char>
    decreases n,
{
    if n < 10 {
        seq![digit_char(n as int)]
    } else {
        decimal(n / 10).push(digit_char((n % 10) as int))
    }
}

// ---------------------------------------------------------------------------
// Lemmas
// ---------------------------------------------------------------------------

/// `split` always yields at least one piece.
pub proof fn lemma_split_len(s: Seq<char>, sep: char)
    ensures
        split(s, sep).len() >= 1,
    decreases s.len(),
{
    if s.len() > 0 {
        lemma_split_len(s.drop_last(), sep);
    }
}

/// An element is kept by `dedup` exactly when it occurs in the input.
pub proof fn lemma_dedup_contains<A>(s: Seq<A>, x: A)
    ensures
        dedup(s).contains(x) <==> s.contains(x),
    decreases s.len(),
{
    if s.len() > 0 {
        lemma_dedup_contains(s.drop_last(), x);
        if s.drop_last().contains(x) {
            let i = choose|i: int| 0 <= i < s.drop_last().len() && s.drop_last()[i] == x;
            assert(s[i] == x);
        }
        if s.contains(x) && x != s.last() {
            let i = choose|i: int| 0 <= i < s.len() && s[i] == x;
            assert(s.drop_last()[i] == x);
        }
        let kept = dedup(s.drop_last());
        if !kept.contains(s.last()) {
            assert(kept.push(s.last())[kept.len() as int] == s.last());
            if kept.contains(x) {
                let j = choose|j: int| 0 <= j < kept.len() && kept[j] == x;
                assert(kept.push(s.last())[j] == x);
            }
            if kept.push(s.last()).contains(x) && x != s.last() {
                let j = choose|j: int| 0 <= j < kept.len() + 1 && kept.push(s.last())[j] == x;
                assert(kept[j] == x);
            }
        }
    }
}

/// `dedup` leaves no element twice.
pub proof fn lemma_dedup_distinct<A>(s: Seq<A>)
    ensures
        dedup(s).no_duplicates(),
    decreases s.len(),
{
    if s.len() > 0 {
        lemma_dedup_distinct(s.drop_last());
        let kept = dedup(s.drop_last());
        if !kept.contains(s.last()) {
            let pushed = kept.push(s.last());
            assert forall|i: int, j: int|
                0 <= i < pushed.len() && 0 <= j < pushed.len() && i != j implies pushed[i]
                != pushed[j] by {
                if i == kept.len() {
                    assert(kept[j] == pushed[j]);
                } else if j == kept.len() {
                    assert(kept[i] == pushed[i]);
                }
            }
        }
    }
}

/// Every element `dedup` keeps comes from its input.
pub proof fn lemma_dedup_subset<A>(s: Seq<A>, i: int)
    requires
        0 <= i < dedup(s).len(),
    ensures
        s.contains(dedup(s)[i]),
{
    lemma_dedup_contains(s, dedup(s)[i]);
}

/// `trim_start` removes a prefix and leaves text that is empty or starts
/// with a non-whitespace character.
pub proof fn lemma_trim_start_shape(s: Seq<char>)
    ensures
        trim_start(s).len() <= s.len(),
        trim_start(s) == s.skip(s.len() - trim_start(s).len()),
        trim_start(s).len() == 0 || !is_ws(trim_start(s)[0]),
    decreases s.len(),
{
    if s.len() > 0 && is_ws(s[0]) {
        lemma_trim_start_shape(s.drop_first());
        let t = trim_start(s.drop_first());
        assert(s.drop_first().skip(s.drop_first().len() - t.len()) =~= s.skip(s.len() - t.len()));
    } else {
        assert(s.skip(0) =~= s);
    }
}

/// `trim_end` removes a suffix and leaves text that is empty or ends with a
/// non-whitespace character.
pub proof fn lemma_trim_end_shape(s: Seq<char>)
    ensures
        trim_end(s).len() <= s.len(),
        trim_end(s) == s.take(trim_end(s).len() as int),
        trim_end(s).len() == 0 || !is_ws(trim_end(s).last()),
    decreases s.len(),
{
    if s.len() > 0 && is_ws(s.last()) {
        lemma_trim_end_shape(s.drop_last());
        let t = trim_end(s.drop_last());
        assert(s.drop_last().take(t.len() as int) =~= s.take(t.len() as int));
    } else {
        assert(s.take(s.len() as int) =~= s);
    }
}

/// Trimmed text is empty or starts and ends with non-whitespace, and
/// trimming it again changes nothing.
pub proof fn lemma_trim_idempotent(s: Seq<char>)
    ensures
        trim(s).len() == 0 || (!is_ws(trim(s)[0]) && !is_ws(trim(s).last())),
        trim(trim(s)) == trim(s),
{
    let t = trim_start(s);
    let u = trim_end(t);
    lemma_trim_start_shape(s);
    lemma_trim_end_shape(t);
    if u.len() > 0 {
        assert(u[0] == t[0]);
    }
    assert(trim_start(u) == u);
    assert(trim_end(u) == u);
}

/// `trim_each` trims every piece and keeps their number.
pub proof fn lemma_trim_each(s: Seq<Seq<char>>)
    ensures
        trim_each(s).len() == s.len(),
        forall|j: int| 0 <= j < s.len() ==> #[trigger] trim_each(s)[j] == trim(s[j]),
    decreases s.len(),
{
    if s.len() > 0 {
        lemma_trim_each(s.drop_last());
        assert forall|j: int| 0 <= j < s.len() implies #[trigger] trim_each(s)[j] == trim(s[j]) by {
            if j < s.len() - 1 {
                assert(trim_each(s.drop_last())[j] == trim(s.drop_last()[j]));
            }
        }
    }
}

/// `non_empty_pieces` keeps exactly the non-empty pieces.
pub proof fn lemma_non_empty_pieces(s: Seq<Seq<char>>)
    ensures
        forall|i: int|
            0 <= i < non_empty_pieces(s).len() ==> #[trigger] non_empty_pieces(s)[i].len() > 0
                && s.contains(non_empty_pieces(s)[i]),
        forall|j: int|
            0 <= j < s.len() && s[j].len() > 0 ==> non_empty_pieces(s).contains(#[trigger] s[j]),
        non_empty_pieces(s).len() <= s.len(),
    decreases s.len(),
{
    if s.len() > 0 {
        let d = s.drop_last();
        lemma_non_empty_pieces(d);
        let k = non_empty_pieces(d);
        assert forall|i: int| 0 <= i < non_empty_pieces(s).len() implies #[trigger] non_empty_pieces(
            s,
        )[i].len() > 0 && s.contains(non_empty_pieces(s)[i]) by {
            if i < k.len() {
                assert(non_empty_pieces(s)[i] == k[i]);
                let j = choose|j: int| 0 <= j < d.len() && d[j] == k[i];
                assert(s[j] == k[i]);
            } else {
                assert(s[s.len() - 1] == s.last());
            }
        }
        assert forall|j: int| 0 <= j < s.len() && s[j].len() > 0 implies non_empty_pieces(
            s,
        ).contains(#[trigger] s[j]) by {
            if j < s.len() - 1 {
                assert(d[j] == s[j]);
                let i = choose|i: int| 0 <= i < k.len() && k[i] == d[j];
                assert(non_empty_pieces(s)[i] == k[i]);
            } else {
                assert(non_empty_pieces(s)[k.len() as int] == s[j]);
            }
        }
    }
}

/// `split` of text made only of separators yields only empty pieces.
pub proof fn lemma_split_all_separators(s: Seq<char>, sep: char)
    requires
        forall|i: int| 0 <= i < s.len() ==> s[i] == sep,
    ensures
        forall|j: int| 0 <= j < split(s, sep).len() ==> #[trigger] split(s, sep)[j].len() == 0,
    decreases s.len(),
{
    if s.len() > 0 {
        lemma_split_all_separators(s.drop_last(), sep);
        assert(s.last() == s[s.len() - 1]);
        let p = split(s.drop_last(), sep);
        assert(split(s, sep) == p.push(Seq::<char>::empty()));
        assert forall|j: int| 0 <= j < split(s, sep).len() implies #[trigger] split(s, sep)[j].len()
            == 0 by {
            if j < p.len() {
                assert(split(s, sep)[j] == p[j]);
            }
        }
    }
}

/// No non-empty piece survives among only empty pieces.
pub proof fn lemma_non_empty_pieces_of_empties(s: Seq<Seq<char>>)
    requires
        forall|j: int| 0 <= j < s.len() ==> #[trigger] s[j].len() == 0,
    ensures
        non_empty_pieces(s).len() == 0,
    decreases s.len(),
{
    if s.len() > 0 {
        assert(s.last() == s[s.len() - 1]);
        lemma_non_empty_pieces_of_empties(s.drop_last());
    }
}

/// No piece of `split(s, sep)` holds `sep`.
pub proof fn lemma_split_pieces_lack_separator(s: Seq<char>, sep: char)
    ensures
        forall|j: int, k: int|
            0 <= j < split(s, sep).len() && 0 <= k < split(s, sep)[j].len() ==> #[trigger] split(
                s,
                sep,
            )[j][k] != sep,
    decreases s.len(),
{
    if s.len() > 0 {
        let d = s.drop_last();
        lemma_split_pieces_lack_separator(d, sep);
        lemma_split_len(d, sep);
        let p = split(d, sep);
        assert forall|j: int, k: int|
            0 <= j < split(s, sep).len() && 0 <= k < split(s, sep)[j].len() implies #[trigger] split(
            s,
            sep,
        )[j][k] != sep by {
            if s.last() == sep {
                if j < p.len() {
                    assert(split(s, sep)[j] == p[j]);
                }
            } else {
                if j < p.len() - 1 {
                    assert(split(s, sep)[j] == p[j]);
                } else {
                    assert(split(s, sep)[j] == p.last().push(s.last()));
                    if k < p.last().len() {
                        assert(p.last()[k] == p[p.len() - 1][k]);
                    }
                }
            }
        }
    }
}

/// Text without `sep` splits into itself alone.
pub proof fn lemma_split_without_separator(q: Seq<char>, sep: char)
    requires
        forall|i: int| 0 <= i < q.len() ==> q[i] != sep,
    ensures
        split(q, sep) == seq![q],
    decreases q.len(),
{
    if q.len() > 0 {
        lemma_split_without_separator(q.drop_last(), sep);
        assert(q.last() == q[q.len() - 1]);
        assert(q.drop_last().push(q.last()) =~= q);
        assert(seq![q.drop_last()].update(0, q.drop_last().push(q.last())) =~= seq![q]);
    } else {
        assert(q =~= Seq::<char>::empty());
    }
}

/// Appending a separator and a piece without separators appends that piece.
pub proof fn lemma_split_append_piece(p: Seq<char>, q: Seq<char>, sep: char)
    requires
        forall|i: int| 0 <= i < q.len() ==> q[i] != sep,
    ensures
        split(p + seq![sep] + q, sep) == split(p, sep).push(q),
    decreases q.len(),
{
    let s = p + seq![sep] + q;
    if q.len() == 0 {
        assert(s.drop_last() =~= p);
        assert(q =~= Seq::<char>::empty());
    } else {
        let qd = q.drop_last();
        lemma_split_append_piece(p, qd, sep);
        assert(s.drop_last() =~= p + seq![sep] + qd);
        assert(s.last() == q[q.len() - 1]);
        let r = split(p, sep).push(qd);
        assert(qd.push(q.last()) =~= q);
        assert(r.last() == qd);
        assert(r.update(r.len() - 1, r.last().push(s.last())) =~= split(p, sep).push(q));
    }
}

/// Splitting the join of separator-free pieces gives the pieces back.
pub proof fn lemma_split_join(xs: Seq<Seq<char>>, sep: char)
    requires
        xs.len() >= 1,
        forall|j: int, k: int| 0 <= j < xs.len() && 0 <= k < xs[j].len() ==> #[trigger] xs[j][k]
            != sep,
    ensures
        split(join(xs, seq![sep]), sep) == xs,
    decreases xs.len(),
{
    if xs.len() == 1 {
        assert forall|i: int| 0 <= i < xs[0].len() implies xs[0][i] != sep by {
            assert(xs[0][i] == xs[0][i]);
        }
        lemma_split_without_separator(xs[0], sep);
        assert(seq![xs[0]] =~= xs);
    } else {
        let d = xs.drop_last();
        assert forall|j: int, k: int| 0 <= j < d.len() && 0 <= k < d[j].len() implies #[trigger] d[j][k]
            != sep by {
            assert(d[j] == xs[j]);
        }
        lemma_split_join(d, sep);
        assert forall|i: int| 0 <= i < xs.last().len() implies xs.last()[i] != sep by {
            assert(xs.last()[i] == xs[xs.len() - 1][i]);
        }
        lemma_split_append_piece(join(d, seq![sep]), xs.last(), sep);
        assert(d.push(xs.last()) =~= xs);
    }
}

/// Each character of `trim(s)` is a character of `s`.
pub proof fn lemma_trim_within(s: Seq<char>, k: int)
    requires
        0 <= k < trim(s).len(),
    ensures
        exists|i: int| 0 <= i < s.len() && s[i] == trim(s)[k],
{
    lemma_trim_start_shape(s);
    let t = trim_start(s);
    lemma_trim_end_shape(t);
    let off = s.len() - t.len();
    assert(trim(s)[k] == t[k]);
    assert(t[k] == s[off + k]);
}

/// Trimming already-trimmed pieces changes nothing.
pub proof fn lemma_trim_each_fixed(xs: Seq<Seq<char>>)
    requires
        forall|j: int| 0 <= j < xs.len() ==> trim(#[trigger] xs[j]) == xs[j],
    ensures
        trim_each(xs) == xs,
    decreases xs.len(),
{
    if xs.len() > 0 {
        let d = xs.drop_last();
        assert forall|j: int| 0 <= j < d.len() implies trim(#[trigger] d[j]) == d[j] by {
            assert(d[j] == xs[j]);
        }
        lemma_trim_each_fixed(d);
        assert(xs.last() == xs[xs.len() - 1]);
        assert(d.push(xs.last()) =~= xs);
    }
}

/// Keeping the non-empty pieces of non-empty pieces keeps them all.
pub proof fn lemma_non_empty_pieces_fixed(xs: Seq<Seq<char>>)
    requires
        forall|j: int| 0 <= j < xs.len() ==> #[trigger] xs[j].len() > 0,
    ensures
        non_empty_pieces(xs) == xs,
    decreases xs.len(),
{
    if xs.len() > 0 {
        let d = xs.drop_last();
        assert forall|j: int| 0 <= j < d.len() implies #[trigger] d[j].len() > 0 by {
            assert(d[j] == xs[j]);
        }
        lemma_non_empty_pieces_fixed(d);
        assert(xs.last() == xs[xs.len() - 1]);
        assert(d.push(xs.last()) =~= xs);
    }
}

/// `dedup` of a sequence without duplicates is that sequence.
pub proof fn lemma_dedup_fixed<A>(xs: Seq<A>)
    requires
        xs.no_duplicates(),
    ensures
        dedup(xs) == xs,
    decreases xs.len(),
{
    if xs.len() > 0 {
        let d = xs.drop_last();
        assert(d.no_duplicates()) by {
            assert forall|i: int, j: int| 0 <= i < d.len() && 0 <= j < d.len() && i != j implies d[i]
                != d[j] by {
                assert(d[i] == xs[i] && d[j] == xs[j]);
            }
        }
        lemma_dedup_fixed(d);
        lemma_dedup_contains(d, xs.last());
        if d.contains(xs.last()) {
            let i = choose|i: int| 0 <= i < d.len() && d[i] == xs.last();
            assert(xs[i] == xs[xs.len() - 1]);
        }
        assert(d.push(xs.last()) =~= xs);
    }
}

/// `x` occurs in `s` before index `b`.
pub open spec fn occurs_before<A>(s: Seq<A>, x: A, b: int) -> bool {
    exists|a: int| 0 <= a < b && s[a] == x
}

/// `dedup` keeps the order of first occurrences: wherever a later kept
/// element occurs in the input, an earlier kept element occurs before it.
pub proof fn lemma_dedup_order<A>(s: Seq<A>)
    ensures
        forall|i: int, j: int, b: int|
            #![trigger dedup(s)[i], dedup(s)[j], s[b]]
            0 <= i < j < dedup(s).len() && 0 <= b < s.len() && s[b] == dedup(s)[j]
                ==> occurs_before(s, dedup(s)[i], b),
    decreases s.len(),
{
    if s.len() > 0 {
        let d = s.drop_last();
        let kd = dedup(d);
        lemma_dedup_order(d);
        assert forall|i: int, j: int, b: int|
            #![trigger dedup(s)[i], dedup(s)[j], s[b]]
            0 <= i < j < dedup(s).len() && 0 <= b < s.len() && s[b] == dedup(s)[j] implies occurs_before(
                s,
                dedup(s)[i],
                b,
            ) by {
            lemma_dedup_subset(d, i);
            assert(dedup(s)[i] == kd[i]);
            if j < kd.len() {
                assert(dedup(s)[j] == kd[j]);
                if b < d.len() {
                    assert(d[b] == s[b]);
                    assert(occurs_before(d, kd[i], b));
                    let a = choose|a: int| 0 <= a < b && d[a] == kd[i];
                    assert(s[a] == d[a]);
                } else {
                    lemma_dedup_subset(d, j);
                    let b2 = choose|b2: int| 0 <= b2 < d.len() && d[b2] == kd[j];
                    assert(occurs_before(d, kd[i], b2));
                    let a = choose|a: int| 0 <= a < b2 && d[a] == kd[i];
                    assert(s[a] == d[a]);
                }
            } else {
                assert(dedup(s)[j] == s.last());
                lemma_dedup_contains(d, s.last());
                if b < d.len() {
                    assert(d[b] == s.last());
                    assert(false);
                }
                let a = choose|a: int| 0 <= a < d.len() && d[a] == kd[i];
                assert(s[a] == d[a]);
            }
        }
    }
}

// ---------------------------------------------------------------------------
// Executable functions
// ---------------------------------------------------------------------------

/// Appends one character to a string (`String::push`).
#[verifier::external_body]
pub(crate) fn push_char(s: &mut String, c: char)
    ensures
        final(s)@ == old(s)@.push(c),
{
    s.push(c);
}

/// The characters of `s`, in order.
pub fn chars_of(s: &str) -> (v: Vec<char>)
    ensures
        v@ == s@,
{
    let mut v: Vec<char> = Vec::new();
    for c in it: s.chars()
        invariant
            it.seq() == s@,
            v@ == it.seq().take(it.index()),
    {
        v.push(c);
    }
    v
}

/// The string made of `v[lo..hi]`.
pub fn string_from_range(v: &Vec<char>, lo: usize, hi: usize) -> (r: String)
    requires
        lo <= hi <= v.len(),
    ensures
        r@ == v@.subrange(lo as int, hi as int),
{
    let mut r = String::new();
    let mut i = lo;
    while i < hi
        invariant
            lo <= i <= hi <= v.len(),
            r@ == v@.subrange(lo as int, i as int),
        decreases hi - i,
    {
        push_char(&mut r, v[i]);
        assert(v@.subrange(lo as int, i + 1) =~= v@.subrange(lo as int, i as int).push(v@[i as int]));
        i += 1;
    }
    r
}

/// The string made of all of `v`.
pub fn string_from(v: &Vec<char>) -> (r: String)
    ensures
        r@ == v@,
{
    let r = string_from_range(v, 0, v.len());
    assert(v@.subrange(0, v@.len() as int) =~= v@);
    r
}

/// Whether `c` is Unicode whitespace (`char::is_whitespace`).
pub fn is_whitespace(c: char) -> (b: bool)
    ensures
        b == is_ws(c),
{
    let n = c as u32;
    (0x09 <= n && n <= 0x0D) || n == 0x20 || n == 0x85 || n == 0xA0 || n == 0x1680 || (0x2000
        <= n && n <= 0x200A) || n == 0x2028 || n == 0x2029 || n == 0x202F || n == 0x205F || n
        == 0x3000
}

/// `v` without leading and trailing whitespace.
pub fn trimmed(v: &Vec<char>) -> (r: Vec<char>)
    ensures
        r@ == trim(v@),
{
    let n = v.len();
    let mut lo: usize = 0;
    assert(v@.skip(0) =~= v@);
    while lo < n && is_whitespace(v[lo])
        invariant
            lo <= n == v.len(),
            trim_start(v@) == trim_start(v@.skip(lo as int)),
        decreases n - lo,
    {
        assert(v@.skip(lo as int).drop_first() =~= v@.skip(lo + 1));
        lo += 1;
    }
    assert(trim_start(v@.skip(lo as int)) == v@.skip(lo as int));
    assert(v@.skip(lo as int) =~= v@.subrange(lo as int, n as int));
    let mut hi: usize = n;
    while hi > lo && is_whitespace(v[hi - 1])
        invariant
            lo <= hi <= n == v.len(),
            trim_end(v@.subrange(lo as int, n as int)) == trim_end(
                v@.subrange(lo as int, hi as int),
            ),
        decreases hi,
    {
        assert(v@.subrange(lo as int, hi as int).drop_last() =~= v@.subrange(
            lo as int,
            hi - 1,
        ));
        hi -= 1;
    }
    assert(trim_end(v@.subrange(lo as int, hi as int)) == v@.subrange(lo as int, hi as int));
    let mut r: Vec<char> = Vec::new();
    let mut i = lo;
    while i < hi
        invariant
            lo <= i <= hi <= n == v.len(),
            r@ == v@.subrange(lo as int, i as int),
        decreases hi - i,
    {
        r.push(v[i]);
        assert(v@.subrange(lo as int, i + 1) =~= v@.subrange(lo as int, i as int).push(v@[i as int]));
        i += 1;
    }
    r
}

/// The contents of a sequence of character vectors.
pub open spec fn views(v: Seq<Vec<char>>) -> Seq<Seq<char>> {
    v.map_values(|p: Vec<char>| p@)
}

/// The pieces of `v` between occurrences of `sep`.
pub fn split_chars(v: &Vec<char>, sep: char) -> (r: Vec<Vec<char>>)
    ensures
        views(r@) == split(v@, sep),
{
    let mut pieces: Vec<Vec<char>> = Vec::new();
    let mut cur: Vec<char> = Vec::new();
    let mut i: usize = 0;
    assert(v@.take(0) =~= Seq::<char>::empty());
    assert(views(pieces@).push(cur@) =~= split(v@.take(0), sep));
    while i < v.len()
        invariant
            i <= v.len(),
            views(pieces@).push(cur@) =~= split(v@.take(i as int), sep),
        decreases v.len() - i,
    {
        let ghost before = split(v@.take(i as int), sep);
        assert(v@.take(i + 1).drop_last() =~= v@.take(i as int));
        assert(v@.take(i + 1).last() == v@[i as int]);
        if v[i] == sep {
            let mut done: Vec<char> = Vec::new();
            std::mem::swap(&mut done, &mut cur);
            let ghost old_pieces = pieces@;
            pieces.push(done);
            assert(views(pieces@) =~= views(old_pieces).push(done@));
            assert(views(pieces@) =~= before);
        } else {
            cur.push(v[i]);
            proof {
                lemma_split_len(v@.take(i as int), sep);
            }
        }
        i += 1;
    }
    assert(v@.take(v@.len() as int) =~= v@);
    let ghost old_pieces = pieces@;
    let ghost last = cur@;
    pieces.push(cur);
    assert(views(pieces@) =~= views(old_pieces).push(last));
    pieces
}

/// The decimal digit character for `d`.
pub fn digit(d: u64) -> (c: char)
    requires
        d < 10,
    ensures
        c == digit_char(d as int),
{
    if d == 0 {
        '0'
    } else if d == 1 {
        '1'
    } else if d == 2 {
        '2'
    } else if d == 3 {
        '3'
    } else if d == 4 {
        '4'
    } else if d == 5 {
        '5'
    } else if d == 6 {
        '6'
    } else if d == 7 {
        '7'
    } else if d == 8 {
        '8'
    } else {
        '9'
    }
}

/// Appends the decimal rendering of `n` to `s`.
pub fn push_decimal(s: &mut String, n: u64)
    ensures
        final(s)@ == old(s)@ + decimal(n as nat),
    decreases n,
{
    if n < 10 {
        push_char(s, digit(n));
        assert(old(s)@.push(digit_char(n as int)) =~= old(s)@ + decimal(n as nat));
    } else {
        push_decimal(s, n / 10);
        push_char(s, digit(n % 10));
        assert(old(s)@ + decimal((n / 10) as nat) + seq![digit_char((n % 10) as int)] =~= old(
            s,
        )@ + decimal(n as nat));
    }
}

/// The decimal rendering of `n` (`n.to_string()`).
pub fn decimal_string(n: u64) -> (r: String)
    ensures
        r@ == decimal(n as nat),
{
    let mut r = String::new();
    push_decimal(&mut r, n);
    assert(Seq::<char>::empty() + decimal(n as nat) =~= decimal(n as nat));
    r
}

/// The strings of `parts` with `sep` between each two.
pub fn join_strings(parts: &Vec<String>, sep: &str) -> (r: String)
    ensures
        r@ == join(parts.deep_view(), sep@),
{
    let mut r = String::new();
    let ghost dv = parts.deep_view();
    let mut i: usize = 0;
    assert(dv.take(0) =~= Seq::<Seq<char>>::empty());
    while i < parts.len()
        invariant
            i <= parts.len(),
            dv == parts.deep_view(),
            r@ == join(dv.take(i as int), sep@),
        decreases parts.len() - i,
    {
        assert(dv.take(i + 1).drop_last() =~= dv.take(i as int));
        assert(dv.take(i + 1).last() == parts[i as int]@);
        if i != 0 {
            r.append(sep);
        }
        r.append(parts[i].as_str());
        proof {
            if i == 0 {
                assert(r@ =~= dv.take(1)[0]);
            }
        }
        i += 1;
    }
    assert(dv.take(parts.len() as int) =~= dv);
    r
}

/// `s` without its trailing occurrences of `c`.
pub fn strip_trailing_char(s: &str, c: char) -> (r: String)
    ensures
        r@ == strip_trailing(s@, c),
{
    let v = chars_of(s);
    let mut hi = v.len();
    assert(v@.subrange(0, hi as int) =~= v@);
    while hi > 0 && v[hi - 1] == c
        invariant
            hi <= v.len(),
            strip_trailing(v@, c) == strip_trailing(v@.subrange(0, hi as int), c),
        decreases hi,
    {
        assert(v@.subrange(0, hi as int).drop_last() =~= v@.subrange(0, hi - 1));
        hi -= 1;
    }
    string_from_range(&v, 0, hi)
}

} // verus!
