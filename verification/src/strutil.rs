//! Verified text utilities: substring search, literal find-and-replace, and
//! the lemmas about them that the template engine's proofs rest on.

use vstd::prelude::*;
use vstd::string::StrSliceExecFns;
use vstd::string::StringExecFns;

verus! {

/// Pattern `p` occurs in `s` starting at index `i`.
pub open spec fn occurs_at(s: Seq<char>, p: Seq<char>, i: int) -> bool {
    &&& 0 <= i
    &&& i + p.len() <= s.len()
    &&& s.subrange(i, i + p.len() as int) == p
}

/// Pattern `p` occurs somewhere in `s`.
pub open spec fn contains_seq(s: Seq<char>, p: Seq<char>) -> bool {
    exists|i: int| occurs_at(s, p, i)
}

/// Characters reserved for placeholder tokens: upper-case ASCII and `_`.
pub open spec fn is_ph_char(c: char) -> bool {
    (65 <= (c as u32) && (c as u32) <= 90) || c == '_'
}

/// No character of `s` is reserved for placeholder tokens.
pub open spec fn no_ph(s: Seq<char>) -> bool {
    forall|i: int| 0 <= i < s.len() ==> !is_ph_char(s[i])
}

/// Every character of `s` is reserved for placeholder tokens.
pub open spec fn all_ph(s: Seq<char>) -> bool {
    forall|i: int| 0 <= i < s.len() ==> is_ph_char(s[i])
}

/// Upper-case ASCII letter.
pub open spec fn is_upper_char(c: char) -> bool {
    65 <= (c as u32) && (c as u32) <= 90
}

/// No character of `s` is an upper-case ASCII letter.
pub open spec fn no_upper(s: Seq<char>) -> bool {
    forall|i: int| 0 <= i < s.len() ==> !is_upper_char(s[i])
}

/// A text without upper-case letters contains no pattern that starts with
/// one.
pub proof fn lemma_no_upper_absent(s: Seq<char>, p: Seq<char>)
    requires
        p.len() > 0,
        is_upper_char(p[0]),
        no_upper(s),
    ensures
        !contains_seq(s, p),
{
    assert forall|i: int| !occurs_at(s, p, i) by {
        if 0 <= i && i + p.len() <= s.len() {
            if s.subrange(i, i + p.len() as int) == p {
                assert(s.subrange(i, i + p.len() as int)[0] == s[i]);
            }
        }
    }
}

/// `no_upper` distributes over concatenation.
pub proof fn lemma_no_upper_concat(a: Seq<char>, b: Seq<char>)
    requires
        no_upper(a),
        no_upper(b),
    ensures
        no_upper(a + b),
{
    assert forall|i: int| 0 <= i < (a + b).len() implies !is_upper_char((a + b)[i]) by {
        if i < a.len() {
            assert((a + b)[i] == a[i]);
        } else {
            assert((a + b)[i] == b[i - a.len()]);
        }
    }
}

/// Occurrences shift by `k` between `s` and `s.skip(k)`.
pub proof fn lemma_occ_skip(s: Seq<char>, p: Seq<char>, k: int, j: int)
    requires
        0 <= k <= s.len(),
        0 <= j,
    ensures
        occurs_at(s.skip(k), p, j) == occurs_at(s, p, j + k),
{
    if j + k + p.len() <= s.len() {
        assert(s.skip(k).subrange(j, j + p.len() as int) =~= s.subrange(
            j + k,
            j + k + p.len() as int,
        ));
    }
}

/// Index of the first occurrence of `p` in `s`, or -1 when there is none.
pub open spec fn first_occ(s: Seq<char>, p: Seq<char>) -> int
    decreases s.len(),
{
    if p.len() == 0 {
        0
    } else if s.len() < p.len() {
        -1
    } else if s.subrange(0, p.len() as int) == p {
        0
    } else if first_occ(s.skip(1), p) == -1 {
        -1
    } else {
        1 + first_occ(s.skip(1), p)
    }
}

/// `first_occ` returns -1 exactly when `p` does not occur, and otherwise
/// the least index at which it does.
pub proof fn lemma_first_occ(s: Seq<char>, p: Seq<char>)
    ensures
        first_occ(s, p) == -1 ==> !contains_seq(s, p),
        first_occ(s, p) != -1 ==> occurs_at(s, p, first_occ(s, p)) && (forall|j: int|
            0 <= j < first_occ(s, p) ==> !occurs_at(s, p, j)),
    decreases s.len(),
{
    if p.len() == 0 {
        assert(s.subrange(0, 0) =~= p);
        assert(occurs_at(s, p, 0));
    } else if s.len() < p.len() {
        assert forall|i: int| !occurs_at(s, p, i) by {}
    } else if s.subrange(0, p.len() as int) == p {
        assert(occurs_at(s, p, 0));
    } else {
        lemma_first_occ(s.skip(1), p);
        let r = first_occ(s.skip(1), p);
        if r == -1 {
            assert forall|i: int| !occurs_at(s, p, i) by {
                if i > 0 {
                    lemma_occ_skip(s, p, 1, i - 1);
                } else if i == 0 {
                    assert(!occurs_at(s, p, 0));
                }
            }
        } else {
            lemma_occ_skip(s, p, 1, r);
            assert(occurs_at(s, p, r + 1));
            assert forall|j: int| 0 <= j < r + 1 implies !occurs_at(s, p, j) by {
                if j > 0 {
                    lemma_occ_skip(s, p, 1, j - 1);
                }
            }
        }
    }
}

/// A placeholder token (starting with `V`) cannot occur in `s` when no
/// position of `s` where the token would fit holds a `V`, except position
/// 0, which is refuted by a single mismatched character at offset `d`.
pub proof fn lemma_absent_tok(s: Seq<char>, p: Seq<char>, d: int)
    requires
        p.len() > 0,
        p[0] == 'V',
        forall|i: int| 1 <= i <= s.len() - p.len() ==> s[i] != 'V',
        0 <= d < p.len(),
        p.len() <= s.len() ==> d < s.len() && s[d] != p[d],
    ensures
        !contains_seq(s, p),
{
    assert forall|i: int| !occurs_at(s, p, i) by {
        if 0 <= i && i + p.len() <= s.len() {
            if s.subrange(i, i + p.len() as int) == p {
                assert(s.subrange(i, i + p.len() as int)[0] == s[i]);
                if i == 0 {
                    assert(s.subrange(i, i + p.len() as int)[d] == s[i + d]);
                }
            }
        }
    }
}

/// Concatenation of a list of parts, head first.
pub open spec fn concat_parts(parts: Seq<Seq<char>>) -> Seq<char>
    decreases parts.len(),
{
    if parts.len() == 0 {
        Seq::<char>::empty()
    } else {
        parts[0] + concat_parts(parts.skip(1))
    }
}

/// A nonempty head fixes the first character of the concatenation.
pub proof fn lemma_concat_parts_first(parts: Seq<Seq<char>>)
    requires
        parts.len() > 0,
        parts[0].len() > 0,
    ensures
        concat_parts(parts).len() > 0,
        concat_parts(parts)[0] == parts[0][0],
{
}

/// A token made of placeholder characters occurs in a concatenation of
/// parts only if it occurs in one of them, provided every junction shows a
/// non-placeholder character on one side.
pub proof fn lemma_parts_absent(parts: Seq<Seq<char>>, p: Seq<char>)
    requires
        p.len() > 0,
        all_ph(p),
        forall|i: int| 0 <= i < parts.len() ==> !contains_seq(#[trigger] parts[i], p),
        forall|i: int| 0 <= i < parts.len() ==> (#[trigger] parts[i]).len() > 0,
        forall|i: int|
            0 <= i < parts.len() - 1 ==> (!is_ph_char((#[trigger] parts[i]).last())
                || !is_ph_char(parts[i + 1].first())),
    ensures
        !contains_seq(concat_parts(parts), p),
    decreases parts.len(),
{
    if parts.len() == 0 {
        assert(forall|i: int| !occurs_at(concat_parts(parts), p, i));
    } else if parts.len() == 1 {
        assert(parts.skip(1).len() == 0);
        assert(concat_parts(parts.skip(1)) == Seq::<char>::empty());
        assert(concat_parts(parts) =~= parts[0]);
    } else {
        let rest = parts.skip(1);
        assert(forall|i: int| 0 <= i < rest.len() ==> rest[i] == parts[i + 1]);
        lemma_parts_absent(rest, p);
        lemma_concat_parts_first(rest);
        assert(concat_parts(rest)[0] == parts[1][0]);
        assert(concat_parts(rest).first() == parts[1].first());
        lemma_concat_absent(parts[0], concat_parts(rest), p);
    }
}

/// `concat_parts` distributes over list concatenation.
pub proof fn lemma_concat_parts_app(l1: Seq<Seq<char>>, l2: Seq<Seq<char>>)
    ensures
        concat_parts(l1 + l2) == concat_parts(l1) + concat_parts(l2),
    decreases l1.len(),
{
    if l1.len() == 0 {
        assert(l1 + l2 =~= l2);
        assert(Seq::<char>::empty() + concat_parts(l2) =~= concat_parts(l2));
    } else {
        assert((l1 + l2).skip(1) =~= l1.skip(1) + l2);
        lemma_concat_parts_app(l1.skip(1), l2);
        assert((l1 + l2)[0] == l1[0]);
        assert(l1[0] + (concat_parts(l1.skip(1)) + concat_parts(l2)) =~= (l1[0] + concat_parts(
            l1.skip(1),
        )) + concat_parts(l2));
    }
}

/// A nonempty final part fixes the last character of the concatenation.
pub proof fn lemma_concat_parts_last(parts: Seq<Seq<char>>)
    requires
        parts.len() > 0,
        forall|i: int| 0 <= i < parts.len() ==> (#[trigger] parts[i]).len() > 0,
    ensures
        concat_parts(parts).len() > 0,
        concat_parts(parts).last() == parts.last().last(),
    decreases parts.len(),
{
    if parts.len() == 1 {
        assert(parts.skip(1).len() == 0);
        assert(concat_parts(parts.skip(1)) == Seq::<char>::empty());
        assert(concat_parts(parts) =~= parts[0]);
    } else {
        let rest = parts.skip(1);
        assert(forall|i: int| 0 <= i < rest.len() ==> rest[i] == parts[i + 1]);
        lemma_concat_parts_last(rest);
        assert(rest.last() == parts.last());
        assert((parts[0] + concat_parts(rest)).last() == concat_parts(rest).last());
    }
}

/// Replacing a token that stands as one part of a concatenation, and
/// occurs in no other part, substitutes the value for that one part.
pub proof fn lemma_replace_parts(pa: Seq<Seq<char>>, p: Seq<char>, pb: Seq<Seq<char>>, v: Seq<char>)
    requires
        p.len() > 0,
        all_ph(p),
        forall|i: int| 0 <= i < pa.len() ==> !contains_seq(#[trigger] pa[i], p),
        forall|i: int| 0 <= i < pa.len() ==> (#[trigger] pa[i]).len() > 0,
        forall|i: int|
            0 <= i < pa.len() - 1 ==> (!is_ph_char((#[trigger] pa[i]).last()) || !is_ph_char(
                pa[i + 1].first(),
            )),
        pa.len() > 0 ==> !is_ph_char(pa.last().last()),
        forall|i: int| 0 <= i < pb.len() ==> !contains_seq(#[trigger] pb[i], p),
        forall|i: int| 0 <= i < pb.len() ==> (#[trigger] pb[i]).len() > 0,
        forall|i: int|
            0 <= i < pb.len() - 1 ==> (!is_ph_char((#[trigger] pb[i]).last()) || !is_ph_char(
                pb[i + 1].first(),
            )),
    ensures
        spec_replace(concat_parts(pa + seq![p] + pb), p, v) == concat_parts(pa + seq![v] + pb),
{
    reveal_with_fuel(concat_parts, 3);
    let a = concat_parts(pa);
    let b = concat_parts(pb);
    lemma_parts_absent(pa, p);
    lemma_parts_absent(pb, p);
    assert(seq![p].skip(1) =~= Seq::<Seq<char>>::empty());
    assert(seq![v].skip(1) =~= Seq::<Seq<char>>::empty());
    assert(concat_parts(seq![p]) =~= p);
    assert(concat_parts(seq![v]) =~= v);
    lemma_concat_parts_app(pa + seq![p], pb);
    lemma_concat_parts_app(pa, seq![p]);
    assert(concat_parts(pa + seq![p] + pb) == (a + p) + b);
    if pa.len() > 0 {
        lemma_concat_parts_last(pa);
    }
    assert(a + p + b == (a + p) + b);
    lemma_replace_split(a, b, p, v);
    lemma_replace_absent(b, p, v);
    lemma_concat_parts_app(pa + seq![v], pb);
    lemma_concat_parts_app(pa, seq![v]);
    assert(concat_parts(pa + seq![v] + pb) == (a + v) + b);
    assert(a + v + b == (a + v) + b);
}

/// Appending one part appends its characters.
pub proof fn lemma_concat_parts_push(l: Seq<Seq<char>>, x: Seq<char>)
    ensures
        concat_parts(l.push(x)) == concat_parts(l) + x,
{
    reveal_with_fuel(concat_parts, 3);
    assert(l.push(x) =~= l + seq![x]);
    lemma_concat_parts_app(l, seq![x]);
    assert(seq![x].skip(1) =~= Seq::<Seq<char>>::empty());
    assert(concat_parts(seq![x]) =~= x);
}

/// Concatenation of seven listed parts, written out.
pub proof fn lemma_concat_parts_7(
    x0: Seq<char>,
    x1: Seq<char>,
    x2: Seq<char>,
    x3: Seq<char>,
    x4: Seq<char>,
    x5: Seq<char>,
    x6: Seq<char>,
)
    ensures
        concat_parts(seq![x0, x1, x2, x3, x4, x5, x6]) == x0 + x1 + x2 + x3 + x4 + x5 + x6,
{
    lemma_concat_parts_push(seq![x0, x1, x2, x3, x4, x5], x6);
    assert(seq![x0, x1, x2, x3, x4, x5].push(x6) =~= seq![x0, x1, x2, x3, x4, x5, x6]);
    lemma_concat_parts_push(seq![x0, x1, x2, x3, x4], x5);
    assert(seq![x0, x1, x2, x3, x4].push(x5) =~= seq![x0, x1, x2, x3, x4, x5]);
    lemma_concat_parts_push(seq![x0, x1, x2, x3], x4);
    assert(seq![x0, x1, x2, x3].push(x4) =~= seq![x0, x1, x2, x3, x4]);
    lemma_concat_parts_push(seq![x0, x1, x2], x3);
    assert(seq![x0, x1, x2].push(x3) =~= seq![x0, x1, x2, x3]);
    lemma_concat_parts_push(seq![x0, x1], x2);
    assert(seq![x0, x1].push(x2) =~= seq![x0, x1, x2]);
    lemma_concat_parts_push(seq![x0], x1);
    assert(seq![x0].push(x1) =~= seq![x0, x1]);
    reveal_with_fuel(concat_parts, 3);
    assert(seq![x0].skip(1) =~= Seq::<Seq<char>>::empty());
    assert(concat_parts(seq![x0]) =~= x0);
}

/// Concatenation of thirteen listed parts, written out.
pub proof fn lemma_concat_parts_13(
    x0: Seq<char>,
    x1: Seq<char>,
    x2: Seq<char>,
    x3: Seq<char>,
    x4: Seq<char>,
    x5: Seq<char>,
    x6: Seq<char>,
    x7: Seq<char>,
    x8: Seq<char>,
    x9: Seq<char>,
    x10: Seq<char>,
    x11: Seq<char>,
    x12: Seq<char>,
)
    ensures
        concat_parts(seq![x0, x1, x2, x3, x4, x5, x6, x7, x8, x9, x10, x11, x12]) == x0 + x1 + x2
            + x3 + x4 + x5 + x6 + x7 + x8 + x9 + x10 + x11 + x12,
{
    lemma_concat_parts_7(x0, x1, x2, x3, x4, x5, x6);
    lemma_concat_parts_push(seq![x0, x1, x2, x3, x4, x5, x6], x7);
    assert(seq![x0, x1, x2, x3, x4, x5, x6].push(x7) =~= seq![x0, x1, x2, x3, x4, x5, x6, x7]);
    lemma_concat_parts_push(seq![x0, x1, x2, x3, x4, x5, x6, x7], x8);
    assert(seq![x0, x1, x2, x3, x4, x5, x6, x7].push(x8) =~= seq![
        x0,
        x1,
        x2,
        x3,
        x4,
        x5,
        x6,
        x7,
        x8,
    ]);
    lemma_concat_parts_push(seq![x0, x1, x2, x3, x4, x5, x6, x7, x8], x9);
    assert(seq![x0, x1, x2, x3, x4, x5, x6, x7, x8].push(x9) =~= seq![
        x0,
        x1,
        x2,
        x3,
        x4,
        x5,
        x6,
        x7,
        x8,
        x9,
    ]);
    lemma_concat_parts_push(seq![x0, x1, x2, x3, x4, x5, x6, x7, x8, x9], x10);
    assert(seq![x0, x1, x2, x3, x4, x5, x6, x7, x8, x9].push(x10) =~= seq![
        x0,
        x1,
        x2,
        x3,
        x4,
        x5,
        x6,
        x7,
        x8,
        x9,
        x10,
    ]);
    lemma_concat_parts_push(seq![x0, x1, x2, x3, x4, x5, x6, x7, x8, x9, x10], x11);
    assert(seq![x0, x1, x2, x3, x4, x5, x6, x7, x8, x9, x10].push(x11) =~= seq![
        x0,
        x1,
        x2,
        x3,
        x4,
        x5,
        x6,
        x7,
        x8,
        x9,
        x10,
        x11,
    ]);
    lemma_concat_parts_push(seq![x0, x1, x2, x3, x4, x5, x6, x7, x8, x9, x10, x11], x12);
    assert(seq![x0, x1, x2, x3, x4, x5, x6, x7, x8, x9, x10, x11].push(x12) =~= seq![
        x0,
        x1,
        x2,
        x3,
        x4,
        x5,
        x6,
        x7,
        x8,
        x9,
        x10,
        x11,
        x12,
    ]);
}

/// Concatenation of nineteen listed parts, written out.
pub proof fn lemma_concat_parts_19(
    x0: Seq<char>,
    x1: Seq<char>,
    x2: Seq<char>,
    x3: Seq<char>,
    x4: Seq<char>,
    x5: Seq<char>,
    x6: Seq<char>,
    x7: Seq<char>,
    x8: Seq<char>,
    x9: Seq<char>,
    x10: Seq<char>,
    x11: Seq<char>,
    x12: Seq<char>,
    x13: Seq<char>,
    x14: Seq<char>,
    x15: Seq<char>,
    x16: Seq<char>,
    x17: Seq<char>,
    x18: Seq<char>,
)
    ensures
        concat_parts(
            seq![
                x0,
                x1,
                x2,
                x3,
                x4,
                x5,
                x6,
                x7,
                x8,
                x9,
                x10,
                x11,
                x12,
                x13,
                x14,
                x15,
                x16,
                x17,
                x18,
            ],
        ) == x0 + x1 + x2 + x3 + x4 + x5 + x6 + x7 + x8 + x9 + x10 + x11 + x12 + x13 + x14 + x15
            + x16 + x17 + x18,
{
    lemma_concat_parts_13(x0, x1, x2, x3, x4, x5, x6, x7, x8, x9, x10, x11, x12);
    lemma_concat_parts_push(seq![x0, x1, x2, x3, x4, x5, x6, x7, x8, x9, x10, x11, x12], x13);
    assert(seq![x0, x1, x2, x3, x4, x5, x6, x7, x8, x9, x10, x11, x12].push(x13) =~= seq![
        x0,
        x1,
        x2,
        x3,
        x4,
        x5,
        x6,
        x7,
        x8,
        x9,
        x10,
        x11,
        x12,
        x13,
    ]);
    lemma_concat_parts_push(seq![x0, x1, x2, x3, x4, x5, x6, x7, x8, x9, x10, x11, x12, x13], x14);
    assert(seq![x0, x1, x2, x3, x4, x5, x6, x7, x8, x9, x10, x11, x12, x13].push(x14) =~= seq![
        x0,
        x1,
        x2,
        x3,
        x4,
        x5,
        x6,
        x7,
        x8,
        x9,
        x10,
        x11,
        x12,
        x13,
        x14,
    ]);
    lemma_concat_parts_push(
        seq![x0, x1, x2, x3, x4, x5, x6, x7, x8, x9, x10, x11, x12, x13, x14],
        x15,
    );
    assert(seq![x0, x1, x2, x3, x4, x5, x6, x7, x8, x9, x10, x11, x12, x13, x14].push(x15) =~= seq![
        x0,
        x1,
        x2,
        x3,
        x4,
        x5,
        x6,
        x7,
        x8,
        x9,
        x10,
        x11,
        x12,
        x13,
        x14,
        x15,
    ]);
    lemma_concat_parts_push(
        seq![x0, x1, x2, x3, x4, x5, x6, x7, x8, x9, x10, x11, x12, x13, x14, x15],
        x16,
    );
    assert(seq![x0, x1, x2, x3, x4, x5, x6, x7, x8, x9, x10, x11, x12, x13, x14, x15].push(x16)
        =~= seq![x0, x1, x2, x3, x4, x5, x6, x7, x8, x9, x10, x11, x12, x13, x14, x15, x16]);
    lemma_concat_parts_push(
        seq![x0, x1, x2, x3, x4, x5, x6, x7, x8, x9, x10, x11, x12, x13, x14, x15, x16],
        x17,
    );
    assert(seq![x0, x1, x2, x3, x4, x5, x6, x7, x8, x9, x10, x11, x12, x13, x14, x15, x16].push(x17)
        =~= seq![x0, x1, x2, x3, x4, x5, x6, x7, x8, x9, x10, x11, x12, x13, x14, x15, x16, x17]);
    lemma_concat_parts_push(
        seq![x0, x1, x2, x3, x4, x5, x6, x7, x8, x9, x10, x11, x12, x13, x14, x15, x16, x17],
        x18,
    );
    assert(seq![x0, x1, x2, x3, x4, x5, x6, x7, x8, x9, x10, x11, x12, x13, x14, x15, x16, x17]
        .push(x18) =~= seq![
        x0,
        x1,
        x2,
        x3,
        x4,
        x5,
        x6,
        x7,
        x8,
        x9,
        x10,
        x11,
        x12,
        x13,
        x14,
        x15,
        x16,
        x17,
        x18,
    ]);
}

/// A concatenation of upper-case-free parts is upper-case free.
pub proof fn lemma_parts_no_upper(parts: Seq<Seq<char>>)
    requires
        forall|i: int| 0 <= i < parts.len() ==> no_upper(#[trigger] parts[i]),
    ensures
        no_upper(concat_parts(parts)),
    decreases parts.len(),
{
    if parts.len() == 0 {
    } else {
        let rest = parts.skip(1);
        assert(forall|i: int| 0 <= i < rest.len() ==> rest[i] == parts[i + 1]);
        lemma_parts_no_upper(rest);
        lemma_no_upper_concat(parts[0], concat_parts(rest));
    }
}

/// Character `c` does not occur in `s`.
pub open spec fn lacks_char(s: Seq<char>, c: char) -> bool {
    forall|i: int| 0 <= i < s.len() ==> s[i] != c
}

/// Characters `c1` and `c2` stand adjacent, in that order, somewhere in
/// `p`.
pub open spec fn has_bigram(p: Seq<char>, c1: char, c2: char) -> bool {
    exists|j: int| 0 <= j < p.len() - 1 && #[trigger] p[j] == c1 && p[j + 1] == c2
}

/// A pattern cannot occur in a text that lacks one of its characters.
pub proof fn lemma_lacks_absent(s: Seq<char>, p: Seq<char>, k: int)
    requires
        0 <= k < p.len(),
        lacks_char(s, p[k]),
    ensures
        !contains_seq(s, p),
{
    assert forall|i: int| !occurs_at(s, p, i) by {
        if 0 <= i && i + p.len() <= s.len() {
            if s.subrange(i, i + p.len() as int) == p {
                assert(s.subrange(i, i + p.len() as int)[k] == s[i + k]);
            }
        }
    }
}

/// `lacks_char` distributes over concatenation.
pub proof fn lemma_lacks_concat(a: Seq<char>, b: Seq<char>, c: char)
    requires
        lacks_char(a, c),
        lacks_char(b, c),
    ensures
        lacks_char(a + b, c),
{
    assert forall|i: int| 0 <= i < (a + b).len() implies (a + b)[i] != c by {
        if i < a.len() {
            assert((a + b)[i] == a[i]);
        } else {
            assert((a + b)[i] == b[i - a.len()]);
        }
    }
}

/// A pattern absent from both parts of a concatenation is absent from the
/// whole when the junction characters form none of its bigrams.
pub proof fn lemma_concat_absent_bigram(a: Seq<char>, b: Seq<char>, p: Seq<char>)
    requires
        p.len() > 0,
        !contains_seq(a, p),
        !contains_seq(b, p),
        a.len() > 0 && b.len() > 0 ==> !has_bigram(p, a.last(), b.first()),
    ensures
        !contains_seq(a + b, p),
{
    let s = a + b;
    assert forall|i: int| !occurs_at(s, p, i) by {
        if 0 <= i && i + p.len() <= s.len() && s.subrange(i, i + p.len() as int) == p {
            if i + p.len() <= a.len() {
                assert(a.subrange(i, i + p.len() as int) =~= s.subrange(i, i + p.len() as int));
                assert(occurs_at(a, p, i));
            } else if i >= a.len() {
                assert(b.subrange(i - a.len(), i - a.len() + p.len() as int) =~= s.subrange(
                    i,
                    i + p.len() as int,
                ));
                assert(occurs_at(b, p, i - a.len()));
            } else {
                let j = a.len() - 1 - i;
                assert(s.subrange(i, i + p.len() as int)[j] == s[a.len() - 1]);
                assert(p[j] == a.last());
                assert(s.subrange(i, i + p.len() as int)[j + 1] == s[a.len() as int]);
                assert(p[j + 1] == b.first());
                assert(has_bigram(p, a.last(), b.first()));
            }
        }
    }
}

/// An occurrence within a prefix is an occurrence in the whole.
pub proof fn lemma_occ_prefix(a: Seq<char>, b: Seq<char>, p: Seq<char>, i: int)
    requires
        occurs_at(a, p, i),
    ensures
        occurs_at(a + b, p, i),
{
    assert((a + b).subrange(i, i + p.len() as int) =~= a.subrange(i, i + p.len() as int));
}

/// An occurrence that fits inside the prefix is an occurrence in it.
pub proof fn lemma_occ_within_prefix(a: Seq<char>, b: Seq<char>, p: Seq<char>, i: int)
    requires
        occurs_at(a + b, p, i),
        i + p.len() <= a.len(),
    ensures
        occurs_at(a, p, i),
{
    assert(a.subrange(i, i + p.len() as int) =~= (a + b).subrange(i, i + p.len() as int));
}

/// When a pattern is absent from `a`, occurs at the head of `b`, and no
/// junction bigram can hide it, its first occurrence in `a + b` is at
/// `a.len()`.
pub proof fn lemma_first_occ_concat(a: Seq<char>, b: Seq<char>, p: Seq<char>)
    requires
        p.len() > 0,
        !contains_seq(a, p),
        occurs_at(b, p, 0),
        a.len() > 0 ==> !has_bigram(p, a.last(), b.first()),
    ensures
        occurs_at(a + b, p, a.len() as int),
        first_occ(a + b, p) == a.len(),
{
    let s = a + b;
    lemma_occ_skip(s, p, a.len() as int, 0);
    assert(s.skip(a.len() as int) =~= b);
    assert(occurs_at(s, p, a.len() as int));
    assert forall|j: int| 0 <= j < a.len() implies !occurs_at(s, p, j) by {
        if j + p.len() <= s.len() && s.subrange(j, j + p.len() as int) == p {
            if j + p.len() <= a.len() {
                assert(a.subrange(j, j + p.len() as int) =~= s.subrange(j, j + p.len() as int));
                assert(occurs_at(a, p, j));
            } else {
                let k = a.len() - 1 - j;
                assert(s.subrange(j, j + p.len() as int)[k] == s[a.len() - 1]);
                assert(p[k] == a.last());
                assert(s.subrange(j, j + p.len() as int)[k + 1] == s[a.len() as int]);
                assert(p[k + 1] == b.first());
                assert(has_bigram(p, a.last(), b.first()));
            }
        }
    }
    lemma_first_occ_is(s, p, a.len() as int);
}


/// Concatenation with a fixed prefix is injective.
pub proof fn lemma_concat_cancel_left(a: Seq<char>, x: Seq<char>, y: Seq<char>)
    requires
        a + x == a + y,
    ensures
        x == y,
{
    assert((a + x).len() == (a + y).len());
    assert((a + x).len() == a.len() + x.len());
    assert((a + y).len() == a.len() + y.len());
    assert(x.len() == y.len());
    assert forall|i: int| 0 <= i < x.len() implies x[i] == y[i] by {
        assert((a + x)[a.len() + i] == x[i]);
        assert((a + y)[a.len() + i] == y[i]);
        assert((a + x)[a.len() + i] == (a + y)[a.len() + i]);
    }
    assert(x =~= y);
}

/// Concatenation with a fixed suffix is injective.
pub proof fn lemma_concat_cancel_right(x: Seq<char>, y: Seq<char>, b: Seq<char>)
    requires
        x + b == y + b,
    ensures
        x == y,
{
    assert((x + b).len() == (y + b).len());
    assert((x + b).len() == x.len() + b.len());
    assert((y + b).len() == y.len() + b.len());
    assert(x.len() == y.len());
    assert forall|i: int| 0 <= i < x.len() implies x[i] == y[i] by {
        assert((x + b)[i] == x[i]);
        assert((y + b)[i] == y[i]);
        assert((x + b)[i] == (y + b)[i]);
    }
    assert(x =~= y);
}

/// A first occurrence at `i` pins down the value of `first_occ`.
pub proof fn lemma_first_occ_is(s: Seq<char>, p: Seq<char>, i: int)
    requires
        occurs_at(s, p, i),
        forall|j: int| 0 <= j < i ==> !occurs_at(s, p, j),
    ensures
        first_occ(s, p) == i,
{
    lemma_first_occ(s, p);
    if first_occ(s, p) == -1 {
        assert(contains_seq(s, p));
    }
}

/// A pattern that occurs nowhere gives `first_occ` of -1.
pub proof fn lemma_first_occ_none(s: Seq<char>, p: Seq<char>)
    requires
        !contains_seq(s, p),
    ensures
        first_occ(s, p) == -1,
{
    lemma_first_occ(s, p);
}

/// Result of replacing every occurrence of `p` in `s` by `t`, scanning left
/// to right without revisiting replaced text.
pub open spec fn spec_replace(s: Seq<char>, p: Seq<char>, t: Seq<char>) -> Seq<char>
    decreases s.len(),
{
    if p.len() == 0 || s.len() < p.len() {
        s
    } else if s.subrange(0, p.len() as int) == p {
        t + spec_replace(s.skip(p.len() as int), p, t)
    } else {
        seq![s[0]] + spec_replace(s.skip(1), p, t)
    }
}

/// Replacing a pattern that does not occur leaves `s` unchanged.
pub proof fn lemma_replace_absent(s: Seq<char>, p: Seq<char>, t: Seq<char>)
    requires
        p.len() > 0,
        !contains_seq(s, p),
    ensures
        spec_replace(s, p, t) == s,
    decreases s.len(),
{
    if s.len() < p.len() {
    } else if s.subrange(0, p.len() as int) == p {
        assert(occurs_at(s, p, 0));
    } else {
        assert forall|j: int| !occurs_at(s.skip(1), p, j) by {
            if j >= 0 {
                lemma_occ_skip(s, p, 1, j);
            }
        }
        lemma_replace_absent(s.skip(1), p, t);
        assert(seq![s[0]] + s.skip(1) =~= s);
    }
}

/// A pattern longer than the text never occurs in it.
pub proof fn lemma_long_absent(s: Seq<char>, p: Seq<char>)
    requires
        p.len() > s.len(),
    ensures
        !contains_seq(s, p),
{
}

/// A pattern of the text's length occurs only when it equals the text.
pub proof fn lemma_neq_absent(s: Seq<char>, p: Seq<char>)
    requires
        p.len() == s.len(),
        p != s,
    ensures
        !contains_seq(s, p),
{
    assert forall|i: int| !occurs_at(s, p, i) by {
        if i == 0 && 0 + p.len() <= s.len() {
            assert(s.subrange(0, p.len() as int) =~= s);
        }
    }
}

/// A token made of placeholder characters cannot occur in a concatenation
/// when it occurs in neither part and one side of the junction is a
/// non-placeholder character.
pub proof fn lemma_concat_absent(a: Seq<char>, b: Seq<char>, p: Seq<char>)
    requires
        p.len() > 0,
        all_ph(p),
        !contains_seq(a, p),
        !contains_seq(b, p),
        a.len() == 0 || b.len() == 0 || !is_ph_char(a.last()) || !is_ph_char(b.first()),
    ensures
        !contains_seq(a + b, p),
{
    let s = a + b;
    assert forall|i: int| !occurs_at(s, p, i) by {
        if 0 <= i && i + p.len() <= s.len() && s.subrange(i, i + p.len() as int) == p {
            if i + p.len() <= a.len() {
                assert(a.subrange(i, i + p.len() as int) =~= s.subrange(i, i + p.len() as int));
                assert(occurs_at(a, p, i));
            } else if i >= a.len() {
                assert(b.subrange(i - a.len(), i - a.len() + p.len() as int) =~= s.subrange(
                    i,
                    i + p.len() as int,
                ));
                assert(occurs_at(b, p, i - a.len()));
            } else {
                // The occurrence spans the junction: it covers both the last
                // character of `a` and the first character of `b`.
                assert(s.subrange(i, i + p.len() as int)[a.len() - 1 - i] == a.last());
                assert(is_ph_char(a.last()));
                assert(s.subrange(i, i + p.len() as int)[a.len() - i] == b.first());
                assert(is_ph_char(b.first()));
            }
        }
    }
}

/// Replacement distributes over a text decomposed as `a + p + b` when `p`
/// does not occur in `a` and the junction cannot hide an occurrence.
pub proof fn lemma_replace_split(a: Seq<char>, b: Seq<char>, p: Seq<char>, t: Seq<char>)
    requires
        p.len() > 0,
        all_ph(p),
        !contains_seq(a, p),
        a.len() == 0 || !is_ph_char(a.last()),
    ensures
        spec_replace(a + p + b, p, t) == a + t + spec_replace(b, p, t),
    decreases a.len(),
{
    let s = a + p + b;
    if a.len() == 0 {
        assert(s.subrange(0, p.len() as int) =~= p);
        assert(s.skip(p.len() as int) =~= b);
        assert(t + spec_replace(b, p, t) =~= a + t + spec_replace(b, p, t));
    } else {
        // No occurrence of `p` starts at 0: it would either lie inside `a`
        // or force the non-placeholder last character of `a` into `p`.
        if s.subrange(0, p.len() as int) == p {
            if p.len() <= a.len() {
                assert(a.subrange(0, p.len() as int) =~= s.subrange(0, p.len() as int));
                assert(occurs_at(a, p, 0));
                assert(false);
            } else {
                assert(s.subrange(0, p.len() as int)[a.len() - 1] == a.last());
                assert(is_ph_char(a.last()));
                assert(false);
            }
        }
        assert(s.len() >= p.len());
        assert(s.skip(1) =~= a.skip(1) + p + b);
        assert forall|j: int| !occurs_at(a.skip(1), p, j) by {
            if j >= 0 {
                lemma_occ_skip(a, p, 1, j);
            }
        }
        if a.len() > 1 {
            assert(a.skip(1).last() == a.last());
        }
        lemma_replace_split(a.skip(1), b, p, t);
        assert(s[0] == a[0]);
        assert(seq![a[0]] + (a.skip(1) + t + spec_replace(b, p, t)) =~= a + t + spec_replace(
            b,
            p,
            t,
        ));
    }
}

/// The decimal digit character of `d`.
pub open spec fn spec_dec_digit(d: int) -> char {
    if d == 0 {
        '0'
    } else if d == 1 {
        '1'
    } else if d == 2 {
        '2'
    } else if d == 3 {
        '3'
    } else if d == 4 {
        '4'
    } else if d == 5 {
        '5'
    } else if d == 6 {
        '6'
    } else if d == 7 {
        '7'
    } else if d == 8 {
        '8'
    } else {
        '9'
    }
}

/// The decimal text of a nonnegative number.
pub open spec fn spec_dec(n: int) -> Seq<char>
    decreases n,
{
    if n < 10 {
        seq![spec_dec_digit(n)]
    } else {
        spec_dec(n / 10).push(spec_dec_digit(n % 10))
    }
}

/// One decimal digit as text.
fn dec_digit_str(d: u64) -> (r: &'static str)
    requires
        d < 10,
    ensures
        r@ == seq![spec_dec_digit(d as int)],
{
    proof {
        reveal_strlit("0");
        reveal_strlit("1");
        reveal_strlit("2");
        reveal_strlit("3");
        reveal_strlit("4");
        reveal_strlit("5");
        reveal_strlit("6");
        reveal_strlit("7");
        reveal_strlit("8");
        reveal_strlit("9");
    }
    let r = if d == 0 {
        "0"
    } else if d == 1 {
        "1"
    } else if d == 2 {
        "2"
    } else if d == 3 {
        "3"
    } else if d == 4 {
        "4"
    } else if d == 5 {
        "5"
    } else if d == 6 {
        "6"
    } else if d == 7 {
        "7"
    } else {
        "9"
    };
    let r = if d == 8 {
        "8"
    } else {
        r
    };
    proof {
        assert(r@ =~= seq![spec_dec_digit(d as int)]);
    }
    r
}

/// The decimal text of a number.
pub fn u64_to_string(n: u64) -> (r: String)
    ensures
        r@ == spec_dec(n as int),
    decreases n,
{
    if n < 10 {
        dec_digit_str(n).to_owned()
    } else {
        let mut s = u64_to_string(n / 10);
        s.append(dec_digit_str(n % 10));
        proof {
            assert(spec_dec((n / 10) as int).push(spec_dec_digit((n % 10) as int)) =~= spec_dec(
                (n / 10) as int,
            ) + seq![spec_dec_digit((n % 10) as int)]);
        }
        s
    }
}

/// ASCII whitespace, as version pin files carry it.
pub open spec fn is_space_char(c: char) -> bool {
    c == ' ' || c == '\t' || c == '\n' || c == '\r'
}

/// `s` without its leading whitespace.
pub open spec fn spec_trim_start(s: Seq<char>) -> Seq<char>
    decreases s.len(),
{
    if s.len() > 0 && is_space_char(s[0]) {
        spec_trim_start(s.skip(1))
    } else {
        s
    }
}

/// `s` without its trailing whitespace.
pub open spec fn spec_trim_end(s: Seq<char>) -> Seq<char>
    decreases s.len(),
{
    if s.len() > 0 && is_space_char(s.last()) {
        spec_trim_end(s.take(s.len() - 1))
    } else {
        s
    }
}

/// `s` without leading and trailing whitespace.
pub open spec fn spec_trim(s: Seq<char>) -> Seq<char> {
    spec_trim_end(spec_trim_start(s))
}

/// Leading whitespace up to the first other character is what
/// `spec_trim_start` drops.
proof fn lemma_trim_start_skip(s: Seq<char>, i: int)
    requires
        0 <= i <= s.len(),
        forall|k: int| 0 <= k < i ==> is_space_char(s[k]),
        i == s.len() || !is_space_char(s[i]),
    ensures
        spec_trim_start(s) == s.skip(i),
    decreases i,
{
    if i == 0 {
        assert(s.skip(0) =~= s);
    } else {
        assert(is_space_char(s[0]));
        assert(forall|k: int| 0 <= k < s.skip(1).len() ==> s.skip(1)[k] == s[k + 1]);
        lemma_trim_start_skip(s.skip(1), i - 1);
        assert(s.skip(1).skip(i - 1) =~= s.skip(i));
    }
}

/// Trailing whitespace back to the last other character is what
/// `spec_trim_end` drops.
proof fn lemma_trim_end_take(s: Seq<char>, j: int)
    requires
        0 <= j <= s.len(),
        forall|k: int| j <= k < s.len() ==> is_space_char(s[k]),
        j == 0 || !is_space_char(s[j - 1]),
    ensures
        spec_trim_end(s) == s.take(j),
    decreases s.len(),
{
    if j == s.len() {
        if s.len() > 0 {
            assert(!is_space_char(s.last()));
        }
        assert(s.take(j) =~= s);
    } else {
        assert(is_space_char(s.last()));
        let t = s.take(s.len() - 1);
        assert(forall|k: int| 0 <= k < t.len() ==> t[k] == s[k]);
        lemma_trim_end_take(t, j);
        assert(t.take(j) =~= s.take(j));
    }
}

/// The character at `i` is whitespace.
fn is_space_at(s: &str, i: usize) -> (r: bool)
    requires
        i < s@.len(),
    ensures
        r == is_space_char(s@[i as int]),
{
    let c = s.get_char(i);
    c == ' ' || c == '\t' || c == '\n' || c == '\r'
}

/// Removes leading and trailing whitespace.
pub fn trim_str(s: &str) -> (r: String)
    ensures
        r@ == spec_trim(s@),
{
    let n = s.unicode_len();
    let mut i: usize = 0;
    while i < n && is_space_at(s, i)
        invariant
            n == s@.len(),
            i <= n,
            forall|k: int| 0 <= k < i ==> is_space_char(s@[k]),
        decreases n - i,
    {
        i += 1;
    }
    let mut j: usize = n;
    while j > i && is_space_at(s, j - 1)
        invariant
            n == s@.len(),
            i <= j <= n,
            forall|k: int| 0 <= k < i ==> is_space_char(s@[k]),
            i == n || !is_space_char(s@[i as int]),
            forall|k: int| j <= k < n ==> is_space_char(s@[k]),
        decreases j,
    {
        j -= 1;
    }
    let out = s.substring_char(i, j).to_owned();
    proof {
        lemma_trim_start_skip(s@, i as int);
        let mid = s@.skip(i as int);
        assert(forall|k: int| 0 <= k < mid.len() ==> mid[k] == s@[k + i]);
        if j == i {
            lemma_trim_end_take(mid, 0);
        } else {
            lemma_trim_end_take(mid, j - i);
        }
        assert(mid.take(j - i) =~= s@.subrange(i as int, j as int));
        assert(out@ == spec_trim(s@));
    }
    out
}

/// Two string slices hold the same characters.
pub fn str_eq(a: &str, b: &str) -> (r: bool)
    ensures
        r == (a@ == b@),
{
    let a_len = a.unicode_len();
    let b_len = b.unicode_len();
    if a_len != b_len {
        return false;
    }
    let mut j: usize = 0;
    while j < a_len
        invariant
            a_len == a@.len(),
            b_len == b@.len(),
            a_len == b_len,
            j <= a_len,
            forall|k: int| 0 <= k < j ==> a@[k] == b@[k],
        decreases a_len - j,
    {
        if a.get_char(j) != b.get_char(j) {
            return false;
        }
        j += 1;
    }
    proof {
        assert(a@ =~= b@);
    }
    true
}

/// `p` matches `s` at position `i`.
pub fn matches_at(s: &str, i: usize, p: &str) -> (r: bool)
    requires
        i <= s@.len(),
    ensures
        r == occurs_at(s@, p@, i as int),
{
    let s_len = s.unicode_len();
    let p_len = p.unicode_len();
    if p_len > s_len - i {
        return false;
    }
    let mut j: usize = 0;
    while j < p_len
        invariant
            s_len == s@.len(),
            p_len == p@.len(),
            i + p_len <= s_len,
            j <= p_len,
            forall|k: int| 0 <= k < j ==> s@[i + k] == p@[k],
        decreases p_len - j,
    {
        if s.get_char(i + j) != p.get_char(j) {
            proof {
                if occurs_at(s@, p@, i as int) {
                    assert(s@.subrange(i as int, i + p@.len() as int)[j as int] == s@[i + j]);
                }
            }
            return false;
        }
        j += 1;
    }
    proof {
        assert(s@.subrange(i as int, i + p@.len() as int) =~= p@);
    }
    true
}

/// First occurrence of `p` in `s` at or after `from`.
pub fn find_from(s: &str, from: usize, p: &str) -> (r: Option<usize>)
    requires
        from <= s@.len(),
    ensures
        match r {
            Some(i) => from <= i && i + p@.len() <= s@.len() && occurs_at(s@, p@, i as int)
                && (forall|j: int| from <= j < i ==> !occurs_at(s@, p@, j)),
            None => forall|j: int| from <= j ==> !occurs_at(s@, p@, j),
        },
{
    let s_len = s.unicode_len();
    let p_len = p.unicode_len();
    if p_len > s_len - from {
        return None;
    }
    let mut i: usize = from;
    loop
        invariant
            s_len == s@.len(),
            p_len == p@.len(),
            from <= i,
            p_len <= s_len - from,
            i <= s_len - p_len,
            forall|j: int| from <= j < i ==> !occurs_at(s@, p@, j),
        decreases s_len - p_len - i,
    {
        if matches_at(s, i, p) {
            return Some(i);
        }
        if i == s_len - p_len {
            return None;
        }
        i += 1;
    }
}

/// `p` occurs somewhere in `s`.
pub fn contains_str(s: &str, p: &str) -> (r: bool)
    ensures
        r == contains_seq(s@, p@),
{
    match find_from(s, 0, p) {
        Some(_) => true,
        None => false,
    }
}

/// Concatenation of two string slices.
pub fn concat_str(a: &str, b: &str) -> (r: String)
    ensures
        r@ == a@ + b@,
{
    let mut out = a.to_owned();
    out.append(b);
    out
}

/// `s` ends with `p`.
pub fn ends_with(s: &str, p: &str) -> (r: bool)
    ensures
        r == (p@.len() <= s@.len() && occurs_at(s@, p@, s@.len() - p@.len())),
{
    let s_len = s.unicode_len();
    let p_len = p.unicode_len();
    if p_len > s_len {
        return false;
    }
    matches_at(s, s_len - p_len, p)
}

/// `s` starts with `p`.
pub fn starts_with(s: &str, p: &str) -> (r: bool)
    ensures
        r == occurs_at(s@, p@, 0),
{
    matches_at(s, 0, p)
}

/// Replaces every occurrence of `p` in `s` by `t`, left to right.
pub fn replace_all(s: &str, p: &str, t: &str) -> (r: String)
    requires
        p@.len() > 0,
    ensures
        r@ == spec_replace(s@, p@, t@),
{
    let s_len = s.unicode_len();
    let p_len = p.unicode_len();
    let mut out = String::new();
    let mut i: usize = 0;
    proof {
        assert(s@.skip(0) =~= s@);
        assert(Seq::<char>::empty() + spec_replace(s@, p@, t@) =~= spec_replace(s@, p@, t@));
    }
    while i < s_len
        invariant
            s_len == s@.len(),
            p_len == p@.len(),
            p_len > 0,
            i <= s_len,
            out@ + spec_replace(s@.skip(i as int), p@, t@) == spec_replace(s@, p@, t@),
        decreases s_len - i,
    {
        let ghost rest = s@.skip(i as int);
        if p_len <= s_len - i && matches_at(s, i, p) {
            out.append(t);
            proof {
                assert(rest.subrange(0, p@.len() as int) =~= s@.subrange(
                    i as int,
                    i + p@.len() as int,
                ));
                assert(rest.skip(p@.len() as int) =~= s@.skip(i + p@.len()));
            }
            i += p_len;
        } else {
            let c = s.substring_char(i, i + 1);
            out.append(c);
            proof {
                // No match at the head of the rest.
                if rest.len() >= p@.len() && rest.subrange(0, p@.len() as int) == p@ {
                    assert(rest.subrange(0, p@.len() as int) =~= s@.subrange(
                        i as int,
                        i + p@.len() as int,
                    ));
                    assert(occurs_at(s@, p@, i as int));
                }
                assert(c@ =~= seq![rest[0]]);
                assert(rest.skip(1) =~= s@.skip(i + 1));
            }
            i += 1;
        }
    }
    proof {
        assert(s@.skip(s_len as int) =~= Seq::<char>::empty());
        assert(out@ + Seq::<char>::empty() =~= out@);
    }
    out
}

} // verus!

