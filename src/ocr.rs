//! OCR confusion repair: a table of characters that OCR engines commonly
//! mistake for one another, and a bounded breadth-first enumeration of the
//! strings reachable from an input by such substitutions.

use vstd::prelude::*;

verus! {

/// The OCR alternative of a character: `O`/`0`, `I`/`1`, `S`/`5` and `B`/`8`
/// are confused with each other; no other character has an alternative.
pub open spec fn char_alternative(c: char) -> Option<char> {
    if c == 'O' {
        Some('0')
    } else if c == '0' {
        Some('O')
    } else if c == 'I' {
        Some('1')
    } else if c == '1' {
        Some('I')
    } else if c == 'S' {
        Some('5')
    } else if c == '5' {
        Some('S')
    } else if c == 'B' {
        Some('8')
    } else if c == '8' {
        Some('B')
    } else {
        None
    }
}

/// The substitutes of `c`, as a sequence of at most one character.
pub open spec fn substitutions_of(c: char) -> Seq<char> {
    match char_alternative(c) {
        Some(d) => seq![d],
        None => Seq::empty(),
    }
}

/// The substitution table is symmetric: whatever substitutes for `c` has `c`
/// as its one substitute; characters other than `O 0 I 1 S 5 B 8` have no
/// substitute.
pub proof fn substitution_table_symmetric(c: char)
    ensures
        forall|d: char| #[trigger] substitutions_of(c).contains(d) ==> substitutions_of(d) == seq![c],
        !(c == 'O' || c == '0' || c == 'I' || c == '1' || c == 'S' || c == '5' || c == 'B' || c
            == '8') ==> substitutions_of(c).len() == 0,
{
    assert forall|d: char| #[trigger] substitutions_of(c).contains(d) implies substitutions_of(d)
        == seq![c] by {
        let x = choose|i: int| 0 <= i < substitutions_of(c).len() && substitutions_of(c)[i] == d;
        assert(substitutions_of(c) == seq![char_alternative(c)->0]);
        assert(d == char_alternative(c)->0);
    }
}

/// The same table over ASCII bytes.
pub open spec fn byte_alternative(b: u8) -> Option<u8> {
    if b == 0x4f {
        Some(0x30u8)
    } else if b == 0x30 {
        Some(0x4fu8)
    } else if b == 0x49 {
        Some(0x31u8)
    } else if b == 0x31 {
        Some(0x49u8)
    } else if b == 0x53 {
        Some(0x35u8)
    } else if b == 0x35 {
        Some(0x53u8)
    } else if b == 0x42 {
        Some(0x38u8)
    } else if b == 0x38 {
        Some(0x42u8)
    } else {
        None
    }
}

/// `t` arises from `s` by substituting some of its characters by their OCR
/// alternatives.
pub open spec fn is_variant(s: Seq<u8>, t: Seq<u8>) -> bool {
    &&& t.len() == s.len()
    &&& forall|i: int|
        0 <= i < s.len() ==> (#[trigger] t[i] == s[i] || byte_alternative(s[i]) == Some(t[i]))
}

/// The number of positions at which `s` and `t` differ: for a variant, the
/// number of substitutions that lead from `s` to `t`.
pub open spec fn substitution_count(s: Seq<u8>, t: Seq<u8>) -> nat
    decreases s.len(),
{
    if s.len() == 0 || t.len() == 0 {
        0
    } else {
        substitution_count(s.drop_last(), t.drop_last()) + if s.last() == t.last() {
            0nat
        } else {
            1nat
        }
    }
}

/// `t` occurs in `list`.
pub open spec fn listed(list: Seq<Vec<u8>>, t: Seq<u8>) -> bool {
    exists|j: int| 0 <= j < list.len() && #[trigger] list[j]@ == t
}

/// No string occurs twice in `list`.
pub open spec fn all_distinct(list: Seq<Vec<u8>>) -> bool {
    forall|a: int, b: int| 0 <= a < b < list.len() ==> list[a]@ != list[b]@
}

/// Every variant of `s` with at most `d` substitutions occurs in `list`.
pub open spec fn complete_upto(s: Seq<u8>, list: Seq<Vec<u8>>, d: int) -> bool {
    forall|t: Seq<u8>|
        is_variant(s, t) && #[trigger] substitution_count(s, t) <= d ==> listed(list, t)
}

/// Substituting position `i` of `p` by its alternative.
pub open spec fn substitute_at(p: Seq<u8>, i: int) -> Seq<u8> {
    p.update(i, byte_alternative(p[i])->0)
}

/// Every single substitution of `p` at a position below `upto` occurs in `list`.
pub open spec fn expanded(list: Seq<Vec<u8>>, p: Seq<u8>, upto: int) -> bool {
    forall|i: int|
        0 <= i < upto && byte_alternative(p[i]) is Some ==> listed(list, #[trigger] substitute_at(p, i))
}

proof fn lemma_alternative_involutive(b: u8)
    ensures
        byte_alternative(b) is Some ==> byte_alternative(b)->0 != b && byte_alternative(
            byte_alternative(b)->0,
        ) == Some(b),
{
}

proof fn lemma_count_update(s: Seq<u8>, t: Seq<u8>, i: int, x: u8)
    requires
        s.len() == t.len(),
        0 <= i < s.len(),
    ensures
        substitution_count(s, t.update(i, x)) + (if s[i] == t[i] { 0int } else { 1int })
            == substitution_count(s, t) + (if s[i] == x { 0int } else { 1int }),
    decreases s.len(),
{
    let u = t.update(i, x);
    if i == s.len() - 1 {
        assert(u.drop_last() =~= t.drop_last());
    } else {
        assert(u.drop_last() =~= t.drop_last().update(i, x));
        lemma_count_update(s.drop_last(), t.drop_last(), i, x);
    }
}

proof fn lemma_count_self(s: Seq<u8>)
    ensures
        substitution_count(s, s) == 0,
    decreases s.len(),
{
    if s.len() > 0 {
        lemma_count_self(s.drop_last());
    }
}

proof fn lemma_count_zero(s: Seq<u8>, t: Seq<u8>)
    requires
        s.len() == t.len(),
        substitution_count(s, t) == 0,
    ensures
        s == t,
    decreases s.len(),
{
    if s.len() > 0 {
        lemma_count_zero(s.drop_last(), t.drop_last());
        assert(s =~= s.drop_last().push(s.last()));
        assert(t =~= t.drop_last().push(t.last()));
    } else {
        assert(s =~= t);
    }
}

proof fn lemma_count_positive(s: Seq<u8>, t: Seq<u8>) -> (i: int)
    requires
        s.len() == t.len(),
        substitution_count(s, t) > 0,
    ensures
        0 <= i < s.len(),
        s[i] != t[i],
    decreases s.len(),
{
    if s.last() != t.last() {
        s.len() - 1
    } else {
        let j = lemma_count_positive(s.drop_last(), t.drop_last());
        j
    }
}

/// Substituting one position of a variant gives a variant with one
/// substitution more or less.
proof fn lemma_neighbor(s: Seq<u8>, t: Seq<u8>, i: int)
    requires
        is_variant(s, t),
        0 <= i < t.len(),
        byte_alternative(t[i]) is Some,
    ensures
        is_variant(s, substitute_at(t, i)),
        substitution_count(s, substitute_at(t, i)) as int == if t[i] == s[i] {
            substitution_count(s, t) + 1int
        } else {
            substitution_count(s, t) - 1int
        },
{
    let u = substitute_at(t, i);
    lemma_alternative_involutive(s[i]);
    lemma_alternative_involutive(t[i]);
    assert forall|j: int| 0 <= j < s.len() implies (#[trigger] u[j] == s[j] || byte_alternative(
        s[j],
    ) == Some(u[j])) by {
        if j != i {
            assert(u[j] == t[j]);
        }
    }
    lemma_count_update(s, t, i, byte_alternative(t[i])->0);
}

/// A variant with at least one substitution is a single substitution away
/// from a variant with one substitution less.
proof fn lemma_predecessor(s: Seq<u8>, t: Seq<u8>) -> (r: (Seq<u8>, int))
    requires
        is_variant(s, t),
        substitution_count(s, t) > 0,
    ensures
        is_variant(s, r.0),
        substitution_count(s, r.0) + 1 == substitution_count(s, t),
        0 <= r.1 < r.0.len(),
        byte_alternative(r.0[r.1]) is Some,
        substitute_at(r.0, r.1) == t,
{
    let i = lemma_count_positive(s, t);
    let p = t.update(i, s[i]);
    assert forall|j: int| 0 <= j < s.len() implies (#[trigger] p[j] == s[j] || byte_alternative(
        s[j],
    ) == Some(p[j])) by {
        if j != i {
            assert(p[j] == t[j]);
        }
    }
    lemma_count_update(s, t, i, s[i]);
    lemma_alternative_involutive(s[i]);
    assert(substitute_at(p, i) =~= t);
    (p, i)
}

/// Whenever a variant with `e` substitutions exists, so does one with any
/// smaller number of substitutions.
proof fn lemma_variant_at_level(s: Seq<u8>, t: Seq<u8>, d: nat) -> (u: Seq<u8>)
    requires
        is_variant(s, t),
        d <= substitution_count(s, t),
    ensures
        is_variant(s, u),
        substitution_count(s, u) == d,
    decreases substitution_count(s, t),
{
    if substitution_count(s, t) == d {
        t
    } else {
        let (p, _) = lemma_predecessor(s, t);
        lemma_variant_at_level(s, p, d)
    }
}

proof fn lemma_listed_grow(a: Seq<Vec<u8>>, b: Seq<Vec<u8>>, t: Seq<u8>)
    requires
        a.len() <= b.len(),
        forall|j: int| 0 <= j < a.len() ==> #[trigger] b[j] == a[j],
        listed(a, t),
    ensures
        listed(b, t),
{
    let j = choose|j: int| 0 <= j < a.len() && #[trigger] a[j]@ == t;
    assert(b[j]@ == t);
}

/// `r` lists the OCR variants of `input` breadth first, within `max_depth`
/// substitutions and at most `cap` of them: it starts with `input`, holds
/// distinct variants whose substitution counts never decrease along the list,
/// and any variant within `max_depth` that is missing was cut off by the cap,
/// after every string with fewer substitutions than the last one listed.
pub open spec fn is_bfs_enumeration(input: Seq<u8>, max_depth: int, cap: int, r: Seq<Vec<u8>>) -> bool {
    &&& 1 <= r.len() <= cap
    &&& r[0]@ == input
    &&& all_distinct(r)
    &&& forall|j: int|
        0 <= j < r.len() ==> is_variant(input, #[trigger] r[j]@) && substitution_count(input, r[j]@)
            <= max_depth
    &&& forall|a: int, b: int|
        0 <= a <= b < r.len() ==> substitution_count(input, #[trigger] r[a]@) <= substitution_count(
            input,
            #[trigger] r[b]@,
        )
    &&& forall|t: Seq<u8>|
        is_variant(input, t) && substitution_count(input, t) <= max_depth && !listed(r, t) ==> r.len()
            == cap && substitution_count(input, t) >= substitution_count(input, r.last()@)
}

/// The byte strings held by `list`.
pub open spec fn views(list: Seq<Vec<u8>>) -> Seq<Seq<u8>> {
    list.map_values(|v: Vec<u8>| v@)
}

/// One step of the enumeration: the single substitutions of `p` at
/// positions `i` onwards, in position order, appended to `found` unless
/// already there, while `found` holds fewer than `cap` strings.
pub open spec fn expand_from(found: Seq<Seq<u8>>, p: Seq<u8>, i: int, cap: int) -> Seq<Seq<u8>>
    decreases p.len() - i,
{
    if i < 0 || i >= p.len() {
        found
    } else {
        let next = if byte_alternative(p[i]) is Some && !found.contains(substitute_at(p, i))
            && found.len() < cap {
            found.push(substitute_at(p, i))
        } else {
            found
        };
        expand_from(next, p, i + 1, cap)
    }
}

/// Expands the strings of `found` at indices `k` to `end`, in order.
pub open spec fn expand_level(found: Seq<Seq<u8>>, k: int, end: int, cap: int) -> Seq<Seq<u8>>
    decreases end - k,
{
    if k < 0 || k >= end || k >= found.len() {
        found
    } else {
        expand_level(expand_from(found, found[k], 0, cap), k + 1, end, cap)
    }
}

/// Expands level after level, starting with the level at `start`, until
/// `max_depth` levels are done, a level comes out empty or `cap` strings are
/// held.
pub open spec fn bfs_from(
    found: Seq<Seq<u8>>,
    start: int,
    depth: int,
    max_depth: int,
    cap: int,
) -> Seq<Seq<u8>>
    decreases max_depth - depth,
{
    if depth >= max_depth || start >= found.len() || found.len() >= cap {
        found
    } else {
        bfs_from(
            expand_level(found, start, found.len() as int, cap),
            found.len() as int,
            depth + 1,
            max_depth,
            cap,
        )
    }
}

/// The exact breadth-first enumeration of the variants of `input`: levels
/// in order of substitution count, each level's strings expanded in order,
/// positions of a string in increasing order.
pub open spec fn bfs_order(input: Seq<u8>, max_depth: int, cap: int) -> Seq<Seq<u8>> {
    bfs_from(seq![input], 0, 0, max_depth, cap)
}

proof fn lemma_listed_views(list: Seq<Vec<u8>>, t: Seq<u8>)
    ensures
        listed(list, t) <==> views(list).contains(t),
{
    if listed(list, t) {
        let j = choose|j: int| 0 <= j < list.len() && #[trigger] list[j]@ == t;
        assert(views(list)[j] == t);
    }
    if views(list).contains(t) {
        let j = choose|j: int| 0 <= j < views(list).len() && views(list)[j] == t;
        assert(list[j]@ == t);
    }
}

/// Returns the plausible OCR substitutes of `c`. The table is symmetric:
/// `O`/`0`, `I`/`1`, `S`/`5`, `B`/`8`; every other character has none.
pub fn ocr_substitutions(c: char) -> (r: Vec<char>)
    ensures
        r@ == substitutions_of(c),
{
    let mut substitutes: Vec<char> = Vec::new();
    if c == 'O' {
        substitutes.push('0');
    } else if c == '0' {
        substitutes.push('O');
    } else if c == 'I' {
        substitutes.push('1');
    } else if c == '1' {
        substitutes.push('I');
    } else if c == 'S' {
        substitutes.push('5');
    } else if c == '5' {
        substitutes.push('S');
    } else if c == 'B' {
        substitutes.push('8');
    } else if c == '8' {
        substitutes.push('B');
    }
    assert(substitutes@ =~= substitutions_of(c));
    substitutes
}

fn alternative_byte(b: u8) -> (r: Option<u8>)
    ensures
        r == byte_alternative(b),
{
    if b == 0x4f {
        Some(0x30)
    } else if b == 0x30 {
        Some(0x4f)
    } else if b == 0x49 {
        Some(0x31)
    } else if b == 0x31 {
        Some(0x49)
    } else if b == 0x53 {
        Some(0x35)
    } else if b == 0x35 {
        Some(0x53)
    } else if b == 0x42 {
        Some(0x38)
    } else if b == 0x38 {
        Some(0x42)
    } else {
        None
    }
}

/// An owned copy of `src`.
pub fn copy_bytes(src: &[u8]) -> (r: Vec<u8>)
    ensures
        r@ == src@,
{
    let mut out: Vec<u8> = Vec::new();
    let mut i: usize = 0;
    while i < src.len()
        invariant
            i <= src@.len(),
            out@ == src@.subrange(0, i as int),
        decreases src@.len() - i,
    {
        out.push(src[i]);
        i = i + 1;
        assert(out@ =~= src@.subrange(0, i as int));
    }
    out
}

/// Byte-wise equality of two byte strings.
fn same_bytes(a: &[u8], b: &[u8]) -> (r: bool)
    ensures
        r == (a@ == b@),
{
    if a.len() != b.len() {
        return false;
    }
    let mut i: usize = 0;
    while i < a.len()
        invariant
            a@.len() == b@.len(),
            i <= a@.len(),
            a@.subrange(0, i as int) == b@.subrange(0, i as int),
        decreases a@.len() - i,
    {
        if a[i] != b[i] {
            return false;
        }
        i = i + 1;
        assert(a@.subrange(0, i as int) =~= a@.subrange(0, i as int - 1).push(a@[i - 1]));
        assert(b@.subrange(0, i as int) =~= b@.subrange(0, i as int - 1).push(b@[i - 1]));
    }
    assert(a@ =~= a@.subrange(0, a@.len() as int));
    assert(b@ =~= b@.subrange(0, b@.len() as int));
    true
}

fn contains(list: &Vec<Vec<u8>>, t: &Vec<u8>) -> (r: bool)
    ensures
        r == listed(list@, t@),
{
    let mut j: usize = 0;
    while j < list.len()
        invariant
            j <= list@.len(),
            forall|k: int| 0 <= k < j ==> list@[k]@ != t@,
        decreases list@.len() - j,
    {
        if same_bytes(list[j].as_slice(), t.as_slice()) {
            return true;
        }
        j = j + 1;
    }
    false
}

fn substituted(src: &Vec<u8>, i: usize, alt: u8) -> (r: Vec<u8>)
    requires
        i < src@.len(),
    ensures
        r@ == src@.update(i as int, alt),
{
    let mut out: Vec<u8> = Vec::new();
    let mut j: usize = 0;
    while j < src.len()
        invariant
            i < src@.len(),
            j <= src@.len(),
            out@ == src@.update(i as int, alt).subrange(0, j as int),
        decreases src@.len() - j,
    {
        if j == i {
            out.push(alt);
        } else {
            out.push(src[j]);
        }
        j = j + 1;
        assert(out@ =~= src@.update(i as int, alt).subrange(0, j as int));
    }
    assert(out@ =~= src@.update(i as int, alt));
    out
}

/// Enumerates the strings reachable from `input` by at most `max_depth` OCR
/// substitutions, breadth first: `input` itself, then every string one
/// substitution away, then two, and so on, each string once. At most `M`
/// strings are produced; once that many are found the search stops and
/// keeps what it has. `N` is the widest input accepted.
/// With `max_depth == 0` the result is `input` alone.
pub fn ocr_permutations<const N: usize, const M: usize>(input: &[u8], max_depth: usize) -> (r: Vec<
    Vec<u8>,
>)
    requires
        N > 0,
        M > 0,
        input@.len() <= N,
    ensures
        is_bfs_enumeration(input@, max_depth as int, M as int, r@),
        views(r@) == bfs_order(input@, max_depth as int, M as int),
        max_depth == 0 ==> r@.len() == 1,
{
    let mut found: Vec<Vec<u8>> = Vec::new();
    found.push(copy_bytes(input));
    let mut start: usize = 0;
    let mut end: usize = 1;
    let mut depth: usize = 0;
    proof {
        assert(views(found@) =~= seq![input@]);
        assert(is_variant(input@, input@));
        lemma_count_self(input@);
        assert(found@[0]@ == input@);
        assert forall|t: Seq<u8>|
            is_variant(input@, t) && #[trigger] substitution_count(input@, t) <= 0 implies listed(
            found@,
            t,
        ) by {
            lemma_count_zero(input@, t);
            assert(found@[0]@ == t);
        }
    }
    while depth < max_depth && start < end && found.len() < M
        invariant
            1 <= found@.len() <= M,
            end == found@.len(),
            start <= end,
            depth <= max_depth,
            found@[0]@ == input@,
            all_distinct(found@),
            forall|j: int| 0 <= j < found@.len() ==> is_variant(input@, #[trigger] found@[j]@),
            forall|j: int|
                0 <= j < start ==> substitution_count(input@, #[trigger] found@[j]@) < depth,
            forall|j: int|
                start <= j < end ==> substitution_count(input@, #[trigger] found@[j]@) == depth,
            forall|a: int, b: int|
                0 <= a <= b < found@.len() ==> substitution_count(input@, #[trigger] found@[a]@)
                    <= substitution_count(input@, #[trigger] found@[b]@),
            found@.len() < M ==> complete_upto(input@, found@, depth as int),
            depth > 0 ==> complete_upto(input@, found@, depth - 1),
            bfs_from(views(found@), start as int, depth as int, max_depth as int, M as int)
                == bfs_order(input@, max_depth as int, M as int),
        decreases max_depth - depth,
    {
        let ghost level = found@;
        let ghost target = bfs_order(input@, max_depth as int, M as int);
        assert(bfs_from(views(found@), start as int, depth as int, max_depth as int, M as int)
            == bfs_from(
            expand_level(views(found@), start as int, end as int, M as int),
            end as int,
            depth + 1,
            max_depth as int,
            M as int,
        ));
        let mut k: usize = start;
        while k < end
            invariant
                1 <= level.len() < M,
                end == level.len(),
                start <= k <= end,
                end <= found@.len() <= M,
                depth < max_depth,
                forall|j: int| 0 <= j < end ==> #[trigger] found@[j] == level[j],
                level[0]@ == input@,
                all_distinct(found@),
                forall|j: int| 0 <= j < found@.len() ==> is_variant(input@, #[trigger] found@[j]@),
                forall|j: int|
                    0 <= j < start ==> substitution_count(input@, #[trigger] level[j]@) < depth,
                forall|j: int|
                    start <= j < end ==> substitution_count(input@, #[trigger] level[j]@)
                        == depth,
                forall|a: int, b: int|
                    0 <= a <= b < end ==> substitution_count(input@, #[trigger] level[a]@)
                        <= substitution_count(input@, #[trigger] level[b]@),
                forall|j: int|
                    end <= j < found@.len() ==> substitution_count(input@, #[trigger] found@[j]@)
                        == depth + 1,
                complete_upto(input@, level, depth as int),
                depth > 0 ==> complete_upto(input@, level, depth - 1),
                found@.len() < M ==> forall|j: int|
                    start <= j < k ==> expanded(found@, #[trigger] level[j]@, level[j]@.len() as int),
                target == bfs_order(input@, max_depth as int, M as int),
                bfs_from(
                    expand_level(views(found@), k as int, end as int, M as int),
                    end as int,
                    depth + 1,
                    max_depth as int,
                    M as int,
                ) == target,
            decreases end - k,
        {
            let ghost p = level[k as int]@;
            assert(views(found@)[k as int] == p);
            assert(expand_level(views(found@), k as int, end as int, M as int) == expand_level(
                expand_from(views(found@), p, 0, M as int),
                k + 1,
                end as int,
                M as int,
            ));
            let len = found[k].len();
            let mut i: usize = 0;
            while i < len
                invariant
                    1 <= level.len() < M,
                    end == level.len(),
                    start <= k < end,
                    end <= found@.len() <= M,
                    depth < max_depth,
                    p == level[k as int]@,
                    len == p.len(),
                    i <= len,
                    forall|j: int| 0 <= j < end ==> #[trigger] found@[j] == level[j],
                    level[0]@ == input@,
                    all_distinct(found@),
                    forall|j: int|
                        0 <= j < found@.len() ==> is_variant(input@, #[trigger] found@[j]@),
                    forall|j: int|
                        0 <= j < start ==> substitution_count(input@, #[trigger] level[j]@)
                            < depth,
                    forall|j: int|
                        start <= j < end ==> substitution_count(input@, #[trigger] level[j]@)
                            == depth,
                    forall|a: int, b: int|
                        0 <= a <= b < end ==> substitution_count(input@, #[trigger] level[a]@)
                            <= substitution_count(input@, #[trigger] level[b]@),
                    forall|j: int|
                        end <= j < found@.len() ==> substitution_count(
                            input@,
                            #[trigger] found@[j]@,
                        ) == depth + 1,
                    complete_upto(input@, level, depth as int),
                    depth > 0 ==> complete_upto(input@, level, depth - 1),
                    found@.len() < M ==> forall|j: int|
                        start <= j < k ==> expanded(
                            found@,
                            #[trigger] level[j]@,
                            level[j]@.len() as int,
                        ),
                    found@.len() < M ==> expanded(found@, p, i as int),
                    bfs_from(
                        expand_level(
                            expand_from(views(found@), p, i as int, M as int),
                            k + 1,
                            end as int,
                            M as int,
                        ),
                        end as int,
                        depth + 1,
                        max_depth as int,
                        M as int,
                    ) == target,
                decreases len - i,
            {
                let ghost before = found@;
                let ghost step = if byte_alternative(p[i as int]) is Some && !views(
                    before,
                ).contains(substitute_at(p, i as int)) && views(before).len() < M {
                    views(before).push(substitute_at(p, i as int))
                } else {
                    views(before)
                };
                assert(expand_from(views(before), p, i as int, M as int) == expand_from(
                    step,
                    p,
                    i + 1,
                    M as int,
                ));
                let cur = found[k][i];
                match alternative_byte(cur) {
                    Some(alt) => {
                        let cand = substituted(&found[k], i, alt);
                        assert(cand@ == substitute_at(p, i as int));
                        proof {
                            lemma_neighbor(input@, p, i as int);
                        }
                        let present = contains(&found, &cand);
                        proof {
                            lemma_listed_views(found@, cand@);
                        }
                        if !present && found.len() < M {
                            proof {
                                // A candidate one substitution closer to the
                                // input would already be listed.
                                if substitution_count(input@, cand@) < depth {
                                    assert(depth > 0);
                                    assert(substitution_count(input@, cand@) <= depth - 1);
                                    assert(listed(level, cand@));
                                    lemma_listed_grow(level, found@, cand@);
                                }
                            }
                            found.push(cand);
                            proof {
                                assert(found@.last()@ == cand@);
                                assert(listed(found@, cand@)) by {
                                    assert(found@[found@.len() - 1]@ == cand@);
                                }
                            }
                        }
                    },
                    None => {},
                }
                proof {
                    assert(views(found@) =~= step);
                    assert forall|j: int| 0 <= j < before.len() implies #[trigger] found@[j]
                        == before[j] by {}
                    if found@.len() < M {
                        assert forall|q: int|
                            0 <= q < i + 1 && byte_alternative(p[q]) is Some implies listed(
                            found@,
                            #[trigger] substitute_at(p, q),
                        ) by {
                            if q < i {
                                lemma_listed_grow(before, found@, substitute_at(p, q));
                            }
                        }
                        assert forall|j: int| start <= j < k implies expanded(
                            found@,
                            #[trigger] level[j]@,
                            level[j]@.len() as int,
                        ) by {
                            let lj = level[j]@;
                            assert forall|q: int|
                                0 <= q < lj.len() && byte_alternative(lj[q]) is Some implies listed(
                                found@,
                                #[trigger] substitute_at(lj, q),
                            ) by {
                                assert(expanded(before, lj, lj.len() as int));
                                lemma_listed_grow(before, found@, substitute_at(lj, q));
                            }
                        }
                    }
                }
                i = i + 1;
            }
            assert(expand_from(views(found@), p, len as int, M as int) == views(found@));
            k = k + 1;
        }
        proof {
            // The next level is complete unless the cap cut it short.
            if found@.len() < M {
                assert forall|t: Seq<u8>|
                    is_variant(input@, t) && #[trigger] substitution_count(input@, t) <= depth
                        + 1 implies listed(found@, t) by {
                    if substitution_count(input@, t) <= depth {
                        lemma_listed_grow(level, found@, t);
                    } else {
                        let (pr, q) = lemma_predecessor(input@, t);
                        assert(listed(level, pr));
                        let j = choose|j: int| 0 <= j < level.len() && #[trigger] level[j]@ == pr;
                        assert(start <= j);
                        assert(expanded(found@, level[j]@, level[j]@.len() as int));
                    }
                }
            }
            assert forall|t: Seq<u8>|
                is_variant(input@, t) && #[trigger] substitution_count(input@, t) <= depth implies listed(
                found@,
                t,
            ) by {
                lemma_listed_grow(level, found@, t);
            }
        }
        assert(expand_level(views(found@), end as int, end as int, M as int) == views(found@));
        start = end;
        end = found.len();
        depth = depth + 1;
    }
    assert(bfs_from(views(found@), start as int, depth as int, max_depth as int, M as int) == views(
        found@,
    ));
    proof {
        assert forall|t: Seq<u8>|
            is_variant(input@, t) && substitution_count(input@, t) <= max_depth && !listed(
                found@,
                t,
            ) implies found@.len() == M && substitution_count(input@, t) >= substitution_count(
            input@,
            found@.last()@,
        ) by {
            let last = found@.len() - 1;
            assert(substitution_count(input@, found@[last]@) <= depth);
            if depth > 0 {
                assert(substitution_count(input@, t) >= depth);
            }
            if found@.len() < M {
                if depth < max_depth {
                    // The level at `depth` came out empty, so no variant
                    // needs that many substitutions.
                    assert(start == end);
                    let u = lemma_variant_at_level(input@, t, depth as nat);
                    assert(listed(found@, u));
                    let j = choose|j: int| 0 <= j < found@.len() && #[trigger] found@[j]@ == u;
                    assert(false);
                }
            }
        }
    }
    found
}

} // verus!
