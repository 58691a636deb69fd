//! Character-sequence utilities shared by the whole library.
//!
//! Tags, labels and configuration lines are modelled as sequences of
//! characters; these helpers convert between `String` and `Vec<char>` and
//! give the lexicographic order that version selection relies on.
use vstd::prelude::*;

verus! {

/// The view of an optional string, for contracts.
pub open spec fn opt_str_view(o: Option<String>) -> Option<Seq<char>> {
    match o {
        Some(s) => Some(s@),
        None => None,
    }
}

/// Relies on String::push: appends the character to the end of the string.
#[verifier::external_body]
pub fn push_char(s: &mut String, c: char)
    ensures
        final(s)@ == old(s)@.push(c),
{
    s.push(c);
}

/// The characters of a string slice, as a vector.
pub fn chars_vec(s: &str) -> (v: Vec<char>)
    ensures
        v@ == s@,
{
    let n: usize = s.unicode_len();
    let mut v: Vec<char> = Vec::new();
    let mut i: usize = 0;
    while i < n
        invariant
            i <= n,
            n == s@.len(),
            v@ == s@.subrange(0, i as int),
        decreases n - i,
    {
        v.push(s.get_char(i));
        i = i + 1;
        proof {
            assert(v@ =~= s@.subrange(0, i as int));
        }
    }
    proof {
        assert(v@ =~= s@);
    }
    v
}

/// A string holding exactly the given characters.
pub fn string_from_chars(v: &Vec<char>) -> (s: String)
    ensures
        s@ == v@,
{
    let mut s = String::new();
    let mut i: usize = 0;
    while i < v.len()
        invariant
            i <= v.len(),
            s@ == v@.subrange(0, i as int),
        decreases v.len() - i,
    {
        push_char(&mut s, v[i]);
        i = i + 1;
        proof {
            assert(s@ =~= v@.subrange(0, i as int));
        }
    }
    proof {
        assert(s@ =~= v@);
    }
    s
}

/// Whether `p` occurs in `s` starting at position `i`.
pub open spec fn occurs_at(s: Seq<char>, p: Seq<char>, i: int) -> bool {
    0 <= i && i + p.len() <= s.len() && s.subrange(i, i + p.len()) == p
}

/// Whether `p` occurs anywhere in `s`.
pub open spec fn contains_seq(s: Seq<char>, p: Seq<char>) -> bool {
    exists|i: int| occurs_at(s, p, i)
}

/// Whether `p` occurs in `s` at exactly position `i`.
fn match_at(s: &Vec<char>, p: &Vec<char>, i: usize) -> (b: bool)
    requires
        i + p.len() <= s.len(),
    ensures
        b == occurs_at(s@, p@, i as int),
{
    let mut j: usize = 0;
    while j < p.len()
        invariant
            i + p.len() <= s.len(),
            j <= p.len(),
            s@.subrange(i as int, i + j) =~= p@.subrange(0, j as int),
        decreases p.len() - j,
    {
        if s[i + j] != p[j] {
            proof {
                let whole = s@.subrange(i as int, i + p.len());
                assert(whole[j as int] == s@[i + j]);
                assert(whole != p@);
            }
            return false;
        }
        proof {
            assert(s@.subrange(i as int, i + j + 1) =~= s@.subrange(i as int, i + j).push(s@[i + j]));
            assert(p@.subrange(0, j + 1) =~= p@.subrange(0, j as int).push(p@[j as int]));
        }
        j = j + 1;
    }
    proof {
        assert(p@.subrange(0, p@.len() as int) =~= p@);
    }
    true
}

/// Whether the characters of `p` occur as a contiguous run in `s`.
pub fn contains_chars(s: &Vec<char>, p: &Vec<char>) -> (b: bool)
    ensures
        b == contains_seq(s@, p@),
{
    if p.len() > s.len() {
        proof {
            assert forall|i: int| !occurs_at(s@, p@, i) by {}
        }
        return false;
    }
    let mut i: usize = 0;
    let end: usize = s.len() - p.len();
    while i < end
        invariant
            p.len() <= s.len(),
            end == s.len() - p.len(),
            i <= end,
            forall|k: int| 0 <= k < i ==> !occurs_at(s@, p@, k),
        decreases end - i,
    {
        if match_at(s, p, i) {
            return true;
        }
        i = i + 1;
    }
    if match_at(s, p, end) {
        return true;
    }
    proof {
        assert forall|k: int| occurs_at(s@, p@, k) implies false by {
            assert(0 <= k <= end);
        }
    }
    false
}

/// Lexicographic comparison of two character sequences, by code point.
pub open spec fn lex_cmp(a: Seq<char>, b: Seq<char>) -> core::cmp::Ordering
    decreases a.len(),
{
    if a.len() == 0 && b.len() == 0 {
        core::cmp::Ordering::Equal
    } else if a.len() == 0 {
        core::cmp::Ordering::Less
    } else if b.len() == 0 {
        core::cmp::Ordering::Greater
    } else if a[0] < b[0] {
        core::cmp::Ordering::Less
    } else if a[0] > b[0] {
        core::cmp::Ordering::Greater
    } else {
        lex_cmp(a.skip(1), b.skip(1))
    }
}

/// Lexicographic comparison of two optional strings; an absent string
/// comes before every present one.
pub open spec fn opt_lex_cmp(a: Option<Seq<char>>, b: Option<Seq<char>>) -> core::cmp::Ordering {
    match (a, b) {
        (None, None) => core::cmp::Ordering::Equal,
        (None, Some(_)) => core::cmp::Ordering::Less,
        (Some(_), None) => core::cmp::Ordering::Greater,
        (Some(x), Some(y)) => lex_cmp(x, y),
    }
}

/// Compares two character vectors in lexicographic order.
pub fn lex_cmp_chars(a: &Vec<char>, b: &Vec<char>) -> (o: core::cmp::Ordering)
    ensures
        o == lex_cmp(a@, b@),
{
    let mut i: usize = 0;
    proof {
        assert(a@.skip(0) =~= a@);
        assert(b@.skip(0) =~= b@);
    }
    loop
        invariant
            i <= a.len(),
            i <= b.len(),
            lex_cmp(a@, b@) == lex_cmp(a@.skip(i as int), b@.skip(i as int)),
        decreases a.len() - i,
    {
        if i == a.len() && i == b.len() {
            return core::cmp::Ordering::Equal;
        } else if i == a.len() {
            proof {
                assert(a@.skip(i as int).len() == 0);
                assert(b@.skip(i as int).len() > 0);
            }
            return core::cmp::Ordering::Less;
        } else if i == b.len() {
            proof {
                assert(b@.skip(i as int).len() == 0);
                assert(a@.skip(i as int).len() > 0);
            }
            return core::cmp::Ordering::Greater;
        } else {
            let ca: char = a[i];
            let cb: char = b[i];
            proof {
                assert(a@.skip(i as int)[0] == a@[i as int]);
                assert(b@.skip(i as int)[0] == b@[i as int]);
            }
            if ca < cb {
                return core::cmp::Ordering::Less;
            } else if ca > cb {
                return core::cmp::Ordering::Greater;
            }
            proof {
                assert(a@.skip(i as int).skip(1) =~= a@.skip(i + 1));
                assert(b@.skip(i as int).skip(1) =~= b@.skip(i + 1));
            }
            i = i + 1;
        }
    }
}

/// Compares two strings in lexicographic order.
pub fn lex_cmp_str(a: &str, b: &str) -> (o: core::cmp::Ordering)
    ensures
        o == lex_cmp(a@, b@),
{
    let va = chars_vec(a);
    let vb = chars_vec(b);
    lex_cmp_chars(&va, &vb)
}

/// Whether two string slices hold the same characters.
pub fn str_eq(a: &str, b: &str) -> (r: bool)
    ensures
        r == (a@ == b@),
{
    let o = lex_cmp_str(a, b);
    proof {
        lemma_lex_cmp_eq(a@, b@);
    }
    match o {
        core::cmp::Ordering::Equal => true,
        _ => false,
    }
}

/// Equal sequences compare as equal, and vice versa.
pub proof fn lemma_lex_cmp_eq(a: Seq<char>, b: Seq<char>)
    ensures
        (lex_cmp(a, b) == core::cmp::Ordering::Equal) <==> (a == b),
    decreases a.len(),
{
    if a.len() == 0 && b.len() == 0 {
        assert(a =~= b);
    } else if a.len() == 0 || b.len() == 0 {
        assert(a != b);
    } else if a[0] < b[0] || a[0] > b[0] {
        assert(a[0] != b[0]);
        assert(a != b);
    } else {
        assert(a[0] == b[0]);
        lemma_lex_cmp_eq(a.skip(1), b.skip(1));
        if a.skip(1) == b.skip(1) && a[0] == b[0] {
            assert(a.len() == b.len());
            assert forall|i: int| 0 <= i < a.len() implies a[i] == b[i] by {
                if i > 0 {
                    assert(a[i] == a.skip(1)[i - 1]);
                    assert(b[i] == b.skip(1)[i - 1]);
                }
            }
            assert(a =~= b);
        }
        if a == b {
            assert(a.skip(1) =~= b.skip(1));
        }
    }
}

/// Reversing the arguments reverses the comparison.
pub proof fn lemma_lex_cmp_flip(a: Seq<char>, b: Seq<char>)
    ensures
        (lex_cmp(a, b) == core::cmp::Ordering::Less) <==> (lex_cmp(b, a)
            == core::cmp::Ordering::Greater),
        (lex_cmp(a, b) == core::cmp::Ordering::Equal) <==> (lex_cmp(b, a)
            == core::cmp::Ordering::Equal),
    decreases a.len(),
{
    if a.len() == 0 || b.len() == 0 {
    } else if a[0] < b[0] || a[0] > b[0] {
    } else {
        lemma_lex_cmp_flip(a.skip(1), b.skip(1));
    }
}

/// The order `lex_cmp` gives is transitive.
pub proof fn lemma_lex_le_trans(a: Seq<char>, b: Seq<char>, c: Seq<char>)
    requires
        lex_cmp(a, b) != core::cmp::Ordering::Greater,
        lex_cmp(b, c) != core::cmp::Ordering::Greater,
    ensures
        lex_cmp(a, c) != core::cmp::Ordering::Greater,
    decreases a.len() + b.len() + c.len(),
{
    if a.len() == 0 {
    } else if b.len() == 0 {
    } else if c.len() == 0 {
    } else {
        if a[0] < b[0] {
            if b[0] < c[0] || b[0] == c[0] {
            } else {
            }
        } else if a[0] == b[0] {
            if b[0] == c[0] {
                lemma_lex_le_trans(a.skip(1), b.skip(1), c.skip(1));
            }
        }
    }
}

/// A strictly smaller value stays no greater than anything at least as
/// large.
pub proof fn lemma_lex_lt_le_trans(a: Seq<char>, b: Seq<char>, c: Seq<char>)
    requires
        lex_cmp(b, a) == core::cmp::Ordering::Greater,
        lex_cmp(b, c) != core::cmp::Ordering::Greater,
    ensures
        lex_cmp(a, c) != core::cmp::Ordering::Greater,
    decreases a.len() + b.len() + c.len(),
{
    if a.len() == 0 {
    } else if b.len() == 0 {
    } else if c.len() == 0 {
        if b.len() > 0 {
        }
    } else {
        if b[0] > a[0] {
            if b[0] == c[0] || b[0] < c[0] {
            }
        } else if b[0] == a[0] {
            if b[0] == c[0] {
                lemma_lex_lt_le_trans(a.skip(1), b.skip(1), c.skip(1));
            }
        }
    }
}

/// Transitivity of `opt_lex_cmp`, with an absent value below every present
/// one.
pub proof fn lemma_opt_lex_le_trans(
    a: Option<Seq<char>>,
    b: Option<Seq<char>>,
    c: Option<Seq<char>>,
)
    requires
        opt_lex_cmp(a, b) != core::cmp::Ordering::Greater,
        opt_lex_cmp(b, c) != core::cmp::Ordering::Greater,
    ensures
        opt_lex_cmp(a, c) != core::cmp::Ordering::Greater,
{
    match (a, b, c) {
        (Some(x), Some(y), Some(z)) => lemma_lex_le_trans(x, y, z),
        _ => {},
    }
}

/// The strict-then-lax form of `opt_lex_cmp` transitivity.
pub proof fn lemma_opt_lex_lt_le_trans(
    a: Option<Seq<char>>,
    b: Option<Seq<char>>,
    c: Option<Seq<char>>,
)
    requires
        opt_lex_cmp(b, a) == core::cmp::Ordering::Greater,
        opt_lex_cmp(b, c) != core::cmp::Ordering::Greater,
    ensures
        opt_lex_cmp(a, c) != core::cmp::Ordering::Greater,
{
    match (a, b, c) {
        (Some(x), Some(y), Some(z)) => lemma_lex_lt_le_trans(x, y, z),
        _ => {},
    }
}

/// The largest index at which `c` stands in `s`, or `-1`.
pub open spec fn last_idx_of(s: Seq<char>, c: char) -> int
    decreases s.len(),
{
    if s.len() == 0 {
        -1
    } else if s.last() == c {
        s.len() - 1
    } else {
        last_idx_of(s.drop_last(), c)
    }
}

/// The largest index at which `c` stands in `v`, or `None`.
pub fn find_last(v: &Vec<char>, c: char) -> (r: Option<usize>)
    ensures
        match r {
            Some(i) => i < v@.len() && last_idx_of(v@, c) == i as int,
            None => last_idx_of(v@, c) == -1,
        },
{
    let mut i: usize = v.len();
    proof {
        assert(v@.subrange(0, v@.len() as int) =~= v@);
    }
    while i > 0
        invariant
            i <= v@.len(),
            last_idx_of(v@, c) == last_idx_of(v@.subrange(0, i as int), c),
        decreases i,
    {
        i = i - 1;
        proof {
            assert(v@.subrange(0, i + 1).last() == v@[i as int]);
            assert(v@.subrange(0, i + 1).drop_last() =~= v@.subrange(0, i as int));
        }
        if v[i] == c {
            return Some(i);
        }
    }
    proof {
        assert(v@.subrange(0, 0).len() == 0);
    }
    None
}


/// The smallest index at or past `i` where `p` occurs in `s`, or `-1`.
pub open spec fn first_occ_from(s: Seq<char>, p: Seq<char>, i: int) -> int
    decreases s.len() - i + 1,
{
    if i < 0 || i + p.len() > s.len() {
        -1
    } else if occurs_at(s, p, i) {
        i
    } else {
        first_occ_from(s, p, i + 1)
    }
}

/// The smallest index where `p` occurs in `s`, or `-1`.
pub open spec fn first_occ(s: Seq<char>, p: Seq<char>) -> int {
    first_occ_from(s, p, 0)
}

/// A found first occurrence is an occurrence.
pub proof fn lemma_first_occ_props(s: Seq<char>, p: Seq<char>, i0: int)
    requires
        0 <= i0,
    ensures
        first_occ_from(s, p, i0) >= 0 ==> occurs_at(s, p, first_occ_from(s, p, i0)),
    decreases s.len() - i0 + 1,
{
    if i0 + p.len() <= s.len() && !occurs_at(s, p, i0) {
        lemma_first_occ_props(s, p, i0 + 1);
    }
}

/// The smallest index where the characters of `p` occur in `v`, if any.
pub fn find_first(v: &Vec<char>, p: &Vec<char>) -> (r: Option<usize>)
    ensures
        match r {
            Some(i) => first_occ(v@, p@) == i as int,
            None => first_occ(v@, p@) == -1,
        },
{
    if p.len() > v.len() {
        return None;
    }
    let end: usize = v.len() - p.len();
    let mut i: usize = 0;
    while i <= end
        invariant
            p@.len() <= v@.len(),
            end == v@.len() - p@.len(),
            i <= end + 1,
            first_occ(v@, p@) == first_occ_from(v@, p@, i as int),
        decreases end + 1 - i,
    {
        if match_at(v, p, i) {
            return Some(i);
        }
        proof {
            assert(first_occ_from(v@, p@, i as int) == first_occ_from(v@, p@, i + 1));
        }
        if i == end {
            return None;
        }
        i = i + 1;
    }
    None
}

/// The ASCII-lowercase form of a character.
pub open spec fn lower_char(c: char) -> char {
    if 'A' <= c && c <= 'Z' {
        ((c as u32) + 32) as char
    } else {
        c
    }
}

/// The ASCII-lowercase form of a character sequence.
pub open spec fn lower_seq(s: Seq<char>) -> Seq<char> {
    Seq::new(s.len(), |i: int| lower_char(s[i]))
}

/// The ASCII-lowercase form of the characters.
pub fn lower_chars(v: &Vec<char>) -> (r: Vec<char>)
    ensures
        r@ == lower_seq(v@),
{
    let mut r: Vec<char> = Vec::new();
    let mut i: usize = 0;
    while i < v.len()
        invariant
            i <= v@.len(),
            r@ =~= lower_seq(v@).subrange(0, i as int),
        decreases v@.len() - i,
    {
        let c: char = v[i];
        let l: char = if 'A' <= c && c <= 'Z' {
            (((c as u8) + 32) as char)
        } else {
            c
        };
        proof {
            assert(l == lower_char(v@[i as int]));
        }
        r.push(l);
        i = i + 1;
        proof {
            assert(r@ =~= lower_seq(v@).subrange(0, i as int));
        }
    }
    proof {
        assert(r@ =~= lower_seq(v@));
    }
    r
}

} // verus!
