//! Release tags and the semantic versions derived from them.
//!
//! A tag is the raw string published upstream (`"6.16-GE-3-LoL"`,
//! `"GE-Proton7-22"`, ...).  A comparable version string is derived from the
//! decimal digit runs of the tag; release-candidate numbers move into an
//! `-rc<N>` suffix and the `LoL` / `MF` markers are carried over as suffixes.
//! Derived versions are compared by plain lexicographic string order, which
//! is what the rest of the system means by "latest".
use vstd::prelude::*;

use crate::text::{
    chars_vec, contains_chars, contains_seq, lex_cmp_str, opt_lex_cmp, opt_str_view,
    string_from_chars,
};

verus! {

/// A decimal digit.
pub open spec fn is_digit_char(c: char) -> bool {
    '0' <= c && c <= '9'
}

/// The maximal digit runs of `s` that come after building up `cur`:
/// `cur` is the run in progress while scanning left to right.
pub open spec fn runs_acc(s: Seq<char>, cur: Seq<char>) -> Seq<Seq<char>>
    decreases s.len(),
{
    if s.len() == 0 {
        if cur.len() == 0 {
            Seq::empty()
        } else {
            seq![cur]
        }
    } else if is_digit_char(s[0]) {
        runs_acc(s.skip(1), cur.push(s[0]))
    } else if cur.len() == 0 {
        runs_acc(s.skip(1), cur)
    } else {
        seq![cur] + runs_acc(s.skip(1), Seq::empty())
    }
}

/// Every maximal run of decimal digits in `s`, in order of occurrence.
pub open spec fn digit_runs(s: Seq<char>) -> Seq<Seq<char>> {
    runs_acc(s, Seq::empty())
}

/// The views of a vector of character runs.
pub open spec fn runs_view(r: Seq<Vec<char>>) -> Seq<Seq<char>> {
    Seq::new(r.len(), |i: int| r[i]@)
}

/// The mathematical values of a vector of positions.
pub open spec fn ints_view(st: Seq<usize>) -> Seq<int> {
    Seq::new(st.len(), |i: int| st[i] as int)
}

/// The release-candidate marker.
pub open spec fn rc_pat() -> Seq<char> {
    seq!['r', 'c']
}

/// The `LoL` marker.
pub open spec fn lol_pat() -> Seq<char> {
    seq!['L', 'o', 'L']
}

/// The `MF` marker.
pub open spec fn mf_pat() -> Seq<char> {
    seq!['M', 'F']
}

/// The positions where the digit runs of `s` begin, walking from `i` with
/// a possibly open run that began at `cur_start`.
pub open spec fn starts_from(s: Seq<char>, i: int, has_cur: bool, cur_start: int) -> Seq<int>
    decreases s.len() - i + 1,
{
    if i < 0 || i >= s.len() {
        if has_cur {
            seq![cur_start]
        } else {
            Seq::empty()
        }
    } else if is_digit_char(s[i]) {
        if has_cur {
            starts_from(s, i + 1, true, cur_start)
        } else {
            starts_from(s, i + 1, true, i)
        }
    } else if !has_cur {
        starts_from(s, i + 1, false, cur_start)
    } else {
        seq![cur_start] + starts_from(s, i + 1, false, 0)
    }
}

/// The position where each digit run of `s` begins, in order.
pub open spec fn run_starts(s: Seq<char>) -> Seq<int> {
    starts_from(s, 0, false, 0)
}

/// Whether the position is immediately preceded by the letters `rc`.
pub open spec fn rc_at(s: Seq<char>, p: int) -> bool {
    2 <= p <= s.len() && s[p - 2] == 'r' && s[p - 1] == 'c'
}

/// The first index `>= k` of a digit run that begins immediately after the
/// letters `rc`, or `None` when no run from `k` on does.
pub open spec fn rc_index_rec(s: Seq<char>, starts: Seq<int>, k: int) -> Option<int>
    decreases starts.len() - k,
{
    if k < 0 || k >= starts.len() {
        None
    } else if rc_at(s, starts[k]) {
        Some(k)
    } else {
        rc_index_rec(s, starts, k + 1)
    }
}

/// The digit run of `s` that names the release candidate: the first run
/// whose occurrence in `s` is immediately preceded by `rc`.
pub open spec fn rc_index(s: Seq<char>) -> Option<int> {
    rc_index_rec(s, run_starts(s), 0)
}

/// The digit runs and their start positions walk in lockstep: both views
/// of the scan have the same length.
proof fn lemma_runs_starts_len(s: Seq<char>, i: int, cur: Seq<char>, cur_start: int)
    requires
        0 <= i <= s.len(),
    ensures
        runs_acc(s.skip(i), cur).len() == starts_from(s, i, cur.len() > 0, cur_start).len(),
    decreases s.len() - i,
{
    if i == s.len() {
        assert(s.skip(i).len() == 0);
    } else {
        assert(s.skip(i).len() > 0);
        assert(s.skip(i)[0] == s[i]);
        assert(s.skip(i).skip(1) =~= s.skip(i + 1));
        if is_digit_char(s[i]) {
            if cur.len() > 0 {
                lemma_runs_starts_len(s, i + 1, cur.push(s[i]), cur_start);
            } else {
                lemma_runs_starts_len(s, i + 1, cur.push(s[i]), i);
            }
        } else if cur.len() == 0 {
            lemma_runs_starts_len(s, i + 1, cur, cur_start);
        } else {
            lemma_runs_starts_len(s, i + 1, Seq::empty(), 0);
        }
    }
}

/// There are as many run starts as digit runs.
pub proof fn lemma_runs_starts_same_len(s: Seq<char>)
    ensures
        digit_runs(s).len() == run_starts(s).len(),
{
    assert(s.skip(0) =~= s);
    lemma_runs_starts_len(s, 0, Seq::empty(), 0);
}

/// The filler component for missing digit runs.
pub open spec fn zero_comp() -> Seq<char> {
    seq!['0']
}

/// The components, padded on the right with `0` until at least three exist.
pub open spec fn pad3(runs: Seq<Seq<char>>) -> Seq<Seq<char>> {
    if runs.len() >= 3 {
        runs
    } else if runs.len() == 2 {
        runs.push(zero_comp())
    } else if runs.len() == 1 {
        runs.push(zero_comp()).push(zero_comp())
    } else {
        seq![zero_comp(), zero_comp(), zero_comp()]
    }
}

/// The components joined with `.`.
pub open spec fn join_dots(cs: Seq<Seq<char>>) -> Seq<char>
    decreases cs.len(),
{
    if cs.len() == 0 {
        Seq::empty()
    } else if cs.len() == 1 {
        cs[0]
    } else {
        cs[0] + seq!['.'] + join_dots(cs.skip(1))
    }
}

/// The marker suffixes carried over from the raw tag, `LoL` before `MF`.
pub open spec fn marker_suffix(s: Seq<char>) -> Seq<char> {
    (if contains_seq(s, lol_pat()) {
        seq!['-'] + lol_pat()
    } else {
        Seq::empty()
    }) + (if contains_seq(s, mf_pat()) {
        seq!['-'] + mf_pat()
    } else {
        Seq::empty()
    })
}

/// The semantic version derived from a raw tag, or `None` for a tag that
/// holds `rc` with no digit run beside it, which cannot be parsed.
pub open spec fn semver_of(s: Seq<char>) -> Option<Seq<char>> {
    let runs = digit_runs(s);
    if contains_seq(s, rc_pat()) {
        match rc_index(s) {
            Some(k) => Some(
                join_dots(pad3(runs.remove(k))) + seq!['-'] + rc_pat() + runs[k],
            ),
            None => None,
        }
    } else {
        Some(join_dots(pad3(runs)) + marker_suffix(s))
    }
}

/// Whether the character is a decimal digit.
fn is_digit(c: char) -> (b: bool)
    ensures
        b == is_digit_char(c),
{
    '0' <= c && c <= '9'
}

/// A copy of a character vector.
fn clone_chars(v: &Vec<char>) -> (r: Vec<char>)
    ensures
        r@ == v@,
{
    let mut r: Vec<char> = Vec::new();
    let mut i: usize = 0;
    while i < v.len()
        invariant
            i <= v.len(),
            r@ == v@.subrange(0, i as int),
        decreases v.len() - i,
    {
        r.push(v[i]);
        i = i + 1;
        proof {
            assert(r@ =~= v@.subrange(0, i as int));
        }
    }
    proof {
        assert(r@ =~= v@);
    }
    r
}

/// Appends all the characters of `src` to `dst`.
pub fn extend_chars(dst: &mut Vec<char>, src: &Vec<char>)
    ensures
        final(dst)@ == old(dst)@ + src@,
{
    let mut i: usize = 0;
    while i < src.len()
        invariant
            i <= src.len(),
            dst@ == old(dst)@ + src@.subrange(0, i as int),
        decreases src.len() - i,
    {
        dst.push(src[i]);
        i = i + 1;
        proof {
            assert(dst@ =~= old(dst)@ + src@.subrange(0, i as int));
        }
    }
    proof {
        assert(dst@ =~= old(dst)@ + src@);
    }
}

/// The maximal digit runs of `v`, in order of occurrence.
fn digit_runs_vec(v: &Vec<char>) -> (r: Vec<Vec<char>>)
    ensures
        runs_view(r@) == digit_runs(v@),
{
    let mut r: Vec<Vec<char>> = Vec::new();
    let mut cur: Vec<char> = Vec::new();
    let mut i: usize = 0;
    proof {
        assert(v@.skip(0) =~= v@);
        assert(runs_view(r@) =~= Seq::<Seq<char>>::empty());
        assert(Seq::<Seq<char>>::empty() + runs_acc(v@, Seq::empty()) =~= runs_acc(v@, Seq::empty()));
    }
    while i < v.len()
        invariant
            i <= v.len(),
            digit_runs(v@) == runs_view(r@) + runs_acc(v@.skip(i as int), cur@),
        decreases v.len() - i,
    {
        let c: char = v[i];
        proof {
            assert(v@.skip(i as int).len() > 0);
            assert(v@.skip(i as int)[0] == v@[i as int]);
            assert(v@.skip(i as int).skip(1) =~= v@.skip(i + 1));
        }
        if is_digit(c) {
            cur.push(c);
        } else {
            if cur.len() > 0 {
                let ghost old_r = r@;
                let ghost old_cur = cur@;
                r.push(cur);
                cur = Vec::new();
                proof {
                    assert(runs_view(r@) =~= runs_view(old_r) + seq![old_cur]);
                    assert(cur@ =~= Seq::<char>::empty());
                    assert((runs_view(old_r) + seq![old_cur]) + runs_acc(v@.skip(i + 1), Seq::empty())
                        =~= runs_view(old_r) + (seq![old_cur] + runs_acc(v@.skip(i + 1), Seq::empty())));
                }
            } else {
                proof {
                    assert(cur@ =~= Seq::<char>::empty());
                }
            }
        }
        i = i + 1;
    }
    proof {
        assert(v@.skip(i as int).len() == 0);
    }
    if cur.len() > 0 {
        let ghost old_r = r@;
        let ghost old_cur = cur@;
        r.push(cur);
        proof {
            assert(runs_view(r@) =~= runs_view(old_r) + seq![old_cur]);
            assert(digit_runs(v@) =~= runs_view(r@));
        }
    } else {
        proof {
            assert(cur@ =~= Seq::<char>::empty());
            assert(digit_runs(v@) =~= runs_view(r@));
        }
    }
    r
}

/// The start positions of the digit runs of `v`, in order.
fn run_starts_vec(v: &Vec<char>) -> (st: Vec<usize>)
    ensures
        ints_view(st@) == run_starts(v@),
        forall|k: int| 0 <= k < st@.len() ==> (#[trigger] st@[k]) < v@.len(),
{
    let mut st: Vec<usize> = Vec::new();
    let mut has_cur: bool = false;
    let mut cur_start: usize = 0;
    let mut i: usize = 0;
    proof {
        assert(ints_view(st@) =~= Seq::<int>::empty());
        assert(Seq::<int>::empty() + starts_from(v@, 0, false, 0) =~= starts_from(v@, 0, false, 0));
    }
    while i < v.len()
        invariant
            i <= v@.len(),
            has_cur ==> cur_start < i,
            run_starts(v@) == ints_view(st@) + starts_from(
                v@,
                i as int,
                has_cur,
                cur_start as int,
            ),
            forall|k: int| 0 <= k < st@.len() ==> (#[trigger] st@[k]) < v@.len(),
        decreases v@.len() - i,
    {
        let c: char = v[i];
        if is_digit(c) {
            if !has_cur {
                cur_start = i;
                has_cur = true;
            }
        } else {
            if has_cur {
                let ghost old_st = st@;
                let ghost cs = cur_start as int;
                st.push(cur_start);
                has_cur = false;
                cur_start = 0;
                proof {
                    assert(ints_view(st@) =~= ints_view(old_st) + seq![cs]);
                    assert((ints_view(old_st) + seq![cs]) + starts_from(v@, i + 1, false, 0)
                        =~= ints_view(old_st) + (seq![cs] + starts_from(v@, i + 1, false, 0)));
                }
            }
        }
        i = i + 1;
    }
    if has_cur {
        let ghost old_st = st@;
        st.push(cur_start);
        proof {
            assert(ints_view(st@) =~= ints_view(old_st) + seq![cur_start as int]);
            assert(starts_from(v@, i as int, true, cur_start as int) =~= seq![cur_start as int]);
            assert(run_starts(v@) =~= ints_view(st@));
        }
    } else {
        proof {
            assert(starts_from(v@, i as int, false, cur_start as int) =~= Seq::<int>::empty());
            assert(run_starts(v@) =~= ints_view(st@));
        }
    }
    st
}

/// The first digit run that begins immediately after the letters `rc`.
fn find_rc_index(v: &Vec<char>, starts: &Vec<usize>) -> (r: Option<usize>)
    requires
        ints_view(starts@) == run_starts(v@),
        forall|k: int| 0 <= k < starts@.len() ==> (#[trigger] starts@[k]) < v@.len(),
    ensures
        match r {
            Some(k) => rc_index(v@) == Some(k as int) && k < starts@.len(),
            None => rc_index(v@) is None,
        },
{
    proof {
        assert(run_starts(v@).len() == starts@.len());
    }
    let mut k: usize = 0;
    while k < starts.len()
        invariant
            ints_view(starts@) == run_starts(v@),
            forall|j: int| 0 <= j < starts@.len() ==> (#[trigger] starts@[j]) < v@.len(),
            k <= starts@.len(),
            rc_index(v@) == rc_index_rec(v@, run_starts(v@), k as int),
        decreases starts@.len() - k,
    {
        let p: usize = starts[k];
        proof {
            assert(run_starts(v@)[k as int] == starts@[k as int] as int);
        }
        let is_rc: bool = p >= 2 && v[p - 2] == 'r' && v[p - 1] == 'c';
        proof {
            assert(is_rc == rc_at(v@, p as int));
        }
        if is_rc {
            proof {
                assert(rc_index_rec(v@, run_starts(v@), k as int) == Some(k as int));
            }
            return Some(k);
        }
        proof {
            assert(rc_index_rec(v@, run_starts(v@), k as int) == rc_index_rec(
                v@,
                run_starts(v@),
                k + 1,
            ));
        }
        k = k + 1;
    }
    proof {
        assert(rc_index_rec(v@, run_starts(v@), k as int) is None);
    }
    None
}

/// `join_dots` over a sequence extended on the right.
proof fn lemma_join_push(cs: Seq<Seq<char>>, x: Seq<char>)
    ensures
        join_dots(cs.push(x)) == if cs.len() == 0 {
            x
        } else {
            join_dots(cs) + seq!['.'] + x
        },
    decreases cs.len(),
{
    if cs.len() == 0 {
        assert(cs.push(x).len() == 1);
        assert(cs.push(x)[0] == x);
    } else if cs.len() == 1 {
        assert(cs.push(x)[0] == cs[0]);
        assert(cs.push(x).skip(1) =~= seq![x]);
        assert(join_dots(seq![x]) == x);
    } else {
        lemma_join_push(cs.skip(1), x);
        assert(cs.push(x).skip(1) =~= cs.skip(1).push(x));
        assert(cs.push(x)[0] == cs[0]);
        assert(cs[0] + seq!['.'] + (join_dots(cs.skip(1)) + seq!['.'] + x)
            =~= (cs[0] + seq!['.'] + join_dots(cs.skip(1))) + seq!['.'] + x);
    }
}

/// The runs joined with `.` and padded on the right with `0` until three
/// components exist.
fn construct_semver(runs: &Vec<Vec<char>>) -> (out: Vec<char>)
    ensures
        out@ == join_dots(pad3(runs_view(runs@))),
{
    let mut comps: Vec<Vec<char>> = Vec::new();
    let mut i: usize = 0;
    while i < runs.len()
        invariant
            i <= runs.len(),
            runs_view(comps@) =~= runs_view(runs@).subrange(0, i as int),
        decreases runs.len() - i,
    {
        let copy = clone_chars(&runs[i]);
        let ghost before = runs_view(comps@);
        comps.push(copy);
        proof {
            let rv = runs_view(runs@);
            assert(runs_view(comps@) =~= before.push(copy@));
            assert(copy@ == rv[i as int]);
            assert(rv.subrange(0, i + 1) =~= rv.subrange(0, i as int).push(rv[i as int]));
            assert(runs_view(comps@) =~= rv.subrange(0, i + 1));
        }
        i = i + 1;
    }
    proof {
        assert(runs_view(comps@) =~= runs_view(runs@));
    }
    while comps.len() < 3
        invariant
            runs_view(comps@) =~= pad3(runs_view(runs@)).subrange(0, comps@.len() as int)
                || runs_view(comps@) =~= runs_view(runs@),
            comps@.len() >= runs@.len(),
            runs_view(comps@) =~= pad3(runs_view(comps@)).subrange(0, comps@.len() as int),
            pad3(runs_view(comps@)) =~= pad3(runs_view(runs@)),
        decreases 3 - comps@.len(),
    {
        let mut z: Vec<char> = Vec::new();
        z.push('0');
        proof {
            assert(z@ =~= zero_comp());
        }
        let ghost before = runs_view(comps@);
        comps.push(z);
        proof {
            assert(runs_view(comps@) =~= before.push(zero_comp()));
            assert(pad3(runs_view(comps@)) =~= pad3(runs_view(runs@)));
            assert(runs_view(comps@) =~= pad3(runs_view(comps@)).subrange(0, comps@.len() as int));
        }
    }
    proof {
        assert(runs_view(comps@) =~= pad3(runs_view(runs@)));
    }
    let mut out: Vec<char> = Vec::new();
    let mut j: usize = 0;
    while j < comps.len()
        invariant
            j <= comps.len(),
            out@ == join_dots(runs_view(comps@).subrange(0, j as int)),
        decreases comps.len() - j,
    {
        if j > 0 {
            out.push('.');
        }
        extend_chars(&mut out, &comps[j]);
        proof {
            let cs = runs_view(comps@);
            assert(cs.subrange(0, j + 1) =~= cs.subrange(0, j as int).push(cs[j as int]));
            lemma_join_push(cs.subrange(0, j as int), cs[j as int]);
            if j == 0 {
                assert(out@ =~= join_dots(cs.subrange(0, 1)));
            } else {
                assert(out@ =~= join_dots(cs.subrange(0, j as int)) + seq!['.'] + cs[j as int]);
            }
        }
        j = j + 1;
    }
    proof {
        assert(runs_view(comps@).subrange(0, comps@.len() as int) =~= runs_view(comps@));
    }
    out
}

/// The runs with the one at index `k` left out.
fn remove_run(runs: &Vec<Vec<char>>, k: usize) -> (out: Vec<Vec<char>>)
    requires
        k < runs@.len(),
    ensures
        runs_view(out@) == runs_view(runs@).remove(k as int),
{
    let mut out: Vec<Vec<char>> = Vec::new();
    let mut i: usize = 0;
    while i < runs.len()
        invariant
            i <= runs.len(),
            k < runs@.len(),
            i <= k ==> runs_view(out@) =~= runs_view(runs@).subrange(0, i as int),
            i > k ==> runs_view(out@) =~= runs_view(runs@).subrange(0, k as int)
                + runs_view(runs@).subrange(k + 1, i as int),
        decreases runs.len() - i,
    {
        if i != k {
            let copy = clone_chars(&runs[i]);
            let ghost before = runs_view(out@);
            out.push(copy);
            proof {
                let rv = runs_view(runs@);
                assert(runs_view(out@) =~= before.push(copy@));
                assert(copy@ == rv[i as int]);
                if i < k {
                    assert(rv.subrange(0, i + 1) =~= rv.subrange(0, i as int).push(rv[i as int]));
                } else {
                    assert(rv.subrange(k + 1, i + 1) =~= rv.subrange(k + 1, i as int).push(rv[i as int]));
                    assert(rv.subrange(0, k as int) + rv.subrange(k + 1, i as int).push(rv[i as int])
                        =~= (rv.subrange(0, k as int) + rv.subrange(k + 1, i as int)).push(rv[i as int]));
                }
            }
        } else {
            proof {
                let rv = runs_view(runs@);
                assert(rv.subrange(k + 1, k + 1) =~= Seq::<Seq<char>>::empty());
                assert(runs_view(out@) + rv.subrange(k + 1, k + 1) =~= runs_view(out@));
            }
        }
        i = i + 1;
    }
    proof {
        let rv = runs_view(runs@);
        assert(runs_view(out@) =~= rv.subrange(0, k as int) + rv.subrange(k + 1, rv.len() as int));
        assert(rv.remove(k as int) =~= rv.subrange(0, k as int) + rv.subrange(k + 1, rv.len() as int));
    }
    out
}

/// A run index returned by `rc_index_rec` lies within the starts.
proof fn lemma_rc_index_bounds(s: Seq<char>, starts: Seq<int>, k0: int, k: int)
    requires
        rc_index_rec(s, starts, k0) == Some(k),
    ensures
        k0 <= k < starts.len(),
    decreases starts.len() - k0,
{
    if k0 < 0 || k0 >= starts.len() {
    } else if rc_at(s, starts[k0]) {
    } else {
        lemma_rc_index_bounds(s, starts, k0 + 1, k);
    }
}

/// The semantic version derived from the characters of a raw tag.
fn derive_semver_chars(v: &Vec<char>) -> (r: Option<Vec<char>>)
    ensures
        match r {
            Some(out) => semver_of(v@) == Some(out@),
            None => semver_of(v@) is None,
        },
{
    let runs = digit_runs_vec(v);
    let starts = run_starts_vec(v);
    let mut rcp: Vec<char> = Vec::new();
    rcp.push('r');
    rcp.push('c');
    proof {
        assert(rcp@ =~= rc_pat());
    }
    if contains_chars(v, &rcp) {
        match find_rc_index(v, &starts) {
            Some(k) => {
                proof {
                    lemma_rc_index_bounds(v@, run_starts(v@), 0, k as int);
                    lemma_runs_starts_same_len(v@);
                }
                let filtered = remove_run(&runs, k);
                let mut out = construct_semver(&filtered);
                out.push('-');
                out.push('r');
                out.push('c');
                proof {
                    assert(out@ =~= join_dots(pad3(runs_view(runs@).remove(k as int))) + seq!['-'] + rc_pat());
                }
                extend_chars(&mut out, &runs[k]);
                proof {
                    assert(runs_view(runs@)[k as int] == runs@[k as int]@);
                    assert(out@ =~= join_dots(pad3(runs_view(runs@).remove(k as int))) + seq!['-'] + rc_pat()
                        + runs_view(runs@)[k as int]);
                }
                Some(out)
            },
            None => None,
        }
    } else {
        let mut out = construct_semver(&runs);
        let mut lolp: Vec<char> = Vec::new();
        lolp.push('L');
        lolp.push('o');
        lolp.push('L');
        let mut mfp: Vec<char> = Vec::new();
        mfp.push('M');
        mfp.push('F');
        proof {
            assert(lolp@ =~= lol_pat());
            assert(mfp@ =~= mf_pat());
        }
        let ghost base = out@;
        let has_lol: bool = contains_chars(v, &lolp);
        if has_lol {
            out.push('-');
            extend_chars(&mut out, &lolp);
        }
        let ghost with_lol = out@;
        proof {
            if has_lol {
                assert(with_lol =~= base + (seq!['-'] + lol_pat()));
            } else {
                assert(with_lol =~= base + Seq::<char>::empty());
            }
        }
        let has_mf: bool = contains_chars(v, &mfp);
        if has_mf {
            out.push('-');
            extend_chars(&mut out, &mfp);
        }
        proof {
            if has_mf {
                assert(out@ =~= with_lol + (seq!['-'] + mf_pat()));
            } else {
                assert(out@ =~= with_lol + Seq::<char>::empty());
            }
            assert(out@ =~= base + marker_suffix(v@));
        }
        Some(out)
    }
}

/// The semantic version string derived from a raw tag, or `None` for a tag
/// that holds `rc` with no digit run beside it.
pub fn derive_semver(raw: &str) -> (r: Option<String>)
    ensures
        opt_str_view(r) == semver_of(raw@),
{
    let v = chars_vec(raw);
    match derive_semver_chars(&v) {
        Some(out) => Some(string_from_chars(&out)),
        None => None,
    }
}

/// Whether `suf` is a suffix of `s`.
pub open spec fn ends_with(s: Seq<char>, suf: Seq<char>) -> bool {
    s.len() >= suf.len() && s.subrange(s.len() - suf.len(), s.len() as int) == suf
}

/// A concatenation ends with its right part.
proof fn lemma_concat_ends_with(a: Seq<char>, b: Seq<char>)
    ensures
        ends_with(a + b, b),
{
    assert((a + b).subrange(a.len() as int, (a + b).len() as int) =~= b);
}

/// Every digit run is a non-empty string of decimal digits.
proof fn lemma_runs_acc_digits(s: Seq<char>, cur: Seq<char>)
    requires
        forall|k: int| 0 <= k < cur.len() ==> is_digit_char(cur[k]),
    ensures
        forall|j: int|
            0 <= j < runs_acc(s, cur).len() ==> (#[trigger] runs_acc(s, cur)[j]).len() >= (
            if j == 0 && cur.len() > 0 {
                cur.len()
            } else {
                1
            }),
        forall|j: int, k: int|
            0 <= j < runs_acc(s, cur).len() && 0 <= k < runs_acc(s, cur)[j].len()
                ==> is_digit_char(#[trigger] runs_acc(s, cur)[j][k]),
    decreases s.len(),
{
    let out = runs_acc(s, cur);
    if s.len() == 0 {
    } else if is_digit_char(s[0]) {
        lemma_runs_acc_digits(s.skip(1), cur.push(s[0]));
        assert(out =~= runs_acc(s.skip(1), cur.push(s[0])));
    } else if cur.len() == 0 {
        lemma_runs_acc_digits(s.skip(1), cur);
        assert(out =~= runs_acc(s.skip(1), cur));
    } else {
        lemma_runs_acc_digits(s.skip(1), Seq::empty());
        let rest = runs_acc(s.skip(1), Seq::empty());
        assert(out =~= seq![cur] + rest);
        assert forall|j: int| 0 <= j < out.len() implies (#[trigger] out[j]).len() >= (
        if j == 0 && cur.len() > 0 {
            cur.len()
        } else {
            1
        }) by {
            if j == 0 {
                assert(out[j] == cur);
            } else {
                assert(out[j] == rest[j - 1]);
            }
        }
        assert forall|j: int, k: int|
            0 <= j < out.len() && 0 <= k < out[j].len() implies is_digit_char(
            #[trigger] out[j][k],
        ) by {
            if j == 0 {
                assert(out[j] == cur);
            } else {
                assert(out[j] == rest[j - 1]);
            }
        }
    }
}

/// The digit runs of a tag are non-empty strings of decimal digits.
pub proof fn lemma_digit_runs_digits(s: Seq<char>)
    ensures
        forall|j: int| 0 <= j < digit_runs(s).len() ==> (#[trigger] digit_runs(s)[j]).len() >= 1,
        forall|j: int, k: int|
            0 <= j < digit_runs(s).len() && 0 <= k < digit_runs(s)[j].len()
                ==> is_digit_char(#[trigger] digit_runs(s)[j][k]),
{
    lemma_runs_acc_digits(s, Seq::empty());
}

/// A raw tag with at most three digit runs and no release-candidate marker
/// derives to exactly three dot-separated components: its digit runs in
/// order, padded on the right with `0`, with any marker suffixes after them.
pub proof fn lemma_at_most_three_runs_pad_to_three(s: Seq<char>)
    requires
        !contains_seq(s, rc_pat()),
        digit_runs(s).len() <= 3,
    ensures
        semver_of(s) == Some(join_dots(pad3(digit_runs(s))) + marker_suffix(s)),
        pad3(digit_runs(s)).len() == 3,
        forall|i: int|
            0 <= i < digit_runs(s).len() ==> pad3(digit_runs(s))[i] == digit_runs(s)[i],
        forall|i: int| digit_runs(s).len() <= i < 3 ==> pad3(digit_runs(s))[i] == zero_comp(),
        forall|i: int| 0 <= i < 3 ==> (#[trigger] pad3(digit_runs(s))[i]).len() >= 1,
        forall|i: int, k: int|
            0 <= i < 3 && 0 <= k < pad3(digit_runs(s))[i].len() ==> is_digit_char(
                #[trigger] pad3(digit_runs(s))[i][k],
            ),
{
    lemma_digit_runs_digits(s);
    assert(is_digit_char('0'));
    let runs = digit_runs(s);
    assert forall|i: int| 0 <= i < 3 implies (#[trigger] pad3(runs)[i]).len() >= 1 by {
        if i < runs.len() {
            assert(pad3(runs)[i] == runs[i]);
        } else {
            assert(pad3(runs)[i] == zero_comp());
        }
    }
    assert forall|i: int, k: int|
        0 <= i < 3 && 0 <= k < pad3(runs)[i].len() implies is_digit_char(
        #[trigger] pad3(runs)[i][k],
    ) by {
        if i < runs.len() {
            assert(pad3(runs)[i] == runs[i]);
        } else {
            assert(pad3(runs)[i] == zero_comp());
        }
    }
}

/// A raw tag holding `rc<N>` for one of its later digit runs derives to a
/// version that ends in `-rc<N>`, whose main components leave run `N` out.
pub proof fn lemma_rc_tag_suffix(s: Seq<char>)
    requires
        contains_seq(s, rc_pat()),
        rc_index(s) is Some,
    ensures
        ({
            let k = rc_index(s)->0;
            &&& semver_of(s) == Some(
                join_dots(pad3(digit_runs(s).remove(k))) + seq!['-'] + rc_pat() + digit_runs(s)[k],
            )
            &&& ends_with(semver_of(s)->0, seq!['-', 'r', 'c'] + digit_runs(s)[k])
        }),
{
    let k = rc_index(s)->0;
    let main = join_dots(pad3(digit_runs(s).remove(k)));
    let suf = seq!['-', 'r', 'c'] + digit_runs(s)[k];
    assert(main + seq!['-'] + rc_pat() + digit_runs(s)[k] =~= main + suf);
    lemma_concat_ends_with(main, suf);
}

/// A raw tag holding `LoL` but neither `rc` nor `MF` derives to a version
/// that ends in `-LoL`.
pub proof fn lemma_lol_tag_suffix(s: Seq<char>)
    requires
        !contains_seq(s, rc_pat()),
        contains_seq(s, lol_pat()),
        !contains_seq(s, mf_pat()),
    ensures
        semver_of(s) is Some,
        ends_with(semver_of(s)->0, seq!['-', 'L', 'o', 'L']),
{
    let main = join_dots(pad3(digit_runs(s)));
    assert(marker_suffix(s) =~= seq!['-', 'L', 'o', 'L']);
    lemma_concat_ends_with(main, marker_suffix(s));
}

/// A raw tag holding `MF` but not `rc` derives to a version that ends in
/// `-MF`.
pub proof fn lemma_mf_tag_suffix(s: Seq<char>)
    requires
        !contains_seq(s, rc_pat()),
        contains_seq(s, mf_pat()),
    ensures
        semver_of(s) is Some,
        ends_with(semver_of(s)->0, seq!['-', 'M', 'F']),
{
    let pre = join_dots(pad3(digit_runs(s))) + (if contains_seq(s, lol_pat()) {
        seq!['-'] + lol_pat()
    } else {
        Seq::<char>::empty()
    });
    assert(join_dots(pad3(digit_runs(s))) + marker_suffix(s) =~= pre + (seq!['-'] + mf_pat()));
    lemma_concat_ends_with(pre, seq!['-'] + mf_pat());
    assert(seq!['-'] + mf_pat() =~= seq!['-', 'M', 'F']);
}

/// Derived versions are compared by plain lexicographic string order, a
/// strict total order on the derived strings: versions compare as equal
/// exactly when the strings are equal, the order flips with its
/// arguments, and it is transitive.  This holds digit by digit, so a
/// component of ten sorts before a component of nine.
pub proof fn lemma_compare_semver_is_lexicographic(a: Seq<char>, b: Seq<char>, c: Seq<char>)
    ensures
        (opt_lex_cmp(Some(a), Some(b)) == core::cmp::Ordering::Equal) <==> a == b,
        (opt_lex_cmp(Some(a), Some(b)) == core::cmp::Ordering::Less) <==> (opt_lex_cmp(
            Some(b),
            Some(a),
        ) == core::cmp::Ordering::Greater),
        opt_lex_cmp(Some(a), Some(b)) != core::cmp::Ordering::Greater && opt_lex_cmp(
            Some(b),
            Some(c),
        ) != core::cmp::Ordering::Greater ==> opt_lex_cmp(Some(a), Some(c))
            != core::cmp::Ordering::Greater,
{
    crate::text::lemma_lex_cmp_eq(a, b);
    crate::text::lemma_lex_cmp_flip(a, b);
    if crate::text::lex_cmp(a, b) != core::cmp::Ordering::Greater && crate::text::lex_cmp(b, c)
        != core::cmp::Ordering::Greater {
        crate::text::lemma_lex_le_trans(a, b, c);
    }
}

/// A raw release tag together with the semantic version derived from it.
/// Equality and the default order go by the raw string; `compare_semver`
/// orders by the derived version and decides which release is "latest".
#[derive(Debug)]
pub struct Tag {
    value: String,
    semver: Option<String>,
}

impl Tag {
    /// The raw tag string, as a sequence of characters.
    pub closed spec fn spec_value(&self) -> Seq<char> {
        self.value@
    }

    /// The derived semantic version, as a sequence of characters.
    pub closed spec fn spec_semver(&self) -> Option<Seq<char>> {
        opt_str_view(self.semver)
    }

    /// A well-formed tag carries the version derived from its raw string.
    pub open spec fn wf(&self) -> bool {
        self.spec_semver() == semver_of(self.spec_value())
    }

    /// A tag for the given raw string, with its derived version.
    pub fn new(git_tag: &str) -> (t: Tag)
        ensures
            t.spec_value() == git_tag@,
            t.wf(),
    {
        let semver = derive_semver(git_tag);
        Tag { value: git_tag.to_owned(), semver }
    }

    /// A tag for the given raw string.
    pub fn from(s: &str) -> (t: Tag)
        ensures
            t.spec_value() == s@,
            t.wf(),
    {
        Tag::new(s)
    }

    /// Orders two tags by their derived versions, in plain lexicographic
    /// string order; a tag without a derivable version comes first.
    pub fn compare_semver(a: &Tag, b: &Tag) -> (o: core::cmp::Ordering)
        ensures
            o == opt_lex_cmp(a.spec_semver(), b.spec_semver()),
    {
        match (&a.semver, &b.semver) {
            (None, None) => core::cmp::Ordering::Equal,
            (None, Some(_)) => core::cmp::Ordering::Less,
            (Some(_), None) => core::cmp::Ordering::Greater,
            (Some(x), Some(y)) => lex_cmp_str(x.as_str(), y.as_str()),
        }
    }

    /// Orders two tags by their raw strings.
    pub fn compare_value(a: &Tag, b: &Tag) -> (o: core::cmp::Ordering)
        ensures
            o == crate::text::lex_cmp(a.spec_value(), b.spec_value()),
    {
        lex_cmp_str(a.value.as_str(), b.value.as_str())
    }

    /// The derived semantic version, if one exists.
    pub fn semver(&self) -> (r: Option<&String>)
        ensures
            match r {
                Some(s) => self.spec_semver() == Some(s@),
                None => self.spec_semver() is None,
            },
    {
        self.semver.as_ref()
    }

    /// Replaces the derived semantic version.
    pub fn set_semver(&mut self, semver: Option<String>)
        ensures
            final(self).spec_semver() == opt_str_view(semver),
            final(self).spec_value() == old(self).spec_value(),
    {
        self.semver = semver;
    }

    /// The raw tag string.
    pub fn value(&self) -> (r: &String)
        ensures
            r@ == self.spec_value(),
    {
        &self.value
    }

    /// The raw tag string.
    pub fn str(&self) -> (r: &String)
        ensures
            r@ == self.spec_value(),
    {
        &self.value
    }
}

impl Clone for Tag {
    /// An identical copy of the tag.
    fn clone(&self) -> (r: Self)
        ensures
            r == *self,
    {
        let semver = match &self.semver {
            Some(s) => Some(s.clone()),
            None => None,
        };
        Tag { value: self.value.clone(), semver }
    }
}

impl PartialEq for Tag {
    /// Tags are equal when their raw strings are; the derived version is
    /// a function of the raw string and plays no part.
    fn eq(&self, other: &Tag) -> (r: bool)
    {
        crate::text::str_eq(self.value.as_str(), other.value.as_str())
    }
}

impl Eq for Tag {}

impl vstd::std_specs::cmp::PartialEqSpecImpl for Tag {
    open spec fn obeys_eq_spec() -> bool {
        true
    }

    open spec fn eq_spec(&self, other: &Tag) -> bool {
        self.spec_value() == other.spec_value()
    }
}

impl Default for Tag {
    /// The tag of the empty string.
    fn default() -> (t: Tag)
        ensures
            t.spec_value() == Seq::<char>::empty(),
            t.wf(),
    {
        let t = Tag::new("");
        proof {
            reveal_strlit("");
            assert(t.spec_value() =~= Seq::<char>::empty());
        }
        t
    }
}

/// The sub-variant of a Wine tag: the standard build or the `LoL` build.
#[derive(Clone, Copy, Debug, PartialEq, Eq, Hash, Structural)]
pub enum WineTagKind {
    WineGe,
    LolWineGe,
}

/// Which compatibility tool a tag belongs to; drives the remote repository,
/// the decompression algorithm and the host application.
#[derive(Clone, Copy, Debug, PartialEq, Eq, Hash, Structural)]
pub enum TagKind {
    Proton,
    Wine { kind: WineTagKind },
}

/// The error of reading a tag kind from an unknown string.
#[derive(Debug)]
pub enum TagKindError {
    UnknownString,
}

impl TagKind {
    /// The kind of standard Wine GE tags.
    pub fn wine() -> (k: TagKind)
        ensures
            k == (TagKind::Wine { kind: WineTagKind::WineGe }),
    {
        TagKind::Wine { kind: WineTagKind::WineGe }
    }

    /// The kind of Wine GE (LoL) tags.
    pub fn lol() -> (k: TagKind)
        ensures
            k == (TagKind::Wine { kind: WineTagKind::LolWineGe }),
    {
        TagKind::Wine { kind: WineTagKind::LolWineGe }
    }

    /// Every tag kind, in declaration order.
    pub fn values() -> (v: Vec<TagKind>)
        ensures
            v@ =~= seq![
                TagKind::Proton,
                TagKind::Wine { kind: WineTagKind::WineGe },
                TagKind::Wine { kind: WineTagKind::LolWineGe },
            ],
    {
        let mut v: Vec<TagKind> = Vec::new();
        v.push(TagKind::Proton);
        v.push(TagKind::Wine { kind: WineTagKind::WineGe });
        v.push(TagKind::Wine { kind: WineTagKind::LolWineGe });
        v
    }

    /// The display name of the compatibility tool the kind belongs to.
    pub fn compatibility_tool_name(&self) -> (r: String)
        ensures
            match self {
                TagKind::Proton => r@ == "Proton GE"@,
                TagKind::Wine { kind: WineTagKind::WineGe } => r@ == "Wine GE"@,
                TagKind::Wine { kind: WineTagKind::LolWineGe } => r@ == "Wine GE (LoL)"@,
            },
    {
        match self {
            TagKind::Proton => "Proton GE".to_owned(),
            TagKind::Wine { kind: WineTagKind::WineGe } => "Wine GE".to_owned(),
            TagKind::Wine { kind: WineTagKind::LolWineGe } => "Wine GE (LoL)".to_owned(),
        }
    }

    /// The storage name of the kind.
    pub fn str(&self) -> (r: String)
        ensures
            match self {
                TagKind::Proton => r@ == "Proton"@,
                TagKind::Wine { kind: WineTagKind::WineGe } => r@ == "Wine"@,
                TagKind::Wine { kind: WineTagKind::LolWineGe } => r@ == "LoL_Wine"@,
            },
    {
        match self {
            TagKind::Proton => "Proton".to_owned(),
            TagKind::Wine { kind: WineTagKind::WineGe } => "Wine".to_owned(),
            TagKind::Wine { kind: WineTagKind::LolWineGe } => "LoL_Wine".to_owned(),
        }
    }

    /// The kind stored under the given name, or an error for any other
    /// string.
    pub fn from_str(s: &str) -> (r: Result<TagKind, TagKindError>)
        ensures
            s@ == "Proton"@ ==> r == Ok::<TagKind, TagKindError>(TagKind::Proton),
            s@ == "Wine"@ ==> r == Ok::<TagKind, TagKindError>(
                TagKind::Wine { kind: WineTagKind::WineGe },
            ),
            s@ == "LoL_Wine"@ ==> r == Ok::<TagKind, TagKindError>(
                TagKind::Wine { kind: WineTagKind::LolWineGe },
            ),
            s@ != "Proton"@ && s@ != "Wine"@ && s@ != "LoL_Wine"@ ==> r matches Err(
                TagKindError::UnknownString,
            ),
    {
        proof {
            reveal_strlit("Proton");
            reveal_strlit("Wine");
            reveal_strlit("LoL_Wine");
            assert("Proton"@.len() == 6);
            assert("Wine"@.len() == 4);
            assert("LoL_Wine"@.len() == 8);
        }
        if crate::text::str_eq(s, "Proton") {
            Ok(TagKind::Proton)
        } else if crate::text::str_eq(s, "Wine") {
            Ok(TagKind::Wine { kind: WineTagKind::WineGe })
        } else if crate::text::str_eq(s, "LoL_Wine") {
            Ok(TagKind::Wine { kind: WineTagKind::LolWineGe })
        } else {
            Err(TagKindError::UnknownString)
        }
    }
}

} // verus!
