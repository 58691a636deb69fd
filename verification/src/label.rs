//! User-assigned labels that tell apart several installs of one tag.
//!
//! A label defaults to the tag itself; when a duplicate install would reuse
//! an existing label, the registry synthesizes the next free one by
//! suffixing an incrementing counter (`TAG_1`, `TAG_2`, ...).
use vstd::prelude::*;

use crate::tag::is_digit_char;
use crate::text::{chars_vec, contains_chars, contains_seq, find_last, last_idx_of, lex_cmp, lex_cmp_chars};

verus! {

/// The numeric value of a decimal digit.
pub open spec fn digit_val(c: char) -> int {
    c as int - 48
}

/// The value of a string of decimal digits.
pub open spec fn dec_value(s: Seq<char>) -> int
    decreases s.len(),
{
    if s.len() == 0 {
        0
    } else {
        dec_value(s.drop_last()) * 10 + digit_val(s.last())
    }
}

/// The canonical decimal digits of a number.
pub open spec fn dec_digits(n: int) -> Seq<char>
    decreases n,
{
    if n <= 9 {
        seq![((48 + if n >= 0 { n } else { 0 }) as u32) as char]
    } else {
        dec_digits(n / 10).push(((48 + n % 10) as u32) as char)
    }
}

/// The value of a digit string is never negative.
proof fn lemma_dec_value_nonneg(s: Seq<char>)
    requires
        forall|k: int| 0 <= k < s.len() ==> is_digit_char(#[trigger] s[k]),
    ensures
        dec_value(s) >= 0,
    decreases s.len(),
{
    if s.len() > 0 {
        lemma_dec_value_nonneg(s.drop_last());
    }
}

/// Extending a digit string on the right never lowers its value.
proof fn lemma_dec_value_prefix_le(s: Seq<char>, j: int)
    requires
        forall|k: int| 0 <= k < s.len() ==> is_digit_char(#[trigger] s[k]),
        0 <= j <= s.len(),
    ensures
        dec_value(s.subrange(0, j)) <= dec_value(s),
    decreases s.len() - j,
{
    if j == s.len() {
        assert(s.subrange(0, j) =~= s);
    } else {
        lemma_dec_value_prefix_le(s, j + 1);
        let p = s.subrange(0, j + 1);
        assert(p.drop_last() =~= s.subrange(0, j));
        lemma_dec_value_nonneg(s.subrange(0, j));
        assert(dec_value(p) == dec_value(s.subrange(0, j)) * 10 + digit_val(s[j]));
        assert(dec_value(s.subrange(0, j)) * 10 >= dec_value(s.subrange(0, j)));
    }
}

/// Reads the decimal number held in `v` from `from` to the end: `None`
/// when that part is empty, holds a non-digit, or exceeds `usize`.
fn parse_dec(v: &Vec<char>, from: usize) -> (r: Option<usize>)
    requires
        from <= v@.len(),
    ensures
        match r {
            Some(n) => {
                &&& v@.skip(from as int).len() > 0
                &&& forall|k: int|
                    from <= k < v@.len() ==> is_digit_char(#[trigger] v@[k])
                &&& n == dec_value(v@.skip(from as int))
            },
            None => v@.skip(from as int).len() == 0 || (exists|k: int|
                from <= k < v@.len() && !is_digit_char(#[trigger] v@[k])) || (forall|k: int|
                from <= k < v@.len() ==> is_digit_char(#[trigger] v@[k])) && dec_value(
                v@.skip(from as int),
            ) > usize::MAX,
        },
{
    if from == v.len() {
        return None;
    }
    let ghost suf = v@.skip(from as int);
    let mut i: usize = from;
    let mut cur: usize = 0;
    while i < v.len()
        invariant
            from <= i <= v@.len(),
            from < v@.len(),
            suf == v@.skip(from as int),
            forall|k: int| from <= k < i ==> is_digit_char(#[trigger] v@[k]),
            cur == dec_value(v@.subrange(from as int, i as int)),
        decreases v@.len() - i,
    {
        let c: char = v[i];
        if !('0' <= c && c <= '9') {
            return None;
        }
        let d: usize = (c as u32 as usize) - 48;
        proof {
            assert(is_digit_char(v@[i as int]));
            assert(d == digit_val(v@[i as int]));
        }
        if cur > (usize::MAX - d) / 10 {
            proof {
                let p = v@.subrange(from as int, i + 1);
                assert(p.drop_last() =~= v@.subrange(from as int, i as int));
                assert(dec_value(p) == cur * 10 + d);
                assert(cur * 10 + d > usize::MAX);
                if forall|k: int| from <= k < v@.len() ==> is_digit_char(#[trigger] v@[k]) {
                    let w = v@.skip(from as int);
                    assert forall|k: int| 0 <= k < w.len() implies is_digit_char(#[trigger] w[k]) by {
                        assert(w[k] == v@[from + k]);
                    }
                    lemma_dec_value_prefix_le(w, i + 1 - from);
                    assert(w.subrange(0, i + 1 - from) =~= p);
                    assert(dec_value(w) > usize::MAX);
                }
            }
            return None;
        }
        let next: usize = cur * 10 + d;
        proof {
            let p = v@.subrange(from as int, i + 1);
            assert(p.drop_last() =~= v@.subrange(from as int, i as int));
            assert(dec_value(p) == cur * 10 + d);
        }
        cur = next;
        i = i + 1;
    }
    proof {
        assert(v@.subrange(from as int, v@.len() as int) =~= v@.skip(from as int));
    }
    Some(cur)
}

/// Relies on usize's Display through ToString: the canonical decimal
/// digits of the number.
#[verifier::external_body]
pub(crate) fn render_usize(n: usize) -> (r: String)
    ensures
        r@ == dec_digits(n as int),
{
    n.to_string()
}

/// The part of a label after its last underscore; the whole label when it
/// has none.
pub open spec fn counter_part(s: Seq<char>) -> Seq<char> {
    if last_idx_of(s, '_') >= 0 {
        s.skip(last_idx_of(s, '_') + 1)
    } else {
        s
    }
}

/// The counter carried by a label: the decimal value of the part after its
/// last underscore, when that part is a non-empty digit string that fits
/// `usize`.
pub open spec fn label_counter(s: Seq<char>) -> Option<int> {
    let p = counter_part(s);
    if p.len() > 0 && (forall|k: int| 0 <= k < p.len() ==> is_digit_char(#[trigger] p[k]))
        && dec_value(p) <= usize::MAX {
        Some(dec_value(p))
    } else {
        None
    }
}

/// The lexicographically greatest of the sequences.
pub open spec fn seq_lex_max(s: Seq<Seq<char>>) -> Seq<char>
    decreases s.len(),
{
    if s.len() == 0 {
        Seq::empty()
    } else if s.len() == 1 {
        s[0]
    } else {
        let m = seq_lex_max(s.drop_last());
        if lex_cmp(m, s.last()) == core::cmp::Ordering::Greater {
            m
        } else {
            s.last()
        }
    }
}

/// The error of building a label from an over-long string.
#[derive(Debug)]
pub enum LabelError {
    LabelTooLong(String),
}

/// A disambiguating name for one install of a tag, at most 100 characters.
#[derive(Debug)]
pub struct Label(String);

impl Label {
    /// The characters of the label.
    pub closed spec fn spec_str(&self) -> Seq<char> {
        self.0@
    }

    /// A label is at most 100 characters long.
    pub open spec fn wf(&self) -> bool {
        self.spec_str().len() <= 100
    }

    /// A label holding the given string, or an error when it is longer
    /// than 100 characters.
    pub fn new(value: &str) -> (r: Result<Label, LabelError>)
        ensures
            match r {
                Ok(l) => l.spec_str() == value@ && value@.len() <= 100,
                Err(e) => value@.len() > 100 && (e matches LabelError::LabelTooLong(s)
                    && s@ == value@),
            },
    {
        let n: usize = value.unicode_len();
        if n > 100 {
            Err(LabelError::LabelTooLong(value.to_owned()))
        } else {
            Ok(Label(value.to_owned()))
        }
    }

    /// Replaces the label's string, or reports it longer than 100
    /// characters and leaves the label unchanged.
    pub fn update(&mut self, value: &str) -> (r: Result<(), LabelError>)
        ensures
            match r {
                Ok(()) => final(self).spec_str() == value@ && value@.len() <= 100,
                Err(_) => value@.len() > 100 && *final(self) == *old(self),
            },
    {
        let n: usize = value.unicode_len();
        if n > 100 {
            Err(LabelError::LabelTooLong(value.to_owned()))
        } else {
            self.0 = value.to_owned();
            Ok(())
        }
    }

    /// The label's string.
    pub fn str(&self) -> (r: &String)
        ensures
            r@ == self.spec_str(),
    {
        &self.0
    }

    /// The label that a fresh duplicate install of `tag` gets: the
    /// existing labels holding `tag` are searched, and the counter of the
    /// lexicographically greatest of them is incremented; with none, or
    /// none carrying a counter, the first counter is 1.
    pub fn create_latest_version_label(tag: &str, labels: Vec<Label>) -> (r: Result<
        Label,
        LabelError,
    >)
        ensures
            ({
                let f = labels_with_tag(label_strs(labels@), tag@);
                let n: int = if f.len() == 0 {
                    1
                } else {
                    match label_counter(seq_lex_max(f)) {
                        Some(c) => if c < usize::MAX {
                            c + 1
                        } else {
                            1
                        },
                        None => 1,
                    }
                };
                match r {
                    Ok(l) => l.spec_str() == tag@ + seq!['_'] + dec_digits(n) && l.wf(),
                    Err(_) => (tag@ + seq!['_'] + dec_digits(n)).len() > 100,
                }
            }),
    {
        let tagv = chars_vec(tag);
        let mut best: Option<Vec<char>> = None;
        let mut i: usize = 0;
        let ghost all = label_strs(labels@);
        while i < labels.len()
            invariant
                i <= labels@.len(),
                all == label_strs(labels@),
                tagv@ == tag@,
                match best {
                    Some(b) => labels_with_tag(all.subrange(0, i as int), tag@).len() > 0 && b@
                        == seq_lex_max(labels_with_tag(all.subrange(0, i as int), tag@)),
                    None => labels_with_tag(all.subrange(0, i as int), tag@).len() == 0,
                },
            decreases labels@.len() - i,
        {
            let lv = chars_vec(labels[i].str().as_str());
            proof {
                assert(all[i as int] == labels@[i as int].spec_str());
                assert(all.subrange(0, i + 1).drop_last() =~= all.subrange(0, i as int));
                assert(all.subrange(0, i + 1).last() == all[i as int]);
                assert(lv@ == all[i as int]);
            }
            if contains_chars(&lv, &tagv) {
                let taken: bool = match &best {
                    Some(b) => {
                        let o = lex_cmp_chars(b, &lv);
                        !matches!(o, core::cmp::Ordering::Greater)
                    },
                    None => true,
                };
                proof {
                    let fprev = labels_with_tag(all.subrange(0, i as int), tag@);
                    let fnow = labels_with_tag(all.subrange(0, i + 1), tag@);
                    assert(fnow == fprev.push(all[i as int]));
                    assert(fnow.drop_last() =~= fprev);
                    assert(fnow.last() == all[i as int]);
                }
                if taken {
                    best = Some(lv);
                }
            } else {
                proof {
                    let fprev = labels_with_tag(all.subrange(0, i as int), tag@);
                    let fnow = labels_with_tag(all.subrange(0, i + 1), tag@);
                    assert(fnow == fprev);
                }
            }
            i = i + 1;
        }
        proof {
            assert(all.subrange(0, all.len() as int) =~= all);
        }
        let counter: usize = match &best {
            Some(b) => {
                match find_last(b, '_') {
                    Some(idx) => {
                        match parse_dec(b, idx + 1) {
                            Some(c) => {
                                proof {
                                    let p = counter_part(b@);
                                    assert(p =~= b@.skip(idx + 1));
                                    assert forall|k: int| 0 <= k < p.len()
                                        implies is_digit_char(#[trigger] p[k]) by {
                                        assert(p[k] == b@[idx + 1 + k]);
                                    }
                                    assert(p.len() > 0);
                                    assert(dec_value(p) == c as int);
                                    assert(label_counter(b@) == Some(c as int));
                                    assert(b@ == seq_lex_max(labels_with_tag(label_strs(labels@), tag@)));
                                }
                                if c < usize::MAX {
                                    c + 1
                                } else {
                                    1
                                }
                            },
                            None => {
                                proof {
                                    let p = counter_part(b@);
                                    assert(p =~= b@.skip(idx + 1));
                                    if p.len() > 0 && (forall|k: int|
                                        0 <= k < p.len() ==> is_digit_char(#[trigger] p[k]))
                                        && dec_value(p) <= usize::MAX {
                                        assert forall|k: int|
                                            idx + 1 <= k < b@.len() implies is_digit_char(
                                            #[trigger] b@[k],
                                        ) by {
                                            assert(b@[k] == p[k - idx - 1]);
                                        }
                                    }
                                    assert(label_counter(b@) is None);
                                }
                                1
                            },
                        }
                    },
                    None => {
                        match parse_dec(b, 0) {
                            Some(c) => {
                                proof {
                                    let p = counter_part(b@);
                                    assert(p =~= b@.skip(0));
                                    assert forall|k: int| 0 <= k < p.len()
                                        implies is_digit_char(#[trigger] p[k]) by {
                                        assert(p[k] == b@[k]);
                                    }
                                    assert(label_counter(b@) == Some(c as int));
                                }
                                if c < usize::MAX {
                                    c + 1
                                } else {
                                    1
                                }
                            },
                            None => {
                                proof {
                                    let p = counter_part(b@);
                                    assert(p =~= b@);
                                    if p.len() > 0 && (forall|k: int|
                                        0 <= k < p.len() ==> is_digit_char(#[trigger] p[k]))
                                        && dec_value(p) <= usize::MAX {
                                        assert forall|k: int|
                                            0 <= k < b@.len() implies is_digit_char(
                                            #[trigger] b@[k],
                                        ) by {
                                            assert(b@[k] == p[k]);
                                        }
                                        assert(b@.skip(0) =~= b@);
                                        assert(dec_value(b@.skip(0)) <= usize::MAX);
                                    }
                                    assert(label_counter(b@) is None);
                                }
                                1
                            },
                        }
                    },
                }
            },
            None => 1,
        };
                let digits = render_usize(counter);
        let mut out = tag.to_owned();
        crate::text::push_char(&mut out, '_');
        let ghost mid = out@;
        out.append(digits.as_str());
        proof {
            assert(mid =~= tag@ + seq!['_']);
            assert(out@ =~= tag@ + seq!['_'] + dec_digits(counter as int));
        }
        let n: usize = out.unicode_len();
        if n > 100 {
            Err(LabelError::LabelTooLong(out))
        } else {
            Ok(Label(out))
        }
    }
}

/// The strings of a sequence of labels.
pub open spec fn label_strs(ls: Seq<Label>) -> Seq<Seq<char>> {
    Seq::new(ls.len(), |i: int| ls[i].spec_str())
}

/// The strings among `ls` that hold `t`, in order.
pub open spec fn labels_with_tag(ls: Seq<Seq<char>>, t: Seq<char>) -> Seq<Seq<char>>
    decreases ls.len(),
{
    if ls.len() == 0 {
        Seq::empty()
    } else if contains_seq(ls.last(), t) {
        labels_with_tag(ls.drop_last(), t).push(ls.last())
    } else {
        labels_with_tag(ls.drop_last(), t)
    }
}

impl Clone for Label {
    /// An identical copy of the label.
    fn clone(&self) -> (r: Self)
        ensures
            r == *self,
    {
        Label(self.0.clone())
    }
}

impl PartialEq for Label {
    /// Labels are equal when their strings are.
    fn eq(&self, other: &Label) -> (r: bool) {
        crate::text::str_eq(self.0.as_str(), other.0.as_str())
    }
}

impl Eq for Label {}

impl vstd::std_specs::cmp::PartialEqSpecImpl for Label {
    open spec fn obeys_eq_spec() -> bool {
        true
    }

    open spec fn eq_spec(&self, other: &Label) -> bool {
        self.spec_str() == other.spec_str()
    }
}

impl Default for Label {
    /// The empty label.
    fn default() -> (l: Label)
        ensures
            l.spec_str() == Seq::<char>::empty(),
    {
        proof {
            reveal_strlit("");
        }
        Label("".to_owned())
    }
}

} // verus!
