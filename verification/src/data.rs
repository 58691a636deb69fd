//! The registry of managed versions: every release that has been extracted
//! and is tracked, keyed by tag, tool kind and label.
//!
//! Adding an entry whose key is taken does not overwrite it: a fresh label
//! with the next free counter is synthesized instead.  Lookup and removal
//! go by tag and kind alone, the natural key of the collection.
use vstd::prelude::*;

use crate::label::{
    dec_digits, label_counter, labels_with_tag, seq_lex_max, Label,
};
use crate::tag::{Tag, TagKind, WineTagKind};
use crate::text::{opt_lex_cmp, str_eq};
use crate::version::{opt_label_view, Version, Versioned};

verus! {

/// Whether a managed version carries the given tag string and kind.
pub open spec fn mv_matches(m: ManagedVersion, t: Seq<char>, k: TagKind) -> bool {
    m.spec_tag().spec_value() == t && m.spec_kind() == k
}

/// Two managed versions share the registry's lookup key: tag and kind.
pub open spec fn mv_key_eq(a: ManagedVersion, b: ManagedVersion) -> bool {
    a.spec_tag().spec_value() == b.spec_tag().spec_value() && a.spec_kind() == b.spec_kind()
}

/// The first index at or past `i` of an entry with the given tag and kind.
pub open spec fn first_match_from(
    vs: Seq<ManagedVersion>,
    t: Seq<char>,
    k: TagKind,
    i: int,
) -> Option<int>
    decreases vs.len() - i,
{
    if i < 0 || i >= vs.len() {
        None
    } else if mv_matches(vs[i], t, k) {
        Some(i)
    } else {
        first_match_from(vs, t, k, i + 1)
    }
}

/// The first index of an entry with the given tag and kind.
pub open spec fn first_match(vs: Seq<ManagedVersion>, t: Seq<char>, k: TagKind) -> Option<int> {
    first_match_from(vs, t, k, 0)
}

/// A first-match index lies within the entries and is a match, and nothing
/// before it matches.
pub proof fn lemma_first_match_props(vs: Seq<ManagedVersion>, t: Seq<char>, k: TagKind, i0: int)
    requires
        0 <= i0,
    ensures
        match first_match_from(vs, t, k, i0) {
            Some(i) => i0 <= i < vs.len() && mv_matches(vs[i], t, k) && forall|j: int|
                i0 <= j < i ==> !mv_matches(#[trigger] vs[j], t, k),
            None => forall|j: int| i0 <= j < vs.len() ==> !mv_matches(#[trigger] vs[j], t, k),
        },
    decreases vs.len() - i0,
{
    if i0 < vs.len() && !mv_matches(vs[i0], t, k) {
        lemma_first_match_props(vs, t, k, i0 + 1);
    }
}

/// The string an entry is ranked by when the latest of a kind is chosen:
/// its derived version, or the raw tag when no version could be derived.
pub open spec fn rank_key(m: ManagedVersion) -> Seq<char> {
    match m.spec_tag().spec_semver() {
        Some(s) => s,
        None => m.spec_tag().spec_value(),
    }
}

/// The index that the registry's "latest of a kind" search has reached
/// after looking at entries before `i`, carrying the best index so far.
pub open spec fn latest_from(
    vs: Seq<ManagedVersion>,
    k: TagKind,
    i: int,
    best: Option<int>,
) -> Option<int>
    decreases vs.len() - i,
{
    if i < 0 || i >= vs.len() {
        best
    } else {
        let keep = match best {
            Some(b) => !(vs[i].spec_kind() == k && crate::text::lex_cmp(
                rank_key(vs[b]),
                rank_key(vs[i]),
            ) != core::cmp::Ordering::Greater),
            None => !(vs[i].spec_kind() == k),
        };
        latest_from(vs, k, i + 1, if keep {
            best
        } else {
            Some(i)
        })
    }
}

/// The index of the latest entry of a kind: the greatest derived version
/// under lexicographic order, the last one on ties.
pub open spec fn latest_idx(vs: Seq<ManagedVersion>, k: TagKind) -> Option<int> {
    latest_from(vs, k, 0, None)
}

/// What it means to be the latest entry of a kind: the index holds the
/// kind, no entry of the kind has a strictly greater derived version, and
/// every later entry of the kind has a strictly smaller one — ties go to
/// the last entry.
pub open spec fn is_latest_of_kind(vs: Seq<ManagedVersion>, k: TagKind, i: int) -> bool {
    &&& 0 <= i < vs.len()
    &&& vs[i].spec_kind() == k
    &&& forall|j: int|
        0 <= j < vs.len() && (#[trigger] vs[j]).spec_kind() == k ==> crate::text::lex_cmp(
            rank_key(vs[j]),
            rank_key(vs[i]),
        ) != core::cmp::Ordering::Greater
    &&& forall|j: int|
        i < j < vs.len() && (#[trigger] vs[j]).spec_kind() == k ==> crate::text::lex_cmp(
            rank_key(vs[i]),
            rank_key(vs[j]),
        ) == core::cmp::Ordering::Greater
}

/// A string never compares strictly above itself.
proof fn lemma_lex_refl(a: Seq<char>)
    ensures
        crate::text::lex_cmp(a, a) != core::cmp::Ordering::Greater,
{
    crate::text::lemma_lex_cmp_eq(a, a);
}

/// The search over the remaining entries keeps picking the latest: from a
/// best index that is latest among the entries already seen, it reaches
/// the index that is latest among them all.
proof fn lemma_latest_from_props(
    vs: Seq<ManagedVersion>,
    k: TagKind,
    i: int,
    best: Option<int>,
)
    requires
        0 <= i <= vs.len(),
        match best {
            Some(b) => 0 <= b < i && vs[b].spec_kind() == k && (forall|j: int|
                0 <= j < i && (#[trigger] vs[j]).spec_kind() == k ==> crate::text::lex_cmp(
                    rank_key(vs[j]),
                    rank_key(vs[b]),
                ) != core::cmp::Ordering::Greater) && (forall|j: int|
                b < j < i && (#[trigger] vs[j]).spec_kind() == k ==> crate::text::lex_cmp(
                    rank_key(vs[b]),
                    rank_key(vs[j]),
                ) == core::cmp::Ordering::Greater),
            None => forall|j: int| 0 <= j < i ==> (#[trigger] vs[j]).spec_kind() != k,
        },
    ensures
        match latest_from(vs, k, i, best) {
            Some(r) => is_latest_of_kind(vs, k, r),
            None => forall|j: int| 0 <= j < vs.len() ==> (#[trigger] vs[j]).spec_kind() != k,
        },
    decreases vs.len() - i,
{
    if i >= vs.len() {
        match best {
            Some(b) => {
                assert(is_latest_of_kind(vs, k, b));
            },
            None => {},
        }
    } else {
        let sv_i = rank_key(vs[i]);
        match best {
            Some(b) => {
                let sv_b = rank_key(vs[b]);
                if vs[i].spec_kind() == k && crate::text::lex_cmp(sv_b, sv_i)
                    != core::cmp::Ordering::Greater {
                    assert forall|j: int|
                        0 <= j < i + 1 && (#[trigger] vs[j]).spec_kind() == k
                        implies crate::text::lex_cmp(rank_key(vs[j]), sv_i)
                        != core::cmp::Ordering::Greater by {
                        let sv_j = rank_key(vs[j]);
                        if j == i {
                            lemma_lex_refl(sv_i);
                        } else if j <= b {
                            crate::text::lemma_lex_le_trans(sv_j, sv_b, sv_i);
                        } else {
                            crate::text::lemma_lex_lt_le_trans(sv_j, sv_b, sv_i);
                        }
                    }
                    lemma_latest_from_props(vs, k, i + 1, Some(i));
                } else {
                    if vs[i].spec_kind() == k {
                        crate::text::lemma_lex_cmp_flip(sv_i, sv_b);
                    }
                    lemma_latest_from_props(vs, k, i + 1, Some(b));
                }
            },
            None => {
                if vs[i].spec_kind() == k {
                    lemma_lex_refl(sv_i);
                    lemma_latest_from_props(vs, k, i + 1, Some(i));
                } else {
                    lemma_latest_from_props(vs, k, i + 1, None);
                }
            },
        }
    }
}

/// The index that `find_latest_by_kind` reports really is the latest:
/// the greatest derived version of the kind under lexicographic order,
/// the last entry on ties; and a report of none means the kind has no
/// entries.
pub proof fn lemma_latest_idx_is_latest(vs: Seq<ManagedVersion>, k: TagKind)
    ensures
        match latest_idx(vs, k) {
            Some(i) => is_latest_of_kind(vs, k, i),
            None => forall|j: int| 0 <= j < vs.len() ==> (#[trigger] vs[j]).spec_kind() != k,
        },
{
    lemma_latest_from_props(vs, k, 0, None);
}

/// The effective labels of the entries with the given tag and kind, in
/// order: the entry's own label, or its tag when it carries none and the
/// tag is short enough to be one.
pub open spec fn key_labels(vs: Seq<ManagedVersion>, t: Seq<char>, k: TagKind) -> Seq<Seq<char>>
    decreases vs.len(),
{
    if vs.len() == 0 {
        Seq::empty()
    } else {
        let rest = key_labels(vs.drop_last(), t, k);
        if mv_matches(vs.last(), t, k) {
            match vs.last().spec_label() {
                Some(l) => rest.push(l.spec_str()),
                None => if t.len() <= 100 {
                    rest.push(t)
                } else {
                    rest
                },
            }
        } else {
            rest
        }
    }
}

/// The label an entry answers to: its own, or its tag.
pub open spec fn effective_label(m: ManagedVersion) -> Seq<char> {
    match m.spec_label() {
        Some(l) => l.spec_str(),
        None => m.spec_tag().spec_value(),
    }
}

/// Whether some entry holds the given tag, kind and effective label.
pub open spec fn has_entry_with_label(
    vs: Seq<ManagedVersion>,
    t: Seq<char>,
    k: TagKind,
    el: Seq<char>,
) -> bool {
    exists|j: int|
        0 <= j < vs.len() && mv_matches(#[trigger] vs[j], t, k) && effective_label(vs[j]) == el
}

/// The label that `add` synthesizes for a duplicate of tag `t`, from the
/// effective labels already taken for that key.
pub open spec fn synthesized_label(t: Seq<char>, taken: Seq<Seq<char>>) -> Seq<char> {
    let f = labels_with_tag(taken, t);
    let n: int = if f.len() == 0 {
        1
    } else {
        match label_counter(seq_lex_max(f)) {
            Some(c) => if c < usize::MAX {
                c + 1
            } else {
                1
            },
            None => 1,
        }
    };
    t + seq!['_'] + dec_digits(n)
}

/// One release that this system tracks: its tag and kind, the directory
/// its files live under, and an optional disambiguating label.
#[derive(Debug)]
pub struct ManagedVersion {
    tag: Tag,
    kind: TagKind,
    directory_name: String,
    label: Option<Label>,
}

impl ManagedVersion {
    /// The directory name, as characters.
    pub closed spec fn spec_directory_name(&self) -> Seq<char> {
        self.directory_name@
    }

    /// The optional label.
    pub closed spec fn spec_label(&self) -> Option<Label> {
        self.label
    }

    /// A managed version of the given tag, label, kind and directory name.
    pub fn new(tag: &str, label: &str, kind: TagKind, directory_name: &str) -> (m: ManagedVersion)
        requires
            label@.len() <= 100,
        ensures
            m.spec_tag().spec_value() == tag@,
            m.spec_tag().wf(),
            m.spec_kind() == kind,
            m.spec_directory_name() == directory_name@,
            opt_label_view(m.spec_label()) == Some(label@),
    {
        let l = match Label::new(label) {
            Ok(l) => l,
            Err(_) => Label::default(),
        };
        ManagedVersion {
            tag: Tag::new(tag),
            kind,
            directory_name: directory_name.to_owned(),
            label: Some(l),
        }
    }

    /// A managed version from already built parts.
    pub fn from_parts(tag: Tag, kind: TagKind, directory_name: String, label: Option<Label>) -> (m:
        ManagedVersion)
        ensures
            m.spec_tag() == tag,
            m.spec_kind() == kind,
            m.spec_directory_name() == directory_name@,
            m.spec_label() == label,
    {
        ManagedVersion { tag, kind, directory_name, label }
    }

    /// The tag.
    pub fn tag(&self) -> (t: &Tag)
        ensures
            *t == self.spec_tag(),
    {
        &self.tag
    }

    /// The tool kind.
    pub fn kind(&self) -> (k: &TagKind)
        ensures
            *k == self.spec_kind(),
    {
        &self.kind
    }

    /// Replaces the tag.
    pub fn set_tag(&mut self, tag: &str)
        ensures
            final(self).spec_tag().spec_value() == tag@,
            final(self).spec_tag().wf(),
            final(self).spec_kind() == old(self).spec_kind(),
            final(self).spec_directory_name() == old(self).spec_directory_name(),
            final(self).spec_label() == old(self).spec_label(),
    {
        self.tag = Tag::new(tag);
    }

    /// Replaces the kind.
    pub fn set_kind(&mut self, kind: TagKind)
        ensures
            final(self).spec_kind() == kind,
            final(self).spec_tag() == old(self).spec_tag(),
            final(self).spec_directory_name() == old(self).spec_directory_name(),
            final(self).spec_label() == old(self).spec_label(),
    {
        self.kind = kind;
    }

    /// The directory name the extracted files live under.
    pub fn directory_name(&self) -> (r: &str)
        ensures
            r@ == self.spec_directory_name(),
    {
        self.directory_name.as_str()
    }

    /// Replaces the directory name.
    pub fn set_directory_name(&mut self, name: &str)
        ensures
            final(self).spec_directory_name() == name@,
            final(self).spec_tag() == old(self).spec_tag(),
            final(self).spec_kind() == old(self).spec_kind(),
            final(self).spec_label() == old(self).spec_label(),
    {
        self.directory_name = name.to_owned();
    }

    /// The optional label.
    pub fn label(&self) -> (r: Option<&Label>)
        ensures
            match r {
                Some(l) => self.spec_label() == Some(*l),
                None => self.spec_label() is None,
            },
    {
        self.label.as_ref()
    }

    /// Replaces the label.
    pub fn set_label(&mut self, label: Option<Label>)
        ensures
            final(self).spec_label() == label,
            final(self).spec_tag() == old(self).spec_tag(),
            final(self).spec_kind() == old(self).spec_kind(),
            final(self).spec_directory_name() == old(self).spec_directory_name(),
    {
        self.label = label;
    }
}

impl Versioned for ManagedVersion {
    closed spec fn spec_tag(&self) -> Tag {
        self.tag
    }

    closed spec fn spec_kind(&self) -> TagKind {
        self.kind
    }

    fn tag(&self) -> (t: &Tag) {
        &self.tag
    }

    fn kind(&self) -> (k: &TagKind) {
        &self.kind
    }
}

impl Clone for ManagedVersion {
    /// An identical copy of the entry.
    fn clone(&self) -> (r: Self)
        ensures
            r == *self,
    {
        let label = match &self.label {
            Some(l) => Some(l.clone()),
            None => None,
        };
        ManagedVersion {
            tag: self.tag.clone(),
            kind: self.kind,
            directory_name: self.directory_name.clone(),
            label,
        }
    }
}

impl PartialEq for ManagedVersion {
    /// Entries are equal when tag and kind are: the registry's key.
    fn eq(&self, other: &ManagedVersion) -> (r: bool) {
        str_eq(self.tag.value().as_str(), other.tag.value().as_str()) && self.kind == other.kind
    }
}

impl Eq for ManagedVersion {}

impl vstd::std_specs::cmp::PartialEqSpecImpl for ManagedVersion {
    open spec fn obeys_eq_spec() -> bool {
        true
    }

    open spec fn eq_spec(&self, other: &ManagedVersion) -> bool {
        mv_key_eq(*self, *other)
    }
}

impl ManagedVersion {
    /// The managed form of a version, with no directory yet.
    pub fn from(v: Version) -> (m: Self)
        ensures
            m.spec_tag() == v.spec_tag(),
            m.spec_kind() == v.spec_kind(),
            m.spec_directory_name() == Seq::<char>::empty(),
            m.spec_label() == v.spec_label(),
    {
        proof {
            reveal_strlit("");
        }
        let label = match v.label() {
            Some(l) => Some(l.clone()),
            None => None,
        };
        let m = ManagedVersion {
            tag: v.tag().clone(),
            kind: *v.kind(),
            directory_name: "".to_owned(),
            label,
        };
        proof {
            assert(m.spec_directory_name() =~= Seq::<char>::empty());
        }
        m
    }
}

/// The entries of a kind whose derived version comes strictly before the
/// given one, in order; an entry without a derivable version comes before
/// every derivable one.
pub open spec fn before_of(vs: Seq<ManagedVersion>, k: TagKind, sv: Seq<char>) -> Seq<
    ManagedVersion,
>
    decreases vs.len(),
{
    if vs.len() == 0 {
        Seq::empty()
    } else {
        let rest = before_of(vs.drop_last(), k, sv);
        if vs.last().spec_kind() == k && opt_lex_cmp(
            vs.last().spec_tag().spec_semver(),
            Some(sv),
        ) == core::cmp::Ordering::Less {
            rest.push(vs.last())
        } else {
            rest
        }
    }
}

/// The entries of a kind whose derived version lies in the inclusive range
/// from `s` to `e`, in order.
pub open spec fn in_range_of(
    vs: Seq<ManagedVersion>,
    k: TagKind,
    s: Seq<char>,
    e: Seq<char>,
) -> Seq<ManagedVersion>
    decreases vs.len(),
{
    if vs.len() == 0 {
        Seq::empty()
    } else {
        let rest = in_range_of(vs.drop_last(), k, s, e);
        let m = vs.last();
        if m.spec_kind() == k && match m.spec_tag().spec_semver() {
            Some(x) => crate::text::lex_cmp(s, x) != core::cmp::Ordering::Greater
                && crate::text::lex_cmp(x, e) != core::cmp::Ordering::Greater,
            None => false,
        } {
            rest.push(m)
        } else {
            rest
        }
    }
}

/// The entry that the "latest of a kind" search picks, as a one- or
/// zero-element sequence.
pub open spec fn latest_pick(vs: Seq<ManagedVersion>, k: TagKind) -> Seq<ManagedVersion> {
    match latest_idx(vs, k) {
        Some(i) => seq![vs[i]],
        None => Seq::empty(),
    }
}

/// Two registries agree entry by entry on the lookup key.
pub open spec fn mvs_key_congruent(a: Seq<ManagedVersion>, b: Seq<ManagedVersion>) -> bool {
    a.len() == b.len() && forall|i: int| 0 <= i < a.len() ==> mv_key_eq(#[trigger] a[i], b[i])
}

/// A malformed request for a range of versions.
#[derive(Debug)]
pub enum RangeError {
    MissingSemver,
    StartAfterEnd,
}

/// The persistent collection of managed versions.  Insertion order is kept
/// for display; adding never overwrites an entry with the same tag, kind
/// and label.
#[derive(Debug)]
pub struct ManagedVersions {
    versions: Vec<ManagedVersion>,
}

/// Orders two tags by the string that ranks them for "latest": the
/// derived version, or the raw tag without one.
fn compare_rank(a: &Tag, b: &Tag) -> (o: core::cmp::Ordering)
    ensures
        o == crate::text::lex_cmp(
            match a.spec_semver() {
                Some(s) => s,
                None => a.spec_value(),
            },
            match b.spec_semver() {
                Some(s) => s,
                None => b.spec_value(),
            },
        ),
{
    let ka: &String = match a.semver() {
        Some(s) => s,
        None => a.value(),
    };
    let kb: &String = match b.semver() {
        Some(s) => s,
        None => b.value(),
    };
    crate::text::lex_cmp_str(ka.as_str(), kb.as_str())
}

/// Whether `m` carries the tag string of `t` and the kind `k`.
fn matches_versioned(m: &ManagedVersion, t: &Tag, k: &TagKind) -> (b: bool)
    ensures
        b == mv_matches(*m, t.spec_value(), *k),
{
    str_eq(m.tag().value().as_str(), t.value().as_str()) && *m.kind() == *k
}

impl ManagedVersions {
    /// The entries, in insertion order.
    pub closed spec fn spec_versions(&self) -> Seq<ManagedVersion> {
        self.versions@
    }

    /// A registry holding exactly the given entries.
    pub fn new(items: Vec<ManagedVersion>) -> (r: ManagedVersions)
        ensures
            r.spec_versions() == items@,
    {
        ManagedVersions { versions: items }
    }

    /// The number of entries.
    pub fn len(&self) -> (n: usize)
        ensures
            n == self.spec_versions().len(),
    {
        self.versions.len()
    }

    /// The entries, borrowed.
    pub fn vec_ref(&self) -> (r: &Vec<ManagedVersion>)
        ensures
            r@ == self.spec_versions(),
    {
        &self.versions
    }

    /// The entries, borrowed for change; what the borrower writes becomes
    /// the registry's content.
    pub fn vec_mut(&mut self) -> (r: &mut Vec<ManagedVersion>)
        ensures
            r@ == old(self).spec_versions(),
            final(self).spec_versions() == final(r)@,
    {
        &mut self.versions
    }

    /// The index of the first entry with the given tag and kind.
    fn get_version_index<V: Versioned>(&self, version: &V) -> (r: Option<usize>)
        ensures
            match r {
                Some(i) => first_match(
                    self.spec_versions(),
                    version.spec_tag().spec_value(),
                    version.spec_kind(),
                ) == Some(i as int),
                None => first_match(
                    self.spec_versions(),
                    version.spec_tag().spec_value(),
                    version.spec_kind(),
                ) is None,
            },
    {
        let t = version.tag();
        let k = version.kind();
        let ghost vs = self.spec_versions();
        let ghost tv = version.spec_tag().spec_value();
        let ghost kv = version.spec_kind();
        let mut i: usize = 0;
        while i < self.versions.len()
            invariant
                i <= vs.len(),
                vs == self.spec_versions(),
                tv == t.spec_value(),
                kv == *k,
                tv == version.spec_tag().spec_value(),
                kv == version.spec_kind(),
                first_match(vs, tv, kv) == first_match_from(vs, tv, kv, i as int),
            decreases vs.len() - i,
        {
            if matches_versioned(&self.versions[i], t, k) {
                proof {
                    assert(first_match_from(vs, tv, kv, i as int) == Some(i as int));
                    assert(vs == self.spec_versions());
                    assert(tv == version.spec_tag().spec_value());
                    assert(kv == version.spec_kind());
                    assert(first_match(
                        self.spec_versions(),
                        version.spec_tag().spec_value(),
                        version.spec_kind(),
                    ) == Some(i as int));
                }
                return Some(i);
            }
            proof {
                assert(first_match_from(vs, tv, kv, i as int) == first_match_from(
                    vs,
                    tv,
                    kv,
                    i + 1,
                ));
            }
            i = i + 1;
        }
        None
    }

    /// The first entry with the given tag and kind, if one is managed.
    pub fn find_version<V: Versioned>(&self, version: &V) -> (r: Option<ManagedVersion>)
        ensures
            ({
                let fm = first_match(
                    self.spec_versions(),
                    version.spec_tag().spec_value(),
                    version.spec_kind(),
                );
                match r {
                    Some(m) => fm is Some && m == self.spec_versions()[fm->0],
                    None => fm is None,
                }
            }),
    {
        match self.get_version_index(version) {
            Some(i) => {
                proof {
                    lemma_first_match_props(
                        self.spec_versions(),
                        version.spec_tag().spec_value(),
                        version.spec_kind(),
                        0,
                    );
                }
                Some(self.versions[i].clone())
            },
            None => None,
        }
    }

    /// Adds an entry.  A fresh tag-kind-label key is stored as given; a
    /// taken key gets a synthesized label with the next free counter
    /// (`TAG_1`, `TAG_2`, ...), so no entry is ever overwritten.  Returns
    /// the entry as stored.
    pub fn add(&mut self, version: ManagedVersion) -> (r: ManagedVersion)
        ensures
            ({
                let vs = old(self).spec_versions();
                let t = version.spec_tag().spec_value();
                let k = version.spec_kind();
                if !has_entry_with_label(vs, t, k, effective_label(version)) {
                    final(self).spec_versions() == vs.push(version) && r == version
                } else {
                    let nl = synthesized_label(t, key_labels(vs, t, k));
                    if nl.len() <= 100 {
                        &&& final(self).spec_versions() == vs.push(r)
                        &&& r.spec_tag() == version.spec_tag()
                        &&& r.spec_kind() == k
                        &&& r.spec_directory_name() == version.spec_directory_name()
                        &&& opt_label_view(r.spec_label()) == Some(nl)
                    } else {
                        final(self).spec_versions() == vs.push(version) && r == version
                    }
                }
            }),
    {
        let ghost vs = self.spec_versions();
        let ghost tv = version.spec_tag().spec_value();
        let ghost kv = version.spec_kind();
        let ghost el = effective_label(version);
        let mut taken: bool = false;
        let mut j: usize = 0;
        while j < self.versions.len()
            invariant
                j <= vs.len(),
                vs == self.spec_versions(),
                tv == version.spec_tag().spec_value(),
                kv == version.spec_kind(),
                el == effective_label(version),
                !taken ==> forall|x: int|
                    0 <= x < j ==> !(mv_matches(#[trigger] vs[x], tv, kv) && effective_label(
                        vs[x],
                    ) == el),
                taken ==> has_entry_with_label(vs, tv, kv, el),
            decreases vs.len() - j,
        {
            let entry = &self.versions[j];
            if matches_versioned(entry, version.tag(), version.kind()) {
                let entry_label_matches: bool = match (entry.label(), version.label()) {
                    (Some(a), Some(b)) => str_eq(a.str().as_str(), b.str().as_str()),
                    (Some(a), None) => str_eq(a.str().as_str(), version.tag().value().as_str()),
                    (None, Some(b)) => str_eq(entry.tag().value().as_str(), b.str().as_str()),
                    (None, None) => str_eq(
                        entry.tag().value().as_str(),
                        version.tag().value().as_str(),
                    ),
                };
                if entry_label_matches {
                    taken = true;
                    proof {
                        assert(mv_matches(vs[j as int], tv, kv) && effective_label(vs[j as int])
                            == el);
                    }
                }
            }
            j = j + 1;
        }
        if !taken {
            self.versions.push(version.clone());
            return version;
        }
        let mut labels: Vec<Label> = Vec::new();
        let mut i: usize = 0;
        while i < self.versions.len()
            invariant
                i <= vs.len(),
                vs == self.spec_versions(),
                tv == version.spec_tag().spec_value(),
                kv == version.spec_kind(),
                crate::label::label_strs(labels@) =~= key_labels(
                    vs.subrange(0, i as int),
                    tv,
                    kv,
                ),
            decreases vs.len() - i,
        {
            let entry = &self.versions[i];
            proof {
                assert(vs.subrange(0, i + 1).drop_last() =~= vs.subrange(0, i as int));
                assert(vs.subrange(0, i + 1).last() == vs[i as int]);
            }
            let ghost before = crate::label::label_strs(labels@);
            if matches_versioned(entry, version.tag(), version.kind()) {
                match entry.label() {
                    Some(l) => {
                        let c = l.clone();
                        labels.push(c);
                        proof {
                            assert(crate::label::label_strs(labels@) =~= before.push(
                                l.spec_str(),
                            ));
                        }
                    },
                    None => {
                        match Label::new(entry.tag().value().as_str()) {
                            Ok(l) => {
                                let ghost lv = l.spec_str();
                                labels.push(l);
                                proof {
                                    assert(crate::label::label_strs(labels@) =~= before.push(lv));
                                }
                            },
                            Err(_) => {
                            },
                        }
                    },
                }
            }
            i = i + 1;
        }
        proof {
            assert(vs.subrange(0, vs.len() as int) =~= vs);
        }
        match Label::create_latest_version_label(version.tag().value().as_str(), labels) {
            Ok(l) => {
                let mut stored = version;
                stored.set_label(Some(l));
                let copy = stored.clone();
                self.versions.push(copy);
                stored
            },
            Err(_) => {
                self.versions.push(version.clone());
                version
            },
        }
    }

    /// Removes the first entry with the given tag and kind and returns
    /// it; the other entries keep their order.  `None` leaves the
    /// registry unchanged.
    pub fn remove<V: Versioned>(&mut self, version: &V) -> (r: Option<ManagedVersion>)
        ensures
            ({
                let vs = old(self).spec_versions();
                let fm = first_match(vs, version.spec_tag().spec_value(), version.spec_kind());
                match r {
                    Some(m) => fm is Some && m == vs[fm->0] && final(self).spec_versions()
                        == vs.remove(fm->0),
                    None => fm is None && final(self).spec_versions() == vs,
                }
            }),
    {
        match self.get_version_index(version) {
            Some(i) => {
                proof {
                    lemma_first_match_props(
                        self.spec_versions(),
                        version.spec_tag().spec_value(),
                        version.spec_kind(),
                        0,
                    );
                }
                Some(self.versions.remove(i))
            },
            None => None,
        }
    }

    /// The entry of the given kind with the greatest derived version, the
    /// last one on ties; `None` when the kind has no entries.
    pub fn find_latest_by_kind(&self, kind: &TagKind) -> (r: Option<ManagedVersion>)
        ensures
            ({
                let li = latest_idx(self.spec_versions(), *kind);
                match r {
                    Some(m) => li is Some && m == self.spec_versions()[li->0],
                    None => li is None,
                }
            }),
    {
        let ghost vs = self.spec_versions();
        let ghost kv = *kind;
        let mut best: Option<usize> = None;
        let mut i: usize = 0;
        while i < self.versions.len()
            invariant
                i <= vs.len(),
                vs == self.spec_versions(),
                kv == *kind,
                match best {
                    Some(b) => b < i && latest_idx(vs, kv) == latest_from(
                        vs,
                        kv,
                        i as int,
                        Some(b as int),
                    ),
                    None => latest_idx(vs, kv) == latest_from(vs, kv, i as int, None),
                },
            decreases vs.len() - i,
        {
            let entry = &self.versions[i];
            let take: bool = if *entry.kind() == *kind {
                match &best {
                    Some(b) => {
                        let o = compare_rank(self.versions[*b].tag(), entry.tag());
                        !matches!(o, core::cmp::Ordering::Greater)
                    },
                    None => true,
                }
            } else {
                false
            };
            if take {
                best = Some(i);
            }
            i = i + 1;
        }
        match best {
            Some(b) => Some(self.versions[b].clone()),
            None => None,
        }
    }

    /// The latest entry of each kind that has one, in kind order.
    pub fn latest_versions(&self) -> (r: Vec<ManagedVersion>)
        ensures
            ({
                let vs = self.spec_versions();
                r@ == latest_pick(vs, TagKind::Proton) + latest_pick(
                    vs,
                    (TagKind::Wine { kind: WineTagKind::WineGe }),
                ) + latest_pick(vs, (TagKind::Wine { kind: WineTagKind::LolWineGe }))
            }),
    {
        let mut r: Vec<ManagedVersion> = Vec::new();
        let kinds = TagKind::values();
        let ghost vs = self.spec_versions();
        if let Some(m) = self.find_latest_by_kind(&kinds[0]) {
            r.push(m);
        }
        let ghost after_proton = r@;
        if let Some(m) = self.find_latest_by_kind(&kinds[1]) {
            r.push(m);
        }
        let ghost after_wine = r@;
        if let Some(m) = self.find_latest_by_kind(&kinds[2]) {
            r.push(m);
        }
        proof {
            assert(after_proton =~= latest_pick(vs, TagKind::Proton));
            assert(after_wine =~= latest_pick(vs, TagKind::Proton) + latest_pick(
                vs,
                TagKind::Wine { kind: WineTagKind::WineGe },
            ));
            assert(r@ =~= after_wine + latest_pick(
                vs,
                TagKind::Wine { kind: WineTagKind::LolWineGe },
            ));
        }
        r
    }

    /// The entries of the cutoff's kind that come strictly before it by
    /// derived version; a cutoff without a derivable version is an error.
    pub fn versions_before<V: Versioned>(&self, cutoff: &V) -> (r: Result<
        ManagedVersions,
        RangeError,
    >)
        ensures
            ({
                let vs = self.spec_versions();
                match cutoff.spec_tag().spec_semver() {
                    Some(sv) => match r {
                        Ok(list) => list.spec_versions() == before_of(
                            vs,
                            cutoff.spec_kind(),
                            sv,
                        ),
                        Err(_) => false,
                    },
                    None => r matches Err(RangeError::MissingSemver),
                }
            }),
    {
        let ct = cutoff.tag();
        let ck = cutoff.kind();
        if ct.semver().is_none() {
            return Err(RangeError::MissingSemver);
        }
        let ghost vs = self.spec_versions();
        let ghost sv = cutoff.spec_tag().spec_semver()->0;
        let mut out: Vec<ManagedVersion> = Vec::new();
        let mut i: usize = 0;
        while i < self.versions.len()
            invariant
                i <= vs.len(),
                vs == self.spec_versions(),
                cutoff.spec_tag().spec_semver() == Some(sv),
                ct.spec_value() == cutoff.spec_tag().spec_value(),
                ct.spec_semver() == Some(sv),
                ck == &cutoff.spec_kind(),
                out@ =~= before_of(vs.subrange(0, i as int), cutoff.spec_kind(), sv),
            decreases vs.len() - i,
        {
            let entry = &self.versions[i];
            proof {
                assert(vs.subrange(0, i + 1).drop_last() =~= vs.subrange(0, i as int));
                assert(vs.subrange(0, i + 1).last() == vs[i as int]);
            }
            let ghost before = out@;
            if *entry.kind() == *ck {
                let o = Tag::compare_semver(entry.tag(), ct);
                if matches!(o, core::cmp::Ordering::Less) {
                    let c = entry.clone();
                    out.push(c);
                    proof {
                        assert(out@ =~= before.push(vs[i as int]));
                    }
                }
            }
            i = i + 1;
        }
        proof {
            assert(vs.subrange(0, vs.len() as int) =~= vs);
        }
        Ok(ManagedVersions::new(out))
    }

    /// The entries of the start's kind whose derived version lies in the
    /// inclusive range; missing derived versions on either endpoint, or a
    /// start after the end, are errors.
    pub fn versions_in_range<S: Versioned, E: Versioned>(&self, start: &S, end: &E) -> (r: Result<
        ManagedVersions,
        RangeError,
    >)
        ensures
            ({
                let vs = self.spec_versions();
                match (start.spec_tag().spec_semver(), end.spec_tag().spec_semver()) {
                    (Some(ssv), Some(esv)) => {
                        if crate::text::lex_cmp(ssv, esv) == core::cmp::Ordering::Greater {
                            r matches Err(RangeError::StartAfterEnd)
                        } else {
                            match r {
                                Ok(list) => list.spec_versions() == in_range_of(
                                    vs,
                                    start.spec_kind(),
                                    ssv,
                                    esv,
                                ),
                                Err(_) => false,
                            }
                        }
                    },
                    _ => r matches Err(RangeError::MissingSemver),
                }
            }),
    {
        let st = start.tag();
        let et = end.tag();
        let sk = start.kind();
        let ssv_ref = match st.semver() {
            Some(x) => x,
            None => {
                return Err(RangeError::MissingSemver);
            },
        };
        let esv_ref = match et.semver() {
            Some(x) => x,
            None => {
                return Err(RangeError::MissingSemver);
            },
        };
        let o = crate::text::lex_cmp_str(ssv_ref.as_str(), esv_ref.as_str());
        if matches!(o, core::cmp::Ordering::Greater) {
            return Err(RangeError::StartAfterEnd);
        }
        let ghost vs = self.spec_versions();
        let ghost ssv = start.spec_tag().spec_semver()->0;
        let ghost esv = end.spec_tag().spec_semver()->0;
        let mut out: Vec<ManagedVersion> = Vec::new();
        let mut i: usize = 0;
        while i < self.versions.len()
            invariant
                i <= vs.len(),
                vs == self.spec_versions(),
                ssv_ref@ == ssv,
                esv_ref@ == esv,
                sk == &start.spec_kind(),
                out@ =~= in_range_of(vs.subrange(0, i as int), start.spec_kind(), ssv, esv),
            decreases vs.len() - i,
        {
            let entry = &self.versions[i];
            proof {
                assert(vs.subrange(0, i + 1).drop_last() =~= vs.subrange(0, i as int));
                assert(vs.subrange(0, i + 1).last() == vs[i as int]);
            }
            let ghost before = out@;
            if *entry.kind() == *sk {
                match entry.tag().semver() {
                    Some(x) => {
                        let lo = crate::text::lex_cmp_str(ssv_ref.as_str(), x.as_str());
                        let hi = crate::text::lex_cmp_str(x.as_str(), esv_ref.as_str());
                        if !matches!(lo, core::cmp::Ordering::Greater) && !matches!(
                            hi,
                            core::cmp::Ordering::Greater,
                        ) {
                            let c = entry.clone();
                            out.push(c);
                            proof {
                                assert(out@ =~= before.push(vs[i as int]));
                            }
                        }
                    },
                    None => {
                    },
                }
            }
            i = i + 1;
        }
        proof {
            assert(vs.subrange(0, vs.len() as int) =~= vs);
        }
        Ok(ManagedVersions::new(out))
    }
}

impl Clone for ManagedVersions {
    /// An identical copy of the registry.
    fn clone(&self) -> (r: Self)
        ensures
            r.spec_versions() == self.spec_versions(),
    {
        let mut items: Vec<ManagedVersion> = Vec::new();
        let mut i: usize = 0;
        while i < self.versions.len()
            invariant
                i <= self.spec_versions().len(),
                items@ == self.spec_versions().subrange(0, i as int),
            decreases self.spec_versions().len() - i,
        {
            let c = self.versions[i].clone();
            items.push(c);
            i = i + 1;
            proof {
                assert(items@ =~= self.spec_versions().subrange(0, i as int));
            }
        }
        proof {
            assert(items@ =~= self.spec_versions());
        }
        ManagedVersions { versions: items }
    }
}

impl Default for ManagedVersions {
    /// The empty registry.
    fn default() -> (r: Self)
        ensures
            r.spec_versions() == Seq::<ManagedVersion>::empty(),
    {
        ManagedVersions { versions: Vec::new() }
    }
}

impl PartialEq for ManagedVersions {
    /// Registries are equal when their entries agree pairwise on the
    /// lookup key.
    fn eq(&self, other: &ManagedVersions) -> (r: bool) {
        if self.versions.len() != other.versions.len() {
            return false;
        }
        let mut i: usize = 0;
        while i < self.versions.len()
            invariant
                self.spec_versions().len() == other.spec_versions().len(),
                i <= self.spec_versions().len(),
                forall|j: int|
                    0 <= j < i ==> mv_key_eq(
                        #[trigger] self.spec_versions()[j],
                        other.spec_versions()[j],
                    ),
            decreases self.spec_versions().len() - i,
        {
            let a = &self.versions[i];
            let b = &other.versions[i];
            if !(str_eq(a.tag().value().as_str(), b.tag().value().as_str()) && *a.kind()
                == *b.kind()) {
                return false;
            }
            i = i + 1;
        }
        true
    }
}

impl Eq for ManagedVersions {}

impl vstd::std_specs::cmp::PartialEqSpecImpl for ManagedVersions {
    open spec fn obeys_eq_spec() -> bool {
        true
    }

    open spec fn eq_spec(&self, other: &ManagedVersions) -> bool {
        mvs_key_congruent(self.spec_versions(), other.spec_versions())
    }
}

} // verus!
