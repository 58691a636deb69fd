//! A version that a user names: a tag, the tool it belongs to, and an
//! optional label telling several installs of the same tag apart.
use vstd::prelude::*;

use crate::label::Label;
use crate::tag::{Tag, TagKind, WineTagKind};

verus! {

/// The characters of an optional label.
pub open spec fn opt_label_view(l: Option<Label>) -> Option<Seq<char>> {
    match l {
        Some(x) => Some(x.spec_str()),
        None => None,
    }
}

/// Anything that names a release: a tag of some tool kind.
pub trait Versioned: Sized {
    /// The tag.
    spec fn spec_tag(&self) -> Tag;

    /// The tool kind.
    spec fn spec_kind(&self) -> TagKind;

    /// The tag.
    fn tag(&self) -> (t: &Tag)
        ensures
            *t == self.spec_tag(),
    ;

    /// The tool kind.
    fn kind(&self) -> (k: &TagKind)
        ensures
            *k == self.spec_kind(),
    ;
}

/// A user-named version: a tag, its tool kind, and an optional label.
#[derive(Debug)]
pub struct Version {
    label: Option<Label>,
    tag: Tag,
    kind: TagKind,
}

impl Version {
    /// The optional label.
    pub closed spec fn spec_label(&self) -> Option<Label> {
        self.label
    }

    /// A version of the given label, tag and kind.
    pub fn new(label: Option<Label>, tag: &str, kind: TagKind) -> (v: Version)
        ensures
            v.spec_tag().spec_value() == tag@,
            v.spec_tag().wf(),
            v.spec_kind() == kind,
            v.spec_label() == label,
    {
        Version { label, tag: Tag::new(tag), kind }
    }

    /// A version built from an already derived tag.
    pub fn with_tag(label: Option<Label>, tag: Tag, kind: TagKind) -> (v: Version)
        ensures
            v.spec_tag() == tag,
            v.spec_kind() == kind,
            v.spec_label() == label,
    {
        Version { label, tag, kind }
    }

    /// A Proton version.
    pub fn proton(label: Option<Label>, tag: &str) -> (v: Version)
        ensures
            v.spec_tag().spec_value() == tag@,
            v.spec_tag().wf(),
            v.spec_kind() == TagKind::Proton,
            v.spec_label() == label,
    {
        Version::new(label, tag, TagKind::Proton)
    }

    /// A Wine GE version.
    pub fn wine(label: Option<Label>, tag: &str) -> (v: Version)
        ensures
            v.spec_tag().spec_value() == tag@,
            v.spec_tag().wf(),
            v.spec_kind() == (TagKind::Wine { kind: WineTagKind::WineGe }),
            v.spec_label() == label,
    {
        Version::new(label, tag, TagKind::wine())
    }

    /// A Wine GE (LoL) version.
    pub fn lol(label: Option<Label>, tag: &str) -> (v: Version)
        ensures
            v.spec_tag().spec_value() == tag@,
            v.spec_tag().wf(),
            v.spec_kind() == (TagKind::Wine { kind: WineTagKind::LolWineGe }),
            v.spec_label() == label,
    {
        Version::new(label, tag, TagKind::lol())
    }

    /// The optional label.
    pub fn label(&self) -> (r: Option<&Label>)
        ensures
            match r {
                Some(l) => self.spec_label() == Some(*l),
                None => self.spec_label() is None,
            },
    {
        self.label.as_ref()
    }

    /// Replaces the label.
    pub fn set_label(&mut self, label: Option<Label>)
        ensures
            final(self).spec_label() == label,
            final(self).spec_tag() == old(self).spec_tag(),
            final(self).spec_kind() == old(self).spec_kind(),
    {
        self.label = label;
    }
}

impl Versioned for Version {
    closed spec fn spec_tag(&self) -> Tag {
        self.tag
    }

    closed spec fn spec_kind(&self) -> TagKind {
        self.kind
    }

    fn tag(&self) -> (t: &Tag) {
        &self.tag
    }

    fn kind(&self) -> (k: &TagKind) {
        &self.kind
    }
}

impl Clone for Version {
    /// An identical copy of the version.
    fn clone(&self) -> (r: Self)
        ensures
            r == *self,
    {
        let label = match &self.label {
            Some(l) => Some(l.clone()),
            None => None,
        };
        Version { label, tag: self.tag.clone(), kind: self.kind }
    }
}

impl PartialEq for Version {
    /// Versions are equal when raw tag, kind and label all agree.
    fn eq(&self, other: &Version) -> (r: bool) {
        let labels_equal: bool = match (&self.label, &other.label) {
            (Some(a), Some(b)) => crate::text::str_eq(a.str().as_str(), b.str().as_str()),
            (None, None) => true,
            _ => false,
        };
        labels_equal && crate::text::str_eq(
            self.tag.value().as_str(),
            other.tag.value().as_str(),
        ) && self.kind == other.kind
    }
}

impl Eq for Version {}

impl vstd::std_specs::cmp::PartialEqSpecImpl for Version {
    open spec fn obeys_eq_spec() -> bool {
        true
    }

    open spec fn eq_spec(&self, other: &Version) -> bool {
        self.spec_tag().spec_value() == other.spec_tag().spec_value() && self.spec_kind()
            == other.spec_kind() && opt_label_view(self.spec_label()) == opt_label_view(
            other.spec_label(),
        )
    }
}

} // verus!
