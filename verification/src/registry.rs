//! The registry's persistent form: one JSON document holding every
//! managed version.
//!
//! The renderer and the reader share one grammar, given by the `render_*`
//! functions; the reader accepts exactly the renderer's output, and what
//! it accepts it reproduces: a successful read renders back to the very
//! text that was read.  An absent file is an empty registry; text outside
//! the grammar is a read error.
use vstd::prelude::*;

use crate::data::{ManagedVersion, ManagedVersions};
use crate::label::Label;
use crate::tag::{Tag, TagKind, WineTagKind};
use crate::version::{opt_label_view, Versioned};

verus! {

/// A string with its quotes and escapes: quote and backslash characters
/// are preceded by a backslash.
pub open spec fn esc(s: Seq<char>) -> Seq<char>
    decreases s.len(),
{
    if s.len() == 0 {
        Seq::empty()
    } else if s.last() == '"' || s.last() == '\\' {
        esc(s.drop_last()) + seq!['\\', s.last()]
    } else {
        esc(s.drop_last()) + seq![s.last()]
    }
}

/// A quoted string.
pub open spec fn quoted(s: Seq<char>) -> Seq<char> {
    seq!['"'] + esc(s) + seq!['"']
}

/// An optional string: `null`, or quoted.
pub open spec fn opt_json(o: Option<Seq<char>>) -> Seq<char> {
    match o {
        Some(s) => quoted(s),
        None => "null"@,
    }
}

/// The stored name of a kind.
pub open spec fn kind_name(k: TagKind) -> Seq<char> {
    match k {
        TagKind::Proton => "Proton"@,
        TagKind::Wine { kind: WineTagKind::WineGe } => "Wine"@,
        TagKind::Wine { kind: WineTagKind::LolWineGe } => "LoL_Wine"@,
    }
}

/// One record of the registry file.
pub open spec fn render_mv(m: ManagedVersion) -> Seq<char> {
    "{\"tag\":"@ + quoted(m.spec_tag().spec_value()) + ",\"semver\":"@ + opt_json(
        m.spec_tag().spec_semver(),
    ) + ",\"kind\":"@ + quoted(kind_name(m.spec_kind())) + ",\"label\":"@ + opt_json(
        opt_label_view(m.spec_label()),
    ) + ",\"directory_name\":"@ + quoted(m.spec_directory_name()) + "}"@
}

/// The records of the registry file, joined with commas.
pub open spec fn render_list(vs: Seq<ManagedVersion>) -> Seq<char>
    decreases vs.len(),
{
    if vs.len() == 0 {
        Seq::empty()
    } else if vs.len() == 1 {
        render_mv(vs[0])
    } else {
        render_list(vs.drop_last()) + seq![','] + render_mv(vs.last())
    }
}

/// The whole registry file.
pub open spec fn render_registry(vs: Seq<ManagedVersion>) -> Seq<char> {
    "{\"versions\":["@ + render_list(vs) + "]}"@
}

/// What the quoted-string scanner yields from position `i` of `w` with
/// `acc` read so far: the accumulated content and the position after the
/// closing quote, or nothing for an unterminated or ill-escaped string.
pub open spec fn scan_string(w: Seq<char>, i: int, acc: Seq<char>) -> Option<(Seq<char>, int)>
    decreases w.len() - i,
{
    if i < 0 || i >= w.len() {
        None
    } else if w[i] == '"' {
        Some((acc, i + 1))
    } else if w[i] == '\\' {
        if i + 1 < w.len() && (w[i + 1] == '"' || w[i + 1] == '\\') {
            scan_string(w, i + 2, acc.push(w[i + 1]))
        } else {
            None
        }
    } else {
        scan_string(w, i + 1, acc.push(w[i]))
    }
}

/// Escaping distributes over concatenation.
proof fn lemma_esc_concat(a: Seq<char>, b: Seq<char>)
    ensures
        esc(a + b) == esc(a) + esc(b),
    decreases b.len(),
{
    if b.len() == 0 {
        assert(a + b =~= a);
        assert(esc(a) + esc(b) =~= esc(a));
    } else {
        lemma_esc_concat(a, b.drop_last());
        assert((a + b).drop_last() =~= a + b.drop_last());
        assert((a + b).last() == b.last());
        if b.last() == '"' || b.last() == '\\' {
            assert(esc(a + b) =~= esc(a) + (esc(b.drop_last()) + seq!['\\', b.last()]));
        } else {
            assert(esc(a + b) =~= esc(a) + (esc(b.drop_last()) + seq![b.last()]));
        }
    }
}

/// The escaping of a single character.
proof fn lemma_esc_one(c: char)
    ensures
        esc(seq![c]) == if c == '"' || c == '\\' {
            seq!['\\', c]
        } else {
            seq![c]
        },
{
    assert(seq![c].drop_last() =~= Seq::<char>::empty());
    assert(seq![c].last() == c);
    assert(esc(Seq::<char>::empty()) =~= Seq::<char>::empty());
    if c == '"' || c == '\\' {
        assert(esc(seq![c]) =~= Seq::<char>::empty() + seq!['\\', c]);
        assert(Seq::<char>::empty() + seq!['\\', c] =~= seq!['\\', c]);
    } else {
        assert(esc(seq![c]) =~= Seq::<char>::empty() + seq![c]);
        assert(Seq::<char>::empty() + seq![c] =~= seq![c]);
    }
}

/// The scanner reads an escaped string back: where the escaping of `cs`
/// lies, followed by a closing quote, the scan yields exactly `cs` and
/// stops after that quote.  This is the string-level half of reading the
/// renderer's output back; together with `quoted`, what `push_quoted`
/// writes is exactly what `parse_string` returns.
pub proof fn lemma_scan_complete(w: Seq<char>, i: int, acc: Seq<char>, cs: Seq<char>)
    requires
        0 <= i,
        i + esc(cs).len() + 1 <= w.len(),
        w.subrange(i, i + esc(cs).len()) == esc(cs),
        w[i + esc(cs).len()] == '"',
    ensures
        scan_string(w, i, acc) == Some((acc + cs, i + esc(cs).len() + 1)),
    decreases cs.len(),
{
    if cs.len() == 0 {
        assert(esc(cs).len() == 0);
        assert(w[i] == '"');
        assert(acc + cs =~= acc);
    } else {
        let c = cs[0];
        let t = cs.skip(1);
        assert(cs =~= seq![c] + t);
        lemma_esc_concat(seq![c], t);
        assert(esc(cs) == esc(seq![c]) + esc(t));
        lemma_esc_one(c);
        if c == '"' || c == '\\' {
            assert(esc(cs).len() == 2 + esc(t).len());
            assert(w[i] == esc(cs)[0]);
            assert(esc(cs)[0] == '\\');
            assert(w[i + 1] == esc(cs)[1]);
            assert(esc(cs)[1] == c);
            assert(w.subrange(i + 2, i + 2 + esc(t).len()) =~= esc(t)) by {
                assert forall|k: int| 0 <= k < esc(t).len() implies w.subrange(
                    i + 2,
                    i + 2 + esc(t).len(),
                )[k] == esc(t)[k] by {
                    assert(w.subrange(i + 2, i + 2 + esc(t).len())[k] == w[i + 2 + k]);
                    assert(w[i + 2 + k] == w.subrange(i, i + esc(cs).len())[2 + k]);
                }
            }
            lemma_scan_complete(w, i + 2, acc.push(c), t);
            assert(acc.push(c) + t =~= acc + cs);
        } else {
            assert(esc(cs).len() == 1 + esc(t).len());
            assert(w[i] == esc(cs)[0]);
            assert(esc(cs)[0] == c);
            assert(w.subrange(i + 1, i + 1 + esc(t).len()) =~= esc(t)) by {
                assert forall|k: int| 0 <= k < esc(t).len() implies w.subrange(
                    i + 1,
                    i + 1 + esc(t).len(),
                )[k] == esc(t)[k] by {
                    assert(w.subrange(i + 1, i + 1 + esc(t).len())[k] == w[i + 1 + k]);
                    assert(w[i + 1 + k] == w.subrange(i, i + esc(cs).len())[1 + k]);
                }
            }
            lemma_scan_complete(w, i + 1, acc.push(c), t);
            assert(acc.push(c) + t =~= acc + cs);
        }
    }
}

/// The failure of reading a registry file.
#[derive(Debug)]
pub enum RegistryError {
    Malformed,
}

/// Appends a string with its escapes to the output.
fn push_escaped(out: &mut Vec<char>, s: &str)
    ensures
        final(out)@ == old(out)@ + esc(s@),
{
    let chars = crate::text::chars_vec(s);
    let mut i: usize = 0;
    while i < chars.len()
        invariant
            i <= chars@.len(),
            chars@ == s@,
            out@ == old(out)@ + esc(s@.subrange(0, i as int)),
        decreases chars@.len() - i,
    {
        let c: char = chars[i];
        if c == '"' || c == '\\' {
            out.push('\\');
        }
        out.push(c);
        i = i + 1;
        proof {
            let p = s@.subrange(0, i as int);
            assert(p.drop_last() =~= s@.subrange(0, i - 1));
            assert(p.last() == s@[i - 1]);
            if s@[i - 1] == '"' || s@[i - 1] == '\\' {
                assert(out@ =~= old(out)@ + esc(p));
            } else {
                assert(out@ =~= old(out)@ + esc(p));
            }
        }
    }
    proof {
        assert(s@.subrange(0, s@.len() as int) =~= s@);
    }
}

/// Appends a quoted string to the output.
fn push_quoted(out: &mut Vec<char>, s: &str)
    ensures
        final(out)@ == old(out)@ + quoted(s@),
{
    out.push('"');
    push_escaped(out, s);
    out.push('"');
    proof {
        assert(final(out)@ =~= old(out)@ + quoted(s@));
    }
}

/// Appends the characters of a literal to the output.
fn push_lit(out: &mut Vec<char>, s: &str)
    ensures
        final(out)@ == old(out)@ + s@,
{
    let chars = crate::text::chars_vec(s);
    crate::tag::extend_chars(out, &chars);
}

impl ManagedVersions {
    /// The registry as one JSON document.
    #[verifier::rlimit(100)]
    #[verifier::spinoff_prover]
    pub fn to_registry_json(&self) -> (r: String)
        ensures
            r@ == render_registry(self.spec_versions()),
    {
        let ghost vs = self.spec_versions();
        let mut out: Vec<char> = Vec::new();
        push_lit(&mut out, "{\"versions\":[");
        let items = self.vec_ref();
        let mut i: usize = 0;
        while i < items.len()
            invariant
                i <= vs.len(),
                items@ == vs,
                out@ == "{\"versions\":["@ + render_list(vs.subrange(0, i as int)),
            decreases vs.len() - i,
        {
            if i > 0 {
                out.push(',');
            }
            let ghost before = out@;
            let m = &items[i];
            let ghost mv = vs[i as int];
            push_lit(&mut out, "{\"tag\":");
            push_quoted(&mut out, m.tag().value().as_str());
            proof {
                assert(out@ =~= before + ("{\"tag\":"@ + quoted(mv.spec_tag().spec_value())));
            }
            let ghost c1 = "{\"tag\":"@ + quoted(mv.spec_tag().spec_value());
            push_lit(&mut out, ",\"semver\":");
            match m.tag().semver() {
                Some(s) => push_quoted(&mut out, s.as_str()),
                None => push_lit(&mut out, "null"),
            }
            proof {
                assert(out@ =~= before + (c1 + ",\"semver\":"@ + opt_json(
                    mv.spec_tag().spec_semver(),
                )));
            }
            let ghost c2 = c1 + ",\"semver\":"@ + opt_json(mv.spec_tag().spec_semver());
            push_lit(&mut out, ",\"kind\":");
            push_quoted(&mut out, m.kind().str().as_str());
            proof {
                assert(kind_name(mv.spec_kind()) == match mv.spec_kind() {
                    TagKind::Proton => "Proton"@,
                    TagKind::Wine { kind: WineTagKind::WineGe } => "Wine"@,
                    TagKind::Wine { kind: WineTagKind::LolWineGe } => "LoL_Wine"@,
                });
                assert(out@ =~= before + (c2 + ",\"kind\":"@ + quoted(kind_name(mv.spec_kind()))));
            }
            let ghost c3 = c2 + ",\"kind\":"@ + quoted(kind_name(mv.spec_kind()));
            push_lit(&mut out, ",\"label\":");
            match m.label() {
                Some(l) => push_quoted(&mut out, l.str().as_str()),
                None => push_lit(&mut out, "null"),
            }
            proof {
                assert(out@ =~= before + (c3 + ",\"label\":"@ + opt_json(
                    crate::version::opt_label_view(mv.spec_label()),
                )));
            }
            let ghost c4 = c3 + ",\"label\":"@ + opt_json(
                crate::version::opt_label_view(mv.spec_label()),
            );
            push_lit(&mut out, ",\"directory_name\":");
            push_quoted(&mut out, m.directory_name());
            push_lit(&mut out, "}");
            proof {
                assert(out@ =~= before + (c4 + ",\"directory_name\":"@ + quoted(
                    mv.spec_directory_name(),
                ) + "}"@));
                assert(out@ =~= before + render_mv(vs[i as int]));
                let p = vs.subrange(0, i + 1);
                assert(p.drop_last() =~= vs.subrange(0, i as int));
                assert(p.last() == vs[i as int]);
                if i == 0 {
                    assert(render_list(p) == render_mv(vs[0]));
                    assert(out@ =~= "{\"versions\":["@ + render_list(p));
                } else {
                    assert(render_list(p) == render_list(vs.subrange(0, i as int)) + seq![',']
                        + render_mv(vs[i as int]));
                    assert(out@ =~= "{\"versions\":["@ + render_list(p));
                }
            }
            i = i + 1;
        }
        proof {
            assert(vs.subrange(0, vs.len() as int) =~= vs);
        }
        push_lit(&mut out, "]}");
        proof {
            assert(out@ =~= render_registry(vs));
        }
        crate::text::string_from_chars(&out)
    }

    /// The registry a persistence file holds: an absent file is the empty
    /// registry, and a present one must hold exactly what the renderer
    /// writes — a successful read renders back to the text that was read.
    /// The schema is this library's own canonical one; a file in any
    /// other layout reads as malformed.
    pub fn from_file_content(content: Option<&str>) -> (r: Result<ManagedVersions, RegistryError>)
        ensures
            match content {
                None => r matches Ok(m) && m.spec_versions().len() == 0,
                Some(s) => r matches Ok(m) ==> render_registry(m.spec_versions()) == s@,
            },
    {
        let text = match content {
            None => {
                return Ok(ManagedVersions::new(Vec::new()));
            },
            Some(s) => s,
        };
        let chars = crate::text::chars_vec(text);
        let mut pos: usize = 0;
        let mut items: Vec<ManagedVersion> = Vec::new();
        match eat_lit(&chars, pos, "{\"versions\":[") {
            Some(p) => {
                pos = p;
            },
            None => {
                return Err(RegistryError::Malformed);
            },
        }
        let ghost header = "{\"versions\":["@;
        let mut first: bool = true;
        loop
            invariant
                pos <= chars@.len(),
                chars@ == text@,
                content is Some,
                chars@ == content->0@,
                first ==> items@.len() == 0,
                !first ==> items@.len() > 0,
                header == "{\"versions\":["@,
                chars@.subrange(0, pos as int) == header + render_list(items@),
            decreases chars@.len() - pos,
        {
            if pos < chars.len() && chars[pos] == ']' {
                match eat_lit(&chars, pos, "]}") {
                    Some(p2) => {
                        if p2 == chars.len() {
                            proof {
                                assert(chars@.subrange(0, p2 as int) =~= chars@);
                                assert(chars@.subrange(0, p2 as int) =~= chars@.subrange(
                                    0,
                                    pos as int,
                                ) + chars@.subrange(pos as int, p2 as int));
                                assert(chars@ =~= header + render_list(items@) + "]}"@);
                            }
                            let ghost itemsv = items@;
                            let result = build_versions(items);
                            proof {
                                assert(result.spec_versions() == itemsv);
                                assert(render_registry(itemsv) =~= chars@);
                                assert(render_registry(result.spec_versions()) == render_registry(
                                    itemsv,
                                ));
                            }
                            return Ok(result);
                        }
                        return Err(RegistryError::Malformed);
                    },
                    None => {
                        return Err(RegistryError::Malformed);
                    },
                }
            }
            if !first {
                if pos < chars.len() && chars[pos] == ',' {
                    pos = pos + 1;
                } else {
                    return Err(RegistryError::Malformed);
                }
            }
            let ghost before_record = pos;
            match parse_record(&chars, pos) {
                Some((m, p2)) => {
                    proof {
                        let p = items@.push(m);
                    }
                    let ghost old_items = items@;
                    items.push(m);
                    proof {
                        assert(items@ =~= old_items.push(items@.last()));
                        let lst = items@;
                        assert(lst.drop_last() =~= old_items);
                        if old_items.len() == 0 {
                            assert(render_list(lst) == render_mv(lst[0]));
                            assert(chars@.subrange(0, p2 as int) =~= chars@.subrange(
                                0,
                                before_record as int,
                            ) + chars@.subrange(before_record as int, p2 as int));
                            assert(chars@.subrange(0, p2 as int) =~= header + render_list(lst));
                        } else {
                            assert(render_list(lst) == render_list(old_items)
                                + seq![','] + render_mv(lst.last()));
                            assert(chars@.subrange(0, before_record as int) =~= chars@.subrange(
                                0,
                                before_record as int - 1,
                            ).push(chars@[before_record as int - 1]));
                            assert(chars@.subrange(0, p2 as int) =~= chars@.subrange(
                                0,
                                before_record as int,
                            ) + chars@.subrange(before_record as int, p2 as int));
                            assert(chars@.subrange(0, p2 as int) =~= header + render_list(lst));
                        }
                    }
                    if p2 <= pos {
                        return Err(RegistryError::Malformed);
                    }
                    pos = p2;
                    first = false;
                },
                None => {
                    return Err(RegistryError::Malformed);
                },
            }
        }
    }
}

/// A registry holding the parsed records.
fn build_versions(items: Vec<ManagedVersion>) -> (r: ManagedVersions)
    ensures
        r.spec_versions() == items@,
{
    ManagedVersions::new(items)
}

/// Consumes the exact characters of a literal, returning the position
/// after them.
fn eat_lit(v: &Vec<char>, pos: usize, lit: &str) -> (r: Option<usize>)
    requires
        pos <= v@.len(),
    ensures
        match r {
            Some(p) => pos <= p <= v@.len() && v@.subrange(pos as int, p as int) == lit@ && p - pos
                == lit@.len(),
            None => !(pos + lit@.len() <= v@.len() && v@.subrange(
                pos as int,
                pos + lit@.len(),
            ) == lit@),
        },
{
    let lit_chars = crate::text::chars_vec(lit);
    if lit_chars.len() > v.len() - pos {
        return None;
    }
    let mut j: usize = 0;
    while j < lit_chars.len()
        invariant
            j <= lit_chars@.len(),
            lit_chars@ == lit@,
            pos + lit_chars@.len() <= v@.len(),
            v@.len() <= usize::MAX,
            v@.subrange(pos as int, pos + j) =~= lit@.subrange(0, j as int),
        decreases lit_chars@.len() - j,
    {
        if v[pos + j] != lit_chars[j] {
            proof {
                if pos + lit@.len() <= v@.len() && v@.subrange(pos as int, pos + lit@.len())
                    == lit@ {
                    assert(v@.subrange(pos as int, pos + lit@.len())[j as int] == v@[pos + j]);
                }
            }
            return None;
        }
        proof {
            assert(v@.subrange(pos as int, pos + j + 1) =~= v@.subrange(pos as int, pos + j).push(
                v@[pos + j],
            ));
            assert(lit@.subrange(0, j + 1) =~= lit@.subrange(0, j as int).push(lit@[j as int]));
        }
        j = j + 1;
    }
    proof {
        assert(lit@.subrange(0, lit@.len() as int) =~= lit@);
    }
    Some(pos + lit_chars.len())
}

/// Reads a quoted string starting at its opening quote; only the escapes
/// the renderer writes are accepted.  Returns the content and the
/// position after the closing quote, exactly as the scan of the
/// characters after the opening quote yields it.
fn parse_string(v: &Vec<char>, pos: usize) -> (r: Option<(String, usize)>)
    requires
        pos <= v@.len(),
    ensures
        match r {
            Some(t) => pos < t.1 <= v@.len() && v@.subrange(pos as int, t.1 as int) == quoted(
                t.0@,
            ),
            None => true,
        },
        pos < v@.len() && v@[pos as int] == '"' ==> (match r {
            Some(t) => scan_string(v@, pos + 1, Seq::empty()) == Some((t.0@, t.1 as int)),
            None => scan_string(v@, pos + 1, Seq::empty()) is None,
        }),
        !(pos < v@.len() && v@[pos as int] == '"') ==> r is None,
{
    if pos >= v.len() || v[pos] != '"' {
        return None;
    }
    let mut acc: Vec<char> = Vec::new();
    let mut i: usize = pos + 1;
    loop
        invariant
            pos + 1 <= i <= v@.len(),
            pos < v@.len(),
            v@[pos as int] == '"',
            v@.subrange(pos + 1, i as int) == esc(acc@),
            scan_string(v@, pos + 1, Seq::empty()) == scan_string(v@, i as int, acc@),
        decreases v@.len() - i,
    {
        if i >= v.len() {
            return None;
        }
        let c: char = v[i];
        if c == '"' {
            let s = crate::text::string_from_chars(&acc);
            proof {
                assert(v@.subrange(pos as int, i + 1) =~= seq!['"'] + esc(acc@) + seq!['"']);
            }
            return Some((s, i + 1));
        } else if c == '\\' {
            if i + 1 >= v.len() {
                return None;
            }
            let c2: char = v[i + 1];
            if c2 != '"' && c2 != '\\' {
                return None;
            }
            let ghost old_acc = acc@;
            acc.push(c2);
            proof {
                assert(acc@.drop_last() =~= old_acc);
                assert(esc(acc@) =~= esc(old_acc) + seq!['\\', c2]);
                assert(v@.subrange(pos + 1, i + 2) =~= v@.subrange(pos + 1, i as int) + seq![
                    '\\',
                    c2,
                ]);
            }
            i = i + 2;
        } else {
            let ghost old_acc = acc@;
            acc.push(c);
            proof {
                assert(acc@.drop_last() =~= old_acc);
                assert(esc(acc@) =~= esc(old_acc) + seq![c]);
                assert(v@.subrange(pos + 1, i + 1) =~= v@.subrange(pos + 1, i as int) + seq![c]);
            }
            i = i + 1;
        }
    }
}

/// Reads `null` or a quoted string.  Returns the optional content and the
/// position after it; the first character decides the form, and a quoted
/// string is read exactly as the scan yields it.
fn parse_opt_string(v: &Vec<char>, pos: usize) -> (r: Option<(Option<String>, usize)>)
    requires
        pos <= v@.len(),
    ensures
        match r {
            Some(t) => pos <= t.1 <= v@.len() && v@.subrange(pos as int, t.1 as int) == opt_json(
                match t.0 {
                    Some(s) => Some(s@),
                    None => None,
                },
            ),
            None => true,
        },
        pos < v@.len() && v@[pos as int] == 'n' ==> (match r {
            Some(t) => t.0 is None && t.1 == pos + 4,
            None => !(pos + 4 <= v@.len() && v@.subrange(pos as int, pos + 4) == "null"@),
        }),
        pos < v@.len() && v@[pos as int] != 'n' && v@[pos as int] == '"' ==> (match r {
            Some(t) => t.0 is Some && scan_string(v@, pos + 1, Seq::empty()) == Some(
                (t.0->0@, t.1 as int),
            ),
            None => scan_string(v@, pos + 1, Seq::empty()) is None,
        }),
        !(pos < v@.len() && (v@[pos as int] == 'n' || v@[pos as int] == '"')) ==> r is None,
{
    if pos < v.len() && v[pos] == 'n' {
        proof {
            reveal_strlit("null");
        }
        match eat_lit(v, pos, "null") {
            Some(p) => Some((None, p)),
            None => None,
        }
    } else {
        match parse_string(v, pos) {
            Some((s, p)) => Some((Some(s), p)),
            None => None,
        }
    }
}

/// Reads one record.  Returns the managed version and the position after
/// its closing brace; what is returned renders back to the consumed
/// characters.
#[verifier::rlimit(100)]
#[verifier::spinoff_prover]
fn parse_record(v: &Vec<char>, pos: usize) -> (r: Option<(ManagedVersion, usize)>)
    requires
        pos <= v@.len(),
    ensures
        match r {
            Some(t) => pos <= t.1 <= v@.len() && v@.subrange(pos as int, t.1 as int) == render_mv(
                t.0,
            ),
            None => true,
        },
{
    let p1 = match eat_lit(v, pos, "{\"tag\":") {
        Some(p) => p,
        None => {
            return None;
        },
    };
    let (tag_str, p2) = match parse_string(v, p1) {
        Some(t) => t,
        None => {
            return None;
        },
    };
    let p3 = match eat_lit(v, p2, ",\"semver\":") {
        Some(p) => p,
        None => {
            return None;
        },
    };
    let (semver_opt, p4) = match parse_opt_string(v, p3) {
        Some(t) => t,
        None => {
            return None;
        },
    };
    let p5 = match eat_lit(v, p4, ",\"kind\":") {
        Some(p) => p,
        None => {
            return None;
        },
    };
    let (kind_str, p6) = match parse_string(v, p5) {
        Some(t) => t,
        None => {
            return None;
        },
    };
    let kind: TagKind = match TagKind::from_str(kind_str.as_str()) {
        Ok(k) => k,
        Err(_) => {
            return None;
        },
    };
    let p7 = match eat_lit(v, p6, ",\"label\":") {
        Some(p) => p,
        None => {
            return None;
        },
    };
    let (label_opt, p8) = match parse_opt_string(v, p7) {
        Some(t) => t,
        None => {
            return None;
        },
    };
    let p9 = match eat_lit(v, p8, ",\"directory_name\":") {
        Some(p) => p,
        None => {
            return None;
        },
    };
    let (dir_str, p10) = match parse_string(v, p9) {
        Some(t) => t,
        None => {
            return None;
        },
    };
    let p11 = match eat_lit(v, p10, "}") {
        Some(p) => p,
        None => {
            return None;
        },
    };
    let label: Option<Label> = match label_opt {
        Some(l) => {
            match Label::new(l.as_str()) {
                Ok(lb) => Some(lb),
                Err(_) => {
            return None;
                },
            }
        },
        None => None,
    };
    let mut tag = Tag::new(tag_str.as_str());
    tag.set_semver(semver_opt);
    let m = ManagedVersion::from_parts(tag, kind, dir_str, label);
    proof {
        assert(kind_name(m.spec_kind()) == kind_str@);
        let w = v@;
        assert(w.subrange(pos as int, p2 as int) =~= w.subrange(pos as int, p1 as int)
            + w.subrange(p1 as int, p2 as int));
        assert(w.subrange(pos as int, p2 as int) =~= "{\"tag\":"@ + quoted(
            m.spec_tag().spec_value(),
        ));
        assert(w.subrange(pos as int, p4 as int) =~= w.subrange(pos as int, p2 as int)
            + w.subrange(p2 as int, p3 as int) + w.subrange(p3 as int, p4 as int));
        assert(w.subrange(pos as int, p4 as int) =~= w.subrange(pos as int, p2 as int)
            + ",\"semver\":"@ + opt_json(m.spec_tag().spec_semver()));
        assert(w.subrange(pos as int, p6 as int) =~= w.subrange(pos as int, p4 as int)
            + w.subrange(p4 as int, p5 as int) + w.subrange(p5 as int, p6 as int));
        assert(w.subrange(pos as int, p6 as int) =~= w.subrange(pos as int, p4 as int)
            + ",\"kind\":"@ + quoted(kind_name(m.spec_kind())));
        assert(w.subrange(pos as int, p8 as int) =~= w.subrange(pos as int, p6 as int)
            + w.subrange(p6 as int, p7 as int) + w.subrange(p7 as int, p8 as int));
        assert(w.subrange(pos as int, p8 as int) =~= w.subrange(pos as int, p6 as int)
            + ",\"label\":"@ + opt_json(crate::version::opt_label_view(m.spec_label())));
        assert(w.subrange(pos as int, p11 as int) =~= w.subrange(pos as int, p8 as int)
            + w.subrange(p8 as int, p9 as int) + w.subrange(p9 as int, p10 as int) + w.subrange(
            p10 as int,
            p11 as int,
        ));
        assert(w.subrange(pos as int, p11 as int) =~= w.subrange(pos as int, p8 as int)
            + ",\"directory_name\":"@ + quoted(m.spec_directory_name()) + "}"@);
        assert(w.subrange(pos as int, p11 as int) =~= render_mv(m));
    }
    Some((m, p11))
}

} // verus!
