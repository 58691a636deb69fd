//! Copies of the host applications' configuration files, patched in place.
//!
//! A configuration is a sequence of lines.  The single line naming the
//! active compatibility-tool directory is located once; rewriting splices a
//! new value into exactly the recorded character span of that line and
//! leaves every other character of the file untouched.
use vstd::prelude::*;

use crate::text::{
    chars_vec, contains_chars, contains_seq, find_first, find_last, first_occ, last_idx_of,
    string_from_chars,
};

verus! {

/// The views of a vector of lines.
pub open spec fn lines_view(ls: Seq<String>) -> Seq<Seq<char>> {
    Seq::new(ls.len(), |i: int| ls[i]@)
}

/// The index of the line carrying Steam's default-version placeholder:
/// the first line holding `"0"` at or after the line that opens the
/// `CompatToolMapping` group.
pub open spec fn steam_zero_line(lines: Seq<Seq<char>>, i: int, passed: bool) -> Option<int>
    decreases lines.len() - i,
{
    if i < 0 || i >= lines.len() {
        None
    } else {
        let p2 = passed || contains_seq(lines[i], "CompatToolMapping"@);
        if p2 && contains_seq(lines[i], seq!['"', '0', '"']) {
            Some(i)
        } else {
            steam_zero_line(lines, i + 1, p2)
        }
    }
}

/// The index of the first line holding the Lutris `version` attribute.
pub open spec fn lutris_version_line(lines: Seq<Seq<char>>, i: int) -> Option<int>
    decreases lines.len() - i,
{
    if i < 0 || i >= lines.len() {
        None
    } else if contains_seq(lines[i], "version"@) {
        Some(i)
    } else {
        lutris_version_line(lines, i + 1)
    }
}

/// Whether Steam's lines hold a readable default-version attribute: a
/// placeholder line is found, the value line two below it exists, and
/// that line holds a quoted value.
pub open spec fn steam_read_ok(lv: Seq<Seq<char>>) -> bool {
    let z = steam_zero_line(lv, 0, false);
    &&& z is Some
    &&& z->0 + 2 < lv.len()
    &&& ({
        let line = lv[z->0 + 2];
        let e = last_idx_of(line, '"');
        e >= 0 && last_idx_of(line.subrange(0, e), '"') >= 0
    })
}

/// The directory name Steam's lines designate as active: the span between
/// the value line's last two quotes.
pub open spec fn steam_active_value(lv: Seq<Seq<char>>) -> Seq<char> {
    let line = lv[steam_zero_line(lv, 0, false)->0 + 2];
    let e = last_idx_of(line, '"');
    let s0 = last_idx_of(line.subrange(0, e), '"');
    line.subrange(s0 + 1, e)
}

/// Whether Lutris's lines hold a readable version attribute: a line holds
/// the keyword, and that line holds `": "`.
pub open spec fn lutris_read_ok(lv: Seq<Seq<char>>) -> bool {
    let z = lutris_version_line(lv, 0);
    z is Some && first_occ(lv[z->0], seq![':', ' ']) >= 0
}

/// The directory name Lutris's lines designate as active: the text after
/// the first `": "` of the value line.
pub open spec fn lutris_active_value(lv: Seq<Seq<char>>) -> Seq<char> {
    let line = lv[lutris_version_line(lv, 0)->0];
    line.subrange(first_occ(line, seq![':', ' ']) + 2, line.len() as int)
}

/// The error of reading a Steam configuration with no recognizable
/// default compatibility-tool attribute.
#[derive(Debug)]
pub enum SteamConfigError {
    NoDefaultCompatToolAttribute,
}

/// The error of reading a Lutris runner configuration with no `version`
/// attribute.
#[derive(Debug)]
pub enum LutrisConfigError {
    NoVersionAttribute,
}

/// A copy of Steam's configuration, with the location of the default
/// Proton directory name: its line, and the character span of the quoted
/// value on that line.
#[derive(Debug)]
pub struct SteamConfig {
    lines: Vec<String>,
    compat_tool_line: String,
    compat_tool_line_idx: usize,
    compat_tool_value_start_idx: usize,
    compat_tool_value_end_idx: usize,
}

impl SteamConfig {
    /// The lines of the copy.
    pub closed spec fn spec_lines(&self) -> Seq<Seq<char>> {
        lines_view(self.lines@)
    }

    /// The recorded value line.
    pub closed spec fn spec_line(&self) -> Seq<char> {
        self.compat_tool_line@
    }

    /// The index of the recorded value line.
    pub closed spec fn spec_idx(&self) -> int {
        self.compat_tool_line_idx as int
    }

    /// Where the value starts on its line.
    pub closed spec fn spec_start(&self) -> int {
        self.compat_tool_value_start_idx as int
    }

    /// Where the value ends on its line.
    pub closed spec fn spec_end(&self) -> int {
        self.compat_tool_value_end_idx as int
    }

    /// The recorded span lies on the recorded line of the copy.
    pub open spec fn wf(&self) -> bool {
        &&& 0 <= self.spec_idx() < self.spec_lines().len()
        &&& self.spec_line() == self.spec_lines()[self.spec_idx()]
        &&& 0 <= self.spec_start() <= self.spec_end() <= self.spec_line().len()
    }

    /// Reads a copy of a Steam configuration given as lines: the value
    /// line is the one two below the first line holding the `"0"`
    /// placeholder at or after the `CompatToolMapping` group, and the
    /// value is the span between the line's last two quotes.  With no such
    /// line, or no quoted value on it, the attribute is missing.
    pub fn create_copy(lines: Vec<String>) -> (r: Result<SteamConfig, SteamConfigError>)
        ensures
            ({
                let lv = lines_view(lines@);
                match r {
                    Ok(c) => ({
                        let z = steam_zero_line(lv, 0, false);
                        &&& steam_read_ok(lv)
                        &&& z is Some
                        &&& z->0 + 2 < lv.len()
                        &&& c.spec_lines() == lv
                        &&& c.spec_idx() == z->0 + 2
                        &&& c.spec_line() == lv[z->0 + 2]
                        &&& c.spec_end() == last_idx_of(c.spec_line(), '"')
                        &&& c.spec_start() == last_idx_of(
                            c.spec_line().subrange(0, c.spec_end()),
                            '"',
                        ) + 1
                        &&& c.wf()
                        &&& 1 <= c.spec_start()
                        &&& c.spec_line().subrange(c.spec_start(), c.spec_end())
                            == steam_active_value(lv)
                    }),
                    Err(SteamConfigError::NoDefaultCompatToolAttribute) => !steam_read_ok(lv),
                }
            }),
    {
        let marker = chars_vec("CompatToolMapping");
        let mut q0: Vec<char> = Vec::new();
        q0.push('"');
        q0.push('0');
        q0.push('"');
        proof {
            assert(q0@ =~= seq!['"', '0', '"']);
        }
        let ghost lv = lines_view(lines@);
        let mut passed: bool = false;
        let mut found: Option<usize> = None;
        let mut i: usize = 0;
        while i < lines.len()
            invariant
                i <= lines@.len(),
                lv == lines_view(lines@),
                marker@ == "CompatToolMapping"@,
                q0@ == seq!['"', '0', '"'],
                match found {
                    Some(z) => z < i && steam_zero_line(lv, 0, false) == Some(z as int),
                    None => steam_zero_line(lv, 0, false) == steam_zero_line(
                        lv,
                        i as int,
                        passed,
                    ),
                },
            decreases lines@.len() - i,
        {
            let line_chars = chars_vec(lines[i].as_str());
            proof {
                assert(lv[i as int] == lines@[i as int]@);
            }
            if contains_chars(&line_chars, &marker) {
                passed = true;
            }
            if found.is_none() && passed && contains_chars(&line_chars, &q0) {
                found = Some(i);
            }
            i = i + 1;
        }
        let z: usize = match found {
            Some(z) => z,
            None => {
                return Err(SteamConfigError::NoDefaultCompatToolAttribute);
            },
        };
        if lines.len() - z <= 2 {
            return Err(SteamConfigError::NoDefaultCompatToolAttribute);
        }
        let vidx: usize = z + 2;
        let value_line = lines[vidx].clone();
        let line_chars = chars_vec(value_line.as_str());
        proof {
            assert(lv[vidx as int] == lines@[vidx as int]@);
        }
        let e: usize = match find_last(&line_chars, '"') {
            Some(e) => e,
            None => {
                return Err(SteamConfigError::NoDefaultCompatToolAttribute);
            },
        };
        let mut prefix: Vec<char> = Vec::new();
        let mut j: usize = 0;
        while j < e
            invariant
                j <= e,
                e < line_chars@.len(),
                prefix@ == line_chars@.subrange(0, j as int),
            decreases e - j,
        {
            prefix.push(line_chars[j]);
            j = j + 1;
            proof {
                assert(prefix@ =~= line_chars@.subrange(0, j as int));
            }
        }
        proof {
            assert(prefix@ =~= line_chars@.subrange(0, e as int));
        }
        let s0: usize = match find_last(&prefix, '"') {
            Some(s0) => s0,
            None => {
                return Err(SteamConfigError::NoDefaultCompatToolAttribute);
            },
        };
        Ok(SteamConfig {
            lines,
            compat_tool_line: value_line,
            compat_tool_line_idx: vidx,
            compat_tool_value_start_idx: s0 + 1,
            compat_tool_value_end_idx: e,
        })
    }

    /// The directory name of the Proton version the configuration makes
    /// active: the recorded span of the recorded line.
    pub fn proton_version(&self) -> (r: String)
        requires
            self.spec_start() <= self.spec_end() <= self.spec_line().len(),
        ensures
            r@ == self.spec_line().subrange(self.spec_start(), self.spec_end()),
    {
        let chars = chars_vec(self.compat_tool_line.as_str());
        let mut out: Vec<char> = Vec::new();
        let mut j: usize = self.compat_tool_value_start_idx;
        while j < self.compat_tool_value_end_idx
            invariant
                self.spec_start() <= j <= self.spec_end(),
                self.spec_end() <= chars@.len(),
                chars@ == self.spec_line(),
                out@ == self.spec_line().subrange(self.spec_start(), j as int),
            decreases self.spec_end() - j,
        {
            out.push(chars[j]);
            j = j + 1;
            proof {
                assert(out@ =~= self.spec_line().subrange(self.spec_start(), j as int));
            }
        }
        string_from_chars(&out)
    }

    /// Splices the given directory name into exactly the recorded span of
    /// the recorded line; the recorded indices themselves are kept as they
    /// were read.
    pub fn set_proton_version(&mut self, proton_dir_name: &str)
        requires
            old(self).wf(),
        ensures
            ({
                let line = old(self).spec_line();
                let start = old(self).spec_start();
                let end = old(self).spec_end();
                let patched = line.subrange(0, start) + proton_dir_name@ + line.subrange(
                    end,
                    line.len() as int,
                );
                &&& final(self).spec_line() == patched
                &&& final(self).spec_lines() == old(self).spec_lines().update(
                    old(self).spec_idx(),
                    patched,
                )
                &&& final(self).spec_idx() == old(self).spec_idx()
                &&& final(self).spec_start() == start
                &&& final(self).spec_end() == end
            }),
    {
        let chars = chars_vec(self.compat_tool_line.as_str());
        let value = chars_vec(proton_dir_name);
        let mut patched: Vec<char> = Vec::new();
        let mut j: usize = 0;
        while j < self.compat_tool_value_start_idx
            invariant
                j <= self.spec_start(),
                self.spec_start() <= self.spec_end() <= chars@.len(),
                chars@ == self.spec_line(),
                patched@ == self.spec_line().subrange(0, j as int),
            decreases self.spec_start() - j,
        {
            patched.push(chars[j]);
            j = j + 1;
            proof {
                assert(patched@ =~= self.spec_line().subrange(0, j as int));
            }
        }
        crate::tag::extend_chars(&mut patched, &value);
        let ghost mid = patched@;
        let mut j2: usize = self.compat_tool_value_end_idx;
        while j2 < chars.len()
            invariant
                self.spec_end() <= j2 <= chars@.len(),
                chars@ == self.spec_line(),
                mid == self.spec_line().subrange(0, self.spec_start()) + value@,
                value@ == proton_dir_name@,
                patched@ == mid + self.spec_line().subrange(self.spec_end(), j2 as int),
            decreases chars@.len() - j2,
        {
            patched.push(chars[j2]);
            j2 = j2 + 1;
            proof {
                assert(patched@ =~= mid + self.spec_line().subrange(self.spec_end(), j2 as int));
            }
        }
        let new_line = string_from_chars(&patched);
        let copy = new_line.clone();
        self.compat_tool_line = new_line;
        self.lines.set(self.compat_tool_line_idx, copy);
        proof {
            assert(final(self).spec_line() =~= old(self).spec_line().subrange(
                0,
                old(self).spec_start(),
            ) + proton_dir_name@ + old(self).spec_line().subrange(
                old(self).spec_end(),
                old(self).spec_line().len() as int,
            ));
            assert(final(self).spec_lines() =~= old(self).spec_lines().update(
                old(self).spec_idx(),
                final(self).spec_line(),
            ));
        }
    }

    /// The lines of the copy, for writing back.
    pub fn into_lines(self) -> (r: Vec<String>)
        ensures
            lines_view(r@) == self.spec_lines(),
    {
        self.lines
    }
}

/// A copy of Lutris's Wine runner configuration, with the location of the
/// active version value: its line, and the span from after `": "` to the
/// line's end.
#[derive(Debug)]
pub struct LutrisConfig {
    lines: Vec<String>,
    wine_dir_line: String,
    wine_dir_line_idx: usize,
    wine_dir_line_value_start_idx: usize,
    wine_dir_line_value_end_idx: usize,
}

impl LutrisConfig {
    /// The lines of the copy.
    pub closed spec fn spec_lines(&self) -> Seq<Seq<char>> {
        lines_view(self.lines@)
    }

    /// The recorded value line.
    pub closed spec fn spec_line(&self) -> Seq<char> {
        self.wine_dir_line@
    }

    /// The index of the recorded value line.
    pub closed spec fn spec_idx(&self) -> int {
        self.wine_dir_line_idx as int
    }

    /// Where the value starts on its line.
    pub closed spec fn spec_start(&self) -> int {
        self.wine_dir_line_value_start_idx as int
    }

    /// Where the value ends on its line.
    pub closed spec fn spec_end(&self) -> int {
        self.wine_dir_line_value_end_idx as int
    }

    /// The recorded span lies on the recorded line of the copy.
    pub open spec fn wf(&self) -> bool {
        &&& 0 <= self.spec_idx() < self.spec_lines().len()
        &&& self.spec_line() == self.spec_lines()[self.spec_idx()]
        &&& 0 <= self.spec_start() <= self.spec_end() <= self.spec_line().len()
    }

    /// Reads a copy of a Lutris runner configuration given as lines: the
    /// value line is the first one holding `version`, and the value runs
    /// from after the first `": "` to the line's end.  With no such line,
    /// or none holding `": "`, the attribute is missing.
    pub fn create_copy(lines: Vec<String>) -> (r: Result<LutrisConfig, LutrisConfigError>)
        ensures
            ({
                let lv = lines_view(lines@);
                match r {
                    Ok(c) => ({
                        let z = lutris_version_line(lv, 0);
                        &&& lutris_read_ok(lv)
                        &&& z is Some
                        &&& c.spec_lines() == lv
                        &&& c.spec_idx() == z->0
                        &&& c.spec_line() == lv[z->0]
                        &&& first_occ(c.spec_line(), seq![':', ' ']) >= 0
                        &&& c.spec_start() == first_occ(c.spec_line(), seq![':', ' ']) + 2
                        &&& c.spec_end() == c.spec_line().len()
                        &&& c.wf()
                        &&& c.spec_line().subrange(c.spec_start(), c.spec_end())
                            == lutris_active_value(lv)
                    }),
                    Err(LutrisConfigError::NoVersionAttribute) => !lutris_read_ok(lv),
                }
            }),
    {
        let marker = chars_vec("version");
        let mut sep: Vec<char> = Vec::new();
        sep.push(':');
        sep.push(' ');
        proof {
            assert(sep@ =~= seq![':', ' ']);
        }
        let ghost lv = lines_view(lines@);
        let mut found: Option<usize> = None;
        let mut i: usize = 0;
        while i < lines.len()
            invariant
                i <= lines@.len(),
                lv == lines_view(lines@),
                marker@ == "version"@,
                found is Some ==> i >= lines@.len(),
                match found {
                    Some(z) => z < lines@.len() && lutris_version_line(lv, 0) == Some(z as int),
                    None => lutris_version_line(lv, 0) == lutris_version_line(lv, i as int),
                },
            decreases lines@.len() - i,
        {
            let line_chars = chars_vec(lines[i].as_str());
            proof {
                assert(lv[i as int] == lines@[i as int]@);
            }
            if contains_chars(&line_chars, &marker) {
                found = Some(i);
                proof {
                    assert(lutris_version_line(lv, i as int) == Some(i as int));
                }
                i = lines.len();
            } else {
                proof {
                    assert(lutris_version_line(lv, i as int) == lutris_version_line(lv, i + 1));
                }
                i = i + 1;
            }
        }
        let z: usize = match found {
            Some(z) => z,
            None => {
                return Err(LutrisConfigError::NoVersionAttribute);
            },
        };
        let value_line = lines[z].clone();
        let line_chars = chars_vec(value_line.as_str());
        proof {
            assert(lv[z as int] == lines@[z as int]@);
        }
        let sep_at: usize = match find_first(&line_chars, &sep) {
            Some(at) => at,
            None => {
                return Err(LutrisConfigError::NoVersionAttribute);
            },
        };
        let end: usize = line_chars.len();
        proof {
            assert(first_occ(lv[z as int], seq![':', ' ']) == sep_at as int);
            crate::text::lemma_first_occ_props(line_chars@, sep@, 0);
            assert(crate::text::occurs_at(line_chars@, sep@, sep_at as int));
            assert(sep_at + 2 <= line_chars@.len());
        }
        Ok(LutrisConfig {
            lines,
            wine_dir_line: value_line,
            wine_dir_line_idx: z,
            wine_dir_line_value_start_idx: sep_at + 2,
            wine_dir_line_value_end_idx: end,
        })
    }

    /// The directory name of the Wine version the configuration makes
    /// active: the recorded span of the recorded line.
    pub fn wine_version(&self) -> (r: String)
        requires
            self.spec_start() <= self.spec_end() <= self.spec_line().len(),
        ensures
            r@ == self.spec_line().subrange(self.spec_start(), self.spec_end()),
    {
        let chars = chars_vec(self.wine_dir_line.as_str());
        let mut out: Vec<char> = Vec::new();
        let mut j: usize = self.wine_dir_line_value_start_idx;
        while j < self.wine_dir_line_value_end_idx
            invariant
                self.spec_start() <= j <= self.spec_end(),
                self.spec_end() <= chars@.len(),
                chars@ == self.spec_line(),
                out@ == self.spec_line().subrange(self.spec_start(), j as int),
            decreases self.spec_end() - j,
        {
            out.push(chars[j]);
            j = j + 1;
            proof {
                assert(out@ =~= self.spec_line().subrange(self.spec_start(), j as int));
            }
        }
        string_from_chars(&out)
    }

    /// Splices the given directory name into exactly the recorded span of
    /// the recorded line; the recorded indices themselves are kept as they
    /// were read.
    pub fn set_wine_version(&mut self, wine_directory_name: &str)
        requires
            old(self).wf(),
        ensures
            ({
                let line = old(self).spec_line();
                let start = old(self).spec_start();
                let end = old(self).spec_end();
                let patched = line.subrange(0, start) + wine_directory_name@ + line.subrange(
                    end,
                    line.len() as int,
                );
                &&& final(self).spec_line() == patched
                &&& final(self).spec_lines() == old(self).spec_lines().update(
                    old(self).spec_idx(),
                    patched,
                )
                &&& final(self).spec_idx() == old(self).spec_idx()
                &&& final(self).spec_start() == start
                &&& final(self).spec_end() == end
            }),
    {
        let chars = chars_vec(self.wine_dir_line.as_str());
        let value = chars_vec(wine_directory_name);
        let mut patched: Vec<char> = Vec::new();
        let mut j: usize = 0;
        while j < self.wine_dir_line_value_start_idx
            invariant
                j <= self.spec_start(),
                self.spec_start() <= self.spec_end() <= chars@.len(),
                chars@ == self.spec_line(),
                patched@ == self.spec_line().subrange(0, j as int),
            decreases self.spec_start() - j,
        {
            patched.push(chars[j]);
            j = j + 1;
            proof {
                assert(patched@ =~= self.spec_line().subrange(0, j as int));
            }
        }
        crate::tag::extend_chars(&mut patched, &value);
        let ghost mid = patched@;
        let mut j2: usize = self.wine_dir_line_value_end_idx;
        while j2 < chars.len()
            invariant
                self.spec_end() <= j2 <= chars@.len(),
                chars@ == self.spec_line(),
                mid == self.spec_line().subrange(0, self.spec_start()) + value@,
                value@ == wine_directory_name@,
                patched@ == mid + self.spec_line().subrange(self.spec_end(), j2 as int),
            decreases chars@.len() - j2,
        {
            patched.push(chars[j2]);
            j2 = j2 + 1;
            proof {
                assert(patched@ =~= mid + self.spec_line().subrange(self.spec_end(), j2 as int));
            }
        }
        let new_line = string_from_chars(&patched);
        let copy = new_line.clone();
        self.wine_dir_line = new_line;
        self.lines.set(self.wine_dir_line_idx, copy);
        proof {
            assert(final(self).spec_line() =~= old(self).spec_line().subrange(
                0,
                old(self).spec_start(),
            ) + wine_directory_name@ + old(self).spec_line().subrange(
                old(self).spec_end(),
                old(self).spec_line().len() as int,
            ));
            assert(final(self).spec_lines() =~= old(self).spec_lines().update(
                old(self).spec_idx(),
                final(self).spec_line(),
            ));
        }
    }

    /// The lines of the copy, for writing back.
    pub fn into_lines(self) -> (r: Vec<String>)
        ensures
            lines_view(r@) == self.spec_lines(),
    {
        self.lines
    }
}

/// Patching splices the new value into the recorded span and touches
/// nothing else: every other line is identical, and on the patched line
/// the characters before the span and after it are carried over unchanged.
pub proof fn lemma_patch_changes_only_value_span(
    old_lines: Seq<Seq<char>>,
    new_lines: Seq<Seq<char>>,
    idx: int,
    old_line: Seq<char>,
    new_line: Seq<char>,
    start: int,
    end: int,
    value: Seq<char>,
)
    requires
        0 <= idx < old_lines.len(),
        old_line == old_lines[idx],
        0 <= start <= end <= old_line.len(),
        new_line == old_line.subrange(0, start) + value + old_line.subrange(
            end,
            old_line.len() as int,
        ),
        new_lines == old_lines.update(idx, new_line),
    ensures
        new_lines.len() == old_lines.len(),
        forall|j: int| 0 <= j < old_lines.len() && j != idx ==> new_lines[j] == old_lines[j],
        new_line.len() == old_line.len() - (end - start) + value.len(),
        forall|p: int| 0 <= p < start ==> new_line[p] == old_line[p],
        forall|p: int| start <= p < start + value.len() ==> new_line[p] == value[p - start],
        forall|p: int|
            end <= p < old_line.len() ==> new_line[start + value.len() + (p - end)] == old_line[p],
{
    assert forall|p: int| 0 <= p < start implies new_line[p] == old_line[p] by {
        assert(new_line[p] == old_line.subrange(0, start)[p]);
    }
    assert forall|p: int|
        end <= p < old_line.len() implies new_line[start + value.len() + (p - end)]
        == old_line[p] by {
        assert(new_line[start + value.len() + (p - end)] == old_line.subrange(
            end,
            old_line.len() as int,
        )[p - end]);
    }
}

} // verus!
