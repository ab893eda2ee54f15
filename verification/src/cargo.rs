//! The toolchain-installer back end: desired crates, the parser for the
//! "list installed" output, and the per-category reconciliation state.
use vstd::prelude::*;

use crate::strutil::{contains_str, first_token, has_token, is_first_token, token_at};

verus! {

/// The desired crates of the manifest; absent when the manifest has no
/// section for this back end.
pub struct Cargo {
    pub crates: Option<Vec<String>>,
}

/// The first colon of `s` stands at index `c`.
pub open spec fn colon_at(s: Seq<char>, c: int) -> bool {
    &&& 0 <= c < s.len()
    &&& s[c] == ':'
    &&& forall|j: int| 0 <= j < c ==> s[j] != ':'
}

/// Listing line `line` names the installed crate `n`: the line holds a
/// colon, and `n` is the first whitespace-delimited token before it.
pub open spec fn crate_line_yields(line: Seq<char>, n: Seq<char>) -> bool {
    exists|c: int| #[trigger] colon_at(line, c) && is_first_token(line.subrange(0, c), n)
}

/// Some line of `lines` names the installed crate `n`.
pub open spec fn lines_yield(lines: Seq<Seq<char>>, n: Seq<char>) -> bool {
    exists|k: int| 0 <= k < lines.len() && crate_line_yields(#[trigger] lines[k], n)
}

/// The crate named by one listing line: the first whitespace-delimited
/// token before the first colon, or `None` for a line without a colon or
/// without such a token.
pub fn crate_name_of_line(line: &str) -> (r: Option<String>)
    ensures
        r matches Option::Some(t) ==> crate_line_yields(line@, t@),
        r is None ==> forall|n: Seq<char>| !crate_line_yields(line@, n),
{
    let len = line.unicode_len();
    let mut c: usize = 0;
    while c < len && line.get_char(c) != ':'
        invariant
            len == line@.len(),
            c <= len,
            forall|j: int| 0 <= j < c ==> line@[j] != ':',
        decreases len - c,
    {
        c += 1;
    }
    if c == len {
        proof {
            assert forall|n: Seq<char>| !crate_line_yields(line@, n) by {
                if crate_line_yields(line@, n) {
                    let cc = choose|cc: int|
                        #[trigger] colon_at(line@, cc) && is_first_token(
                            line@.subrange(0, cc),
                            n,
                        );
                    assert(line@[cc] == ':');
                }
            }
        }
        return Option::None;
    }
    proof {
        assert(colon_at(line@, c as int));
    }
    let prefix = line.substring_char(0, c);
    let tok = first_token(prefix);
    match tok {
        Option::Some(t) => {
            proof {
                assert(crate_line_yields(line@, t@));
            }
            Option::Some(t)
        },
        Option::None => {
            proof {
                assert forall|n: Seq<char>| !crate_line_yields(line@, n) by {
                    if crate_line_yields(line@, n) {
                        let cc = choose|cc: int|
                            #[trigger] colon_at(line@, cc) && is_first_token(
                                line@.subrange(0, cc),
                                n,
                            );
                        // the first colon is unique, so `cc` is the colon found above
                        assert(cc == c) by {
                            if cc < c {
                                assert(line@[cc] != ':');
                            }
                            if c < cc {
                                assert(line@[c as int] != ':');
                            }
                        }
                        // but the prefix before it has no token at all
                        let (a, b) = choose|a: int, b: int|
                            token_at(line@.subrange(0, cc), a, b, n);
                        assert(token_at(prefix@, a, b, n));
                        assert(!crate::strutil::is_space(prefix@[a]));
                        assert(has_token(prefix@));
                    }
                }
            }
            Option::None
        },
    }
}

/// The installed crates named by the listing lines `lines`: one identity
/// per line that holds a colon-terminated heading.
pub fn parse_installed_crates(lines: &Vec<String>) -> (r: Vec<String>)
    ensures
        forall|j: int|
            #![trigger r.deep_view()[j]]
            0 <= j < r.deep_view().len() ==> lines_yield(lines.deep_view(), r.deep_view()[j]),
        forall|k: int, n: Seq<char>|
            0 <= k < lines@.len() && #[trigger] crate_line_yields(lines.deep_view()[k], n)
                ==> r.deep_view().contains(n),
{
    let mut r: Vec<String> = Vec::new();
    let mut i: usize = 0;
    while i < lines.len()
        invariant
            i <= lines.len(),
            forall|j: int|
                #![trigger r.deep_view()[j]]
                0 <= j < r.deep_view().len() ==> lines_yield(lines.deep_view(), r.deep_view()[j]),
            forall|k: int, n: Seq<char>|
                0 <= k < i && #[trigger] crate_line_yields(lines.deep_view()[k], n)
                    ==> r.deep_view().contains(n),
        decreases lines.len() - i,
    {
        let ghost old_dv = r.deep_view();
        match crate_name_of_line(lines[i].as_str()) {
            Option::Some(t) => {
                let ghost tv = t@;
                r.push(t);
                proof {
                    assert(r.deep_view() =~= old_dv.push(tv));
                    assert(r.deep_view()[r.deep_view().len() - 1] == tv);
                    assert(lines.deep_view()[i as int] == lines@[i as int]@);
                    assert(crate_line_yields(lines.deep_view()[i as int], tv));
                    assert(lines.deep_view().len() == lines@.len());
                    assert forall|j: int|
                        #![trigger r.deep_view()[j]]
                        0 <= j < r.deep_view().len() implies lines_yield(
                        lines.deep_view(),
                        r.deep_view()[j],
                    ) by {
                        if j < r.deep_view().len() - 1 {
                            assert(r.deep_view()[j] == old_dv[j]);
                            assert(lines_yield(lines.deep_view(), old_dv[j]));
                        } else {
                            assert(r.deep_view()[j] == tv);
                            assert(crate_line_yields(lines.deep_view()[i as int], r.deep_view()[j]));
                            assert(lines_yield(lines.deep_view(), r.deep_view()[j]));
                        }
                    }
                    assert forall|k: int, n: Seq<char>|
                        0 <= k < i + 1 && #[trigger] crate_line_yields(
                            lines.deep_view()[k],
                            n,
                        ) implies r.deep_view().contains(n) by {
                        if k < i {
                            let j = choose|j: int| 0 <= j < old_dv.len() && old_dv[j] == n;
                            assert(r.deep_view()[j] == n);
                        } else {
                            // the line yields one token only, so `n` is `tv`
                            let c = choose|c: int|
                                #[trigger] colon_at(lines.deep_view()[k], c) && is_first_token(
                                    lines.deep_view()[k].subrange(0, c),
                                    n,
                                );
                            let c2 = choose|c2: int|
                                #[trigger] colon_at(lines.deep_view()[k], c2) && is_first_token(
                                    lines.deep_view()[k].subrange(0, c2),
                                    tv,
                                );
                            assert(c == c2) by {
                                if c < c2 {
                                    assert(lines.deep_view()[k][c] != ':');
                                }
                                if c2 < c {
                                    assert(lines.deep_view()[k][c2] != ':');
                                }
                            }
                            let s = lines.deep_view()[k].subrange(0, c);
                            let (a1, b1) = choose|a1: int, b1: int| token_at(s, a1, b1, n);
                            let (a2, b2) = choose|a2: int, b2: int| token_at(s, a2, b2, tv);
                            assert(a1 == a2) by {
                                if a1 < a2 {
                                    assert(crate::strutil::is_space(s[a1]));
                                }
                                if a2 < a1 {
                                    assert(crate::strutil::is_space(s[a2]));
                                }
                            }
                            assert(b1 == b2) by {
                                if b1 < b2 {
                                    assert(!crate::strutil::is_space(s[b1]));
                                    assert(b1 == s.len() || crate::strutil::is_space(s[b1]));
                                }
                                if b2 < b1 {
                                    assert(!crate::strutil::is_space(s[b2]));
                                    assert(b2 == s.len() || crate::strutil::is_space(s[b2]));
                                }
                            }
                            assert(n == tv);
                            assert(r.deep_view()[r.deep_view().len() - 1] == n);
                        }
                    }
                }
            },
            Option::None => {
                proof {
                    assert(r.deep_view() == old_dv);
                }
            },
        }
        i += 1;
    }
    r
}

/// The reconciliation state of the crates category: the probed installed
/// set and the plan built so far.
pub struct State {
    installed: Vec<String>,
    planned: Vec<String>,
}

impl State {
    /// The identities probed as installed.
    pub closed spec fn spec_installed(&self) -> Seq<Seq<char>> {
        self.installed.deep_view()
    }

    /// The identities planned for installation, in the order planned.
    pub closed spec fn spec_planned(&self) -> Seq<Seq<char>> {
        self.planned.deep_view()
    }

    /// The plan never repeats an identity and never holds an installed one.
    pub closed spec fn wf(&self) -> bool {
        &&& forall|j: int, k: int|
            0 <= j < k < self.spec_planned().len() ==> self.spec_planned()[j]
                != self.spec_planned()[k]
        &&& forall|j: int|
            0 <= j < self.spec_planned().len() ==> !self.spec_installed().contains(
                #[trigger] self.spec_planned()[j],
            )
    }

    /// A fresh state over the probed installed set, with an empty plan.
    pub fn new(installed: Vec<String>) -> (s: State)
        ensures
            s.wf(),
            s.spec_installed() == installed.deep_view(),
            s.spec_planned() == Seq::<Seq<char>>::empty(),
    {
        let s = State { installed, planned: Vec::new() };
        proof {
            assert(s.spec_planned() =~= Seq::<Seq<char>>::empty());
        }
        s
    }

    /// Whether the identity `crat` was probed as installed.
    pub fn is_installed(&self, crat: &str) -> (r: bool)
        ensures
            r == self.spec_installed().contains(crat@),
    {
        contains_str(&self.installed, crat)
    }

    /// Plan `crat` for installation unless it is already installed or
    /// already planned; the installed set is never changed.
    pub fn plan_install(&mut self, crat: String)
        requires
            old(self).wf(),
        ensures
            final (self).wf(),
            final (self).spec_installed() == old(self).spec_installed(),
            old(self).spec_installed().contains(crat@) || old(self).spec_planned().contains(crat@)
                ==> final (self).spec_planned() == old(self).spec_planned(),
            !old(self).spec_installed().contains(crat@) && !old(self).spec_planned().contains(
                crat@,
            ) ==> final (self).spec_planned() == old(self).spec_planned().push(crat@),
    {
        if !self.is_installed(crat.as_str()) && !contains_str(&self.planned, crat.as_str()) {
            let ghost old_dv = self.planned.deep_view();
            let ghost cv = crat@;
            self.planned.push(crat);
            proof {
                assert(self.planned.deep_view() =~= old_dv.push(cv));
                assert(!old_dv.contains(cv));
                assert(!old(self).spec_installed().contains(cv));
                assert(old(self).spec_planned() == old_dv);
                assert forall|j: int, k: int|
                    0 <= j < k < self.spec_planned().len() implies self.spec_planned()[j]
                    != self.spec_planned()[k] by {
                    assert(self.spec_planned()[j] == old_dv[j]);
                    if k == self.spec_planned().len() - 1 {
                        assert(self.spec_planned()[k] == cv);
                        if old_dv[j] == cv {
                            assert(old_dv.contains(cv));
                        }
                    } else {
                        assert(self.spec_planned()[k] == old_dv[k]);
                        assert(old_dv[j] != old_dv[k]);
                    }
                }
                assert forall|j: int|
                    0 <= j < self.spec_planned().len() implies !self.spec_installed().contains(
                    #[trigger] self.spec_planned()[j],
                ) by {
                    if j < self.spec_planned().len() - 1 {
                        assert(self.spec_planned()[j] == old_dv[j]);
                        assert(!old(self).spec_installed().contains(old_dv[j]));
                        assert(self.spec_installed() == old(self).spec_installed());
                    } else {
                        assert(self.spec_planned()[j] == cv);
                        assert(self.spec_installed() == old(self).spec_installed());
                    }
                }
            }
        }
    }

    /// The plan built so far.
    pub fn planned(&self) -> (r: &Vec<String>)
        ensures
            r.deep_view() == self.spec_planned(),
    {
        &self.planned
    }
}

} // verus!
