//! The universal-package back end: snap entry descriptors with a
//! privileged/classic installation-mode flag, the parser for the "list
//! installed" output, and the per-category reconciliation state.
use vstd::prelude::*;

use crate::reconcile::Item;
use crate::strutil::{contains_str, first_token, has_token, is_first_token, str_eq};

verus! {

/// One desired entry: a bare identity, or an identity together with the
/// classic-confinement flag.
pub enum Snap {
    Simple(String),
    Detailed { name: String, classic: bool },
}

impl Snap {
    /// The identity, the sole field used for equality and lookup.
    pub open spec fn spec_name(&self) -> Seq<char> {
        match self {
            Snap::Simple(n) => n@,
            Snap::Detailed { name, .. } => name@,
        }
    }

    /// Whether the entry asks for a classic-confinement install.
    pub open spec fn spec_classic(&self) -> bool {
        match self {
            Snap::Simple(_) => false,
            Snap::Detailed { classic, .. } => *classic,
        }
    }

    /// Identity extraction; total for both forms.
    pub fn name(&self) -> (r: &str)
        ensures
            r@ == self.spec_name(),
    {
        match self {
            Snap::Simple(n) => n.as_str(),
            Snap::Detailed { name, .. } => name.as_str(),
        }
    }

    /// The installation-mode flag; `false` for a bare entry.
    pub fn is_classic(&self) -> (r: bool)
        ensures
            r == self.spec_classic(),
    {
        match self {
            Snap::Simple(_) => false,
            Snap::Detailed { classic, .. } => *classic,
        }
    }

    /// The entry as a reconciler item: same identity, no platform
    /// qualifier, the classic flag as the installation mode.
    pub fn to_item(&self) -> (r: Item)
        ensures
            r.spec_name() == self.spec_name(),
            r.flag == self.spec_classic(),
            r.on is None,
    {
        match self {
            Snap::Simple(n) => Item { name: n.clone(), on: Option::None, flag: false },
            Snap::Detailed { name, classic } => Item {
                name: name.clone(),
                on: Option::None,
                flag: *classic,
            },
        }
    }
}

/// The desired entries of the manifest; absent when the manifest has no
/// section for this back end.
pub struct Snaps {
    pub snaps: Option<Vec<Snap>>,
}

/// Listing line `line` names the installed snap `n`: its first
/// whitespace-delimited token.
pub open spec fn snap_line_yields(line: Seq<char>, n: Seq<char>) -> bool {
    is_first_token(line, n)
}

/// Some line of `lines` names the installed snap `n`.
pub open spec fn snap_lines_yield(lines: Seq<Seq<char>>, n: Seq<char>) -> bool {
    exists|k: int| 0 <= k < lines.len() && snap_line_yields(#[trigger] lines[k], n)
}

/// The installed snaps named by the listing lines `lines`: the first
/// whitespace-delimited token of each line that has one.
pub fn parse_installed_snaps(lines: &Vec<String>) -> (r: Vec<String>)
    ensures
        forall|j: int|
            #![trigger r.deep_view()[j]]
            0 <= j < r.deep_view().len() ==> snap_lines_yield(lines.deep_view(), r.deep_view()[j]),
        forall|k: int, n: Seq<char>|
            0 <= k < lines@.len() && #[trigger] snap_line_yields(lines.deep_view()[k], n)
                ==> r.deep_view().contains(n),
{
    let mut r: Vec<String> = Vec::new();
    let mut i: usize = 0;
    while i < lines.len()
        invariant
            i <= lines.len(),
            forall|j: int|
                #![trigger r.deep_view()[j]]
                0 <= j < r.deep_view().len() ==> snap_lines_yield(
                    lines.deep_view(),
                    r.deep_view()[j],
                ),
            forall|k: int, n: Seq<char>|
                0 <= k < i && #[trigger] snap_line_yields(lines.deep_view()[k], n)
                    ==> r.deep_view().contains(n),
        decreases lines.len() - i,
    {
        let ghost old_dv = r.deep_view();
        match first_token(lines[i].as_str()) {
            Option::Some(t) => {
                let ghost tv = t@;
                r.push(t);
                proof {
                    assert(r.deep_view() =~= old_dv.push(tv));
                    assert(r.deep_view()[r.deep_view().len() - 1] == tv);
                    assert(lines.deep_view()[i as int] == lines@[i as int]@);
                    assert(snap_line_yields(lines.deep_view()[i as int], tv));
                    assert forall|j: int|
                        #![trigger r.deep_view()[j]]
                        0 <= j < r.deep_view().len() implies snap_lines_yield(
                        lines.deep_view(),
                        r.deep_view()[j],
                    ) by {
                        if j < r.deep_view().len() - 1 {
                            assert(r.deep_view()[j] == old_dv[j]);
                            assert(snap_lines_yield(lines.deep_view(), old_dv[j]));
                        } else {
                            assert(r.deep_view()[j] == tv);
                            assert(snap_lines_yield(lines.deep_view(), r.deep_view()[j]));
                        }
                    }
                    assert forall|k: int, n: Seq<char>|
                        0 <= k < i + 1 && #[trigger] snap_line_yields(
                            lines.deep_view()[k],
                            n,
                        ) implies r.deep_view().contains(n) by {
                        if k < i {
                            let j = choose|j: int| 0 <= j < old_dv.len() && old_dv[j] == n;
                            assert(r.deep_view()[j] == n);
                        } else {
                            // a line has at most one first token
                            let s = lines.deep_view()[k];
                            let (a1, b1) = choose|a1: int, b1: int|
                                crate::strutil::token_at(s, a1, b1, n);
                            let (a2, b2) = choose|a2: int, b2: int|
                                crate::strutil::token_at(s, a2, b2, tv);
                            assert(a1 == a2) by {
                                if a1 < a2 {
                                    assert(crate::strutil::is_space(s[a1]));
                                }
                                if a2 < a1 {
                                    assert(crate::strutil::is_space(s[a2]));
                                }
                            }
                            assert(b1 == b2) by {
                                if b1 < b2 {
                                    assert(!crate::strutil::is_space(s[b1]));
                                    assert(b1 == s.len() || crate::strutil::is_space(s[b1]));
                                }
                                if b2 < b1 {
                                    assert(!crate::strutil::is_space(s[b2]));
                                    assert(b2 == s.len() || crate::strutil::is_space(s[b2]));
                                }
                            }
                            assert(n == tv);
                            assert(r.deep_view()[r.deep_view().len() - 1] == n);
                        }
                    }
                }
            },
            Option::None => {
                proof {
                    assert(r.deep_view() == old_dv);
                    assert forall|k: int, n: Seq<char>|
                        0 <= k < i + 1 && #[trigger] snap_line_yields(
                            lines.deep_view()[k],
                            n,
                        ) implies r.deep_view().contains(n) by {
                        if k == i {
                            // the line has no token at all
                            let (a, b) = choose|a: int, b: int|
                                crate::strutil::token_at(lines.deep_view()[k], a, b, n);
                            assert(!crate::strutil::is_space(lines.deep_view()[k][a]));
                            assert(lines.deep_view()[i as int] == lines@[i as int]@);
                            assert(has_token(lines@[i as int]@));
                        }
                    }
                }
            },
        }
        i += 1;
    }
    r
}

/// Some entry of `s` has identity `n`.
pub open spec fn snaps_have_name(s: Seq<Snap>, n: Seq<char>) -> bool {
    exists|j: int| 0 <= j < s.len() && (#[trigger] s[j]).spec_name() == n
}

/// A well-formed snap plan against an installed set: no identity twice, no
/// installed identity.
pub open spec fn snap_plan_wf(planned: Seq<Snap>, installed: Seq<Seq<char>>) -> bool {
    &&& forall|j: int, k: int|
        0 <= j < k < planned.len() ==> (#[trigger] planned[j]).spec_name() != (
        #[trigger] planned[k]).spec_name()
    &&& forall|j: int|
        0 <= j < planned.len() ==> !installed.contains((#[trigger] planned[j]).spec_name())
}

/// Pushing a fresh, not-installed entry keeps a snap plan well-formed.
proof fn lemma_snap_plan_wf_push(planned: Seq<Snap>, installed: Seq<Seq<char>>, sn: Snap)
    requires
        snap_plan_wf(planned, installed),
        !snaps_have_name(planned, sn.spec_name()),
        !installed.contains(sn.spec_name()),
    ensures
        snap_plan_wf(planned.push(sn), installed),
{
    let p2 = planned.push(sn);
    assert forall|j: int, k: int|
        0 <= j < k < p2.len() implies (#[trigger] p2[j]).spec_name() != (
    #[trigger] p2[k]).spec_name() by {
        assert(p2[j] == planned[j]);
        if k == p2.len() - 1 {
            assert(p2[k] == sn);
            if planned[j].spec_name() == sn.spec_name() {
                assert(snaps_have_name(planned, sn.spec_name()));
            }
        } else {
            assert(p2[k] == planned[k]);
            assert(planned[j].spec_name() != planned[k].spec_name());
        }
    }
    assert forall|j: int| 0 <= j < p2.len() implies !installed.contains(
        (#[trigger] p2[j]).spec_name(),
    ) by {
        if j < p2.len() - 1 {
            assert(p2[j] == planned[j]);
            assert(!installed.contains(planned[j].spec_name()));
        } else {
            assert(p2[j] == sn);
        }
    }
}

/// Whether some entry of `items` has identity `needle`.
pub fn contains_snap_name(items: &Vec<Snap>, needle: &str) -> (r: bool)
    ensures
        r == snaps_have_name(items@, needle@),
{
    let mut i: usize = 0;
    while i < items.len()
        invariant
            i <= items.len(),
            forall|j: int| 0 <= j < i ==> (#[trigger] items@[j]).spec_name() != needle@,
        decreases items.len() - i,
    {
        if str_eq(items[i].name(), needle) {
            proof {
                assert(items@[i as int].spec_name() == needle@);
            }
            return true;
        }
        i += 1;
    }
    false
}

/// The items `items` are the snap entries `sn`, one for one: same
/// identities, the classic flag as the installation mode, no platform
/// qualifier.
pub open spec fn items_match_snaps(items: Seq<Item>, sn: Seq<Snap>) -> bool {
    &&& items.len() == sn.len()
    &&& forall|j: int|
        0 <= j < items.len() ==> (#[trigger] items[j]).spec_name() == sn[j].spec_name()
            && items[j].flag == sn[j].spec_classic() && items[j].on is None
}

/// Snap entries as reconciler items, in order: same identities, the classic
/// flag as the installation mode, no platform qualifier.
pub fn snaps_to_items(sn: &Vec<Snap>) -> (r: Vec<Item>)
    ensures
        items_match_snaps(r@, sn@),
{
    let mut r: Vec<Item> = Vec::new();
    let mut i: usize = 0;
    while i < sn.len()
        invariant
            i <= sn@.len(),
            r@.len() == i,
            forall|j: int|
                0 <= j < i ==> (#[trigger] r@[j]).spec_name() == sn@[j].spec_name() && r@[j].flag
                    == sn@[j].spec_classic() && r@[j].on is None,
        decreases sn@.len() - i,
    {
        r.push(sn[i].to_item());
        i += 1;
    }
    r
}

/// The reconciliation state of the snaps category: the probed installed
/// set and the plan built so far.
pub struct State {
    installed: Vec<String>,
    planned: Vec<Snap>,
}

impl State {
    /// The identities probed as installed.
    pub closed spec fn spec_installed(&self) -> Seq<Seq<char>> {
        self.installed.deep_view()
    }

    /// The entries planned for installation, in the order planned.
    pub closed spec fn spec_planned(&self) -> Seq<Snap> {
        self.planned@
    }

    /// The plan never repeats an identity and never holds an installed one.
    pub closed spec fn wf(&self) -> bool {
        snap_plan_wf(self.spec_planned(), self.spec_installed())
    }

    /// A fresh state over the probed installed set, with an empty plan.
    pub fn new(installed: Vec<String>) -> (s: State)
        ensures
            s.wf(),
            s.spec_installed() == installed.deep_view(),
            s.spec_planned() == Seq::<Snap>::empty(),
    {
        let s = State { installed, planned: Vec::new() };
        proof {
            assert(s.spec_planned() =~= Seq::<Snap>::empty());
        }
        s
    }

    /// Whether the identity `snap` was probed as installed.
    pub fn is_installed(&self, snap: &str) -> (r: bool)
        ensures
            r == self.spec_installed().contains(snap@),
    {
        contains_str(&self.installed, snap)
    }

    /// Plan `snap` for installation unless its identity is already
    /// installed or already planned; the installed set is never changed.
    pub fn plan_install(&mut self, snap: Snap)
        requires
            old(self).wf(),
        ensures
            final (self).wf(),
            final (self).spec_installed() == old(self).spec_installed(),
            old(self).spec_installed().contains(snap.spec_name()) || snaps_have_name(
                old(self).spec_planned(),
                snap.spec_name(),
            ) ==> final (self).spec_planned() == old(self).spec_planned(),
            !old(self).spec_installed().contains(snap.spec_name()) && !snaps_have_name(
                old(self).spec_planned(),
                snap.spec_name(),
            ) ==> final (self).spec_planned() == old(self).spec_planned().push(snap),
    {
        if !self.is_installed(snap.name()) && !contains_snap_name(&self.planned, snap.name()) {
            let ghost oldp = self.planned@;
            let ghost inst = self.installed.deep_view();
            let ghost gs = snap;
            self.planned.push(snap);
            proof {
                lemma_snap_plan_wf_push(oldp, inst, gs);
                assert(self.spec_planned() == oldp.push(gs));
            }
        }
    }

    /// The plan built so far.
    pub fn planned(&self) -> (r: &Vec<Snap>)
        ensures
            r@ == self.spec_planned(),
    {
        &self.planned
    }
}

} // verus!
