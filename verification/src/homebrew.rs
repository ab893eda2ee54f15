//! The system-package-manager back end: formula entry descriptors with
//! optional platform qualifiers, and the reconciliation state for its three
//! categories (repository taps, formulae, GUI casks).
use vstd::prelude::*;

use crate::reconcile::Item;
use crate::strutil::{contains_str, str_eq};

verus! {

/// One desired entry: a bare identity, or an identity together with the
/// only operating system the entry applies on.
pub enum Formula {
    Simple(String),
    Detailed { name: String, on: String },
}

impl Formula {
    /// The identity, the sole field used for equality and lookup.
    pub open spec fn spec_name(&self) -> Seq<char> {
        match self {
            Formula::Simple(n) => n@,
            Formula::Detailed { name, .. } => name@,
        }
    }

    /// Whether the entry applies on operating system `os`. A qualified
    /// entry with an unrecognised tag applies nowhere.
    pub open spec fn spec_should_install(&self, os: Seq<char>) -> bool {
        match self {
            Formula::Simple(_) => true,
            Formula::Detailed { on, .. } => on@ == os,
        }
    }

    /// Identity extraction; total for both forms.
    pub fn name(&self) -> (r: &str)
        ensures
            r@ == self.spec_name(),
    {
        match self {
            Formula::Simple(n) => n.as_str(),
            Formula::Detailed { name, .. } => name.as_str(),
        }
    }

    /// Platform predicate: `true` for a bare entry, and for a qualified
    /// entry exactly when its tag equals `current_os`.
    pub fn should_install(&self, current_os: &str) -> (r: bool)
        ensures
            r == self.spec_should_install(current_os@),
    {
        match self {
            Formula::Simple(_) => true,
            Formula::Detailed { on, .. } => str_eq(on.as_str(), current_os),
        }
    }

    /// The entry as a reconciler item: same identity, same platform
    /// behaviour, no installation-mode flag.
    pub fn to_item(&self) -> (r: Item)
        ensures
            r.spec_name() == self.spec_name(),
            r.flag == false,
            forall|os: Seq<char>| #[trigger] r.spec_should_install(os)
                == self.spec_should_install(os),
    {
        match self {
            Formula::Simple(n) => Item { name: n.clone(), on: Option::None, flag: false },
            Formula::Detailed { name, on } => Item {
                name: name.clone(),
                on: Option::Some(on.clone()),
                flag: false,
            },
        }
    }
}

/// The desired entries of the manifest for this back end; each category is
/// absent when the manifest has no list for it.
pub struct Homebrew {
    pub taps: Option<Vec<Formula>>,
    pub formulae: Option<Vec<Formula>>,
    pub casks: Option<Vec<String>>,
}

/// Some entry of `s` has identity `n`.
pub open spec fn formulas_have_name(s: Seq<Formula>, n: Seq<char>) -> bool {
    exists|j: int| 0 <= j < s.len() && (#[trigger] s[j]).spec_name() == n
}

/// A well-formed formula plan against an installed set: no identity twice,
/// no installed identity.
pub open spec fn formula_plan_wf(planned: Seq<Formula>, installed: Seq<Seq<char>>) -> bool {
    &&& forall|j: int, k: int|
        0 <= j < k < planned.len() ==> (#[trigger] planned[j]).spec_name() != (
        #[trigger] planned[k]).spec_name()
    &&& forall|j: int|
        0 <= j < planned.len() ==> !installed.contains((#[trigger] planned[j]).spec_name())
}

/// A well-formed identity plan against an installed set: no identity twice,
/// no installed identity.
pub open spec fn name_plan_wf(planned: Seq<Seq<char>>, installed: Seq<Seq<char>>) -> bool {
    &&& forall|j: int, k: int| 0 <= j < k < planned.len() ==> planned[j] != planned[k]
    &&& forall|j: int| 0 <= j < planned.len() ==> !installed.contains(#[trigger] planned[j])
}

/// Whether some entry of `items` has identity `needle`.
pub fn contains_formula_name(items: &Vec<Formula>, needle: &str) -> (r: bool)
    ensures
        r == formulas_have_name(items@, needle@),
{
    let mut i: usize = 0;
    while i < items.len()
        invariant
            i <= items.len(),
            forall|j: int| 0 <= j < i ==> (#[trigger] items@[j]).spec_name() != needle@,
        decreases items.len() - i,
    {
        if str_eq(items[i].name(), needle) {
            proof {
                assert(items@[i as int].spec_name() == needle@);
            }
            return true;
        }
        i += 1;
    }
    false
}

/// The items `items` are the formula entries `fs`, one for one: same
/// identities, same platform behaviour, no installation-mode flag.
pub open spec fn items_match_formulas(items: Seq<Item>, fs: Seq<Formula>) -> bool {
    &&& items.len() == fs.len()
    &&& forall|j: int|
        0 <= j < items.len() ==> (#[trigger] items[j]).spec_name() == fs[j].spec_name()
            && items[j].flag == false
    &&& forall|j: int, os: Seq<char>|
        0 <= j < items.len() ==> (#[trigger] items[j].spec_should_install(os)) == fs[
            j
        ].spec_should_install(os)
}

/// Formula entries as reconciler items, in order: same identities, same
/// platform behaviour, no installation-mode flag.
pub fn formulas_to_items(fs: &Vec<Formula>) -> (r: Vec<Item>)
    ensures
        items_match_formulas(r@, fs@),
{
    let mut r: Vec<Item> = Vec::new();
    let mut i: usize = 0;
    while i < fs.len()
        invariant
            i <= fs@.len(),
            r@.len() == i,
            forall|j: int|
                0 <= j < i ==> (#[trigger] r@[j]).spec_name() == fs@[j].spec_name() && r@[j].flag
                    == false,
            forall|j: int, os: Seq<char>|
                0 <= j < i ==> (#[trigger] r@[j].spec_should_install(os)) == fs@[
                    j
                ].spec_should_install(os),
        decreases fs@.len() - i,
    {
        r.push(fs[i].to_item());
        i += 1;
    }
    r
}

/// The reconciliation state of this back end: one probed installed set and
/// one plan per category.
pub struct State {
    installed_taps: Vec<String>,
    installed_formulae: Vec<String>,
    installed_casks: Vec<String>,
    planned_taps: Vec<Formula>,
    planned_formulae: Vec<Formula>,
    planned_casks: Vec<String>,
}

impl State {
    /// The tap identities probed as installed.
    pub closed spec fn spec_installed_taps(&self) -> Seq<Seq<char>> {
        self.installed_taps.deep_view()
    }

    /// The formula identities probed as installed.
    pub closed spec fn spec_installed_formulae(&self) -> Seq<Seq<char>> {
        self.installed_formulae.deep_view()
    }

    /// The cask identities probed as installed.
    pub closed spec fn spec_installed_casks(&self) -> Seq<Seq<char>> {
        self.installed_casks.deep_view()
    }

    /// The taps planned for installation, in the order planned.
    pub closed spec fn spec_planned_taps(&self) -> Seq<Formula> {
        self.planned_taps@
    }

    /// The formulae planned for installation, in the order planned.
    pub closed spec fn spec_planned_formulae(&self) -> Seq<Formula> {
        self.planned_formulae@
    }

    /// The cask identities planned for installation, in the order planned.
    pub closed spec fn spec_planned_casks(&self) -> Seq<Seq<char>> {
        self.planned_casks.deep_view()
    }

    /// No plan repeats an identity, and no plan holds an identity of its
    /// category's installed set.
    pub closed spec fn wf(&self) -> bool {
        &&& formula_plan_wf(self.spec_planned_taps(), self.spec_installed_taps())
        &&& formula_plan_wf(self.spec_planned_formulae(), self.spec_installed_formulae())
        &&& name_plan_wf(self.spec_planned_casks(), self.spec_installed_casks())
    }

    /// A fresh state over the three probed installed sets, with empty
    /// plans.
    pub fn new(taps: Vec<String>, formulae: Vec<String>, casks: Vec<String>) -> (s: State)
        ensures
            s.wf(),
            s.spec_installed_taps() == taps.deep_view(),
            s.spec_installed_formulae() == formulae.deep_view(),
            s.spec_installed_casks() == casks.deep_view(),
            s.spec_planned_taps() == Seq::<Formula>::empty(),
            s.spec_planned_formulae() == Seq::<Formula>::empty(),
            s.spec_planned_casks() == Seq::<Seq<char>>::empty(),
    {
        let s = State {
            installed_taps: taps,
            installed_formulae: formulae,
            installed_casks: casks,
            planned_taps: Vec::new(),
            planned_formulae: Vec::new(),
            planned_casks: Vec::new(),
        };
        proof {
            assert(s.spec_planned_taps() =~= Seq::<Formula>::empty());
            assert(s.spec_planned_formulae() =~= Seq::<Formula>::empty());
            assert(s.spec_planned_casks() =~= Seq::<Seq<char>>::empty());
        }
        s
    }

    /// Whether the tap identity `tap` was probed as installed.
    pub fn is_installed_tap(&self, tap: &str) -> (r: bool)
        ensures
            r == self.spec_installed_taps().contains(tap@),
    {
        contains_str(&self.installed_taps, tap)
    }

    /// Whether the formula identity `formula` was probed as installed.
    pub fn is_installed_formula(&self, formula: &str) -> (r: bool)
        ensures
            r == self.spec_installed_formulae().contains(formula@),
    {
        contains_str(&self.installed_formulae, formula)
    }

    /// Whether the cask identity `cask` was probed as installed.
    pub fn is_installed_cask(&self, cask: &str) -> (r: bool)
        ensures
            r == self.spec_installed_casks().contains(cask@),
    {
        contains_str(&self.installed_casks, cask)
    }

    /// Plan `tap` unless its identity is already installed or planned.
    pub fn plan_install_tap(&mut self, tap: Formula)
        requires
            old(self).wf(),
        ensures
            final (self).wf(),
            final (self).spec_installed_taps() == old(self).spec_installed_taps(),
            final (self).spec_installed_formulae() == old(self).spec_installed_formulae(),
            final (self).spec_installed_casks() == old(self).spec_installed_casks(),
            final (self).spec_planned_formulae() == old(self).spec_planned_formulae(),
            final (self).spec_planned_casks() == old(self).spec_planned_casks(),
            old(self).spec_installed_taps().contains(tap.spec_name()) || formulas_have_name(
                old(self).spec_planned_taps(),
                tap.spec_name(),
            ) ==> final (self).spec_planned_taps() == old(self).spec_planned_taps(),
            !old(self).spec_installed_taps().contains(tap.spec_name()) && !formulas_have_name(
                old(self).spec_planned_taps(),
                tap.spec_name(),
            ) ==> final (self).spec_planned_taps() == old(self).spec_planned_taps().push(tap),
    {
        if !self.is_installed_tap(tap.name()) && !contains_formula_name(
            &self.planned_taps,
            tap.name(),
        ) {
            let ghost oldp = self.planned_taps@;
            let ghost inst = self.installed_taps.deep_view();
            let ghost gtap = tap;
            self.planned_taps.push(tap);
            proof {
                lemma_formula_plan_wf_push(oldp, inst, gtap);
                assert(self.spec_planned_taps() == oldp.push(gtap));
            }
        }
    }

    /// Plan `formula` unless its identity is already installed or planned.
    pub fn plan_install_formula(&mut self, formula: Formula)
        requires
            old(self).wf(),
        ensures
            final (self).wf(),
            final (self).spec_installed_taps() == old(self).spec_installed_taps(),
            final (self).spec_installed_formulae() == old(self).spec_installed_formulae(),
            final (self).spec_installed_casks() == old(self).spec_installed_casks(),
            final (self).spec_planned_taps() == old(self).spec_planned_taps(),
            final (self).spec_planned_casks() == old(self).spec_planned_casks(),
            old(self).spec_installed_formulae().contains(formula.spec_name())
                || formulas_have_name(old(self).spec_planned_formulae(), formula.spec_name())
                ==> final (self).spec_planned_formulae() == old(self).spec_planned_formulae(),
            !old(self).spec_installed_formulae().contains(formula.spec_name())
                && !formulas_have_name(old(self).spec_planned_formulae(), formula.spec_name())
                ==> final (self).spec_planned_formulae() == old(self).spec_planned_formulae().push(
                formula,
            ),
    {
        if !self.is_installed_formula(formula.name()) && !contains_formula_name(
            &self.planned_formulae,
            formula.name(),
        ) {
            let ghost oldp = self.planned_formulae@;
            let ghost inst = self.installed_formulae.deep_view();
            let ghost gf = formula;
            self.planned_formulae.push(formula);
            proof {
                lemma_formula_plan_wf_push(oldp, inst, gf);
                assert(self.spec_planned_formulae() == oldp.push(gf));
            }
        }
    }

    /// Plan `cask` unless its identity is already installed or planned.
    pub fn plan_install_cask(&mut self, cask: String)
        requires
            old(self).wf(),
        ensures
            final (self).wf(),
            final (self).spec_installed_taps() == old(self).spec_installed_taps(),
            final (self).spec_installed_formulae() == old(self).spec_installed_formulae(),
            final (self).spec_installed_casks() == old(self).spec_installed_casks(),
            final (self).spec_planned_taps() == old(self).spec_planned_taps(),
            final (self).spec_planned_formulae() == old(self).spec_planned_formulae(),
            old(self).spec_installed_casks().contains(cask@) || old(
                self,
            ).spec_planned_casks().contains(cask@) ==> final (self).spec_planned_casks() == old(
                self,
            ).spec_planned_casks(),
            !old(self).spec_installed_casks().contains(cask@) && !old(
                self,
            ).spec_planned_casks().contains(cask@) ==> final (self).spec_planned_casks() == old(
                self,
            ).spec_planned_casks().push(cask@),
    {
        if !self.is_installed_cask(cask.as_str()) && !contains_str(
            &self.planned_casks,
            cask.as_str(),
        ) {
            let ghost old_dv = self.planned_casks.deep_view();
            let ghost inst = self.installed_casks.deep_view();
            let ghost cv = cask@;
            self.planned_casks.push(cask);
            proof {
                assert(self.planned_casks.deep_view() =~= old_dv.push(cv));
                lemma_name_plan_wf_push(old_dv, inst, cv);
                assert(self.spec_planned_casks() == old_dv.push(cv));
            }
        }
    }

    /// The planned taps.
    pub fn planned_taps(&self) -> (r: &Vec<Formula>)
        ensures
            r@ == self.spec_planned_taps(),
    {
        &self.planned_taps
    }

    /// The planned formulae.
    pub fn planned_formulae(&self) -> (r: &Vec<Formula>)
        ensures
            r@ == self.spec_planned_formulae(),
    {
        &self.planned_formulae
    }

    /// The planned casks.
    pub fn planned_casks(&self) -> (r: &Vec<String>)
        ensures
            r.deep_view() == self.spec_planned_casks(),
    {
        &self.planned_casks
    }
}

/// Pushing a fresh, not-installed entry keeps a formula plan well-formed.
proof fn lemma_formula_plan_wf_push(planned: Seq<Formula>, installed: Seq<Seq<char>>, f: Formula)
    requires
        formula_plan_wf(planned, installed),
        !formulas_have_name(planned, f.spec_name()),
        !installed.contains(f.spec_name()),
    ensures
        formula_plan_wf(planned.push(f), installed),
{
    let p2 = planned.push(f);
    assert forall|j: int, k: int|
        0 <= j < k < p2.len() implies (#[trigger] p2[j]).spec_name() != (
    #[trigger] p2[k]).spec_name() by {
        assert(p2[j] == planned[j]);
        if k == p2.len() - 1 {
            assert(p2[k] == f);
            if planned[j].spec_name() == f.spec_name() {
                assert(formulas_have_name(planned, f.spec_name()));
            }
        } else {
            assert(p2[k] == planned[k]);
            assert(planned[j].spec_name() != planned[k].spec_name());
        }
    }
    assert forall|j: int| 0 <= j < p2.len() implies !installed.contains(
        (#[trigger] p2[j]).spec_name(),
    ) by {
        if j < p2.len() - 1 {
            assert(p2[j] == planned[j]);
            assert(!installed.contains(planned[j].spec_name()));
        } else {
            assert(p2[j] == f);
        }
    }
}

/// Pushing a fresh, not-installed identity keeps an identity plan
/// well-formed.
proof fn lemma_name_plan_wf_push(planned: Seq<Seq<char>>, installed: Seq<Seq<char>>, n: Seq<char>)
    requires
        name_plan_wf(planned, installed),
        !planned.contains(n),
        !installed.contains(n),
    ensures
        name_plan_wf(planned.push(n), installed),
{
    let p2 = planned.push(n);
    assert forall|j: int, k: int| 0 <= j < k < p2.len() implies p2[j] != p2[k] by {
        assert(p2[j] == planned[j]);
        if k == p2.len() - 1 {
            assert(p2[k] == n);
            if planned[j] == n {
                assert(planned.contains(n));
            }
        } else {
            assert(p2[k] == planned[k]);
            assert(planned[j] != planned[k]);
        }
    }
    assert forall|j: int| 0 <= j < p2.len() implies !installed.contains(#[trigger] p2[j]) by {
        if j < p2.len() - 1 {
            assert(p2[j] == planned[j]);
            assert(!installed.contains(planned[j]));
        } else {
            assert(p2[j] == n);
        }
    }
}

} // verus!
