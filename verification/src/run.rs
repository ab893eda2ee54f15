//! The orchestrator: a state machine that sequences one probe, plan and
//! execute cycle per configured category, in a fixed order, skipping
//! categories the current platform does not support, and stopping the whole
//! run at the first probe or install failure.
//!
//! The machine performs no I/O itself. The caller asks [`Run::next`] what to
//! do, performs the external operation, and reports the outcome through
//! [`Run::probed_ok`], [`Run::probe_failed`] or [`Run::install_result`].
//! Once a failure is recorded, [`Run::next`] never yields another install
//! action.
use vstd::prelude::*;

use crate::reconcile::{names_of, plan_items, plan_ok, Item};
use crate::strutil::str_eq;

verus! {

/// One category of one back end, in the fixed order the orchestrator runs
/// them.
#[derive(Clone, Copy, PartialEq, Eq, Structural, Debug)]
pub enum CategoryKind {
    BrewTaps,
    BrewFormulae,
    BrewCasks,
    CargoCrates,
    Snaps,
}

/// A category together with its desired entries from the manifest.
pub struct Category {
    pub kind: CategoryKind,
    pub desired: Vec<Item>,
}

/// A fatal failure: either a probe of an installed set did not succeed, or
/// one install action did not succeed. Both stop the whole run.
pub enum RunError {
    ProbeFailure { category: CategoryKind },
    InstallFailure { category: CategoryKind, name: String },
}

/// What the caller must do next.
pub enum Action {
    /// Query the installed set of this category.
    Probe { category: CategoryKind },
    /// Install one identity, with its installation-mode flag.
    Install { category: CategoryKind, name: String, flag: bool },
    /// A failure was recorded: stop; no further action will be offered.
    Fail,
    /// Every category is finished.
    Done,
}

/// Whether the platform pair supports a category at all: GUI casks exist
/// only on the one system package manager platform, and snaps only on the
/// one supported distribution. Unsupported categories are never probed.
pub open spec fn spec_category_supported(
    kind: CategoryKind,
    os: Seq<char>,
    distro: Seq<char>,
) -> bool {
    match kind {
        CategoryKind::BrewCasks => os == "macos"@,
        CategoryKind::Snaps => distro == "ubuntu"@,
        _ => true,
    }
}

/// Executable counterpart of `spec_category_supported`.
pub fn category_supported(kind: CategoryKind, os: &str, distro: &str) -> (r: bool)
    ensures
        r == spec_category_supported(kind, os@, distro@),
{
    match kind {
        CategoryKind::BrewCasks => str_eq(os, "macos"),
        CategoryKind::Snaps => str_eq(distro, "ubuntu"),
        _ => true,
    }
}

/// The orchestrator state: the configured categories, the platform, the
/// position of the run, the current category's plan, and the first failure,
/// if any.
pub struct Run {
    categories: Vec<Category>,
    os: String,
    distro: String,
    cat: usize,
    probed: bool,
    planned: Vec<Item>,
    item: usize,
    error: Option<RunError>,
}

impl Run {
    /// The configured categories, in order.
    pub closed spec fn spec_cats(&self) -> Seq<Category> {
        self.categories@
    }

    /// The operating system entries are filtered by.
    pub closed spec fn spec_os(&self) -> Seq<char> {
        self.os@
    }

    /// The distribution the snaps category is gated on.
    pub closed spec fn spec_distro(&self) -> Seq<char> {
        self.distro@
    }

    /// The index of the current category.
    pub closed spec fn spec_cat(&self) -> int {
        self.cat as int
    }

    /// Whether the current category has been probed and planned.
    pub closed spec fn spec_probed(&self) -> bool {
        self.probed
    }

    /// The most recently computed plan.
    pub closed spec fn spec_plan(&self) -> Seq<Item> {
        self.planned@
    }

    /// The index of the next entry of the plan to install.
    pub closed spec fn spec_item(&self) -> int {
        self.item as int
    }

    /// The first failure, if one was recorded.
    pub closed spec fn spec_error(&self) -> Option<RunError> {
        self.error
    }

    /// The machine's invariant: the position is inside the category list,
    /// a probed category has an entry left to install, and the current
    /// category is never an unsupported one.
    pub closed spec fn wf(&self) -> bool {
        &&& self.spec_cat() <= self.spec_cats().len()
        &&& self.spec_probed() ==> self.spec_cat() < self.spec_cats().len()
            && self.spec_item() < self.spec_plan().len()
        &&& self.spec_error() is None && !self.spec_probed() && self.spec_cat()
            < self.spec_cats().len() ==> spec_category_supported(
            self.spec_cats()[self.spec_cat()].kind,
            self.spec_os(),
            self.spec_distro(),
        )
    }

    /// Move to the first supported category at or after the current index;
    /// categories passed over are unsupported and are never probed.
    fn settle(&mut self)
        requires
            old(self).spec_cat() <= old(self).spec_cats().len(),
            !old(self).spec_probed(),
        ensures
            final (self).spec_cats() == old(self).spec_cats(),
            final (self).spec_os() == old(self).spec_os(),
            final (self).spec_distro() == old(self).spec_distro(),
            final (self).spec_probed() == old(self).spec_probed(),
            final (self).spec_plan() == old(self).spec_plan(),
            final (self).spec_item() == old(self).spec_item(),
            final (self).spec_error() == old(self).spec_error(),
            old(self).spec_cat() <= final (self).spec_cat() <= final (self).spec_cats().len(),
            forall|c: int|
                old(self).spec_cat() <= c < final (self).spec_cat()
                    ==> !spec_category_supported(
                    final (self).spec_cats()[c].kind,
                    final (self).spec_os(),
                    final (self).spec_distro(),
                ),
            final (self).spec_cat() < final (self).spec_cats().len()
                ==> spec_category_supported(
                final (self).spec_cats()[final (self).spec_cat()].kind,
                final (self).spec_os(),
                final (self).spec_distro(),
            ),
            final (self).wf(),
    {
        let ghost start = self.cat as int;
        while self.cat < self.categories.len() && !category_supported(
            self.categories[self.cat].kind,
            self.os.as_str(),
            self.distro.as_str(),
        )
            invariant
                *self == (Run { cat: self.cat, ..*old(self) }),
                start <= self.cat as int <= self.categories@.len(),
                forall|c: int|
                    start <= c < self.cat as int ==> !spec_category_supported(
                        self.categories@[c].kind,
                        self.os@,
                        self.distro@,
                    ),
            decreases self.categories@.len() - self.cat as int,
    {
            self.cat += 1;
        }
    }

    /// A run over `categories`, to be executed in order on the platform
    /// `os` / `distro`, starting with no failure recorded.
    pub fn new(categories: Vec<Category>, os: String, distro: String) -> (r: Run)
        ensures
            r.wf(),
            r.spec_cats() == categories@,
            r.spec_os() == os@,
            r.spec_distro() == distro@,
            r.spec_error() is None,
            !r.spec_probed(),
            0 <= r.spec_cat() <= r.spec_cats().len(),
            forall|c: int|
                0 <= c < r.spec_cat() ==> !spec_category_supported(
                    r.spec_cats()[c].kind,
                    r.spec_os(),
                    r.spec_distro(),
                ),
    {
        let mut r = Run {
            categories,
            os,
            distro,
            cat: 0,
            probed: false,
            planned: Vec::new(),
            item: 0,
            error: Option::None,
        };
        r.settle();
        r
    }

    /// What the caller must do now. Once a failure is recorded this is
    /// `Fail` forever: no later category is probed and no later entry is
    /// installed.
    pub fn next(&self) -> (r: Action)
        requires
            self.wf(),
        ensures
            self.spec_error() is Some ==> r is Fail,
            self.spec_error() is None && self.spec_cat() == self.spec_cats().len() ==> r is Done,
            self.spec_error() is None && self.spec_cat() < self.spec_cats().len()
                && !self.spec_probed() ==> (r matches Action::Probe { category } && category
                == self.spec_cats()[self.spec_cat()].kind),
            self.spec_error() is None && self.spec_probed() ==> (r matches Action::Install {
                category,
                name,
                flag,
            } && category == self.spec_cats()[self.spec_cat()].kind && name@
                == self.spec_plan()[self.spec_item()].spec_name() && flag
                == self.spec_plan()[self.spec_item()].flag),
    {
        match &self.error {
            Option::Some(_) => Action::Fail,
            Option::None => {
                if self.cat == self.categories.len() {
                    Action::Done
                } else if !self.probed {
                    Action::Probe { category: self.categories[self.cat].kind }
                } else {
                    let it = &self.planned[self.item];
                    Action::Install {
                        category: self.categories[self.cat].kind,
                        name: it.name.clone(),
                        flag: it.flag,
                    }
                }
            },
        }
    }

    /// The recorded failure, if any, for diagnostics.
    pub fn error(&self) -> (r: &Option<RunError>)
        ensures
            *r == self.spec_error(),
    {
        &self.error
    }

    /// Record a successful probe of the current category: reconcile its
    /// desired entries against `installed` and keep the plan. Returns the
    /// planned identities, in order, for announcement before any install.
    /// An empty plan finishes the category at once.
    pub fn probed_ok(&mut self, installed: Vec<String>) -> (names: Vec<String>)
        requires
            old(self).wf(),
            old(self).spec_error() is None,
            !old(self).spec_probed(),
            old(self).spec_cat() < old(self).spec_cats().len(),
        ensures
            final (self).wf(),
            final (self).spec_error() is None,
            final (self).spec_cats() == old(self).spec_cats(),
            final (self).spec_os() == old(self).spec_os(),
            final (self).spec_distro() == old(self).spec_distro(),
            plan_ok(
                old(self).spec_cats()[old(self).spec_cat()].desired@,
                old(self).spec_os(),
                installed.deep_view(),
                final (self).spec_plan(),
            ),
            names.deep_view() == names_of(final (self).spec_plan()),
            final (self).spec_plan().len() > 0 ==> final (self).spec_probed() && final (self).spec_cat() == old(self).spec_cat() && final (self).spec_item() == 0,
            final (self).spec_plan().len() == 0 ==> !final (self).spec_probed() && old(self).spec_cat() < final (self).spec_cat(),
            forall|c: int|
                old(self).spec_cat() < c < final (self).spec_cat() ==> !spec_category_supported(
                    final (self).spec_cats()[c].kind,
                    final (self).spec_os(),
                    final (self).spec_distro(),
                ),
    {
        let p = plan_items(&self.categories[self.cat].desired, &installed, self.os.as_str());
        let mut names: Vec<String> = Vec::new();
        let mut i: usize = 0;
        while i < p.len()
            invariant
                i <= p@.len(),
                names.deep_view().len() == i,
                forall|j: int|
                    0 <= j < i ==> names.deep_view()[j] == (#[trigger] p@[j]).spec_name(),
            decreases p@.len() - i,
        {
            let ghost old_dv = names.deep_view();
            names.push(p[i].name.clone());
            proof {
                assert(names.deep_view() =~= old_dv.push(p@[i as int].spec_name()));
            }
            i += 1;
        }
        proof {
            assert(names.deep_view() =~= names_of(p@));
        }
        self.planned = p;
        self.item = 0;
        if self.planned.len() > 0 {
            self.probed = true;
        } else {
            self.probed = false;
            let ncats = self.categories.len();
            proof {
                assert(self.cat < ncats);
            }
            self.cat += 1;
            self.settle();
        }
        names
    }

    /// Record a failed probe of the current category: the failure is fatal
    /// to the whole run, and nothing of this category was or will be
    /// installed.
    pub fn probe_failed(&mut self)
        requires
            old(self).wf(),
            old(self).spec_error() is None,
            !old(self).spec_probed(),
            old(self).spec_cat() < old(self).spec_cats().len(),
        ensures
            final (self).wf(),
            final (self).spec_cats() == old(self).spec_cats(),
            (final (self).spec_error() matches Option::Some(RunError::ProbeFailure { category })
                && category == old(self).spec_cats()[old(self).spec_cat()].kind),
    {
        self.error = Option::Some(
            RunError::ProbeFailure { category: self.categories[self.cat].kind },
        );
    }

    /// Record the outcome of the install action last offered. On success
    /// the run moves to the next entry, or to the next category once the
    /// plan is exhausted; on failure the failure is recorded, naming the
    /// entry, and no further entry is ever offered.
    pub fn install_result(&mut self, ok: bool)
        requires
            old(self).wf(),
            old(self).spec_error() is None,
            old(self).spec_probed(),
        ensures
            final (self).wf(),
            final (self).spec_cats() == old(self).spec_cats(),
            final (self).spec_os() == old(self).spec_os(),
            final (self).spec_distro() == old(self).spec_distro(),
!ok ==> (final (self).spec_error() matches Option::Some(
                RunError::InstallFailure { category, name },
            ) && category == old(self).spec_cats()[old(self).spec_cat()].kind && name@ == old(self).spec_plan()[old(self).spec_item()].spec_name()),
            ok ==> final (self).spec_error() is None,
            ok && old(self).spec_item() + 1 < old(self).spec_plan().len() ==> final (self).spec_probed() && final (self).spec_plan() == old(self).spec_plan() && final (self).spec_item() == old(self).spec_item() + 1 && final (self).spec_cat() == old(self).spec_cat(),
            ok && old(self).spec_item() + 1 == old(self).spec_plan().len() ==> !final (self).spec_probed() && old(self).spec_cat() < final (self).spec_cat(),
            forall|c: int|
                old(self).spec_cat() < c < final (self).spec_cat() ==> !spec_category_supported(
                    final (self).spec_cats()[c].kind,
                    final (self).spec_os(),
                    final (self).spec_distro(),
                ),
    {
        if !ok {
            self.error = Option::Some(
                RunError::InstallFailure {
                    category: self.categories[self.cat].kind,
                    name: self.planned[self.item].name.clone(),
                },
            );
        } else {
            let nplan = self.planned.len();
            let ncats = self.categories.len();
            proof {
                assert(self.item < nplan);
                assert(self.cat < ncats);
            }
            if self.item + 1 < nplan {
                self.item += 1;
            } else {
                self.probed = false;
                self.item = 0;
                self.cat += 1;
                self.settle();
            }
        }
    }
}

} // verus!
