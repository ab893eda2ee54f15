//! The structured manifest: one optional section per back end, and the
//! assembly of the orchestrator's category list from it. Locating and
//! parsing the configuration file happens outside the library; the library
//! receives the already-structured desired state.
use vstd::prelude::*;

use crate::cargo::Cargo;
use crate::homebrew::{formulas_to_items, items_match_formulas, Homebrew};
use crate::reconcile::{items_match_names, names_to_items};
use crate::run::{Category, CategoryKind};
use crate::snap::{items_match_snaps, snaps_to_items, Snaps};

verus! {

/// The desired state: which back ends are configured, and what each one
/// should have installed. An absent section means the back end is skipped
/// entirely.
pub struct Config {
    pub homebrew: Option<Homebrew>,
    pub cargo: Option<Cargo>,
    pub snap: Option<Snaps>,
}

/// The fixed priority of a category in a run: repository sources before the
/// items that might come from them, one back end after another.
pub open spec fn kind_rank(kind: CategoryKind) -> int {
    match kind {
        CategoryKind::BrewTaps => 0,
        CategoryKind::BrewFormulae => 1,
        CategoryKind::BrewCasks => 2,
        CategoryKind::CargoCrates => 3,
        CategoryKind::Snaps => 4,
    }
}

/// Some category of `r` has kind `kind`.
pub open spec fn has_kind(r: Seq<Category>, kind: CategoryKind) -> bool {
    exists|i: int| 0 <= i < r.len() && (#[trigger] r[i]).kind == kind
}

impl Config {
    /// The categories of the manifest, in the fixed priority order the
    /// orchestrator runs them; a category absent from the manifest is
    /// absent here and is never probed. Each category carries its desired
    /// entries, converted one for one.
    pub fn categories(&self) -> (r: Vec<Category>)
        ensures
            forall|i: int, j: int|
                0 <= i < j < r@.len() ==> kind_rank((#[trigger] r@[i]).kind) < kind_rank(
                    (#[trigger] r@[j]).kind,
                ),
            has_kind(r@, CategoryKind::BrewTaps) <==> (self.homebrew matches Option::Some(h)
                && h.taps is Some),
            has_kind(r@, CategoryKind::BrewFormulae) <==> (self.homebrew matches Option::Some(h)
                && h.formulae is Some),
            has_kind(r@, CategoryKind::BrewCasks) <==> (self.homebrew matches Option::Some(h)
                && h.casks is Some),
            has_kind(r@, CategoryKind::CargoCrates) <==> (self.cargo matches Option::Some(c)
                && c.crates is Some),
            has_kind(r@, CategoryKind::Snaps) <==> (self.snap matches Option::Some(s)
                && s.snaps is Some),
            forall|i: int|
                0 <= i < r@.len() && (#[trigger] r@[i]).kind == CategoryKind::BrewTaps ==> (
                self.homebrew matches Option::Some(h) && h.taps matches Option::Some(taps)
                    && items_match_formulas(r@[i].desired@, taps@)),
            forall|i: int|
                0 <= i < r@.len() && (#[trigger] r@[i]).kind == CategoryKind::BrewFormulae ==> (
                self.homebrew matches Option::Some(h) && h.formulae matches Option::Some(formulae)
                    && items_match_formulas(r@[i].desired@, formulae@)),
            forall|i: int|
                0 <= i < r@.len() && (#[trigger] r@[i]).kind == CategoryKind::BrewCasks ==> (
                self.homebrew matches Option::Some(h) && h.casks matches Option::Some(casks)
                    && items_match_names(r@[i].desired@, casks.deep_view())),
            forall|i: int|
                0 <= i < r@.len() && (#[trigger] r@[i]).kind == CategoryKind::CargoCrates ==> (
                self.cargo matches Option::Some(c) && c.crates matches Option::Some(crates)
                    && items_match_names(r@[i].desired@, crates.deep_view())),
            forall|i: int|
                0 <= i < r@.len() && (#[trigger] r@[i]).kind == CategoryKind::Snaps ==> (
                self.snap matches Option::Some(s) && s.snaps matches Option::Some(snaps)
                    && items_match_snaps(r@[i].desired@, snaps@)),
    {
        let mut r: Vec<Category> = Vec::new();
        if let Option::Some(hb) = &self.homebrew {
            if let Option::Some(taps) = &hb.taps {
                let ghost prev = r@;
                r.push(Category { kind: CategoryKind::BrewTaps, desired: formulas_to_items(taps) });
                proof {
                    assert forall|kind: CategoryKind| has_kind(prev, kind) implies has_kind(
                        r@,
                        kind,
                    ) by {
                        let i0 = choose|i: int| 0 <= i < prev.len() && (#[trigger] prev[i]).kind == kind;
                        assert(r@[i0].kind == kind);
                    }
                    assert(r@[r@.len() - 1].kind == CategoryKind::BrewTaps);
                    assert(has_kind(r@, CategoryKind::BrewTaps));
                }
            }
            if let Option::Some(formulae) = &hb.formulae {
                let ghost prev = r@;
                r.push(
                    Category {
                        kind: CategoryKind::BrewFormulae,
                        desired: formulas_to_items(formulae),
                    },
                );
                proof {
                    assert forall|kind: CategoryKind| has_kind(prev, kind) implies has_kind(
                        r@,
                        kind,
                    ) by {
                        let i0 = choose|i: int| 0 <= i < prev.len() && (#[trigger] prev[i]).kind == kind;
                        assert(r@[i0].kind == kind);
                    }
                    assert(r@[r@.len() - 1].kind == CategoryKind::BrewFormulae);
                    assert(has_kind(r@, CategoryKind::BrewFormulae));
                }
            }
            if let Option::Some(casks) = &hb.casks {
                let ghost prev = r@;
                r.push(Category { kind: CategoryKind::BrewCasks, desired: names_to_items(casks) });
                proof {
                    assert forall|kind: CategoryKind| has_kind(prev, kind) implies has_kind(
                        r@,
                        kind,
                    ) by {
                        let i0 = choose|i: int| 0 <= i < prev.len() && (#[trigger] prev[i]).kind == kind;
                        assert(r@[i0].kind == kind);
                    }
                    assert(r@[r@.len() - 1].kind == CategoryKind::BrewCasks);
                    assert(has_kind(r@, CategoryKind::BrewCasks));
                }
            }
        }
        if let Option::Some(cargo) = &self.cargo {
            if let Option::Some(crates) = &cargo.crates {
                let ghost prev = r@;
                r.push(
                    Category { kind: CategoryKind::CargoCrates, desired: names_to_items(crates) },
                );
                proof {
                    assert forall|kind: CategoryKind| has_kind(prev, kind) implies has_kind(
                        r@,
                        kind,
                    ) by {
                        let i0 = choose|i: int| 0 <= i < prev.len() && (#[trigger] prev[i]).kind == kind;
                        assert(r@[i0].kind == kind);
                    }
                    assert(r@[r@.len() - 1].kind == CategoryKind::CargoCrates);
                    assert(has_kind(r@, CategoryKind::CargoCrates));
                }
            }
        }
        if let Option::Some(snaps) = &self.snap {
            if let Option::Some(list) = &snaps.snaps {
                let ghost prev = r@;
                r.push(Category { kind: CategoryKind::Snaps, desired: snaps_to_items(list) });
                proof {
                    assert forall|kind: CategoryKind| has_kind(prev, kind) implies has_kind(
                        r@,
                        kind,
                    ) by {
                        let i0 = choose|i: int| 0 <= i < prev.len() && (#[trigger] prev[i]).kind == kind;
                        assert(r@[i0].kind == kind);
                    }
                    assert(r@[r@.len() - 1].kind == CategoryKind::Snaps);
                    assert(has_kind(r@, CategoryKind::Snaps));
                }
            }
        }
        r
    }
}

} // verus!
