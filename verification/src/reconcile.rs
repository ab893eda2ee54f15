//! The reconciler: diffing a desired list of entries against an installed
//! set to produce a minimal install plan.
//!
//! An [`Item`] is the common shape of one desired entry: an identity, an
//! optional platform constraint, and an installation-mode flag. The plan for
//! a category keeps exactly the desired entries that apply to the current
//! platform and whose identity is not yet installed, deduplicated by
//! identity.
use vstd::prelude::*;

use crate::strutil::{contains_str, str_eq};

verus! {

/// One desired entry, reduced to what reconciliation and execution need:
/// its identity, an optional platform the entry is restricted to, and a
/// back-end specific installation-mode flag (e.g. a classic-confinement
/// install).
pub struct Item {
    /// The identity: the sole field used for equality and lookup.
    pub name: String,
    /// When present, the entry applies only on this operating system.
    pub on: Option<String>,
    /// Back-end specific installation-mode flag; not part of the identity.
    pub flag: bool,
}

impl Item {
    /// The identity of this entry.
    pub open spec fn spec_name(&self) -> Seq<char> {
        self.name@
    }

    /// Whether this entry applies on operating system `os`: unconditionally
    /// for an unqualified entry, and only on an exactly matching platform
    /// tag otherwise. An unrecognised tag never matches anywhere.
    pub open spec fn spec_should_install(&self, os: Seq<char>) -> bool {
        match self.on {
            Option::None => true,
            Option::Some(o) => o@ == os,
        }
    }

    /// Platform predicate: `true` for a bare entry, and for a qualified
    /// entry exactly when its tag equals `current_os`.
    pub fn should_install(&self, current_os: &str) -> (r: bool)
        ensures
            r == self.spec_should_install(current_os@),
    {
        match &self.on {
            Option::None => true,
            Option::Some(o) => str_eq(o.as_str(), current_os),
        }
    }

    /// An unqualified entry with identity `name`.
    pub fn simple(name: String) -> (r: Item)
        ensures
            r.spec_name() == name@,
            r.on is None,
            r.flag == false,
    {
        Item { name, on: Option::None, flag: false }
    }
}

impl Clone for Item {
    /// An exact copy; the plan holds copies of the desired entries.
    fn clone(&self) -> (r: Self)
        ensures
            r == *self,
    {
        let r = Item {
            name: self.name.clone(),
            on: match &self.on {
                Option::None => Option::None,
                Option::Some(o) => Option::Some(o.clone()),
            },
            flag: self.flag,
        };
        proof {
            assert(r.name == self.name);
            assert(r.on == self.on);
        }
        r
    }
}

/// Some entry of `r` has identity `n`.
pub open spec fn plan_has_name(r: Seq<Item>, n: Seq<char>) -> bool {
    exists|j: int| 0 <= j < r.len() && (#[trigger] r[j]).spec_name() == n
}

/// `r` is the reconciled plan for the desired entries `desired` on platform
/// `os` against the installed identities `installed`:
/// every planned entry is a desired entry that applies to `os` and is not
/// installed; every desired identity that applies and is missing is planned;
/// and no identity is planned twice.
pub open spec fn plan_ok(
    desired: Seq<Item>,
    os: Seq<char>,
    installed: Seq<Seq<char>>,
    r: Seq<Item>,
) -> bool {
    &&& forall|j: int| 0 <= j < r.len() ==> desired.contains(#[trigger] r[j])
    &&& forall|j: int| 0 <= j < r.len() ==> (#[trigger] r[j]).spec_should_install(os)
    &&& forall|j: int| 0 <= j < r.len() ==> !installed.contains((#[trigger] r[j]).spec_name())
    &&& forall|i: int|
        0 <= i < desired.len() && (#[trigger] desired[i]).spec_should_install(os)
            && !installed.contains(desired[i].spec_name()) ==> plan_has_name(
            r,
            desired[i].spec_name(),
        )
    &&& forall|j: int, k: int|
        0 <= j < k < r.len() ==> (#[trigger] r[j]).spec_name() != (#[trigger] r[k]).spec_name()
}

/// Whether some entry of `items` has identity `needle`.
pub fn contains_name(items: &Vec<Item>, needle: &str) -> (r: bool)
    ensures
        r == plan_has_name(items@, needle@),
{
    let mut i: usize = 0;
    while i < items.len()
        invariant
            i <= items.len(),
            forall|j: int| 0 <= j < i ==> (#[trigger] items@[j]).spec_name() != needle@,
        decreases items.len() - i,
    {
        if str_eq(items[i].name.as_str(), needle) {
            proof {
                assert(items@[i as int].spec_name() == needle@);
            }
            return true;
        }
        i += 1;
    }
    false
}

/// The reconciler: the minimal install plan for `desired` on platform
/// `current_os` given the installed identities `installed`. Pure: no I/O,
/// deterministic in its inputs.
pub fn plan_items(desired: &Vec<Item>, installed: &Vec<String>, current_os: &str) -> (r: Vec<
    Item,
>)
    ensures
        plan_ok(desired@, current_os@, installed.deep_view(), r@),
{
    let mut r: Vec<Item> = Vec::new();
    let mut i: usize = 0;
    while i < desired.len()
        invariant
            i <= desired.len(),
            forall|j: int| 0 <= j < r@.len() ==> desired@.contains(#[trigger] r@[j]),
            forall|j: int|
                0 <= j < r@.len() ==> (#[trigger] r@[j]).spec_should_install(current_os@),
            forall|j: int|
                0 <= j < r@.len() ==> !installed.deep_view().contains(
                    (#[trigger] r@[j]).spec_name(),
                ),
            forall|k: int|
                0 <= k < i && (#[trigger] desired@[k]).spec_should_install(current_os@)
                    && !installed.deep_view().contains(desired@[k].spec_name()) ==> plan_has_name(
                    r@,
                    desired@[k].spec_name(),
                ),
            forall|j: int, k: int|
                0 <= j < k < r@.len() ==> (#[trigger] r@[j]).spec_name() != (
                #[trigger] r@[k]).spec_name(),
        decreases desired.len() - i,
    {
        let ghost old_r = r@;
        let it = &desired[i];
        if it.should_install(current_os) && !contains_str(installed, it.name.as_str())
            && !contains_name(&r, it.name.as_str()) {
            r.push(it.clone());
            proof {
                assert(r@ == old_r.push(desired@[i as int]));
                assert(desired@.contains(r@[r@.len() - 1])) by {
                    assert(r@[r@.len() - 1] == desired@[i as int]);
                }
                assert forall|k: int|
                    0 <= k < i + 1 && (#[trigger] desired@[k]).spec_should_install(current_os@)
                        && !installed.deep_view().contains(
                        desired@[k].spec_name(),
                    ) implies plan_has_name(r@, desired@[k].spec_name()) by {
                    if k < i {
                        let j = choose|j: int|
                            0 <= j < old_r.len() && (#[trigger] old_r[j]).spec_name()
                                == desired@[k].spec_name();
                        assert(r@[j].spec_name() == desired@[k].spec_name());
                    } else {
                        assert(r@[r@.len() - 1].spec_name() == desired@[k].spec_name());
                    }
                }
            }
        } else {
            proof {
                if desired@[i as int].spec_should_install(current_os@)
                    && !installed.deep_view().contains(desired@[i as int].spec_name()) {
                    assert(plan_has_name(r@, desired@[i as int].spec_name()));
                }
            }
        }
        i += 1;
    }
    r
}

/// The items `items` are the bare identities `names`, one for one: no
/// platform qualifier, no installation-mode flag.
pub open spec fn items_match_names(items: Seq<Item>, names: Seq<Seq<char>>) -> bool {
    &&& items.len() == names.len()
    &&& forall|j: int|
        0 <= j < items.len() ==> (#[trigger] items[j]).spec_name() == names[j] && items[j].on
            is None && items[j].flag == false
}

/// Bare identities as reconciler items, in order: no platform qualifier, no
/// installation-mode flag.
pub fn names_to_items(names: &Vec<String>) -> (r: Vec<Item>)
    ensures
        items_match_names(r@, names.deep_view()),
{
    let mut r: Vec<Item> = Vec::new();
    let mut i: usize = 0;
    while i < names.len()
        invariant
            i <= names@.len(),
            r@.len() == i,
            forall|j: int|
                0 <= j < i ==> (#[trigger] r@[j]).spec_name() == names.deep_view()[j]
                    && r@[j].on is None && r@[j].flag == false,
        decreases names@.len() - i,
    {
        r.push(Item::simple(names[i].clone()));
        i += 1;
    }
    r
}

/// The identities of the entries of a plan, in order.
pub open spec fn names_of(r: Seq<Item>) -> Seq<Seq<char>> {
    r.map(|j: int, it: Item| it.spec_name())
}

/// Non-membership invariant: a computed plan never holds an identity that is
/// already in the installed set.
pub proof fn lemma_plan_misses_installed(
    desired: Seq<Item>,
    os: Seq<char>,
    installed: Seq<Seq<char>>,
    r: Seq<Item>,
    n: Seq<char>,
)
    requires
        plan_ok(desired, os, installed, r),
        installed.contains(n),
    ensures
        !plan_has_name(r, n),
{
    if plan_has_name(r, n) {
        let j = choose|j: int| 0 <= j < r.len() && (#[trigger] r[j]).spec_name() == n;
        assert(!installed.contains(r[j].spec_name()));
    }
}

/// The plan never invents identities: each planned identity belongs to a
/// desired entry that applies on `os`.
pub proof fn lemma_plan_from_desired(
    desired: Seq<Item>,
    os: Seq<char>,
    installed: Seq<Seq<char>>,
    r: Seq<Item>,
    n: Seq<char>,
)
    requires
        plan_ok(desired, os, installed, r),
        plan_has_name(r, n),
    ensures
        exists|i: int|
            0 <= i < desired.len() && (#[trigger] desired[i]).spec_name() == n
                && desired[i].spec_should_install(os),
{
    let j = choose|j: int| 0 <= j < r.len() && (#[trigger] r[j]).spec_name() == n;
    assert(desired.contains(r[j]));
    let i = choose|i: int| 0 <= i < desired.len() && desired[i] == r[j];
    assert(desired[i].spec_name() == n && desired[i].spec_should_install(os));
}

/// Idempotence: once every identity of a plan is added to the installed
/// set, reconciling the same desired list again plans nothing.
pub proof fn lemma_plan_idempotent(
    desired: Seq<Item>,
    os: Seq<char>,
    installed: Seq<Seq<char>>,
    r: Seq<Item>,
    r2: Seq<Item>,
)
    requires
        plan_ok(desired, os, installed, r),
        plan_ok(desired, os, installed + names_of(r), r2),
    ensures
        r2 =~= Seq::<Item>::empty(),
{
    if r2.len() > 0 {
        let it = r2[0];
        let n = it.spec_name();
        assert(desired.contains(it));
        let i = choose|i: int| 0 <= i < desired.len() && desired[i] == it;
        assert(!(installed + names_of(r)).contains(n));
        // `n` is not installed, since `installed` is a prefix of the larger set
        assert(!installed.contains(n)) by {
            if installed.contains(n) {
                let k = choose|k: int| 0 <= k < installed.len() && installed[k] == n;
                assert((installed + names_of(r))[k] == n);
            }
        }
        // so the first plan holds `n`, hence so does the enlarged installed set
        assert(plan_has_name(r, n));
        let j = choose|j: int| 0 <= j < r.len() && (#[trigger] r[j]).spec_name() == n;
        assert(names_of(r)[j] == n);
        assert((installed + names_of(r))[installed.len() + j] == n);
        assert((installed + names_of(r)).contains(n));
    }
}

/// Deduplication: when the desired list holds two entries with the same
/// identity that both apply and are missing, the plan holds exactly one
/// entry with that identity.
pub proof fn lemma_plan_dedups(
    desired: Seq<Item>,
    os: Seq<char>,
    installed: Seq<Seq<char>>,
    r: Seq<Item>,
    i1: int,
    i2: int,
)
    requires
        plan_ok(desired, os, installed, r),
        0 <= i1 < i2 < desired.len(),
        desired[i1].spec_name() == desired[i2].spec_name(),
        desired[i1].spec_should_install(os),
        !installed.contains(desired[i1].spec_name()),
    ensures
        plan_has_name(r, desired[i1].spec_name()),
        forall|j: int, k: int|
            0 <= j < r.len() && 0 <= k < r.len() && (#[trigger] r[j]).spec_name()
                == desired[i1].spec_name() && (#[trigger] r[k]).spec_name()
                == desired[i1].spec_name() ==> j == k,
{
    assert(plan_has_name(r, desired[i1].spec_name()));
    assert forall|j: int, k: int|
        0 <= j < r.len() && 0 <= k < r.len() && (#[trigger] r[j]).spec_name()
            == desired[i1].spec_name() && (#[trigger] r[k]).spec_name()
            == desired[i1].spec_name() implies j == k by {
        if j < k {
            assert(r[j].spec_name() != r[k].spec_name());
        }
        if k < j {
            assert(r[k].spec_name() != r[j].spec_name());
        }
    }
}

} // verus!
