//! Shared libraries recorded per compilation unit.

use crate::target::AndroidBuildTarget;
use crate::target::CompilationUnit;
use multimap::MultiMap;
use vstd::prelude::*;

verus! {

/// A shared library that goes into a package.
#[derive(Clone, Debug)]
pub struct SharedLibrary {
    pub abi: AndroidBuildTarget,
    pub path: String,
    pub filename: String,
}

impl SharedLibrary {
    /// Two records that would land on the same file of a package.
    pub open spec fn same_slot(self, other: SharedLibrary) -> bool {
        self.abi == other.abi && self.filename@ == other.filename@
    }

    pub fn is_same_slot(&self, other: &SharedLibrary) -> (res: bool)
        ensures
            res == self.same_slot(*other),
    {
        self.abi == other.abi && self.filename == other.filename
    }
}

/// No two records of `libs` land on the same file of a package.
pub open spec fn distinct_slots(libs: Seq<SharedLibrary>) -> bool {
    forall|i: int, j: int| 0 <= i < j < libs.len() ==> !(#[trigger] libs[i]).same_slot(
        #[trigger] libs[j],
    )
}

/// Some record of `libs` lands where `library` would.
pub open spec fn slot_taken(libs: Seq<SharedLibrary>, library: SharedLibrary) -> bool {
    exists|i: int| 0 <= i < libs.len() && (#[trigger] libs[i]).same_slot(library)
}

/// `libs` after recording each of `more` in turn: one that lands where an
/// earlier record stands is left out.
pub open spec fn inserted(libs: Seq<SharedLibrary>, more: Seq<SharedLibrary>) -> Seq<SharedLibrary>
    decreases more.len(),
{
    if more.len() == 0 {
        libs
    } else {
        let before = inserted(libs, more.drop_last());
        if slot_taken(before, more.last()) {
            before
        } else {
            before.push(more.last())
        }
    }
}

/// Some unit of `units` is the artifact `unit`.
pub open spec fn unit_known(units: Seq<CompilationUnit>, unit: CompilationUnit) -> bool {
    exists|i: int| 0 <= i < units.len() && (#[trigger] units[i]).same_unit(unit)
}

/// No two of `units` are the same artifact.
pub open spec fn distinct_units(units: Seq<CompilationUnit>) -> bool {
    forall|i: int, j: int| 0 <= i < j < units.len() ==> !(#[trigger] units[i]).same_unit(
        #[trigger] units[j],
    )
}

/// `MultiMap` of the multimap crate: a hash map from keys to lists of
/// values. `multimap_entries` names what it holds.
#[verifier::external_type_specification]
#[verifier::external_body]
#[verifier::reject_recursive_types(K)]
#[verifier::reject_recursive_types(V)]
#[verifier::reject_recursive_types(S)]
pub struct ExMultiMap<K, V, S>(MultiMap<K, V, S>);

/// What a multimap holds: for each key that it has, the values inserted under
/// that key, in the order of their insertion.
pub uninterp spec fn multimap_entries(map: MultiMap<usize, SharedLibrary>) -> Map<
    usize,
    Seq<SharedLibrary>,
>;

/// Calls `MultiMap::new`, which makes a multimap without keys.
#[verifier::external_body]
fn multimap_new() -> (res: MultiMap<usize, SharedLibrary>)
    ensures
        multimap_entries(res).dom() =~= Set::<usize>::empty(),
{
    MultiMap::new()
}

/// Calls `MultiMap::insert`: under a key that the multimap has, the value
/// goes to the end of that key's values; under a new key it becomes the
/// only value. Other keys keep their values.
#[verifier::external_body]
fn multimap_insert(map: &mut MultiMap<usize, SharedLibrary>, key: usize, value: SharedLibrary)
    ensures
        multimap_entries(*final(map)) == multimap_entries(*old(map)).insert(
            key,
            if multimap_entries(*old(map)).dom().contains(key) {
                multimap_entries(*old(map))[key].push(value)
            } else {
                seq![value]
            },
        ),
{
    map.insert(key, value)
}

/// Calls `MultiMap::get_vec`, which hands out the values under a key, or
/// nothing for a key that the multimap does not have.
#[verifier::external_body]
fn multimap_get_vec(map: &MultiMap<usize, SharedLibrary>, key: usize) -> (res: Option<
    &Vec<SharedLibrary>,
>)
    ensures
        match res {
            Some(values) => multimap_entries(*map).dom().contains(key) && values@
                == multimap_entries(*map)[key],
            None => !multimap_entries(*map).dom().contains(key),
        },
{
    map.get_vec(&key)
}

/// The shared libraries of every unit built so far, over all architectures.
///
/// A unit is known by its position in `units`; `shared_libraries` holds,
/// under that position, the unit's libraries in the order of their recording.
pub struct SharedLibraries {
    pub units: Vec<CompilationUnit>,
    pub shared_libraries: MultiMap<usize, SharedLibrary>,
}

impl SharedLibraries {
    /// The libraries recorded under each unit's position.
    pub open spec fn entries(self) -> Map<usize, Seq<SharedLibrary>> {
        multimap_entries(self.shared_libraries)
    }

    /// The libraries of the unit at `index`; none for a position without unit.
    pub open spec fn libraries_of(self, index: int) -> Seq<SharedLibrary> {
        if 0 <= index <= usize::MAX && self.entries().dom().contains(index as usize) {
            self.entries()[index as usize]
        } else {
            seq![]
        }
    }

    /// Every unit has libraries, no unit stands twice, and no unit has two
    /// libraries for the same architecture and file name.
    pub open spec fn wf(self) -> bool {
        &&& forall|k: usize| #[trigger] self.entries().dom().contains(k) <==> k < self.units@.len()
        &&& distinct_units(self.units@)
        &&& forall|k: usize|
            k < self.units@.len() ==> distinct_slots(#[trigger] self.entries()[k])
                && self.entries()[k].len() > 0
    }

    /// The position of `unit` among the units, or their number if absent.
    pub open spec fn position(units: Seq<CompilationUnit>, unit: CompilationUnit) -> int
        decreases units.len(),
    {
        if units.len() == 0 {
            0
        } else if Self::position(units.drop_last(), unit) < units.len() - 1 {
            Self::position(units.drop_last(), unit)
        } else if units.last().same_unit(unit) {
            units.len() - 1
        } else {
            units.len() as int
        }
    }

    /// A map without units.
    pub fn new() -> (res: SharedLibraries)
        ensures
            res.wf(),
            res.units@.len() == 0,
    {
        SharedLibraries { units: Vec::new(), shared_libraries: multimap_new() }
    }

    /// The number of units that have libraries.
    pub fn len(&self) -> (res: usize)
        ensures
            res == self.units@.len(),
    {
        self.units.len()
    }

    /// The position of `unit`, if it has libraries.
    pub fn unit_index(&self, unit: &CompilationUnit) -> (res: Option<usize>)
        ensures
            match res {
                Some(index) => index < self.units@.len() && index == Self::position(
                    self.units@,
                    *unit,
                ) && self.units@[index as int].same_unit(*unit),
                None => Self::position(self.units@, *unit) == self.units@.len() && !unit_known(
                    self.units@,
                    *unit,
                ),
            },
    {
        let mut i: usize = 0;
        while i < self.units.len()
            invariant
                i <= self.units@.len(),
                Self::position(self.units@.take(i as int), *unit) == i,
                forall|j: int| 0 <= j < i ==> !(#[trigger] self.units@[j]).same_unit(*unit),
            decreases self.units@.len() - i,
        {
            proof {
                Self::lemma_position_step(self.units@, *unit, i as int);
            }
            if self.units[i].is_same_unit(unit) {
                proof {
                    Self::lemma_position_found(self.units@, *unit, i as int);
                }
                return Some(i);
            }
            i += 1;
        }
        proof {
            assert(self.units@.take(i as int) =~= self.units@);
        }
        None
    }

    /// The libraries of the unit at `index`, if there is such a unit.
    pub fn libraries(&self, index: usize) -> (res: Option<&Vec<SharedLibrary>>)
        ensures
            match res {
                Some(libs) => self.entries().dom().contains(index) && libs@ == self.libraries_of(
                    index as int,
                ),
                None => !self.entries().dom().contains(index) && self.libraries_of(index as int).len()
                    == 0,
            },
            self.wf() ==> (res is Some <==> index < self.units@.len()),
            self.wf() && res is Some ==> res->0@.len() > 0 && distinct_slots(res->0@),
    {
        multimap_get_vec(&self.shared_libraries, index)
    }

    /// Whether the unit at `index` has a library where `library` would land.
    pub fn has_slot(&self, index: usize, library: &SharedLibrary) -> (res: bool)
        ensures
            res == slot_taken(self.libraries_of(index as int), *library),
    {
        match self.libraries(index) {
            Some(libs) => {
                let mut i: usize = 0;
                while i < libs.len()
                    invariant
                        i <= libs@.len(),
                        libs@ == self.libraries_of(index as int),
                        forall|j: int| 0 <= j < i ==> !(#[trigger] libs@[j]).same_slot(*library),
                    decreases libs@.len() - i,
                {
                    if libs[i].is_same_slot(library) {
                        return true;
                    }
                    i += 1;
                }
                false
            },
            None => false,
        }
    }

    /// Records `library` for `unit`, unless the unit already has a library of
    /// that architecture and file name. A unit seen for the first time is
    /// added after the units known so far.
    pub fn insert(&mut self, unit: CompilationUnit, library: SharedLibrary) -> (added: bool)
        requires
            old(self).wf(),
        ensures
            final(self).wf(),
            final(self).units@ == if unit_known(old(self).units@, unit) {
                old(self).units@
            } else {
                old(self).units@.push(unit)
            },
            added == !slot_taken(
                old(self).libraries_of(Self::position(old(self).units@, unit)),
                library,
            ),
            final(self).libraries_of(Self::position(old(self).units@, unit)) == if added {
                old(self).libraries_of(Self::position(old(self).units@, unit)).push(library)
            } else {
                old(self).libraries_of(Self::position(old(self).units@, unit))
            },
            forall|k: int|
                k != Self::position(old(self).units@, unit) ==> #[trigger] final(self).libraries_of(
                    k,
                ) == old(self).libraries_of(k),
    {
        let ghost before = *self;
        match self.unit_index(&unit) {
            Some(index) => {
                if self.has_slot(index, &library) {
                    false
                } else {
                    multimap_insert(&mut self.shared_libraries, index, library);
                    proof {
                        let libs = before.entries()[index];
                        assert(self.entries()[index] == libs.push(library));
                        assert(distinct_slots(libs.push(library))) by {
                            assert forall|i: int, j: int|
                                0 <= i < j < libs.len() + 1 implies !(#[trigger] libs.push(
                                library,
                            )[i]).same_slot(#[trigger] libs.push(library)[j]) by {
                                if j == libs.len() {
                                    assert(!libs[i].same_slot(library));
                                } else {
                                    assert(!libs[i].same_slot(libs[j]));
                                }
                            }
                        }
                        assert forall|k: usize| k < self.units@.len() implies distinct_slots(
                            #[trigger] self.entries()[k],
                        ) && self.entries()[k].len() > 0 by {
                            if k != index {
                                assert(self.entries()[k] == before.entries()[k]);
                            }
                        }
                        assert forall|k: int| k != index implies #[trigger] self.libraries_of(k)
                            == before.libraries_of(k) by {}
                    }
                    true
                }
            },
            None => {
                let index = self.units.len();
                self.units.push(unit);
                multimap_insert(&mut self.shared_libraries, index, library);
                proof {
                    assert(!before.entries().dom().contains(index));
                    assert(before.libraries_of(index as int) =~= seq![]);
                    assert(self.entries()[index] == seq![library]);
                    assert(seq![library] =~= Seq::<SharedLibrary>::empty().push(library));
                    assert forall|k: usize| k < self.units@.len() implies distinct_slots(
                        #[trigger] self.entries()[k],
                    ) && self.entries()[k].len() > 0 by {
                        if k != index {
                            assert(self.entries()[k] == before.entries()[k]);
                        }
                    }
                    assert(distinct_units(self.units@)) by {
                        assert forall|i: int, j: int|
                            0 <= i < j < self.units@.len() implies !(
                        #[trigger] self.units@[i]).same_unit(#[trigger] self.units@[j]) by {
                            if j == index {
                                assert(before.units@[i].same_unit(unit) ==> unit_known(
                                    before.units@,
                                    unit,
                                ));
                            } else {
                                assert(!before.units@[i].same_unit(before.units@[j]));
                            }
                        }
                    }
                    assert forall|k: int| k != index implies #[trigger] self.libraries_of(k)
                        == before.libraries_of(k) by {}
                }
                true
            },
        }
    }

    /// Whether `unit` has libraries.
    pub open spec fn has_unit(self, unit: CompilationUnit) -> bool {
        unit_known(self.units@, unit)
    }

    /// Records all of `libraries` for `unit`, in their order, each as
    /// `insert` does. Returns how many of them were new.
    pub fn insert_all(&mut self, unit: &CompilationUnit, libraries: &Vec<SharedLibrary>) -> (added:
        usize)
        requires
            old(self).wf(),
        ensures
            final(self).wf(),
            final(self).units@ == if libraries@.len() == 0 || unit_known(old(self).units@, *unit) {
                old(self).units@
            } else {
                old(self).units@.push(*unit)
            },
            final(self).libraries_of(Self::position(old(self).units@, *unit)) == inserted(
                old(self).libraries_of(Self::position(old(self).units@, *unit)),
                libraries@,
            ),
            added == final(self).libraries_of(Self::position(old(self).units@, *unit)).len() - old(
                self,
            ).libraries_of(Self::position(old(self).units@, *unit)).len(),
            forall|k: int|
                k != Self::position(old(self).units@, *unit) ==> #[trigger] final(self).libraries_of(
                    k,
                ) == old(self).libraries_of(k),
    {
        let ghost at = Self::position(old(self).units@, *unit);
        let ghost start = old(self).libraries_of(at);
        let mut added: usize = 0;
        let mut i: usize = 0;
        proof {
            assert(libraries@.take(0) =~= seq![]);
        }
        while i < libraries.len()
            invariant
                i <= libraries@.len(),
                self.wf(),
                at == Self::position(old(self).units@, *unit),
                start == old(self).libraries_of(at),
                self.units@ == if i == 0 || unit_known(old(self).units@, *unit) {
                    old(self).units@
                } else {
                    old(self).units@.push(*unit)
                },
                self.libraries_of(at) == inserted(start, libraries@.take(i as int)),
                added == self.libraries_of(at).len() - start.len(),
                added <= i,
                forall|k: int| k != at ==> #[trigger] self.libraries_of(k) == old(self).libraries_of(k),
            decreases libraries@.len() - i,
        {
            proof {
                assert(libraries@.take(i + 1).drop_last() =~= libraries@.take(i as int));
                assert(libraries@.take(i + 1).last() == libraries@[i as int]);
                Self::lemma_position_after_push(old(self).units@, *unit);
            }
            let copy = CompilationUnit {
                kind: unit.kind,
                name: unit.name.clone(),
                src_path: unit.src_path.clone(),
            };
            let library = SharedLibrary {
                abi: libraries[i].abi,
                path: libraries[i].path.clone(),
                filename: libraries[i].filename.clone(),
            };
            assert(copy == *unit);
            assert(library == libraries@[i as int]);
            if self.insert(copy, library) {
                added += 1;
            }
            i += 1;
        }
        proof {
            assert(libraries@.take(libraries@.len() as int) =~= libraries@);
        }
        added
    }

    /// Records what the build of `unit` for one architecture produced: the
    /// library built from the unit itself, then the libraries that the
    /// resolver found. Whatever the resolver found or missed, the unit has
    /// libraries afterwards.
    pub fn record_libraries(
        &mut self,
        unit: &CompilationUnit,
        primary: SharedLibrary,
        found: &Vec<SharedLibrary>,
    )
        requires
            old(self).wf(),
        ensures
            final(self).wf(),
            final(self).units@ == if unit_known(old(self).units@, *unit) {
                old(self).units@
            } else {
                old(self).units@.push(*unit)
            },
            final(self).has_unit(*unit),
            forall|other: CompilationUnit|
                old(self).has_unit(other) ==> final(self).has_unit(other),
            final(self).libraries_of(Self::position(old(self).units@, *unit)) == inserted(
                inserted(
                    old(self).libraries_of(Self::position(old(self).units@, *unit)),
                    seq![primary],
                ),
                found@,
            ),
            forall|k: int|
                k != Self::position(old(self).units@, *unit) ==> #[trigger] final(self).libraries_of(
                    k,
                ) == old(self).libraries_of(k),
    {
        let ghost at = Self::position(old(self).units@, *unit);
        let mut first: Vec<SharedLibrary> = Vec::new();
        first.push(primary);
        proof {
            Self::lemma_position_after_push(old(self).units@, *unit);
            assert(first@ =~= seq![primary]);
        }
        self.insert_all(unit, &first);
        let ghost middle = *self;
        proof {
            assert(middle.has_unit(*unit)) by {
                if unit_known(old(self).units@, *unit) {
                } else {
                    assert(middle.units@[old(self).units@.len() as int].same_unit(*unit));
                }
            }
            Self::lemma_position_after_push(middle.units@, *unit);
            assert(Self::position(middle.units@, *unit) == at);
        }
        self.insert_all(unit, found);
        proof {
            assert(self.units@ == middle.units@);
            assert forall|other: CompilationUnit| old(self).has_unit(other) implies self.has_unit(
                other,
            ) by {
                let w = choose|w: int|
                    0 <= w < old(self).units@.len() && (#[trigger] old(self).units@[w]).same_unit(
                        other,
                    );
                assert(self.units@[w] == old(self).units@[w]);
            }
        }
    }

    /// No unit has two libraries of the same architecture and file name.
    pub proof fn lemma_libraries_are_distinct(self, index: int)
        requires
            self.wf(),
            0 <= index < self.units@.len(),
        ensures
            forall|a: int, b: int|
                0 <= a < b < self.libraries_of(index).len() ==> !(self.libraries_of(index)[a].abi
                    == self.libraries_of(index)[b].abi && self.libraries_of(index)[a].filename@
                    == self.libraries_of(index)[b].filename@),
    {
        let libs = self.libraries_of(index);
        assert(self.entries().dom().contains(index as usize));
        assert(distinct_slots(self.entries()[index as usize]));
        assert forall|a: int, b: int| 0 <= a < b < libs.len() implies !(libs[a].abi == libs[b].abi
            && libs[a].filename@ == libs[b].filename@) by {
            assert(!libs[a].same_slot(libs[b]));
        }
    }

    /// A unit that is added after the others stands where the search for it
    /// ended before.
    proof fn lemma_position_after_push(units: Seq<CompilationUnit>, unit: CompilationUnit)
        ensures
            unit_known(units, unit) <==> Self::position(units, unit) < units.len(),
            0 <= Self::position(units, unit) <= units.len(),
            Self::position(units.push(unit), unit) == Self::position(units, unit),
            unit_known(units.push(unit), unit),
        decreases units.len(),
    {
        assert(units.push(unit).drop_last() =~= units);
        assert(units.push(unit)[units.len() as int].same_unit(unit));
        if units.len() > 0 {
            Self::lemma_position_after_push(units.drop_last(), unit);
            if unit_known(units, unit) {
                let w = choose|w: int| 0 <= w < units.len() && (#[trigger] units[w]).same_unit(unit);
                if w < units.len() - 1 {
                    assert(units.drop_last()[w].same_unit(unit));
                }
            }
            if Self::position(units, unit) < units.len() {
                if Self::position(units.drop_last(), unit) < units.len() - 1 {
                    let w = choose|w: int|
                        0 <= w < units.drop_last().len() && (#[trigger] units.drop_last()[w]).same_unit(
                            unit,
                        );
                    assert(units[w].same_unit(unit));
                } else {
                    assert(units[units.len() - 1].same_unit(unit));
                }
            }
        }
    }

    proof fn lemma_position_step(units: Seq<CompilationUnit>, unit: CompilationUnit, i: int)
        requires
            0 <= i < units.len(),
            Self::position(units.take(i), unit) == i,
        ensures
            Self::position(units.take(i + 1), unit) == if units[i].same_unit(unit) {
                i
            } else {
                i + 1
            },
    {
        assert(units.take(i + 1).drop_last() =~= units.take(i));
    }

    proof fn lemma_position_found(units: Seq<CompilationUnit>, unit: CompilationUnit, i: int)
        requires
            0 <= i < units.len(),
            Self::position(units.take(i), unit) == i,
            units[i].same_unit(unit),
        ensures
            Self::position(units, unit) == i,
        decreases units.len() - i,
    {
        Self::lemma_position_step(units, unit, i);
        Self::lemma_position_stays(units, unit, i, units.len() as int);
        assert(units.take(units.len() as int) =~= units);
    }

    proof fn lemma_position_stays(
        units: Seq<CompilationUnit>,
        unit: CompilationUnit,
        i: int,
        n: int,
    )
        requires
            0 <= i < n <= units.len(),
            Self::position(units.take(i + 1), unit) == i,
        ensures
            Self::position(units.take(n), unit) == i,
        decreases n,
    {
        if n > i + 1 {
            Self::lemma_position_stays(units, unit, i, n - 1);
            assert(units.take(n).drop_last() =~= units.take(n - 1));
        }
    }
}

} // verus!
