//! The closure of the shared libraries that a built library needs.
//!
//! The resolver is a state machine. Its caller inspects binaries and probes
//! the file system; the resolver decides which name is looked up next and
//! what each outcome adds.

use crate::libraries::SharedLibrary;
use crate::libraries::distinct_slots;
use crate::target::AndroidBuildTarget;
use crate::text::concat3;
use crate::text::lemma_texts_push;
use crate::text::same_str;
use crate::text::texts;
use vstd::prelude::*;

verus! {

/// What the caller found for the name it was asked to look up.
#[derive(Debug)]
pub enum Lookup {
    /// The library is at `path`, and `needed` are the libraries it needs.
    Found { path: String, needed: Vec<String> },
    /// No search path holds the library.
    Missing,
}

/// The names seen so far, each marked as processed or not, and the libraries
/// found so far.
#[derive(Debug)]
pub struct DylibClosure {
    pub abi: AndroidBuildTarget,
    pub names: Vec<String>,
    pub processed: Vec<bool>,
    pub found: Vec<SharedLibrary>,
}

/// What a lookup found, as text: the library's path and the names of the
/// libraries that it needs; nothing for a missing library.
pub type LookupText = Option<(Seq<char>, Seq<Seq<char>>)>;

/// The state of a closure, as text: the names seen, their marks, and for
/// each library found its file name and its path.
pub struct ClosureText {
    pub names: Seq<Seq<char>>,
    pub processed: Seq<bool>,
    pub found: Seq<(Seq<char>, Seq<char>)>,
}

/// The state after the outcome `lookup` of the lookup of the next name: the
/// name is marked, and a library that was found is recorded under it, with
/// what it needs noted behind the names seen.
pub open spec fn resolved(state: ClosureText, lookup: LookupText) -> ClosureText {
    let at = first_pending(state.processed);
    if 0 <= at < state.names.len() {
        match lookup {
            Some((path, needed)) => ClosureText {
                names: names_with(state.names, needed),
                processed: flags_up_to(
                    state.processed.update(at, true),
                    names_with(state.names, needed).len() as int,
                ),
                found: state.found.push((state.names[at], path)),
            },
            None => ClosureText {
                names: state.names,
                processed: state.processed.update(at, true),
                found: state.found,
            },
        }
    } else {
        state
    }
}

/// `names` extended by those of `needed` that it does not hold yet, in the
/// order of `needed`.
pub open spec fn names_with(names: Seq<Seq<char>>, needed: Seq<Seq<char>>) -> Seq<Seq<char>>
    decreases needed.len(),
{
    if needed.len() == 0 {
        names
    } else {
        let before = names_with(names, needed.drop_last());
        if before.contains(needed.last()) {
            before
        } else {
            before.push(needed.last())
        }
    }
}

/// `flags` extended by `false` up to the length `len`.
pub open spec fn flags_up_to(flags: Seq<bool>, len: int) -> Seq<bool> {
    flags + Seq::new((len - flags.len()) as nat, |i: int| false)
}

/// No text stands twice in `names`.
pub open spec fn distinct_names(names: Seq<Seq<char>>) -> bool {
    forall|i: int, j: int| 0 <= i < j < names.len() ==> #[trigger] names[i] != #[trigger] names[j]
}

/// The first position of `flags` that holds `false`, or their number.
pub open spec fn first_pending(flags: Seq<bool>) -> int
    decreases flags.len(),
{
    if flags.len() == 0 {
        0
    } else if first_pending(flags.drop_last()) < flags.len() - 1 {
        first_pending(flags.drop_last())
    } else if !flags.last() {
        flags.len() - 1
    } else {
        flags.len() as int
    }
}

/// How many of `flags` hold `true`.
pub open spec fn marked(flags: Seq<bool>) -> nat
    decreases flags.len(),
{
    if flags.len() == 0 {
        0
    } else {
        marked(flags.drop_last()) + if flags.last() {
            1nat
        } else {
            0nat
        }
    }
}

/// The warning about a library that no search path holds.
pub open spec fn missing_warning(name: Seq<char>) -> Seq<char> {
    "Warning: Shared library \""@ + name + "\" not found."@
}

impl Lookup {
    /// The outcome as text.
    pub open spec fn text(self) -> LookupText {
        match self {
            Lookup::Found { path, needed } => Some((path@, texts(needed@))),
            Lookup::Missing => None,
        }
    }
}

impl View for DylibClosure {
    type V = ClosureText;

    open spec fn view(&self) -> ClosureText {
        ClosureText {
            names: texts(self.names@),
            processed: self.processed@,
            found: self.found@.map_values(|library: SharedLibrary| (library.filename@, library.path@)),
        }
    }
}

impl DylibClosure {
    /// The names seen so far, as text.
    pub open spec fn name_texts(self) -> Seq<Seq<char>> {
        texts(self.names@)
    }

    /// `name` has been seen and is marked as processed.
    pub open spec fn is_processed(self, name: Seq<char>) -> bool {
        exists|i: int|
            0 <= i < self.names@.len() && self.processed@[i] && (#[trigger] self.names@[i])@
                == name
    }

    /// The position of the name that is looked up next, or the number of
    /// names when none is left.
    pub open spec fn pending(self) -> int {
        first_pending(self.processed@)
    }

    /// Every name has its mark, no name stands twice, and every library
    /// found is for this architecture, under a processed name, with no file
    /// name twice.
    pub open spec fn wf(self) -> bool {
        &&& self.names@.len() == self.processed@.len()
        &&& distinct_names(self.name_texts())
        &&& forall|k: int|
            0 <= k < self.found@.len() ==> (#[trigger] self.found@[k]).abi == self.abi
                && self.is_processed(self.found@[k].filename@)
        &&& distinct_slots(self.found@)
    }

    /// Starts a closure for one architecture. The libraries of the platform
    /// image count as processed: they are never looked up nor packaged.
    pub fn new(abi: AndroidBuildTarget, platform_dylibs: &Vec<String>) -> (res: DylibClosure)
        ensures
            res.wf(),
            res.abi == abi,
            res.found@.len() == 0,
            res.name_texts() == names_with(seq![], texts(platform_dylibs@)),
            forall|i: int| 0 <= i < res.processed@.len() ==> res.processed@[i],
            res.pending() == res.names@.len(),
    {
        let mut res = DylibClosure {
            abi,
            names: Vec::new(),
            processed: Vec::new(),
            found: Vec::new(),
        };
        proof {
            assert(texts(platform_dylibs@).take(0) =~= seq![]);
            assert(res.name_texts() =~= seq![]);
        }
        let mut i: usize = 0;
        while i < platform_dylibs.len()
            invariant
                i <= platform_dylibs@.len(),
                res.wf(),
                res.abi == abi,
                res.found@.len() == 0,
                res.name_texts() == names_with(seq![], texts(platform_dylibs@).take(i as int)),
                forall|k: int| 0 <= k < res.processed@.len() ==> res.processed@[k],
                first_pending(res.processed@) == res.processed@.len(),
            decreases platform_dylibs@.len() - i,
        {
            proof {
                assert(texts(platform_dylibs@).take(i + 1).drop_last() =~= texts(
                    platform_dylibs@,
                ).take(i as int));
                assert(texts(platform_dylibs@).take(i + 1).last() == platform_dylibs@[i as int]@);
            }
            if !res.knows(platform_dylibs[i].as_str()) {
                let name = platform_dylibs[i].clone();
                proof {
                    lemma_texts_push(res.names@, name);
                    assert(res.processed@.push(true).drop_last() =~= res.processed@);
                }
                res.names.push(name);
                res.processed.push(true);
            }
            i += 1;
        }
        proof {
            assert(texts(platform_dylibs@).take(platform_dylibs@.len() as int) =~= texts(
                platform_dylibs@,
            ));
        }
        res
    }

    /// Whether `name` has been seen.
    pub fn knows(&self, name: &str) -> (res: bool)
        ensures
            res == self.name_texts().contains(name@),
    {
        let mut i: usize = 0;
        while i < self.names.len()
            invariant
                i <= self.names@.len(),
                forall|k: int| 0 <= k < i ==> self.name_texts()[k] != name@,
            decreases self.names@.len() - i,
        {
            if same_str(self.names[i].as_str(), name) {
                assert(self.name_texts()[i as int] == name@);
                return true;
            }
            i += 1;
        }
        false
    }

    /// Takes note of the libraries that some library needs: those seen
    /// before stay as they are, the others wait to be looked up.
    pub fn add_needed(&mut self, needed: &Vec<String>)
        requires
            old(self).wf(),
        ensures
            final(self).wf(),
            final(self).abi == old(self).abi,
            final(self).found@ == old(self).found@,
            final(self).name_texts() == names_with(old(self).name_texts(), texts(needed@)),
            final(self).processed@ == flags_up_to(
                old(self).processed@,
                final(self).names@.len() as int,
            ),
            final(self).names@.len() >= old(self).names@.len(),
    {
        proof {
            assert(texts(needed@).take(0) =~= seq![]);
            assert(self.processed@ =~= flags_up_to(old(self).processed@, self.names@.len() as int));
        }
        let mut i: usize = 0;
        while i < needed.len()
            invariant
                i <= needed@.len(),
                old(self).wf(),
                self.wf(),
                self.abi == old(self).abi,
                self.found@ == old(self).found@,
                self.names@.len() >= old(self).names@.len(),
                self.name_texts() == names_with(
                    old(self).name_texts(),
                    texts(needed@).take(i as int),
                ),
                self.processed@ == flags_up_to(old(self).processed@, self.names@.len() as int),
                forall|k: int|
                    0 <= k < old(self).names@.len() ==> self.names@[k] == old(self).names@[k],
            decreases needed@.len() - i,
        {
            proof {
                assert(texts(needed@).take(i + 1).drop_last() =~= texts(needed@).take(i as int));
                assert(texts(needed@).take(i + 1).last() == needed@[i as int]@);
            }
            if !self.knows(needed[i].as_str()) {
                let name = needed[i].clone();
                let ghost before = *self;
                proof {
                    lemma_texts_push(self.names@, name);
                }
                self.names.push(name);
                self.processed.push(false);
                proof {
                    assert(self.processed@ =~= flags_up_to(
                        old(self).processed@,
                        self.names@.len() as int,
                    ));
                    assert(distinct_names(self.name_texts())) by {
                        assert forall|a: int, b: int|
                            0 <= a < b < self.name_texts().len() implies #[trigger] self.name_texts()[a]
                            != #[trigger] self.name_texts()[b] by {
                            if b == before.names@.len() {
                                assert(before.name_texts()[a] == self.name_texts()[a]);
                                assert(before.name_texts().contains(before.name_texts()[a]));
                            } else {
                                assert(before.name_texts()[a] == self.name_texts()[a]);
                                assert(before.name_texts()[b] == self.name_texts()[b]);
                            }
                        }
                    }
                    lemma_found_stay_processed(before, *self);
                }
            }
            i += 1;
        }
        proof {
            assert(texts(needed@).take(needed@.len() as int) =~= texts(needed@));
        }
    }

    /// The name to look up next: the first one that is not processed.
    pub fn next_unprocessed(&self) -> (res: Option<String>)
        requires
            self.wf(),
        ensures
            match res {
                Some(name) => self.pending() < self.names@.len() && name == self.names@[self.pending()]
                    && !self.processed@[self.pending()],
                None => self.pending() == self.names@.len() && forall|i: int|
                    0 <= i < self.names@.len() ==> self.processed@[i],
            },
    {
        let at = self.pending_index();
        if at < self.names.len() {
            Some(self.names[at].clone())
        } else {
            None
        }
    }

    /// The position of the first name that is not processed.
    pub fn pending_index(&self) -> (res: usize)
        requires
            self.wf(),
        ensures
            res == self.pending(),
            res <= self.names@.len(),
            res < self.names@.len() ==> !self.processed@[res as int],
            forall|k: int| 0 <= k < res ==> self.processed@[k],
    {
        let mut i: usize = 0;
        proof {
            assert(self.processed@.take(0) =~= seq![]);
        }
        while i < self.processed.len()
            invariant
                i <= self.processed@.len(),
                self.names@.len() == self.processed@.len(),
                first_pending(self.processed@.take(i as int)) == i,
                forall|k: int| 0 <= k < i ==> self.processed@[k],
            decreases self.processed@.len() - i,
        {
            proof {
                assert(self.processed@.take(i + 1).drop_last() =~= self.processed@.take(i as int));
            }
            if !self.processed[i] {
                proof {
                    lemma_first_pending_stays(self.processed@, i as int, self.processed@.len() as int);
                    assert(self.processed@.take(self.processed@.len() as int) =~= self.processed@);
                }
                return i;
            }
            i += 1;
        }
        proof {
            assert(self.processed@.take(self.processed@.len() as int) =~= self.processed@);
        }
        i
    }

    /// Takes the outcome of the lookup of the next name. The name counts as
    /// processed from now on. A library that was found is recorded under
    /// that name, and what it needs is noted. For a missing library the
    /// result is a warning: the build goes on without it.
    pub fn resolve(&mut self, lookup: Lookup) -> (warning: Option<String>)
        requires
            old(self).wf(),
        ensures
            final(self).wf(),
            final(self).abi == old(self).abi,
            final(self)@ == resolved(old(self)@, lookup.text()),
            forall|i: int|
                0 <= i < old(self).processed@.len() && old(self).processed@[i]
                    ==> final(self).processed@[i],
            old(self).pending() >= old(self).names@.len() ==> *final(self) == *old(self)
                && warning is None,
            old(self).pending() < old(self).names@.len() ==> marked(final(self).processed@)
                == marked(old(self).processed@) + 1,
            old(self).pending() < old(self).names@.len() ==> {
                let at = old(self).pending();
                let name = old(self).names@[at];
                &&& !old(self).processed@[at]
                &&& final(self).processed@ == flags_up_to(
                    old(self).processed@.update(at, true),
                    final(self).names@.len() as int,
                )
                &&& match lookup {
                    Lookup::Found { path, needed } => {
                        &&& warning is None
                        &&& final(self).name_texts() == names_with(
                            old(self).name_texts(),
                            texts(needed@),
                        )
                        &&& final(self).found@ == old(self).found@.push(
                            SharedLibrary { abi: old(self).abi, path, filename: name },
                        )
                    },
                    Lookup::Missing => {
                        &&& warning matches Some(text) && text@ == missing_warning(name@)
                        &&& final(self).names@ == old(self).names@
                        &&& final(self).found@ == old(self).found@
                    },
                }
            },
    {
        let at = self.pending_index();
        if at >= self.names.len() {
            return None;
        }
        let ghost before = *self;
        self.processed.set(at, true);
        proof {
            lemma_marked_update(before.processed@, at as int);
            assert(self.processed@ =~= flags_up_to(
                before.processed@.update(at as int, true),
                self.names@.len() as int,
            ));
            lemma_found_stay_processed(before, *self);
        }
        match lookup {
            Lookup::Found { path, needed } => {
                let name = self.names[at].clone();
                let library = SharedLibrary { abi: self.abi, path, filename: name };
                let ghost marked = *self;
                self.found.push(library);
                proof {
                    assert(self.is_processed(library.filename@)) by {
                        assert(self.processed@[at as int]);
                        assert(self.names@[at as int]@ == library.filename@);
                    }
                    assert(distinct_slots(self.found@)) by {
                        assert forall|a: int, b: int|
                            0 <= a < b < self.found@.len() implies !(
                        #[trigger] self.found@[a]).same_slot(#[trigger] self.found@[b]) by {
                            if b == before.found@.len() {
                                assert(before.is_processed(before.found@[a].filename@));
                                let w = choose|w: int|
                                    0 <= w < before.names@.len() && before.processed@[w] && (
                                    #[trigger] before.names@[w])@ == before.found@[a].filename@;
                                assert(w != at);
                                assert(before.name_texts()[w] == before.names@[w]@);
                                assert(before.name_texts()[at as int] == before.names@[at as int]@);
                                if w < at {
                                    assert(before.name_texts()[w] != before.name_texts()[at as int]);
                                } else {
                                    assert(before.name_texts()[at as int] != before.name_texts()[w]);
                                }
                            } else {
                                assert(!before.found@[a].same_slot(before.found@[b]));
                            }
                        }
                    }
                    lemma_found_stay_processed(marked, *self);
                }
                let ghost recorded = *self;
                self.add_needed(&needed);
                proof {
                    assert(self.processed@ =~= flags_up_to(
                        before.processed@.update(at as int, true),
                        self.names@.len() as int,
                    ));
                    lemma_marked_up_to(recorded.processed@, self.names@.len() as int);
                    assert(self@.found =~= before@.found.push(
                        (before.names@[at as int]@, library.path@),
                    ));
                    assert(before@.names[at as int] == before.names@[at as int]@);
                }
                None
            },
            Lookup::Missing => {
                let warning = concat3(
                    "Warning: Shared library \"",
                    self.names[at].as_str(),
                    "\" not found.",
                );
                Some(warning)
            },
        }
    }

    /// The libraries found, in the order in which they were found.
    pub fn into_libraries(self) -> (res: Vec<SharedLibrary>)
        requires
            self.wf(),
        ensures
            res@ == self.found@,
            distinct_slots(res@),
    {
        self.found
    }
}

/// The libraries found so far stay under processed names when names are
/// added behind the names seen, marks are set, and libraries are added
/// behind the libraries found.
proof fn lemma_found_stay_processed(before: DylibClosure, after: DylibClosure)
    requires
        after.abi == before.abi,
        before.names@.len() <= after.names@.len(),
        forall|i: int| 0 <= i < before.names@.len() ==> after.names@[i] == before.names@[i],
        forall|i: int|
            0 <= i < before.names@.len() && before.processed@[i] ==> after.processed@[i],
        before.found@.len() <= after.found@.len(),
        forall|k: int| 0 <= k < before.found@.len() ==> after.found@[k] == before.found@[k],
        forall|k: int|
            0 <= k < before.found@.len() ==> (#[trigger] before.found@[k]).abi == before.abi
                && before.is_processed(before.found@[k].filename@),
    ensures
        forall|k: int|
            0 <= k < before.found@.len() ==> (#[trigger] after.found@[k]).abi == after.abi
                && after.is_processed(after.found@[k].filename@),
{
    assert forall|k: int| 0 <= k < before.found@.len() implies (#[trigger] after.found@[k]).abi
        == after.abi && after.is_processed(after.found@[k].filename@) by {
        assert(before.found@[k].abi == before.abi);
        assert(before.is_processed(before.found@[k].filename@));
        let w = choose|w: int|
            0 <= w < before.names@.len() && before.processed@[w] && (#[trigger] before.names@[w])@
                == before.found@[k].filename@;
        assert(after.names@[w] == before.names@[w]);
        assert(after.processed@[w]);
    }
}

/// The resolver finds no library twice: no two of the libraries found have
/// the same architecture and file name, and each stands under a name that
/// is processed, so that no later lookup returns to it.
pub proof fn lemma_closure_finds_each_library_once(closure: DylibClosure)
    requires
        closure.wf(),
    ensures
        forall|a: int, b: int|
            0 <= a < b < closure.found@.len() ==> !(closure.found@[a].abi == closure.found@[b].abi
                && closure.found@[a].filename@ == closure.found@[b].filename@),
        forall|k: int|
            0 <= k < closure.found@.len() ==> closure.is_processed(
                (#[trigger] closure.found@[k]).filename@,
            ),
        closure.pending() < closure.names@.len() ==> !closure.is_processed(
            closure.names@[closure.pending()]@,
        ),
{
    assert forall|a: int, b: int| 0 <= a < b < closure.found@.len() implies !(closure.found@[a].abi
        == closure.found@[b].abi && closure.found@[a].filename@
        == closure.found@[b].filename@) by {
        assert(!closure.found@[a].same_slot(closure.found@[b]));
    }
    let at = closure.pending();
    lemma_first_pending_is_pending(closure.processed@);
    if at < closure.names@.len() {
        if closure.is_processed(closure.names@[at]@) {
            let w = choose|w: int|
                0 <= w < closure.names@.len() && closure.processed@[w] && (
                #[trigger] closure.names@[w])@ == closure.names@[at]@;
            assert(closure.name_texts()[w] == closure.names@[w]@);
            assert(closure.name_texts()[at] == closure.names@[at]@);
            if w < at {
                assert(closure.name_texts()[w] != closure.name_texts()[at]);
            } else if at < w {
                assert(closure.name_texts()[at] != closure.name_texts()[w]);
            }
        }
    }
}

/// The resolver comes to an end: when every name that can turn up is one of
/// a finite set, the names seen are never more than that set holds, and
/// the processed ones never more than the names seen. Each lookup that
/// `resolve` takes adds one to the processed names, so there are at most as
/// many lookups as the set holds names.
pub proof fn lemma_closure_is_bounded(closure: DylibClosure, universe: Set<Seq<char>>)
    requires
        closure.wf(),
        universe.finite(),
        forall|i: int|
            0 <= i < closure.names@.len() ==> universe.contains(
                (#[trigger] closure.names@[i])@,
            ),
    ensures
        marked(closure.processed@) <= closure.names@.len() <= universe.len(),
{
    let names = closure.name_texts();
    assert(names.no_duplicates()) by {
        assert forall|i: int, j: int|
            0 <= i < names.len() && 0 <= j < names.len() && i != j implies names[i]
            != names[j] by {
            if i < j {
                assert(names[i] != names[j]);
            } else {
                assert(names[j] != names[i]);
            }
        }
    }
    names.unique_seq_to_set();
    assert(names.to_set().subset_of(universe)) by {
        assert forall|name: Seq<char>| names.to_set().contains(name) implies universe.contains(
            name,
        ) by {
            let i = choose|i: int| 0 <= i < names.len() && names[i] == name;
            assert(names[i] == closure.names@[i]@);
        }
    }
    vstd::set_lib::lemma_len_subset(names.to_set(), universe);
    lemma_marked_bound(closure.processed@);
}

/// No more flags are marked than there are flags.
pub proof fn lemma_marked_bound(flags: Seq<bool>)
    ensures
        marked(flags) <= flags.len(),
    decreases flags.len(),
{
    if flags.len() > 0 {
        lemma_marked_bound(flags.drop_last());
    }
}

/// Marking a flag that was not marked adds one to the marked flags.
pub proof fn lemma_marked_update(flags: Seq<bool>, at: int)
    requires
        0 <= at < flags.len(),
        !flags[at],
    ensures
        marked(flags.update(at, true)) == marked(flags) + 1,
    decreases flags.len(),
{
    let updated = flags.update(at, true);
    if at == flags.len() - 1 {
        assert(updated.drop_last() =~= flags.drop_last());
    } else {
        assert(updated.drop_last() =~= flags.drop_last().update(at, true));
        lemma_marked_update(flags.drop_last(), at);
    }
}

/// Flags without mark at the end add nothing to the marked flags.
pub proof fn lemma_marked_up_to(flags: Seq<bool>, len: int)
    requires
        len >= flags.len(),
    ensures
        marked(flags_up_to(flags, len)) == marked(flags),
    decreases len - flags.len(),
{
    if len > flags.len() {
        lemma_marked_up_to(flags, len - 1);
        assert(flags_up_to(flags, len).drop_last() =~= flags_up_to(flags, len - 1));
    } else {
        assert(flags_up_to(flags, len) =~= flags);
    }
}

/// The first pending position holds no mark, and every position before it
/// holds one.
pub proof fn lemma_first_pending_is_pending(flags: Seq<bool>)
    ensures
        0 <= first_pending(flags) <= flags.len(),
        first_pending(flags) < flags.len() ==> !flags[first_pending(flags)],
        forall|k: int| 0 <= k < first_pending(flags) ==> flags[k],
    decreases flags.len(),
{
    if flags.len() > 0 {
        lemma_first_pending_is_pending(flags.drop_last());
        assert forall|k: int| 0 <= k < first_pending(flags) implies flags[k] by {
            if k < flags.len() - 1 {
                assert(flags.drop_last()[k] == flags[k]);
            }
        }
    }
}

/// Once a position without mark is the first one in a prefix of the flags,
/// it is the first one in every longer prefix.
pub proof fn lemma_first_pending_stays(flags: Seq<bool>, at: int, n: int)
    requires
        0 <= at < n <= flags.len(),
        first_pending(flags.take(at)) == at,
        !flags[at],
    ensures
        first_pending(flags.take(n)) == at,
    decreases n,
{
    assert(flags.take(n).drop_last() =~= flags.take(n - 1));
    if n > at + 1 {
        lemma_first_pending_stays(flags, at, n - 1);
    }
}

} // verus!
