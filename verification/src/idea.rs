//! The idea producers. Each generator owns a disjoint, contiguous slice of
//! the global idea index space; for every index it derives a name from the
//! catalog with wrap-around, splits its package budget as evenly as possible
//! across its ideas to fix each idea's package requirement, emits one
//! idea-available event, and folds every emitted name into a thread-local
//! checksum that it returns when done.

use crate::catalog::{format_idea_name, idea_name};
use crate::channel::channel_send;
use crate::checksum::{checksum_of_names, combined, digest_of, empty_checksum, Checksum};
use crate::partition::share;
use vstd::arithmetic::div_mod::lemma_fundamental_div_mod;
use vstd::prelude::*;

verus! {

/// A unit of demand: an idea can be built once exactly
/// `num_pkg_required` packages have been gathered for it.
pub struct Idea {
    pub name: String,
    pub num_pkg_required: usize,
}

/// The messages the idea channel carries: one idea each, and the sentinel
/// that tells one student that no further idea will ever arrive.
pub enum IdeaEvent {
    NewIdea(Idea),
    OutOfIdeas,
}

/// The name of the idea at global index `idx`: the catalog is reused
/// cyclically when `idx` reaches past its end.
pub open spec fn idea_name_at(catalog: Seq<(String, String)>, idx: int) -> Seq<char>
    recommends
        catalog.len() >= 1,
{
    idea_name(
        catalog[idx % (catalog.len() as int)].0@,
        catalog[idx % (catalog.len() as int)].1@,
    )
}

/// The names of the ideas a generator with slice `[start, start + count)`
/// emits, in order.
pub open spec fn generated_idea_names(
    catalog: Seq<(String, String)>,
    start: int,
    count: int,
) -> Seq<Seq<char>> {
    Seq::new(count as nat, |i: int| idea_name_at(catalog, start + i))
}

/// The ideas such a generator emits, as (name, package requirement) pairs:
/// the thread's package budget is split as evenly as possible across its
/// ideas, the first `budget % count` ideas taking one package more.
pub open spec fn generated_ideas(
    catalog: Seq<(String, String)>,
    start: int,
    count: int,
    budget: int,
) -> Seq<(Seq<char>, int)> {
    Seq::new(count as nat, |i: int| (idea_name_at(catalog, start + i), share(i, budget, count)))
}

/// One producer thread's worth of idea generation.
pub struct IdeaGenerator {
    ideas: Vec<(String, String)>,
    idea_start_idx: usize,
    num_ideas: usize,
    num_pkgs: usize,
    event_sender: crossbeam::channel::Sender<IdeaEvent>,
    pkg_per_idea: usize,
    extra_pkgs: usize,
    idea_checksum: Checksum,
    produced: Ghost<Seq<(Seq<char>, int)>>,
}

impl IdeaGenerator {
    /// The catalog of (product, customer) pairs this generator draws from.
    pub closed spec fn catalog(&self) -> Seq<(String, String)> {
        self.ideas@
    }

    /// The first global idea index of this generator's slice.
    pub closed spec fn start(&self) -> int {
        self.idea_start_idx as int
    }

    /// How many ideas this generator emits.
    pub closed spec fn count(&self) -> int {
        self.num_ideas as int
    }

    /// The package budget split across this generator's ideas.
    pub closed spec fn budget(&self) -> int {
        self.num_pkgs as int
    }

    /// The checksum folded so far over the names this generator emitted.
    pub closed spec fn checksum(&self) -> Seq<u8> {
        self.idea_checksum@
    }

    /// The (name, requirement) pairs of the ideas this generator has
    /// emitted, in order.
    pub closed spec fn produced(&self) -> Seq<(Seq<char>, int)> {
        self.produced@
    }

    pub open spec fn wf(&self) -> bool {
        &&& self.catalog().len() >= 1
        &&& self.count() >= 1
        &&& self.start() + self.count() <= usize::MAX
        &&& self.per_idea() == self.budget() / self.count()
        &&& self.extra() == self.budget() % self.count()
        &&& self.checksum().len() == crate::checksum::DIGEST_LEN
    }

    /// The base number of packages every idea of this generator requires.
    pub closed spec fn per_idea(&self) -> int {
        self.pkg_per_idea as int
    }

    /// How many of this generator's first ideas require one extra package.
    pub closed spec fn extra(&self) -> int {
        self.extra_pkgs as int
    }

    pub fn new(
        ideas: Vec<(String, String)>,
        idea_start_idx: usize,
        num_ideas: usize,
        num_pkgs: usize,
        event_sender: crossbeam::channel::Sender<IdeaEvent>,
    ) -> (r: Self)
        requires
            ideas@.len() >= 1,
            num_ideas >= 1,
            idea_start_idx + num_ideas <= usize::MAX,
        ensures
            r.wf(),
            r.catalog() == ideas@,
            r.start() == idea_start_idx as int,
            r.count() == num_ideas as int,
            r.budget() == num_pkgs as int,
            r.checksum() == empty_checksum(),
            r.produced() == Seq::<(Seq<char>, int)>::empty(),
    {
        Self {
            ideas,
            idea_start_idx,
            num_ideas,
            num_pkgs,
            event_sender,
            pkg_per_idea: num_pkgs / num_ideas,
            extra_pkgs: num_pkgs % num_ideas,
            idea_checksum: Checksum::default(),
            produced: Ghost(Seq::empty()),
        }
    }

    /// The display name of the idea at global index `idx`, selected from
    /// the catalog with wrap-around.
    pub fn get_next_idea_name(&self, idx: usize) -> (r: String)
        requires
            self.catalog().len() >= 1,
        ensures
            r@ == idea_name_at(self.catalog(), idx as int),
    {
        let i = idx % self.ideas.len();
        let pair: &(String, String) = &self.ideas[i];
        format_idea_name(&pair.0, &pair.1)
    }

    /// Emits one idea-available event for each index of this generator's
    /// slice, giving the first `budget % count` ideas one package more than
    /// the rest, and returns the checksum of exactly the names emitted.
    pub fn run(&mut self) -> (r: Checksum)
        requires
            old(self).wf(),
        ensures
            final(self).wf(),
            final(self).catalog() == old(self).catalog(),
            final(self).start() == old(self).start(),
            final(self).count() == old(self).count(),
            final(self).budget() == old(self).budget(),
            final(self).produced() == old(self).produced() + generated_ideas(
                old(self).catalog(),
                old(self).start(),
                old(self).count(),
                old(self).budget(),
            ),
            final(self).checksum() == combined(
                old(self).checksum(),
                checksum_of_names(
                    generated_idea_names(old(self).catalog(), old(self).start(), old(self).count()),
                ),
            ),
            r@ == final(self).checksum(),
            r.wf(),
    {
        let ghost all_ideas = generated_ideas(self.ideas@, self.start(), self.count(), self.budget());
        let ghost all_names = generated_idea_names(self.ideas@, self.start(), self.count());
        proof {
            assert(all_names.take(0) =~= Seq::<Seq<char>>::empty());
            assert(self.produced@ + all_ideas.take(0) =~= self.produced@);
            crate::checksum::lemma_combined_identity(self.idea_checksum@);
        }
        let mut i: usize = 0;
        while i < self.num_ideas
            invariant
                i <= self.num_ideas,
                self.ideas@ == old(self).ideas@,
                self.idea_start_idx == old(self).idea_start_idx,
                self.num_ideas == old(self).num_ideas,
                self.num_pkgs == old(self).num_pkgs,
                self.pkg_per_idea == old(self).pkg_per_idea,
                self.extra_pkgs == old(self).extra_pkgs,
                old(self).wf(),
                all_ideas == generated_ideas(self.ideas@, self.start(), self.count(), self.budget()),
                all_names == generated_idea_names(self.ideas@, self.start(), self.count()),
                self.produced@ == old(self).produced@ + all_ideas.take(i as int),
                self.idea_checksum.wf(),
                self.idea_checksum@ == combined(
                    old(self).idea_checksum@,
                    checksum_of_names(all_names.take(i as int)),
                ),
            decreases self.num_ideas - i,
        {
            let name = self.get_next_idea_name(self.idea_start_idx + i);
            proof {
                lemma_fundamental_div_mod(self.num_pkgs as int, self.num_ideas as int);
                assert(self.extra_pkgs >= 1 ==> self.pkg_per_idea + 1 <= self.num_pkgs)
                    by (nonlinear_arith)
                    requires
                        self.num_ideas >= 1,
                        self.num_pkgs as int == self.num_ideas * (self.pkg_per_idea as int)
                            + self.extra_pkgs,
                ;
            }
            let extra: usize = if i < self.extra_pkgs {
                1
            } else {
                0
            };
            let num_pkg_required = self.pkg_per_idea + extra;
            proof {
                assert(num_pkg_required == share(i as int, self.budget(), self.count()));
            }
            let idea = Idea { name, num_pkg_required };
            let digest = Checksum::with_sha256(idea.name.as_str());
            proof {
                crate::checksum::lemma_checksum_of_names_len(all_names.take(i as int));
                assert(all_names.take(i + 1).drop_last() =~= all_names.take(i as int));
                assert(all_names.take(i + 1).last() == all_names[i as int]);
                crate::checksum::lemma_combined_associative(
                    old(self).idea_checksum@,
                    checksum_of_names(all_names.take(i as int)),
                    digest_of(idea.name@),
                );
            }
            self.idea_checksum.update(digest);
            proof {
                self.produced@ = self.produced@.push((idea.name@, idea.num_pkg_required as int));
                assert(self.produced@ =~= old(self).produced@ + all_ideas.take(i + 1));
            }
            let _delivered = channel_send(&self.event_sender, IdeaEvent::NewIdea(idea));
            i += 1;
        }
        proof {
            assert(all_ideas.take(self.num_ideas as int) =~= all_ideas);
            assert(all_names.take(self.num_ideas as int) =~= all_names);
        }
        self.idea_checksum.clone()
    }
}

} // verus!
