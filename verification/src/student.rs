//! The consumers. A student repeatedly takes one idea event, then pulls
//! exactly that idea's required count of packages from the package channel
//! before building it; a build appends a record to the student's log and
//! folds the idea's name and every consumed package's name into the
//! student's two running checksums. A student never builds with a package
//! count different from the idea's requirement: that invariant is part of
//! every student's well-formedness. The student stops on the exhaustion
//! sentinel, its checksums covering exactly what it built.
//!
//! Waiting for the next idea event may block for as long as the producers
//! take, so the loop that feeds events to a student runs outside the
//! library; every decision it takes stands here, one event per step.

use crate::channel::channel_recv;
use crate::checksum::{
    checksum_of_names, combined, digest_of, empty_checksum, Checksum, DIGEST_LEN,
};
use crate::idea::{Idea, IdeaEvent};
use crate::package::{Package, PackageEvent};
use vstd::prelude::*;

verus! {

/// The names of the packages in `pkgs`, in order.
pub open spec fn package_names(pkgs: Seq<Package>) -> Seq<Seq<char>> {
    Seq::new(pkgs.len(), |i: int| pkgs[i].name@)
}

/// One build: the idea, the packages spent on it, and the student's two
/// running checksums just after the build.
pub struct BuildRecord {
    pub idea: Idea,
    pub pkgs: Vec<Package>,
    pub idea_checksum: Checksum,
    pub pkg_checksum: Checksum,
}

/// The idea names built over a log, in order.
pub open spec fn log_idea_names(log: Seq<BuildRecord>) -> Seq<Seq<char>>
    decreases log.len(),
{
    if log.len() == 0 {
        Seq::empty()
    } else {
        log_idea_names(log.drop_last()).push(log.last().idea.name@)
    }
}

/// The package names consumed over a log, in order.
pub open spec fn log_package_names(log: Seq<BuildRecord>) -> Seq<Seq<char>>
    decreases log.len(),
{
    if log.len() == 0 {
        Seq::empty()
    } else {
        log_package_names(log.drop_last()) + package_names(log.last().pkgs@)
    }
}

/// One consumer thread's state.
pub struct Student {
    pub id: usize,
    pub build_log: Vec<BuildRecord>,
    pub pkg_recv: crossbeam::channel::Receiver<PackageEvent>,
    pub idea_checksum: Checksum,
    pub pkg_checksum: Checksum,
}

impl Student {
    /// The running checksums cover exactly the log's names, and no build in
    /// the log spent a package count different from its idea's requirement.
    pub open spec fn wf(&self) -> bool {
        &&& self.idea_checksum@.len() == DIGEST_LEN
        &&& self.pkg_checksum@.len() == DIGEST_LEN
        &&& self.idea_checksum@ == checksum_of_names(log_idea_names(self.build_log@))
        &&& self.pkg_checksum@ == checksum_of_names(log_package_names(self.build_log@))
        &&& forall|k: int|
            0 <= k < self.build_log@.len() ==> (#[trigger] self.build_log@[k]).pkgs@.len()
                == self.build_log@[k].idea.num_pkg_required
    }

    pub fn new(id: usize, pkg_recv: crossbeam::channel::Receiver<PackageEvent>) -> (r: Self)
        ensures
            r.wf(),
            r.id == id,
            r.build_log@ == Seq::<BuildRecord>::empty(),
            r.idea_checksum@ == empty_checksum(),
            r.pkg_checksum@ == empty_checksum(),
    {
        let r = Self {
            id,
            build_log: Vec::new(),
            pkg_recv,
            idea_checksum: Checksum::default(),
            pkg_checksum: Checksum::default(),
        };
        proof {
            crate::checksum::lemma_checksum_of_names_len(Seq::<Seq<char>>::empty());
        }
        r
    }

    /// Builds `idea` from exactly the packages gathered for it: folds the
    /// idea's name and every package's name into the running checksums and
    /// appends the record of the build to the log.
    pub fn build_idea(&mut self, pkgs: Vec<Package>, idea: Idea)
        requires
            old(self).wf(),
            pkgs@.len() == idea.num_pkg_required,
        ensures
            final(self).wf(),
            final(self).id == old(self).id,
            final(self).build_log@.len() == old(self).build_log@.len() + 1,
            final(self).build_log@.drop_last() == old(self).build_log@,
            final(self).build_log@.last().idea == idea,
            final(self).build_log@.last().pkgs@ == pkgs@,
            final(self).idea_checksum@ == combined(
                old(self).idea_checksum@,
                digest_of(idea.name@),
            ),
            final(self).pkg_checksum@ == combined(
                old(self).pkg_checksum@,
                checksum_of_names(package_names(pkgs@)),
            ),
    {
        let digest = Checksum::with_sha256(idea.name.as_str());
        self.idea_checksum.update(digest);
        let ghost group = package_names(pkgs@);
        proof {
            assert(group.take(0) =~= Seq::<Seq<char>>::empty());
            crate::checksum::lemma_combined_identity(self.pkg_checksum@);
        }
        let mut j: usize = 0;
        while j < pkgs.len()
            invariant
                j <= pkgs@.len(),
                group == package_names(pkgs@),
                self.id == old(self).id,
                self.build_log@ == old(self).build_log@,
                self.idea_checksum@ == combined(old(self).idea_checksum@, digest_of(idea.name@)),
                self.idea_checksum.wf(),
                old(self).pkg_checksum@.len() == DIGEST_LEN,
                self.pkg_checksum.wf(),
                self.pkg_checksum@ == combined(
                    old(self).pkg_checksum@,
                    checksum_of_names(group.take(j as int)),
                ),
            decreases pkgs@.len() - j,
        {
            let d = Checksum::with_sha256(pkgs[j].name.as_str());
            proof {
                crate::checksum::lemma_checksum_of_names_len(group.take(j as int));
                assert(group.take(j + 1).drop_last() =~= group.take(j as int));
                assert(group.take(j + 1).last() == group[j as int]);
                crate::checksum::lemma_combined_associative(
                    old(self).pkg_checksum@,
                    checksum_of_names(group.take(j as int)),
                    digest_of(group[j as int]),
                );
            }
            self.pkg_checksum.update(d);
            j += 1;
        }
        proof {
            assert(group.take(pkgs@.len() as int) =~= group);
        }
        let record = BuildRecord {
            idea,
            pkgs,
            idea_checksum: self.idea_checksum.clone(),
            pkg_checksum: self.pkg_checksum.clone(),
        };
        self.build_log.push(record);
        proof {
            assert(self.build_log@.drop_last() =~= old(self).build_log@);
            let inames = log_idea_names(old(self).build_log@);
            let pnames = log_package_names(old(self).build_log@);
            assert(log_idea_names(self.build_log@) == inames.push(idea.name@));
            assert(inames.push(idea.name@).drop_last() =~= inames);
            assert(log_package_names(self.build_log@) == pnames + group);
            crate::checksum::lemma_checksum_of_names_len(pnames);
            crate::checksum::lemma_checksum_of_concat(pnames, group);
            assert forall|k: int| 0 <= k < self.build_log@.len() implies (
            #[trigger] self.build_log@[k]).pkgs@.len()
                == self.build_log@[k].idea.num_pkg_required by {
                if k < old(self).build_log@.len() {
                    assert(self.build_log@[k] == old(self).build_log@[k]);
                }
            }
        }
    }

    /// Blocks pulling exactly `idea.num_pkg_required` packages from the
    /// package channel, then builds the idea. An idea requiring no
    /// packages is built at once, with an empty package list and no
    /// receive. Returns false, changing nothing, only when the package
    /// channel is disconnected before enough packages arrive.
    pub fn fulfill_idea(&mut self, idea: Idea) -> (built: bool)
        requires
            old(self).wf(),
        ensures
            final(self).wf(),
            final(self).id == old(self).id,
            idea.num_pkg_required == 0 ==> built,
            built ==> {
                &&& final(self).build_log@.len() == old(self).build_log@.len() + 1
                &&& final(self).build_log@.drop_last() == old(self).build_log@
                &&& final(self).build_log@.last().idea == idea
                &&& final(self).build_log@.last().pkgs@.len() == idea.num_pkg_required
            },
            !built ==> {
                &&& final(self).build_log@ == old(self).build_log@
                &&& final(self).idea_checksum@ == old(self).idea_checksum@
                &&& final(self).pkg_checksum@ == old(self).pkg_checksum@
            },
    {
        let mut pkgs: Vec<Package> = Vec::new();
        let needed = idea.num_pkg_required;
        while pkgs.len() < needed
            invariant
                pkgs@.len() <= needed,
                needed == idea.num_pkg_required,
                self == old(self),
                old(self).wf(),
            decreases needed - pkgs@.len(),
        {
            match channel_recv(&self.pkg_recv) {
                Some(event) => {
                    match event {
                        PackageEvent::DownloadComplete(pkg) => {
                            pkgs.push(pkg);
                        },
                    }
                },
                None => {
                    return false;
                },
            }
        }
        self.build_idea(pkgs, idea);
        true
    }

    /// One step of the consumer state machine: on an idea, gather its
    /// packages and build it; on the exhaustion sentinel, stop. Returns
    /// true exactly when this student is done — on its sentinel, or when
    /// the package channel can no longer supply a pending idea. An idea
    /// requiring no packages never ends the student: it is built at once.
    pub fn process_idea_event(&mut self, event: IdeaEvent) -> (done: bool)
        requires
            old(self).wf(),
        ensures
            final(self).wf(),
            final(self).id == old(self).id,
            event is OutOfIdeas ==> done,
            event matches IdeaEvent::NewIdea(idea) ==> (idea.num_pkg_required == 0 ==> !done),
            (event is OutOfIdeas || done) ==> {
                &&& final(self).build_log@ == old(self).build_log@
                &&& final(self).idea_checksum@ == old(self).idea_checksum@
                &&& final(self).pkg_checksum@ == old(self).pkg_checksum@
            },
            event matches IdeaEvent::NewIdea(idea) ==> (!done ==> {
                &&& final(self).build_log@.len() == old(self).build_log@.len() + 1
                &&& final(self).build_log@.drop_last() == old(self).build_log@
                &&& final(self).build_log@.last().idea == idea
                &&& final(self).build_log@.last().pkgs@.len() == idea.num_pkg_required
            }),
    {
        match event {
            IdeaEvent::NewIdea(idea) => {
                let built = self.fulfill_idea(idea);
                !built
            },
            IdeaEvent::OutOfIdeas => true,
        }
    }

    /// No idea ever builds with a wrong package count: every record in a
    /// well-formed student's log pairs its idea with exactly
    /// `num_pkg_required` packages — never more, never fewer. Every
    /// constructor and step of the student preserves well-formedness, so
    /// this holds of every student at every point.
    pub proof fn lemma_no_build_with_wrong_package_count(&self, k: int)
        requires
            self.wf(),
            0 <= k < self.build_log@.len(),
        ensures
            self.build_log@[k].pkgs@.len() == self.build_log@[k].idea.num_pkg_required,
    {
    }

    /// This student's contribution: the running (idea, package) checksum
    /// pair, covering exactly the names built and consumed so far.
    pub fn checksums(&self) -> (r: (Checksum, Checksum))
        ensures
            r.0@ == self.idea_checksum@,
            r.1@ == self.pkg_checksum@,
    {
        (self.idea_checksum.clone(), self.pkg_checksum.clone())
    }
}

} // verus!
