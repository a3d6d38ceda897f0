//! The package producers. Each downloader owns a disjoint, contiguous slice
//! of the cyclic package-name sequence, emits one package-ready event per
//! assigned index onto the package channel, and folds every emitted name
//! into a thread-local checksum that it returns when done.

use crate::channel::channel_send;
use crate::checksum::{checksum_of_names, combined, digest_of, empty_checksum, Checksum};
use vstd::prelude::*;

verus! {

/// A unit of supply, consumed one-for-one against an idea's requirement.
pub struct Package {
    pub name: String,
}

/// The one kind of message the package channel carries.
pub enum PackageEvent {
    DownloadComplete(Package),
}

/// The name of the package at global index `idx`: the name sequence is
/// reused cyclically when `idx` reaches past its end.
pub open spec fn package_name_at(pkgs: Seq<String>, idx: int) -> Seq<char>
    recommends
        pkgs.len() >= 1,
{
    pkgs[idx % (pkgs.len() as int)]@
}

/// The names of the packages a downloader with slice `[start, start +
/// count)` emits, in order.
pub open spec fn downloaded_names(pkgs: Seq<String>, start: int, count: int) -> Seq<Seq<char>> {
    Seq::new(count as nat, |i: int| package_name_at(pkgs, start + i))
}

/// One producer thread's worth of package generation.
pub struct PackageDownloader {
    pkgs: Vec<String>,
    pkg_start_idx: usize,
    num_pkgs: usize,
    event_sender: crossbeam::channel::Sender<PackageEvent>,
    pkg_checksum: Checksum,
    produced: Ghost<Seq<Seq<char>>>,
}

impl PackageDownloader {
    /// The names of the packages this downloader has emitted, in order.
    pub closed spec fn produced(&self) -> Seq<Seq<char>> {
        self.produced@
    }

    /// The cyclic package-name sequence this downloader draws from.
    pub closed spec fn pkg_names(&self) -> Seq<String> {
        self.pkgs@
    }

    /// The first global package index of this downloader's slice.
    pub closed spec fn start(&self) -> int {
        self.pkg_start_idx as int
    }

    /// How many packages this downloader emits.
    pub closed spec fn count(&self) -> int {
        self.num_pkgs as int
    }

    /// The checksum folded so far over the names this downloader emitted.
    pub closed spec fn checksum(&self) -> Seq<u8> {
        self.pkg_checksum@
    }

    pub open spec fn wf(&self) -> bool {
        &&& self.pkg_names().len() >= 1
        &&& self.start() + self.count() <= usize::MAX
        &&& self.checksum().len() == crate::checksum::DIGEST_LEN
    }

    pub fn new(
        pkgs: Vec<String>,
        pkg_start_idx: usize,
        num_pkgs: usize,
        event_sender: crossbeam::channel::Sender<PackageEvent>,
    ) -> (r: Self)
        requires
            pkgs@.len() >= 1,
            pkg_start_idx + num_pkgs <= usize::MAX,
        ensures
            r.wf(),
            r.pkg_names() == pkgs@,
            r.start() == pkg_start_idx as int,
            r.count() == num_pkgs as int,
            r.checksum() == empty_checksum(),
            r.produced() == Seq::<Seq<char>>::empty(),
    {
        Self {
            pkgs,
            pkg_start_idx,
            num_pkgs,
            event_sender,
            pkg_checksum: Checksum::default(),
            produced: Ghost(Seq::empty()),
        }
    }

    /// Emits one package-ready event for each index of this downloader's
    /// slice, cycling through the name sequence, and returns the checksum
    /// of exactly the names emitted.
    pub fn run(&mut self) -> (r: Checksum)
        requires
            old(self).wf(),
        ensures
            final(self).wf(),
            final(self).pkg_names() == old(self).pkg_names(),
            final(self).start() == old(self).start(),
            final(self).count() == old(self).count(),
            final(self).produced() == old(self).produced() + downloaded_names(
                old(self).pkg_names(),
                old(self).start(),
                old(self).count(),
            ),
            final(self).checksum() == combined(
                old(self).checksum(),
                checksum_of_names(
                    downloaded_names(old(self).pkg_names(), old(self).start(), old(self).count()),
                ),
            ),
            r@ == final(self).checksum(),
            r.wf(),
    {
        let ghost all_names = downloaded_names(self.pkgs@, self.start(), self.count());
        proof {
            assert(all_names.take(0) =~= Seq::<Seq<char>>::empty());
            assert(self.produced@ + all_names.take(0) =~= self.produced@);
            crate::checksum::lemma_combined_identity(self.pkg_checksum@);
        }
        let mut i: usize = 0;
        while i < self.num_pkgs
            invariant
                i <= self.num_pkgs,
                self.pkgs@ == old(self).pkgs@,
                self.pkg_start_idx == old(self).pkg_start_idx,
                self.num_pkgs == old(self).num_pkgs,
                old(self).wf(),
                all_names == downloaded_names(self.pkgs@, self.start(), self.count()),
                self.produced@ == old(self).produced@ + all_names.take(i as int),
                self.pkg_checksum.wf(),
                self.pkg_checksum@ == combined(
                    old(self).pkg_checksum@,
                    checksum_of_names(all_names.take(i as int)),
                ),
            decreases self.num_pkgs - i,
        {
            let index = (self.pkg_start_idx + i) % self.pkgs.len();
            let name = self.pkgs[index].clone();
            let digest = Checksum::with_sha256(name.as_str());
            proof {
                crate::checksum::lemma_checksum_of_names_len(all_names.take(i as int));
                crate::checksum::lemma_checksum_of_names_len(all_names.take(i + 1));
                assert(all_names.take(i + 1).drop_last() =~= all_names.take(i as int));
                assert(all_names.take(i + 1).last() == all_names[i as int]);
                assert(name@ == package_name_at(self.pkgs@, self.start() + i));
                crate::checksum::lemma_combined_associative(
                    old(self).pkg_checksum@,
                    checksum_of_names(all_names.take(i as int)),
                    digest_of(name@),
                );
            }
            self.pkg_checksum.update(digest);
            proof {
                self.produced@ = self.produced@.push(name@);
                assert(self.produced@ =~= old(self).produced@ + all_names.take(i + 1));
            }
            let _delivered = channel_send(
                &self.event_sender,
                PackageEvent::DownloadComplete(Package { name }),
            );
            i += 1;
        }
        proof {
            assert(all_names.take(self.num_pkgs as int) =~= all_names);
        }
        self.pkg_checksum.clone()
    }
}

} // verus!
