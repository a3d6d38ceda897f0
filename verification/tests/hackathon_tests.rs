use crossbeam::channel::unbounded;
use hackathon::catalog::{cross_product, format_idea_name, get_ideas};
use hackathon::checksum::Checksum;
use hackathon::idea::{Idea, IdeaEvent, IdeaGenerator};
use hackathon::package::{Package, PackageDownloader, PackageEvent};
use hackathon::partition::{partition_slices, per_thread_amount};
use hackathon::student::Student;

fn strings(names: &[&str]) -> Vec<String> {
    names.iter().map(|n| n.to_string()).collect()
}

#[test]
fn partition_shares_concrete() {
    // 10 units over 4 workers: 10/4 = 2 remainder 2, so the first two get 3.
    assert_eq!(per_thread_amount(0, 10, 4), 3);
    assert_eq!(per_thread_amount(1, 10, 4), 3);
    assert_eq!(per_thread_amount(2, 10, 4), 2);
    assert_eq!(per_thread_amount(3, 10, 4), 2);
}

#[test]
fn partition_shares_sum_to_total() {
    for &(total, workers) in &[(80usize, 6usize), (0, 3), (7, 1), (5, 8), (4000, 6)] {
        let mut sum = 0;
        let mut smallest = usize::MAX;
        let mut largest = 0;
        for i in 0..workers {
            let amt = per_thread_amount(i, total, workers);
            sum += amt;
            smallest = smallest.min(amt);
            largest = largest.max(amt);
        }
        assert_eq!(sum, total);
        assert!(largest - smallest <= 1);
    }
}

#[test]
fn partition_slices_tile_the_range() {
    assert_eq!(partition_slices(10, 4), vec![(0, 3), (3, 3), (6, 2), (8, 2)]);
    assert_eq!(partition_slices(0, 3), vec![(0, 0), (0, 0), (0, 0)]);
    assert_eq!(partition_slices(5, 1), vec![(0, 5)]);
}

#[test]
fn catalog_cross_product_row_major() {
    let pairs = cross_product(strings(&["A", "B"]), strings(&["X", "Y"]));
    let got: Vec<(&str, &str)> = pairs.iter().map(|p| (p.0.as_str(), p.1.as_str())).collect();
    assert_eq!(got, vec![("A", "X"), ("A", "Y"), ("B", "X"), ("B", "Y")]);
    let names: Vec<String> = pairs.iter().map(|p| format_idea_name(&p.0, &p.1)).collect();
    assert_eq!(names, vec!["A for X", "A for Y", "B for X", "B for Y"]);
}

#[test]
fn catalog_cross_product_empty_side() {
    let pairs = cross_product(strings(&["A", "B"]), strings(&[]));
    assert!(pairs.is_empty());
}

#[test]
fn checksum_digest_matches_sha256() {
    // Known SHA-256 digests: the wrapper must not hand its input back.
    assert_eq!(
        Checksum::with_sha256("a").to_hex(),
        "ca978112ca1bbdcafac231b39a23dc4da786eff8147c4e72b9807785afee48bb"
    );
    assert_eq!(
        Checksum::with_sha256("").to_hex(),
        "e3b0c44298fc1c149afbf4c8996fb92427ae41e4649b934ca495991b7852b855"
    );
}

#[test]
fn checksum_default_is_identity() {
    let zero = Checksum::default();
    assert_eq!(zero.to_hex(), "0".repeat(64));
    let mut folded = Checksum::default();
    folded.update(Checksum::with_sha256("idea"));
    assert!(folded.equals(&Checksum::with_sha256("idea")));
}

#[test]
fn checksum_update_is_commutative() {
    let a = Checksum::with_sha256("alpha");
    let b = Checksum::with_sha256("beta");
    let mut ab = a.clone();
    ab.update(b.clone());
    let mut ba = b.clone();
    ba.update(a.clone());
    assert!(ab.equals(&ba));
    assert!(!ab.equals(&a));
}

#[test]
fn checksum_update_is_associative_and_self_inverse() {
    let a = Checksum::with_sha256("alpha");
    let b = Checksum::with_sha256("beta");
    let c = Checksum::with_sha256("gamma");
    let mut ab_c = a.clone();
    ab_c.update(b.clone());
    ab_c.update(c.clone());
    let mut bc = b.clone();
    bc.update(c.clone());
    let mut a_bc = a.clone();
    a_bc.update(bc);
    assert!(ab_c.equals(&a_bc));
    // Folding the same digest twice cancels out: order independence shows
    // as multiset equality, not sequence equality.
    let mut aa = a.clone();
    aa.update(a.clone());
    assert!(aa.equals(&Checksum::default()));
}

#[test]
fn generator_wraps_around_catalog() {
    // 5 ideas from a 2-pair catalog reuse pairs cyclically: 0,1,0,1,0.
    let catalog = cross_product(strings(&["A"]), strings(&["X", "Y"]));
    let (idea_send, idea_recv) = unbounded();
    let mut generator = IdeaGenerator::new(catalog, 0, 5, 5, idea_send);
    assert_eq!(generator.get_next_idea_name(0), "A for X");
    assert_eq!(generator.get_next_idea_name(1), "A for Y");
    assert_eq!(generator.get_next_idea_name(4), "A for X");
    generator.run();
    let mut names = Vec::new();
    while let Ok(IdeaEvent::NewIdea(idea)) = idea_recv.try_recv() {
        names.push(idea.name);
    }
    assert_eq!(names, vec!["A for X", "A for Y", "A for X", "A for Y", "A for X"]);
}

#[test]
fn downloader_wraps_around_name_sequence() {
    let (pkg_send, pkg_recv) = unbounded();
    let mut downloader = PackageDownloader::new(strings(&["p0", "p1", "p2"]), 2, 4, pkg_send);
    let checksum = downloader.run();
    let mut names = Vec::new();
    while let Ok(PackageEvent::DownloadComplete(pkg)) = pkg_recv.try_recv() {
        names.push(pkg.name);
    }
    assert_eq!(names, vec!["p2", "p0", "p1", "p2"]);
    let mut expected = Checksum::default();
    for name in &names {
        expected.update(Checksum::with_sha256(name));
    }
    assert!(checksum.equals(&expected));
}

#[test]
fn student_builds_zero_package_idea_instantly() {
    let (_pkg_send, pkg_recv) = unbounded::<PackageEvent>();
    let mut student = Student::new(0, pkg_recv);
    let idea = Idea { name: "free for nobody".to_string(), num_pkg_required: 0 };
    let done = student.process_idea_event(IdeaEvent::NewIdea(idea));
    assert!(!done);
    assert_eq!(student.build_log.len(), 1);
    assert!(student.build_log[0].pkgs.is_empty());
}

#[test]
fn student_stops_when_package_channel_dies() {
    let (pkg_send, pkg_recv) = unbounded::<PackageEvent>();
    drop(pkg_send);
    let mut student = Student::new(0, pkg_recv);
    let idea = Idea { name: "stranded".to_string(), num_pkg_required: 2 };
    let done = student.process_idea_event(IdeaEvent::NewIdea(idea));
    assert!(done);
    assert!(student.build_log.is_empty());
}

#[test]
fn one_sentinel_per_student_terminates_each() {
    // Two students, two sentinels: each observes exactly one and stops.
    let (_pkg_send, pkg_recv) = unbounded::<PackageEvent>();
    let (idea_send, idea_recv) = unbounded();
    idea_send.send(IdeaEvent::OutOfIdeas).unwrap();
    idea_send.send(IdeaEvent::OutOfIdeas).unwrap();
    for id in 0..2 {
        let mut student = Student::new(id, pkg_recv.clone());
        let done = student.process_idea_event(idea_recv.recv().unwrap());
        assert!(done);
        assert!(student.build_log.is_empty());
    }
    assert!(idea_recv.try_recv().is_err());
}

#[test]
fn end_to_end_two_by_two_catalog() {
    // 2 products x 2 customers, 4 ideas, 10 packages, one thread of each
    // kind: requirements must come out 3,3,2,2 and both checksum pairs
    // must agree.
    let catalog = get_ideas(strings(&["A", "B"]), strings(&["X", "Y"]));
    assert_eq!(catalog.len(), 4);
    let (pkg_send, pkg_recv) = unbounded();
    let (idea_send, idea_recv) = unbounded();

    let mut downloader =
        PackageDownloader::new(strings(&["serde", "rand", "libc"]), 0, 10, pkg_send);
    let pkg_produced = downloader.run();

    let mut generator = IdeaGenerator::new(catalog, 0, 4, 10, idea_send.clone());
    let idea_produced = generator.run();
    idea_send.send(IdeaEvent::OutOfIdeas).unwrap();

    let mut student = Student::new(0, pkg_recv);
    loop {
        let event = idea_recv.recv().unwrap();
        if student.process_idea_event(event) {
            break;
        }
    }

    let built: Vec<(&str, usize)> = student
        .build_log
        .iter()
        .map(|r| (r.idea.name.as_str(), r.pkgs.len()))
        .collect();
    assert_eq!(
        built,
        vec![("A for X", 3), ("A for Y", 3), ("B for X", 2), ("B for Y", 2)]
    );
    for record in &student.build_log {
        assert_eq!(record.pkgs.len(), record.idea.num_pkg_required);
    }

    let (idea_consumed, pkg_consumed) = student.checksums();
    assert!(idea_consumed.equals(&idea_produced));
    assert!(pkg_consumed.equals(&pkg_produced));
}

#[test]
fn two_students_split_the_work() {
    let catalog = cross_product(strings(&["A", "B"]), strings(&["X", "Y"]));
    let (pkg_send, pkg_recv) = unbounded();
    let (idea_send, idea_recv) = unbounded();
    let mut downloader = PackageDownloader::new(strings(&["p0", "p1"]), 0, 12, pkg_send);
    let pkg_produced = downloader.run();
    let mut generator = IdeaGenerator::new(catalog, 0, 4, 12, idea_send.clone());
    let idea_produced = generator.run();
    idea_send.send(IdeaEvent::OutOfIdeas).unwrap();
    idea_send.send(IdeaEvent::OutOfIdeas).unwrap();

    let mut students = vec![Student::new(0, pkg_recv.clone()), Student::new(1, pkg_recv.clone())];
    let mut done = [false, false];
    let mut turn = 0usize;
    while !(done[0] && done[1]) {
        let k = turn % 2;
        turn += 1;
        if done[k] {
            continue;
        }
        let event = idea_recv.recv().unwrap();
        if students[k].process_idea_event(event) {
            done[k] = true;
        }
    }

    assert_eq!(students[0].build_log.len() + students[1].build_log.len(), 4);
    for s in &students {
        for r in &s.build_log {
            assert_eq!(r.pkgs.len(), r.idea.num_pkg_required);
        }
    }
    let mut idea_consumed = Checksum::default();
    let mut pkg_consumed = Checksum::default();
    for s in &students {
        let (idea_part, pkg_part) = s.checksums();
        idea_consumed.update(idea_part);
        pkg_consumed.update(pkg_part);
    }
    assert!(idea_consumed.equals(&idea_produced));
    assert!(pkg_consumed.equals(&pkg_produced));
}

#[test]
fn partial_checksums_combine_across_workers() {
    // Two generators splitting the same idea range reach, combined, the
    // checksum a single generator over the whole range reaches.
    let catalog = cross_product(strings(&["A", "B"]), strings(&["X", "Y", "Z"]));
    let (send_whole, _recv_whole) = unbounded();
    let (send_split, _recv_split) = unbounded();

    let mut whole = IdeaGenerator::new(catalog.clone(), 0, 6, 13, send_whole);
    let whole_checksum = whole.run();

    let first_count = per_thread_amount(0, 6, 2);
    let first_budget = per_thread_amount(0, 13, 2);
    let second_count = per_thread_amount(1, 6, 2);
    let second_budget = per_thread_amount(1, 13, 2);
    let mut first = IdeaGenerator::new(catalog.clone(), 0, first_count, first_budget, send_split.clone());
    let mut second =
        IdeaGenerator::new(catalog.clone(), first_count, second_count, second_budget, send_split);
    let mut combined = Checksum::default();
    combined.update(second.run());
    combined.update(first.run());
    assert!(combined.equals(&whole_checksum));
}
