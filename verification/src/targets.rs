use crate::text::views_of;
use vstd::prelude::*;

verus! {

/// What the filesystem says an input path is.
pub enum PathKind {
    Directory,
    File,
    Missing,
}

/// One input path together with what was found at it: its kind, and, for a
/// directory, every file path reachable by full recursive descent, in the
/// enumerator's natural order.
pub struct TargetProbe {
    pub path: String,
    pub kind: PathKind,
    pub dir_files: Vec<String>,
}

/// What one input contributes to the target list: a directory contributes its
/// enumerated files when descent is on and nothing otherwise; a file, and
/// equally a missing path (so that reading it later surfaces a clear error),
/// passes through unchanged.
pub open spec fn probe_targets(p: TargetProbe, recursive: bool) -> Seq<Seq<char>> {
    match p.kind {
        PathKind::Directory => if recursive {
            views_of(p.dir_files@)
        } else {
            Seq::empty()
        },
        PathKind::File => seq![p.path@],
        PathKind::Missing => seq![p.path@],
    }
}

/// The target file list: each input's contribution, in input order.
pub open spec fn spec_collect(probes: Seq<TargetProbe>, recursive: bool) -> Seq<Seq<char>>
    decreases probes.len(),
{
    if probes.len() == 0 {
        Seq::empty()
    } else {
        spec_collect(probes.drop_last(), recursive) + probe_targets(probes.last(), recursive)
    }
}

/// Resolves the probed inputs into the list of files to scan.
pub fn collect_targets(probes: &Vec<TargetProbe>, recursive: bool) -> (r: Vec<String>)
    ensures
        views_of(r@) == spec_collect(probes@, recursive),
{
    let mut files: Vec<String> = Vec::new();
    proof {
        assert(views_of(files@) =~= spec_collect(probes@.take(0), recursive));
    }
    let mut i: usize = 0;
    while i < probes.len()
        invariant
            0 <= i <= probes.len(),
            views_of(files@) == spec_collect(probes@.take(i as int), recursive),
        decreases probes.len() - i,
    {
        let ghost prev = views_of(files@);
        let probe = &probes[i];
        match probe.kind {
            PathKind::Directory => {
                if recursive {
                    let mut j: usize = 0;
                    while j < probe.dir_files.len()
                        invariant
                            0 <= j <= probe.dir_files.len(),
                            probe == probes@[i as int],
                            0 <= i < probes@.len(),
                            views_of(files@) == prev + views_of(probe.dir_files@).take(j as int),
                        decreases probe.dir_files.len() - j,
                    {
                        let ghost before = files@;
                        files.push(probe.dir_files[j].clone());
                        proof {
                            assert(views_of(files@) =~= views_of(before).push(
                                probe.dir_files@[j as int]@,
                            ));
                            assert(views_of(files@) =~= prev + views_of(probe.dir_files@).take(
                                j as int + 1,
                            ));
                        }
                        j = j + 1;
                    }
                    proof {
                        assert(views_of(probe.dir_files@).take(probe.dir_files@.len() as int)
                            =~= views_of(probe.dir_files@));
                    }
                }
            },
            PathKind::File => {
                let ghost before = files@;
                files.push(probe.path.clone());
                proof {
                    assert(views_of(files@) =~= views_of(before).push(probe.path@));
                }
            },
            PathKind::Missing => {
                let ghost before = files@;
                files.push(probe.path.clone());
                proof {
                    assert(views_of(files@) =~= views_of(before).push(probe.path@));
                }
            },
        }
        proof {
            assert(probes@.take(i as int + 1).drop_last() =~= probes@.take(i as int));
            assert(probes@.take(i as int + 1).last() == probes@[i as int]);
            assert(views_of(files@) =~= prev + probe_targets(probes@[i as int], recursive));
        }
        i = i + 1;
    }
    proof {
        assert(probes@.take(probes@.len() as int) =~= probes@);
    }
    files
}

/// A directory input without the recursive flag contributes no target at all:
/// scanning inputs that are all directories, with descent off, yields an empty
/// target list, and so no output line and no error, whatever the directories
/// contain.
pub proof fn lemma_dirs_without_recursive_yield_nothing(probes: Seq<TargetProbe>)
    requires
        forall|i: int| 0 <= i < probes.len() ==> probes[i].kind is Directory,
    ensures
        spec_collect(probes, false) == Seq::<Seq<char>>::empty(),
    decreases probes.len(),
{
    if probes.len() > 0 {
        lemma_dirs_without_recursive_yield_nothing(probes.drop_last());
        assert(spec_collect(probes, false) =~= Seq::<Seq<char>>::empty());
    } else {
        assert(spec_collect(probes, false) =~= Seq::<Seq<char>>::empty());
    }
}

} // verus!
