//! Size-based rolling of log files.
//!
//! When the file exceeds its size it is renamed with the suffix `.1`, what had that suffix
//! moves on to `.2`, and so on; the oldest file is deleted.

use crate::parse::law_numerals_are_distinct;
use crate::text::{decimal, push_decimal};
use vstd::prelude::*;

verus! {

/// Mode of log files: the owner writes, the group reads, others get nothing.
pub const LOG_FILE_MODE: u32 = 0o640;

/// Where a log file is and how it is rotated.
#[derive(Debug)]
pub struct LogFileSettings {
    /// Path of the file.
    pub path: String,
    /// Size in MB beyond which it is rotated.
    pub max_size_mb: u64,
    /// Rotated files that are kept.
    pub max_files: u32,
}

/// How to log.
#[derive(Debug)]
pub struct LogSettings {
    /// Whether to log at all.
    pub enabled: bool,
    /// Whether addresses stay out of the log.
    pub no_log: bool,
    /// A file to log to as well.
    pub file: Option<LogFileSettings>,
}

/// Whether `file` is the file of a configuration.
pub open spec fn names_file(
    file: Option<LogFileSettings>,
    path: Option<String>,
    max_size_mb: u64,
    max_files: u32,
) -> bool {
    match (path, file) {
        (Some(p), Some(f)) => f.path@ == p@ && f.max_size_mb == max_size_mb && f.max_files
            == max_files,
        (None, None) => true,
        _ => false,
    }
}

/// The file that a configuration names.
pub fn file_settings(path: &Option<String>, max_size_mb: u64, max_files: u32) -> (file: Option<
    LogFileSettings,
>)
    ensures
        names_file(file, *path, max_size_mb, max_files),
{
    match path {
        Some(p) => Some(
            LogFileSettings { path: String::from_str(p.as_str()), max_size_mb, max_files },
        ),
        None => None,
    }
}

/// The files that rotation works on.
#[derive(Clone, Copy, Debug, PartialEq, Eq, Structural)]
pub enum LogFile {
    /// The file that is written to.
    Primary,
    /// The file that is to take its place.
    Replacement,
    /// A rotated file.
    Rotated(u32),
}

/// One step of a rotation.
#[derive(Clone, Copy, Debug, PartialEq, Eq, Structural)]
pub enum RotateStep {
    Remove(LogFile),
    Rename { from: LogFile, to: LogFile },
}

/// The state of a rolling log file.
pub struct RollingFile {
    /// Path of the primary file.
    pub path: String,
    /// Bytes written to it.
    pub current_size: u64,
    /// Size beyond which it is rotated.
    pub max_size: u64,
    /// Most rotated files to keep.
    pub max_files: u32,
}

/// The path of a file.
pub open spec fn path_of(base: Seq<char>, f: LogFile) -> Seq<char> {
    match f {
        LogFile::Primary => base,
        LogFile::Replacement => base + ".rotate-tmp"@,
        LogFile::Rotated(i) => base + "."@ + decimal(i as nat),
    }
}

/// The steps that make room: the oldest file goes, every other one moves on by one, and the
/// primary file becomes the first rotated one.
pub open spec fn shifting(i: nat) -> Seq<RotateStep>
    decreases i,
{
    if i == 0 {
        Seq::empty()
    } else {
        seq![
            RotateStep::Rename {
                from: LogFile::Rotated(i as u32),
                to: LogFile::Rotated((i + 1) as u32),
            },
        ] + shifting((i - 1) as nat)
    }
}

/// All steps before the replacement takes its place. Where no rotated file is to be kept, the
/// primary file goes.
pub open spec fn rotation(max_files: u32) -> Seq<RotateStep> {
    if max_files == 0 {
        seq![RotateStep::Remove(LogFile::Primary)]
    } else {
        seq![RotateStep::Remove(LogFile::Rotated(max_files))] + shifting((max_files - 1) as nat,
        ) + seq![RotateStep::Rename { from: LogFile::Primary, to: LogFile::Rotated(1) }]
    }
}

/// What is on disk after a step: a step on a file that is not there changes nothing.
pub open spec fn applied<C>(disk: Map<LogFile, C>, s: RotateStep) -> Map<LogFile, C> {
    match s {
        RotateStep::Remove(f) => disk.remove(f),
        RotateStep::Rename { from, to } => if disk.contains_key(from) {
            disk.insert(to, disk[from]).remove(from)
        } else {
            disk
        },
    }
}

/// What is on disk after steps.
pub open spec fn all_applied<C>(disk: Map<LogFile, C>, steps: Seq<RotateStep>) -> Map<LogFile, C>
    decreases steps.len(),
{
    if steps.len() == 0 {
        disk
    } else {
        all_applied(applied(disk, steps.first()), steps.drop_first())
    }
}

impl RollingFile {
    /// A log file that holds `current_size` bytes already.
    pub fn new(path: String, max_size_mb: u64, max_files: u32, current_size: u64) -> (f: RollingFile)
        requires
            max_size_mb * 1024 * 1024 <= u64::MAX,
        ensures
            f.path == path,
            f.current_size == current_size,
            f.max_size == max_size_mb * 1024 * 1024,
            f.max_files == max_files,
    {
        RollingFile { path, current_size, max_size: max_size_mb * 1024 * 1024, max_files }
    }

    /// So many bytes were written. Returns whether the file is to be rotated, which it is once it
    /// exceeds its size.
    pub fn written(&mut self, bytes: usize) -> (rotate: bool)
        requires
            old(self).current_size + bytes <= u64::MAX,
        ensures
            final(self).current_size == old(self).current_size + bytes,
            final(self).path == old(self).path,
            final(self).max_size == old(self).max_size,
            final(self).max_files == old(self).max_files,
            rotate == (final(self).current_size > final(self).max_size),
    {
        self.current_size = self.current_size + bytes as u64;
        self.current_size > self.max_size
    }

    /// Rotation is over, or was given up: counting starts again, so that a failure is not
    /// repeated at every write.
    pub fn rotated(&mut self)
        ensures
            final(self).current_size == 0,
            final(self).path == old(self).path,
            final(self).max_size == old(self).max_size,
            final(self).max_files == old(self).max_files,
    {
        self.current_size = 0;
    }

    /// The path of a file.
    pub fn path_for(&self, f: LogFile) -> (s: String)
        ensures
            s@ == path_of(self.path@, f),
    {
        let mut s = String::from_str(self.path.as_str());
        match f {
            LogFile::Primary => {},
            LogFile::Replacement => {
                s.append(".rotate-tmp");
            },
            LogFile::Rotated(i) => {
                s.append(".");
                push_decimal(&mut s, i as u64);
            },
        }
        s
    }

    /// The steps of a rotation, up to where the replacement takes the place of the primary file.
    /// They may begin once the replacement has been created.
    pub fn rotation_steps(&self) -> (v: Vec<RotateStep>)
        ensures
            v@ == rotation(self.max_files),
    {
        let mut v: Vec<RotateStep> = Vec::new();
        if self.max_files == 0 {
            v.push(RotateStep::Remove(LogFile::Primary));
            return v;
        }
        v.push(RotateStep::Remove(LogFile::Rotated(self.max_files)));
        let n: u32 = self.max_files - 1;
        let mut i: u32 = n;
        let ghost head = seq![RotateStep::Remove(LogFile::Rotated(self.max_files))];
        proof {
            assert(v@ + shifting(i as nat) =~= head + shifting(n as nat,
            ));
        }
        while i > 0
            invariant
                i <= n,
                n < u32::MAX,
                v@ + shifting(i as nat) == head + shifting(n as nat,
                ),
            decreases i,
        {
            let ghost before = v@;
            v.push(RotateStep::Rename { from: LogFile::Rotated(i), to: LogFile::Rotated(i + 1) });
            proof {
                assert(v@ + shifting((i - 1) as nat) =~= before + shifting(i as nat,
                ));
            }
            i -= 1;
        }
        proof {
            assert(v@ =~= head + shifting(n as nat));
        }
        v.push(RotateStep::Rename { from: LogFile::Primary, to: LogFile::Rotated(1) });
        v
    }
}

proof fn lemma_shift<C>(disk: Map<LogFile, C>, i: nat, last: RotateStep)
    requires
        i < u32::MAX,
        last == (RotateStep::Rename { from: LogFile::Primary, to: LogFile::Rotated(1) }),
        !disk.contains_key(LogFile::Rotated((i + 1) as u32)),
    ensures
        ({
            let after = all_applied(disk, shifting(i).push(last));
            &&& forall|k: u32|
                2 <= k <= i + 1 ==> (#[trigger] after.contains_key(LogFile::Rotated(k))
                    <==> disk.contains_key(LogFile::Rotated((k - 1) as u32))) && (disk.contains_key(LogFile::Rotated((k - 1) as u32))
                    ==> after[LogFile::Rotated(k)] == disk[LogFile::Rotated((k - 1) as u32)])
            &&& moved_on(disk, LogFile::Primary, after, LogFile::Rotated(1))
            &&& !after.contains_key(LogFile::Primary)
            &&& forall|k: u32|
                k == 0 || k > i + 1 ==> (#[trigger] after.contains_key(LogFile::Rotated(k))
                    <==> disk.contains_key(LogFile::Rotated(k))) && (disk.contains_key(LogFile::Rotated(k))
                    ==> after[LogFile::Rotated(k)] == disk[LogFile::Rotated(k)])
            &&& moved_on(disk, LogFile::Replacement, after, LogFile::Replacement)
        }),
    decreases i,
{
    let steps = shifting(i).push(last);
    if i == 0 {
        assert(steps =~= seq![last]);
        assert(steps.drop_first() =~= Seq::empty());
        reveal_with_fuel(all_applied, 2);
    } else {
        let from = LogFile::Rotated(i as u32);
        let to = LogFile::Rotated((i + 1) as u32);
        let first = RotateStep::Rename { from, to };
        assert(steps.first() == first);
        assert(steps.drop_first() =~= shifting((i - 1) as nat).push(last));
        let next = applied(disk, first);
        lemma_shift(next, (i - 1) as nat, last);
        let after = all_applied(disk, steps);
        assert(after == all_applied(next, steps.drop_first()));
        assert(moved_on(disk, from, next, to));
        assert forall|k: u32| 2 <= k <= i + 1 implies (#[trigger] after.contains_key(LogFile::Rotated(k))
                    <==> disk.contains_key(LogFile::Rotated((k - 1) as u32))) && (disk.contains_key(LogFile::Rotated((k - 1) as u32))
                    ==> after[LogFile::Rotated(k)] == disk[LogFile::Rotated((k - 1) as u32)]) by {
            if k == i + 1 {
                assert(moved_on(next, to, after, to));
            } else {
                assert(moved_on(disk, LogFile::Rotated((k - 1) as u32), next, LogFile::Rotated((k
                    - 1) as u32)));
            }
        }
    }
}

/// Whether a file is there afterwards exactly when another was there before, with its contents.
pub open spec fn moved_on<C>(
    before: Map<LogFile, C>,
    from: LogFile,
    after: Map<LogFile, C>,
    to: LogFile,
) -> bool {
    &&& after.contains_key(to) <==> before.contains_key(from)
    &&& before.contains_key(from) ==> after[to] == before[from]
}

/// No more rotated files are kept than may be, whatever their number is.
pub proof fn law_rotation_keeps_at_most_max_files<C>(disk: Map<LogFile, C>, max_files: u32, k: u32)
    requires
        forall|j: u32| j > max_files ==> !#[trigger] disk.contains_key(LogFile::Rotated(j)),
        k > max_files,
    ensures
        !all_applied(disk, rotation(max_files)).contains_key(LogFile::Rotated(k)),
        !all_applied(disk, rotation(max_files)).contains_key(LogFile::Primary),
{
    if max_files == 0 {
        let steps = rotation(0);
        assert(steps.drop_first() =~= Seq::empty());
        reveal_with_fuel(all_applied, 2);
    } else {
        law_rotation_keeps_all_but_the_oldest(disk, max_files);
    }
}

/// Rotation loses only the oldest file, whichever files are there: each other one moves on by one
/// and keeps its contents, the primary file becomes the first rotated one, its place is free, and
/// no other file is touched.
pub proof fn law_rotation_keeps_all_but_the_oldest<C>(disk: Map<LogFile, C>, max_files: u32)
    requires
        max_files >= 1,
    ensures
        ({
            let after = all_applied(disk, rotation(max_files));
            &&& forall|k: u32|
                2 <= k <= max_files ==> (#[trigger] after.contains_key(LogFile::Rotated(k))
                    <==> disk.contains_key(LogFile::Rotated((k - 1) as u32))) && (disk.contains_key(LogFile::Rotated((k - 1) as u32))
                    ==> after[LogFile::Rotated(k)] == disk[LogFile::Rotated((k - 1) as u32)])
            &&& moved_on(disk, LogFile::Primary, after, LogFile::Rotated(1))
            &&& !after.contains_key(LogFile::Primary)
            &&& forall|k: u32|
                k == 0 || k > max_files ==> (#[trigger] after.contains_key(LogFile::Rotated(k))
                    <==> disk.contains_key(LogFile::Rotated(k))) && (disk.contains_key(LogFile::Rotated(k))
                    ==> after[LogFile::Rotated(k)] == disk[LogFile::Rotated(k)])
            &&& moved_on(disk, LogFile::Replacement, after, LogFile::Replacement)
        }),
{
    let first = RotateStep::Remove(LogFile::Rotated(max_files));
    let last = RotateStep::Rename { from: LogFile::Primary, to: LogFile::Rotated(1) };
    let steps = rotation(max_files);
    assert(steps.first() == first);
    assert(steps.drop_first() =~= shifting((max_files - 1) as nat).push(last));
    let next = applied(disk, first);
    lemma_shift(next, (max_files - 1) as nat, last);
}

/// Rotated files have names of their own: no two share one, nor does any share that of the file
/// that is written to.
pub proof fn law_rotated_files_have_their_own_names(base: Seq<char>, i: u32, j: u32)
    ensures
        path_of(base, LogFile::Rotated(i)) == path_of(base, LogFile::Rotated(j)) ==> i == j,
        path_of(base, LogFile::Rotated(i)) != path_of(base, LogFile::Primary),
        path_of(base, LogFile::Replacement) != path_of(base, LogFile::Primary),
{
    reveal_strlit(".");
    reveal_strlit(".rotate-tmp");
    let a = path_of(base, LogFile::Rotated(i));
    let b = path_of(base, LogFile::Rotated(j));
    assert(a.len() > base.len());
    assert(path_of(base, LogFile::Replacement).len() > base.len());
    assert(a.skip(base.len() as int + 1) =~= decimal(i as nat));
    assert(b.skip(base.len() as int + 1) =~= decimal(j as nat));
    if a == b {
        law_numerals_are_distinct(i as nat, j as nat, 10);
    }
}

} // verus!
