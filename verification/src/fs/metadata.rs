//! What the system knows of a file.

use vstd::prelude::*;

verus! {

/// The bits of a mode that say what kind of file it is.
pub const S_IFMT: u32 = 0o170000;

/// The kind of a directory.
pub const S_IFDIR: u32 = 0o040000;

/// The kind of a regular file.
pub const S_IFREG: u32 = 0o100000;

/// The kind of a symbolic link.
pub const S_IFLNK: u32 = 0o120000;

/// How many nanoseconds a second has.
pub const NANOS_PER_SEC: u32 = 1_000_000_000;

/// A time as the system gives it, in seconds and nanoseconds since the epoch. The nanoseconds lead
/// forward in time, before the epoch too.
#[derive(Clone, Copy, Debug, PartialEq, Eq, Structural)]
pub struct StatxTimestamp {
    pub secs: i64,
    pub nanos: u32,
}

impl StatxTimestamp {
    /// The time in nanoseconds since the epoch, negative before it.
    pub open spec fn nanoseconds(self) -> int {
        self.secs * NANOS_PER_SEC + self.nanos
    }
}

/// How far a time is from the epoch.
#[derive(Clone, Copy, Debug, PartialEq, Eq, Structural)]
pub struct EpochOffset {
    /// Whether the time is before the epoch.
    pub before: bool,
    pub secs: u64,
    pub nanos: u32,
}

impl EpochOffset {
    /// The distance in nanoseconds, negative before the epoch.
    pub open spec fn nanoseconds(self) -> int {
        let distance = self.secs * NANOS_PER_SEC + self.nanos;
        if self.before {
            -distance
        } else {
            distance
        }
    }
}

/// Whether a distance from the epoch is that of a time, with less than a second of nanoseconds.
pub open spec fn same_time(offset: EpochOffset, time: StatxTimestamp) -> bool {
    &&& offset.nanoseconds() == time.nanoseconds()
    &&& offset.nanos < NANOS_PER_SEC
    &&& offset.before == (time.nanoseconds() < 0)
}

/// How far a time as the system gives it is from the epoch. Half a second before the epoch is given
/// as one second before it and half a second on.
pub fn statx_timestamp_to_system_time(time: StatxTimestamp) -> (offset: EpochOffset)
    ensures
        offset.nanoseconds() == time.secs * NANOS_PER_SEC + time.nanos,
        same_time(offset, time),
{
    let total: i128 = time.secs as i128 * 1_000_000_000 + time.nanos as i128;
    let before = total < 0;
    let distance: i128 = if before {
        -total
    } else {
        total
    };
    let secs: u64 = (distance / 1_000_000_000) as u64;
    let nanos: u32 = (distance % 1_000_000_000) as u32;
    EpochOffset { before, secs, nanos }
}

/// A kind of file.
#[derive(Clone, Copy, Debug, PartialEq, Eq, Hash, Structural)]
pub struct FileType {
    pub dir: bool,
    pub file: bool,
    pub symlink: bool,
}

impl FileType {
    /// Whether it is a directory.
    pub fn is_dir(&self) -> (dir: bool)
        ensures
            dir == self.dir,
    {
        self.dir
    }

    /// Whether it is a regular file.
    pub fn is_file(&self) -> (file: bool)
        ensures
            file == self.file,
    {
        self.file
    }

    /// Whether it is a symbolic link.
    pub fn is_symlink(&self) -> (symlink: bool)
        ensures
            symlink == self.symlink,
    {
        self.symlink
    }
}

/// What the system knows of a file.
#[derive(Clone, Copy, Debug, PartialEq, Eq, Structural)]
pub struct Metadata {
    /// The length in bytes.
    pub size: u64,
    /// The kind and the permissions.
    pub mode: u32,
    /// When the file was last read.
    pub atime: StatxTimestamp,
    /// When the file was created.
    pub btime: StatxTimestamp,
    /// When the file was last written.
    pub mtime: StatxTimestamp,
}

impl Metadata {
    /// The bits of the mode that say what kind of file it is.
    pub open spec fn kind(self) -> u32 {
        self.mode & S_IFMT
    }

    /// The length in bytes.
    pub fn len(&self) -> (len: u64)
        ensures
            len == self.size,
    {
        self.size
    }

    /// The mode, from which the permissions are taken.
    pub fn permissions(&self) -> (mode: u32)
        ensures
            mode == self.mode,
    {
        self.mode
    }

    /// The kind of file.
    pub fn file_type(&self) -> (file_type: FileType)
        ensures
            file_type == (FileType {
                dir: self.kind() == S_IFDIR,
                file: self.kind() == S_IFREG,
                symlink: self.kind() == S_IFLNK,
            }),
    {
        FileType { dir: self.is_dir(), file: self.is_file(), symlink: self.is_symlink() }
    }

    /// Whether it is a directory.
    pub fn is_dir(&self) -> (dir: bool)
        ensures
            dir == (self.kind() == S_IFDIR),
    {
        self.mode & S_IFMT == S_IFDIR
    }

    /// Whether it is a regular file.
    pub fn is_file(&self) -> (file: bool)
        ensures
            file == (self.kind() == S_IFREG),
    {
        self.mode & S_IFMT == S_IFREG
    }

    /// Whether it is a symbolic link.
    pub fn is_symlink(&self) -> (symlink: bool)
        ensures
            symlink == (self.kind() == S_IFLNK),
    {
        self.mode & S_IFMT == S_IFLNK
    }

    /// When the file was last read.
    pub fn accessed(&self) -> (time: EpochOffset)
        ensures
            same_time(time, self.atime),
    {
        statx_timestamp_to_system_time(self.atime)
    }

    /// When the file was created.
    pub fn created(&self) -> (time: EpochOffset)
        ensures
            same_time(time, self.btime),
    {
        statx_timestamp_to_system_time(self.btime)
    }

    /// When the file was last written.
    pub fn modified(&self) -> (time: EpochOffset)
        ensures
            same_time(time, self.mtime),
    {
        statx_timestamp_to_system_time(self.mtime)
    }
}

/// A time has one distance from the epoch only, and the order of times is that of the distances.
pub proof fn law_times_are_told_apart(
    one: StatxTimestamp,
    other: StatxTimestamp,
    one_offset: EpochOffset,
    other_offset: EpochOffset,
)
    requires
        same_time(one_offset, one),
        same_time(other_offset, other),
    ensures
        one.nanoseconds() == other.nanoseconds() ==> one_offset == other_offset,
        one.nanoseconds() < other.nanoseconds() <==> one_offset.nanoseconds()
            < other_offset.nanoseconds(),
{
}

/// A file is at most one of a directory, a regular file and a symbolic link, and its permissions
/// do not matter for which.
pub proof fn law_file_has_one_kind(mode: u32)
    ensures
        !(mode & S_IFMT == S_IFDIR && mode & S_IFMT == S_IFREG),
        !(mode & S_IFMT == S_IFDIR && mode & S_IFMT == S_IFLNK),
        !(mode & S_IFMT == S_IFREG && mode & S_IFMT == S_IFLNK),
        forall|permissions: u32| #![trigger mode | permissions]
            permissions < 0o10000 ==> (mode | permissions) & S_IFMT == mode & S_IFMT,
{
    assert forall|permissions: u32| #![trigger mode | permissions]
        permissions < 0o10000 implies (mode | permissions) & S_IFMT == mode & S_IFMT by {
        assert((mode | permissions) & 0o170000u32 == mode & 0o170000u32) by (bit_vector)
            requires
                permissions < 0o10000u32,
        ;
    }
}

/// A time is as far from the epoch as its seconds and nanoseconds say, forward or back, with less
/// than a second of nanoseconds.
pub proof fn law_time_keeps_its_distance(time: StatxTimestamp, offset: EpochOffset)
    requires
        call_ensures(statx_timestamp_to_system_time, (time,), offset),
    ensures
        ({
            let distance = time.secs * 1_000_000_000 + time.nanos;
            let told = offset.secs * 1_000_000_000 + offset.nanos;
            &&& offset.before <==> distance < 0
            &&& offset.before ==> told == -distance
            &&& !offset.before ==> told == distance
            &&& offset.nanos < 1_000_000_000
        }),
{
}

/// Each time of a file is told from its own.
pub proof fn law_each_time_is_its_own(
    metadata: Metadata,
    accessed: EpochOffset,
    created: EpochOffset,
    modified: EpochOffset,
    atime: EpochOffset,
    btime: EpochOffset,
    mtime: EpochOffset,
)
    requires
        call_ensures(Metadata::accessed, (&metadata,), accessed),
        call_ensures(Metadata::created, (&metadata,), created),
        call_ensures(Metadata::modified, (&metadata,), modified),
        call_ensures(statx_timestamp_to_system_time, (metadata.atime,), atime),
        call_ensures(statx_timestamp_to_system_time, (metadata.btime,), btime),
        call_ensures(statx_timestamp_to_system_time, (metadata.mtime,), mtime),
    ensures
        accessed == atime,
        created == btime,
        modified == mtime,
{
}

/// The kind of a file is told by the mode alone: 0o040000 for a directory, 0o100000 for a regular
/// file and 0o120000 for a symbolic link, among the bits 0o170000.
pub proof fn law_kind_is_told_by_the_mode(
    metadata: Metadata,
    file_type: FileType,
    dir: bool,
    file: bool,
    symlink: bool,
    typed_dir: bool,
    typed_file: bool,
    typed_symlink: bool,
)
    requires
        call_ensures(Metadata::file_type, (&metadata,), file_type),
        call_ensures(Metadata::is_dir, (&metadata,), dir),
        call_ensures(Metadata::is_file, (&metadata,), file),
        call_ensures(Metadata::is_symlink, (&metadata,), symlink),
        call_ensures(FileType::is_dir, (&file_type,), typed_dir),
        call_ensures(FileType::is_file, (&file_type,), typed_file),
        call_ensures(FileType::is_symlink, (&file_type,), typed_symlink),
    ensures
        dir <==> metadata.mode & 0o170000 == 0o040000,
        file <==> metadata.mode & 0o170000 == 0o100000,
        symlink <==> metadata.mode & 0o170000 == 0o120000,
        typed_dir == dir,
        typed_file == file,
        typed_symlink == symlink,
{
}

/// The length and the permissions are those that the system gave.
pub proof fn law_length_and_permissions_are_given(metadata: Metadata, len: u64, mode: u32)
    requires
        call_ensures(Metadata::len, (&metadata,), len),
        call_ensures(Metadata::permissions, (&metadata,), mode),
    ensures
        len == metadata.size,
        mode == metadata.mode,
{
}

} // verus!
