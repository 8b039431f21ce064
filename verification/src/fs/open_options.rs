//! How a file is opened.

use crate::error::IoError;
use crate::fs::path::contains_nul;
use vstd::prelude::*;

verus! {

/// Open for reading.
pub const O_RDONLY: i32 = 0o0;

/// Open for writing.
pub const O_WRONLY: i32 = 0o1;

/// Open for reading and writing.
pub const O_RDWR: i32 = 0o2;

/// Create the file if it does not exist.
pub const O_CREAT: i32 = 0o100;

/// Fail if the file exists.
pub const O_EXCL: i32 = 0o200;

/// Empty the file.
pub const O_TRUNC: i32 = 0o1000;

/// Write at the end of the file.
pub const O_APPEND: i32 = 0o2000;

/// Close the file when another program is started.
pub const O_CLOEXEC: i32 = 0o2000000;

/// The permissions of a file that is created, before the process takes some away.
pub const CREATE_MODE: u32 = 0o666;

/// How a file is opened.
#[derive(Clone, Copy, Debug, PartialEq, Eq, Structural)]
pub struct OpenOptions {
    pub read: bool,
    pub write: bool,
    pub append: bool,
    pub truncate: bool,
    pub create: bool,
    pub create_new: bool,
}

/// A request to open a file, as the system takes it.
#[derive(Debug)]
pub struct OpenOp {
    /// The path, with the zero that ends it.
    pub path: Vec<u8>,
    pub flags: i32,
    pub mode: u32,
}

/// How a file is opened.
#[derive(Debug)]
pub enum OpenPlan {
    /// The driver is given the request, and reports the file descriptor.
    Submit(OpenOp),
    /// A thread of the blocking pool opens the file.
    BlockingPool,
    /// The file is opened at once, since no runtime is running.
    Direct,
}

impl OpenOptions {
    /// Whether the file is opened for writing.
    pub open spec fn writing(self) -> bool {
        self.write || self.append
    }

    /// What the options are refused with, if they are.
    pub open spec fn refusal(self) -> Option<IoError> {
        if !self.read && !self.writing() {
            Some(IoError::AccessRequired)
        } else if (self.truncate || self.create || self.create_new) && !self.writing() {
            Some(IoError::WriteAccessRequired)
        } else {
            None
        }
    }

    /// The flag for the access that the options ask for.
    pub open spec fn access(self) -> i32 {
        if !self.writing() {
            O_RDONLY
        } else if self.read {
            O_RDWR
        } else {
            O_WRONLY
        }
    }

    /// The flags that the options stand for.
    pub open spec fn flags(self) -> i32 {
        let append = if self.append {
            O_APPEND
        } else {
            0
        };
        let truncate = if self.truncate {
            O_TRUNC
        } else {
            0
        };
        let create = if self.create_new {
            O_CREAT | O_EXCL
        } else if self.create {
            O_CREAT
        } else {
            0
        };
        self.access() | append | truncate | create | O_CLOEXEC
    }

    /// Options that ask for nothing.
    pub fn new() -> (options: OpenOptions)
        ensures
            options == (OpenOptions {
                read: false,
                write: false,
                append: false,
                truncate: false,
                create: false,
                create_new: false,
            }),
    {
        OpenOptions {
            read: false,
            write: false,
            append: false,
            truncate: false,
            create: false,
            create_new: false,
        }
    }

    /// Sets whether the file is read.
    pub fn read(&mut self, read: bool) -> (options: &mut OpenOptions)
        ensures
            *options == (OpenOptions { read, ..*old(self) }),
            *final(self) == *final(options),
    {
        self.read = read;
        self
    }

    /// Sets whether the file is written.
    pub fn write(&mut self, write: bool) -> (options: &mut OpenOptions)
        ensures
            *options == (OpenOptions { write, ..*old(self) }),
            *final(self) == *final(options),
    {
        self.write = write;
        self
    }

    /// Sets whether the file is written at its end.
    pub fn append(&mut self, append: bool) -> (options: &mut OpenOptions)
        ensures
            *options == (OpenOptions { append, ..*old(self) }),
            *final(self) == *final(options),
    {
        self.append = append;
        self
    }

    /// Sets whether the file is emptied.
    pub fn truncate(&mut self, truncate: bool) -> (options: &mut OpenOptions)
        ensures
            *options == (OpenOptions { truncate, ..*old(self) }),
            *final(self) == *final(options),
    {
        self.truncate = truncate;
        self
    }

    /// Sets whether the file is created if it does not exist.
    pub fn create(&mut self, create: bool) -> (options: &mut OpenOptions)
        ensures
            *options == (OpenOptions { create, ..*old(self) }),
            *final(self) == *final(options),
    {
        self.create = create;
        self
    }

    /// Sets whether the file is created, and must not exist.
    pub fn create_new(&mut self, create_new: bool) -> (options: &mut OpenOptions)
        ensures
            *options == (OpenOptions { create_new, ..*old(self) }),
            *final(self) == *final(options),
    {
        self.create_new = create_new;
        self
    }

    /// Checks that the options make sense together.
    pub fn validate(&self) -> (checked: Result<(), IoError>)
        ensures
            checked == (match self.refusal() {
                Some(err) => Err::<(), IoError>(err),
                None => Ok(()),
            }),
    {
        let writing = self.write || self.append;
        if !self.read && !writing {
            return Err(IoError::AccessRequired);
        }
        if (self.truncate || self.create || self.create_new) && !writing {
            return Err(IoError::WriteAccessRequired);
        }
        Ok(())
    }

    /// Where a file that was just opened is read and written first, given its length.
    pub fn initial_cursor(&self, len: u64) -> (cursor: u64)
        ensures
            cursor == (if self.append {
                len
            } else {
                0
            }),
    {
        if self.append {
            len
        } else {
            0
        }
    }

    /// How the file at a path is opened. `current` says whether the driver of the running runtime
    /// offers completions, if a runtime is running.
    pub fn open(&self, current: Option<bool>, path: &Vec<u8>) -> (plan: Result<OpenPlan, IoError>)
        ensures
            match plan {
                Ok(OpenPlan::Submit(op)) => {
                    &&& self.refusal() is None
                    &&& current == Some(true)
                    &&& !path@.contains(0)
                    &&& op.path@ == path@.push(0)
                    &&& op.flags == self.flags()
                    &&& op.mode == CREATE_MODE
                },
                Ok(OpenPlan::BlockingPool) => self.refusal() is None && current == Some(false),
                Ok(OpenPlan::Direct) => self.refusal() is None && current is None,
                Err(err) => match self.refusal() {
                    Some(refused) => err == refused,
                    None => current == Some(true) && path@.contains(0) && err
                        == IoError::PathContainsNul,
                },
            },
    {
        if let Err(err) = self.validate() {
            return Err(err);
        }
        match current {
            None => Ok(OpenPlan::Direct),
            Some(supported) => {
                if !supported {
                    return Ok(OpenPlan::BlockingPool);
                }
                match self.build_open_op(path) {
                    Ok(op) => Ok(OpenPlan::Submit(op)),
                    Err(err) => Err(err),
                }
            },
        }
    }

    /// The request that opens the file at a path.
    pub fn build_open_op(&self, path: &Vec<u8>) -> (built: Result<OpenOp, IoError>)
        ensures
            match built {
                Ok(op) => {
                    &&& self.read || self.writing()
                    &&& !path@.contains(0)
                    &&& op.path@ == path@.push(0)
                    &&& op.flags == self.flags()
                    &&& op.mode == CREATE_MODE
                },
                Err(err) => err == (if !self.read && !self.writing() {
                    IoError::AccessRequired
                } else {
                    IoError::PathContainsNul
                }),
            },
            built is Ok <==> (self.read || self.writing()) && !path@.contains(0),
    {
        let writing = self.write || self.append;
        let access: i32 = match (self.read, writing) {
            (true, false) => O_RDONLY,
            (false, true) => O_WRONLY,
            (true, true) => O_RDWR,
            (false, false) => {
                return Err(IoError::AccessRequired);
            },
        };
        let append: i32 = if self.append {
            O_APPEND
        } else {
            0
        };
        let truncate: i32 = if self.truncate {
            O_TRUNC
        } else {
            0
        };
        let create: i32 = if self.create_new {
            O_CREAT | O_EXCL
        } else if self.create {
            O_CREAT
        } else {
            0
        };
        let flags: i32 = access | append | truncate | create | O_CLOEXEC;
        if contains_nul(path) {
            return Err(IoError::PathContainsNul);
        }
        let mut terminated = path.clone();
        terminated.push(0);
        Ok(OpenOp { path: terminated, flags, mode: CREATE_MODE })
    }
}

impl Default for OpenOptions {
    fn default() -> (options: OpenOptions)
        ensures
            options == (OpenOptions {
                read: false,
                write: false,
                append: false,
                truncate: false,
                create: false,
                create_new: false,
            }),
    {
        OpenOptions::new()
    }
}

/// Options that pass the check can be turned into a request, for any path without a zero.
pub proof fn law_valid_options_have_access(options: OpenOptions)
    requires
        options.refusal() is None,
    ensures
        options.read || options.writing(),
        options.create || options.create_new || options.truncate ==> options.writing(),
{
}

/// Each option can be told from the flags.
pub proof fn law_flags_tell_options(options: OpenOptions)
    requires
        options.read || options.writing(),
    ensures
        (options.flags() & O_APPEND != 0) == options.append,
        (options.flags() & O_TRUNC != 0) == options.truncate,
        (options.flags() & O_CREAT != 0) == (options.create || options.create_new),
        (options.flags() & O_EXCL != 0) == options.create_new,
        options.flags() & O_CLOEXEC != 0,
        (options.flags() & 3 == O_RDONLY) == (options.read && !options.writing()),
        (options.flags() & 3 == O_WRONLY) == (!options.read && options.writing()),
        (options.flags() & 3 == O_RDWR) == (options.read && options.writing()),
{
    let access = options.access();
    let append = if options.append {
        O_APPEND
    } else {
        0
    };
    let truncate = if options.truncate {
        O_TRUNC
    } else {
        0
    };
    assert(0o100i32 | 0o200i32 == 0o300i32) by (bit_vector);
    let create = if options.create_new {
        O_CREAT | O_EXCL
    } else if options.create {
        O_CREAT
    } else {
        0
    };
    let flags = access | append | truncate | create | O_CLOEXEC;
    assert(flags & 0o2000i32 == append && flags & 0o1000i32 == truncate && flags & 0o100i32
        == create & 0o100i32 && flags & 0o200i32 == create & 0o200i32 && flags & 0o2000000i32
        == 0o2000000i32 && flags & 3i32 == access) by (bit_vector)
        requires
            flags == access | append | truncate | create | 0o2000000i32,
            access == 0i32 || access == 1i32 || access == 2i32,
            append == 0i32 || append == 0o2000i32,
            truncate == 0i32 || truncate == 0o1000i32,
            create == 0i32 || create == 0o100i32 || create == 0o300i32,
    ;
    assert(0o300i32 & 0o100i32 == 0o100i32 && 0o300i32 & 0o200i32 == 0o200i32 && 0o100i32 & 0o100i32
        == 0o100i32 && 0o100i32 & 0o200i32 == 0i32 && 0i32 & 0o100i32 == 0i32 && 0i32 & 0o200i32
        == 0i32) by (bit_vector);
}

/// Options are refused exactly where they ask for no access, or for a change of the file without
/// the access to write it. Asking for no access is the first thing that is found.
pub proof fn law_options_are_refused_without_access(
    options: OpenOptions,
    checked: Result<(), IoError>,
)
    requires
        call_ensures(OpenOptions::validate, (&options,), checked),
    ensures
        checked is Ok <==> (options.read || options.write || options.append) && (options.truncate
            || options.create || options.create_new ==> options.write || options.append),
        checked == Err::<(), IoError>(IoError::AccessRequired) <==> !options.read && !options.write
            && !options.append,
        checked == Err::<(), IoError>(IoError::WriteAccessRequired) <==> options.read
            && !options.write && !options.append && (options.truncate || options.create
            || options.create_new),
{
}

/// More access never makes options fail that passed: adding reading, writing or appending to
/// options that pass leaves them passing. Without a change of the file, any access is enough.
pub proof fn law_more_access_is_never_refused(
    options: OpenOptions,
    more: OpenOptions,
    checked: Result<(), IoError>,
    checked_more: Result<(), IoError>,
)
    requires
        call_ensures(OpenOptions::validate, (&options,), checked),
        call_ensures(OpenOptions::validate, (&more,), checked_more),
        more == (OpenOptions {
            read: more.read,
            write: more.write,
            append: more.append,
            ..options
        }),
        options.read ==> more.read,
        options.write ==> more.write,
        options.append ==> more.append,
        checked is Ok,
    ensures
        checked_more is Ok,
{
}

/// A file is opened as the options say wherever they pass the check: by the driver where it offers
/// completions, in the blocking pool where it does not, and at once where no runtime is running.
/// Options that do not pass are refused with what the check says, wherever the file would be
/// opened. Only the driver minds a zero in the path.
pub proof fn law_open_follows_the_check(
    options: OpenOptions,
    current: Option<bool>,
    path: Vec<u8>,
    checked: Result<(), IoError>,
    plan: Result<OpenPlan, IoError>,
)
    requires
        call_ensures(OpenOptions::validate, (&options,), checked),
        call_ensures(OpenOptions::open, (&options, current, &path), plan),
    ensures
        checked matches Err(err) ==> plan == Err::<OpenPlan, IoError>(err),
        checked is Ok && current is None ==> plan matches Ok(OpenPlan::Direct),
        checked is Ok && current == Some(false) ==> plan matches Ok(OpenPlan::BlockingPool),
        checked is Ok && current == Some(true) && !path@.contains(0) ==> (plan matches Ok(
            OpenPlan::Submit(op),
        ) && op.path@ == path@.push(0) && op.flags == options.flags() && op.mode == 0o666),
        checked is Ok && current == Some(true) && path@.contains(0) ==> plan == Err::<
            OpenPlan,
            IoError,
        >(IoError::PathContainsNul),
{
}

/// The request carries what the options ask for, one flag for each: 1 to write, 2 to read and
/// write, 0o2000 to append, 0o1000 to truncate, 0o100 to create and 0o200 to insist on that, and
/// 0o2000000 always. A file that is created may be read and written by all.
pub proof fn law_request_carries_the_options(
    options: OpenOptions,
    path: Vec<u8>,
    built: Result<OpenOp, IoError>,
)
    requires
        call_ensures(OpenOptions::build_open_op, (&options, &path), built),
    ensures
        built is Ok <==> (options.read || options.write || options.append) && !path@.contains(0),
        built matches Ok(op) ==> {
            &&& op.path@ == path@.push(0)
            &&& op.mode == 0o666
            &&& (op.flags & 0o2000 != 0) == options.append
            &&& (op.flags & 0o1000 != 0) == options.truncate
            &&& (op.flags & 0o100 != 0) == (options.create || options.create_new)
            &&& (op.flags & 0o200 != 0) == options.create_new
            &&& op.flags & 0o2000000 != 0
            &&& (op.flags & 3 == 0) == (options.read && !options.write && !options.append)
            &&& (op.flags & 3 == 1) == (!options.read && (options.write || options.append))
            &&& (op.flags & 3 == 2) == (options.read && (options.write || options.append))
            &&& op.flags & !0o2003303 == 0
        },
{
    if built is Ok {
        law_flags_tell_options(options);
        lemma_no_other_flags(options);
    }
}

/// The options stand for no flags but their own.
proof fn lemma_no_other_flags(options: OpenOptions)
    ensures
        options.flags() & !0o2003303 == 0,
{
    let access = options.access();
    let append = if options.append {
        O_APPEND
    } else {
        0
    };
    let truncate = if options.truncate {
        O_TRUNC
    } else {
        0
    };
    assert(0o100i32 | 0o200i32 == 0o300i32) by (bit_vector);
    let create = if options.create_new {
        O_CREAT | O_EXCL
    } else if options.create {
        O_CREAT
    } else {
        0
    };
    let flags = access | append | truncate | create | O_CLOEXEC;
    assert(flags & !0o2003303i32 == 0i32) by (bit_vector)
        requires
            flags == access | append | truncate | create | 0o2000000i32,
            access == 0i32 || access == 1i32 || access == 2i32,
            append == 0i32 || append == 0o2000i32,
            truncate == 0i32 || truncate == 0o1000i32,
            create == 0i32 || create == 0o100i32 || create == 0o300i32,
    ;
}

/// New options ask for nothing.
pub proof fn law_new_options_ask_for_nothing(options: OpenOptions)
    requires
        call_ensures(OpenOptions::new, (), options),
    ensures
        !options.read && !options.write && !options.append && !options.truncate && !options.create
            && !options.create_new,
{
}

/// Appending begins at the end of the file, and everything else at its beginning.
pub proof fn law_appending_begins_at_the_end(options: OpenOptions, len: u64, cursor: u64)
    requires
        call_ensures(OpenOptions::initial_cursor, (&options, len), cursor),
    ensures
        options.append ==> cursor == len,
        !options.append ==> cursor == 0,
{
}

/// Setting `read` sets that and nothing else, and hands the same options back.
pub proof fn law_setting_read_sets_that_alone(
    options: &mut OpenOptions,
    value: bool,
    returned: &mut OpenOptions,
)
    requires
        call_ensures(OpenOptions::read, (options, value), returned),
    ensures
        old(returned).read == value,
        old(returned).write == old(options).write,
        old(returned).append == old(options).append,
        old(returned).truncate == old(options).truncate,
        old(returned).create == old(options).create,
        old(returned).create_new == old(options).create_new,
        *final(options) == *final(returned),
{
}

/// Setting `write` sets that and nothing else, and hands the same options back.
pub proof fn law_setting_write_sets_that_alone(
    options: &mut OpenOptions,
    value: bool,
    returned: &mut OpenOptions,
)
    requires
        call_ensures(OpenOptions::write, (options, value), returned),
    ensures
        old(returned).write == value,
        old(returned).read == old(options).read,
        old(returned).append == old(options).append,
        old(returned).truncate == old(options).truncate,
        old(returned).create == old(options).create,
        old(returned).create_new == old(options).create_new,
        *final(options) == *final(returned),
{
}

/// Setting `append` sets that and nothing else, and hands the same options back.
pub proof fn law_setting_append_sets_that_alone(
    options: &mut OpenOptions,
    value: bool,
    returned: &mut OpenOptions,
)
    requires
        call_ensures(OpenOptions::append, (options, value), returned),
    ensures
        old(returned).append == value,
        old(returned).read == old(options).read,
        old(returned).write == old(options).write,
        old(returned).truncate == old(options).truncate,
        old(returned).create == old(options).create,
        old(returned).create_new == old(options).create_new,
        *final(options) == *final(returned),
{
}

/// Setting `truncate` sets that and nothing else, and hands the same options back.
pub proof fn law_setting_truncate_sets_that_alone(
    options: &mut OpenOptions,
    value: bool,
    returned: &mut OpenOptions,
)
    requires
        call_ensures(OpenOptions::truncate, (options, value), returned),
    ensures
        old(returned).truncate == value,
        old(returned).read == old(options).read,
        old(returned).write == old(options).write,
        old(returned).append == old(options).append,
        old(returned).create == old(options).create,
        old(returned).create_new == old(options).create_new,
        *final(options) == *final(returned),
{
}

/// Setting `create` sets that and nothing else, and hands the same options back.
pub proof fn law_setting_create_sets_that_alone(
    options: &mut OpenOptions,
    value: bool,
    returned: &mut OpenOptions,
)
    requires
        call_ensures(OpenOptions::create, (options, value), returned),
    ensures
        old(returned).create == value,
        old(returned).read == old(options).read,
        old(returned).write == old(options).write,
        old(returned).append == old(options).append,
        old(returned).truncate == old(options).truncate,
        old(returned).create_new == old(options).create_new,
        *final(options) == *final(returned),
{
}

/// Setting `create_new` sets that and nothing else, and hands the same options back.
pub proof fn law_setting_create_new_sets_that_alone(
    options: &mut OpenOptions,
    value: bool,
    returned: &mut OpenOptions,
)
    requires
        call_ensures(OpenOptions::create_new, (options, value), returned),
    ensures
        old(returned).create_new == value,
        old(returned).read == old(options).read,
        old(returned).write == old(options).write,
        old(returned).append == old(options).append,
        old(returned).truncate == old(options).truncate,
        old(returned).create == old(options).create,
        *final(options) == *final(returned),
{
}

/// Options by default ask for nothing.
pub proof fn law_default_options_ask_for_nothing(options: OpenOptions)
    requires
        call_ensures(<OpenOptions as Default>::default, (), options),
    ensures
        !options.read && !options.write && !options.append && !options.truncate && !options.create
            && !options.create_new,
{
}

} // verus!
