//! How an operation on a file is carried out, and where in the file.

use crate::error::IoError;
use crate::fd_inner::InnerRawHandle;
use crate::fs::open_options::OpenOptions;
use crate::io::transfer::ExactTransfer;
use crate::util::supports_completion;
use vstd::prelude::*;

verus! {

/// How many bytes are read at a time when a whole file is read.
pub const READ_CHUNK: usize = 8192;

/// How an operation is carried out.
#[derive(Clone, Copy, Debug, PartialEq, Eq, Structural)]
pub enum Route {
    /// The driver is given the operation, and reports its result.
    Completion,
    /// A thread of the blocking pool carries the operation out.
    BlockingPool,
    /// The operation is carried out at once, since no runtime is running.
    Direct,
}

/// Whether a file that was just opened is registered for completions. `current` says whether the
/// driver of the running runtime offers them, if a runtime is running.
pub fn wants_registration(current: Option<bool>) -> (wanted: bool)
    ensures
        wanted == (current == Some(true)),
{
    supports_completion(current)
}

/// The error of a file operation that no blocking pool took.
pub fn blocking_pool_io_error() -> (err: IoError)
    ensures
        err == IoError::NoBlockingPoolForFile,
{
    IoError::NoBlockingPoolForFile
}

/// How the operations on a file are carried out inside a runtime.
#[derive(Clone, Copy, Debug, PartialEq, Eq, Structural)]
pub enum FileIo {
    /// Through the driver, under which the file is registered.
    Completion(InnerRawHandle),
    /// In the blocking pool.
    Blocking,
}

/// The options with which a file is opened for reading.
pub open spec fn reading() -> OpenOptions {
    OpenOptions {
        read: true,
        write: false,
        append: false,
        truncate: false,
        create: false,
        create_new: false,
    }
}

/// The options with which a file is opened for writing, created if need be, and emptied.
pub open spec fn creating() -> OpenOptions {
    OpenOptions {
        read: false,
        write: true,
        append: false,
        truncate: true,
        create: true,
        create_new: false,
    }
}

/// An open file.
#[derive(Clone, Copy, Debug, PartialEq, Eq, Structural)]
pub struct File {
    /// How operations are carried out.
    pub io: FileIo,
    /// Where in the file the next read or write goes.
    pub cursor: u64,
}

impl File {
    /// How the file is opened for reading.
    pub fn open() -> (options: OpenOptions)
        ensures
            options == reading(),
    {
        let mut options = OpenOptions::new();
        options.read = true;
        options
    }

    /// How the file is opened for writing, created if need be, and emptied.
    pub fn create() -> (options: OpenOptions)
        ensures
            options == creating(),
    {
        let mut options = OpenOptions::new();
        options.write = true;
        options.create = true;
        options.truncate = true;
        options
    }

    /// A file, given what came of registering it for completions, if that was tried. A file that
    /// could not be registered is used all the same, in the blocking pool.
    pub fn from_std_with_cursor(
        registered: Option<Result<InnerRawHandle, IoError>>,
        cursor: u64,
    ) -> (file: File)
        ensures
            file.cursor == cursor,
            file.io == (match registered {
                Some(Ok(handle)) => FileIo::Completion(handle),
                _ => FileIo::Blocking,
            }),
    {
        let io = match registered {
            Some(Ok(handle)) => FileIo::Completion(handle),
            _ => FileIo::Blocking,
        };
        File { io, cursor }
    }

    /// The handle under which the file is registered for completions, if it is.
    pub fn completion_handle(&self) -> (handle: Option<InnerRawHandle>)
        ensures
            handle == (match self.io {
                FileIo::Completion(handle) => Some(handle),
                FileIo::Blocking => None,
            }),
    {
        match self.io {
            FileIo::Completion(handle) => Some(handle),
            FileIo::Blocking => None,
        }
    }

    /// How an operation on the file is carried out, with a runtime running or not.
    pub open spec fn route(self, running: bool) -> Route {
        if self.io is Completion {
            Route::Completion
        } else if running {
            Route::BlockingPool
        } else {
            Route::Direct
        }
    }

    /// How a request that transfers no bytes is carried out: bringing the file to disk, or asking
    /// what is known of it.
    pub fn request_route(&self, running: bool) -> (route: Route)
        ensures
            route == self.route(running),
    {
        match self.io {
            FileIo::Completion(_) => Route::Completion,
            FileIo::Blocking => {
                if running {
                    Route::BlockingPool
                } else {
                    Route::Direct
                }
            },
        }
    }

    /// How a read of so many bytes is carried out. One of no bytes is not: it reads nothing.
    pub fn read_at(&self, len: usize, running: bool) -> (route: Option<Route>)
        ensures
            route == (if len == 0 {
                None
            } else {
                Some(self.route(running))
            }),
    {
        if len == 0 {
            None
        } else {
            Some(self.request_route(running))
        }
    }

    /// How a write of so many bytes is carried out. One of no bytes is not: it writes nothing.
    pub fn write_at(&self, len: usize, running: bool) -> (route: Option<Route>)
        ensures
            route == (if len == 0 {
                None
            } else {
                Some(self.route(running))
            }),
    {
        if len == 0 {
            None
        } else {
            Some(self.request_route(running))
        }
    }

    /// The file after a read or a write at the cursor, which moves over what was transferred. One
    /// that failed moves nothing, and the largest place is not left.
    pub open spec fn advanced(self, result: Result<usize, IoError>) -> File {
        match result {
            Ok(count) => File {
                cursor: if self.cursor + count <= u64::MAX {
                    (self.cursor + count) as u64
                } else {
                    u64::MAX
                },
                ..self
            },
            Err(_) => self,
        }
    }

    /// Moves over what a read or a write at the cursor transferred. One that failed moves nothing,
    /// and the largest place is not left.
    pub fn advance(&mut self, result: Result<usize, IoError>)
        ensures
            *final(self) == old(self).advanced(result),
    {
        if let Ok(count) = result {
            self.cursor = self.cursor.saturating_add(count as u64);
        }
    }
}

/// The bytes read so far, with the first `count` bytes of one more chunk.
pub open spec fn with_chunk(bytes: Seq<u8>, chunk: Seq<u8>, count: usize) -> Seq<u8> {
    bytes + chunk.take(count as int)
}

/// The bytes of a file that have been read so far, chunk by chunk.
#[derive(Debug)]
pub struct WholeFile {
    bytes: Vec<u8>,
}

impl View for WholeFile {
    type V = Seq<u8>;

    closed spec fn view(&self) -> Seq<u8> {
        self.bytes@
    }
}

impl WholeFile {
    /// Nothing has been read.
    pub fn new() -> (file: WholeFile)
        ensures
            file@ == Seq::<u8>::empty(),
    {
        WholeFile { bytes: Vec::new() }
    }

    /// Takes the first `count` bytes of a chunk, and says whether more may come: a read that gave
    /// nothing found the end.
    pub fn take(&mut self, chunk: &Vec<u8>, count: usize) -> (more: bool)
        requires
            count <= chunk@.len(),
        ensures
            more == (count > 0),
            final(self)@ == with_chunk(old(self)@, chunk@, count),
    {
        let mut index: usize = 0;
        assert(self@ =~= old(self)@ + chunk@.take(0));
        while index < count
            invariant
                index <= count <= chunk@.len(),
                self@ == old(self)@ + chunk@.take(index as int),
            decreases count - index,
        {
            self.bytes.push(chunk[index]);
            index = index + 1;
            assert(self@ =~= old(self)@ + chunk@.take(index as int));
        }
        count > 0
    }

    /// The bytes of the file.
    pub fn into_bytes(self) -> (bytes: Vec<u8>)
        ensures
            bytes@ == self@,
    {
        self.bytes
    }
}

/// Whether the bytes up to a place are a text, and no more of them are.
pub open spec fn text_ends_at(bytes: Seq<u8>, at: int) -> bool {
    &&& 0 <= at < bytes.len()
    &&& vstd::utf8::valid_utf8(bytes.take(at))
    &&& forall|more: int|
        at < more <= bytes.len() ==> !vstd::utf8::valid_utf8(#[trigger] bytes.take(more))
}

/// How many bytes are wrong behind the longest beginning that is a text, or nothing where the bytes
/// end in the middle of a character: what `Utf8Error::error_len` gives.
pub uninterp spec fn utf8_error_len(bytes: Seq<u8>) -> Option<usize>;

/// Calls `String::from_utf8`: bytes that are a text become that text. Of others it gives what
/// `Utf8Error::valid_up_to` and `Utf8Error::error_len` say: how long the longest beginning is that
/// is a text, and how many bytes are wrong behind it.
#[verifier::external_body]
fn string_from_utf8(bytes: Vec<u8>) -> (text: Result<String, (usize, Option<usize>)>)
    ensures
        match text {
            Ok(text) => vstd::utf8::encode_utf8(text@) == bytes@,
            Err(wrong) => !vstd::utf8::valid_utf8(bytes@) && text_ends_at(bytes@, wrong.0 as int)
                && wrong.1 == utf8_error_len(bytes@),
        },
{
    match String::from_utf8(bytes) {
        Ok(text) => Ok(text),
        Err(err) => Err((err.utf8_error().valid_up_to(), err.utf8_error().error_len())),
    }
}

/// The text that a file holds, given what reading the file came to. A file that holds no text is
/// refused with the place where the text ends.
pub fn read_to_string(read: Result<Vec<u8>, IoError>) -> (text: Result<String, IoError>)
    ensures
        match read {
            Err(err) => text == Err::<String, IoError>(err),
            Ok(bytes) => {
                &&& text is Ok <==> vstd::utf8::valid_utf8(bytes@)
                &&& match text {
                    Ok(text) => vstd::utf8::encode_utf8(text@) == bytes@,
                    Err(err) => err matches IoError::InvalidUtf8 { valid_up_to, error_len }
                        && text_ends_at(bytes@, valid_up_to as int) && error_len
                        == utf8_error_len(bytes@),
                }
            },
        },
{
    broadcast use vstd::utf8::encode_utf8_valid_utf8;

    match read {
        Err(err) => Err(err),
        Ok(bytes) => {
            match string_from_utf8(bytes) {
                Ok(text) => Ok(text),
                Err((valid_up_to, error_len)) => Err(
                    IoError::InvalidUtf8 { valid_up_to, error_len },
                ),
            }
        },
    }
}

/// The bytes of a file that was opened with options, and held these before.
pub open spec fn opened(held: Seq<u8>, options: OpenOptions) -> Seq<u8> {
    if options.truncate {
        Seq::empty()
    } else {
        held
    }
}

/// The bytes of a file after others were written over them from a place on.
pub open spec fn overwritten(held: Seq<u8>, at: int, bytes: Seq<u8>) -> Seq<u8> {
    held.take(at) + bytes + (if at + bytes.len() < held.len() {
        held.skip(at + bytes.len())
    } else {
        Seq::empty()
    })
}

/// Writing a buffer to a file, in as many writes as it takes.
pub struct Writing {
    /// The bytes of the file.
    pub held: Seq<u8>,
    /// The file, and where the next write goes.
    pub file: File,
    /// How much of the buffer was written.
    pub transfer: ExactTransfer,
}

impl Writing {
    /// After a write took so many bytes.
    pub open spec fn step(self, contents: Seq<u8>, count: usize) -> Writing {
        let done = self.transfer.done as int;
        Writing {
            held: overwritten(
                self.held,
                self.file.cursor as int,
                contents.subrange(done, done + count),
            ),
            file: self.file.advanced(Ok(count)),
            transfer: self.transfer.step(Ok(count))->Ok_0,
        }
    }

    /// After several writes.
    pub open spec fn steps(self, contents: Seq<u8>, counts: Seq<usize>) -> Writing
        decreases counts.len(),
    {
        if counts.len() == 0 {
            self
        } else {
            self.steps(contents, counts.drop_last()).step(contents, counts.last())
        }
    }
}

/// Reading a whole file, in as many reads as it takes.
pub struct Reading {
    /// The file, and where the next read begins.
    pub file: File,
    /// The bytes that were read.
    pub bytes: Seq<u8>,
}

impl Reading {
    /// After a read gave so many bytes of a file that holds these.
    pub open spec fn step(self, held: Seq<u8>, count: usize) -> Reading {
        Reading {
            bytes: with_chunk(self.bytes, held.skip(self.file.cursor as int), count),
            file: self.file.advanced(Ok(count)),
        }
    }

    /// After several reads.
    pub open spec fn steps(self, held: Seq<u8>, counts: Seq<usize>) -> Reading
        decreases counts.len(),
    {
        if counts.len() == 0 {
            self
        } else {
            self.steps(held, counts.drop_last()).step(held, counts.last())
        }
    }
}

/// Writing the beginning of a buffer to an empty file leaves that beginning in the file.
proof fn lemma_written(start: Writing, contents: Seq<u8>, counts: Seq<usize>)
    requires
        start.held.len() == 0,
        start.file.cursor == 0,
        start.transfer.done == 0,
        start.transfer.total == contents.len(),
        contents.len() <= u64::MAX,
        crate::io::transfer::sum(counts) <= contents.len(),
        forall|i: int| 0 <= i < counts.len() ==> #[trigger] counts[i] > 0,
    ensures
        ({
            let done = crate::io::transfer::sum(counts) as int;
            let after = start.steps(contents, counts);
            &&& after.held == contents.take(done)
            &&& after.file == (File { cursor: done as u64, ..start.file })
            &&& after.transfer == (ExactTransfer { done: done as usize, ..start.transfer })
        }),
    decreases counts.len(),
{
    if counts.len() > 0 {
        let fewer = counts.drop_last();
        assert(counts.last() == counts[counts.len() - 1]);
        assert forall|i: int| 0 <= i < fewer.len() implies #[trigger] fewer[i] > 0 by {
            assert(fewer[i] == counts[i]);
        }
        lemma_written(start, contents, fewer);
        let done = crate::io::transfer::sum(fewer) as int;
        let more = done + counts.last();
        assert(start.steps(contents, counts).held =~= contents.take(more));
    } else {
        assert(start.held =~= contents.take(0));
    }
}

/// Reading the beginning of a file gives that beginning.
proof fn lemma_read(start: Reading, held: Seq<u8>, counts: Seq<usize>)
    requires
        start.bytes.len() == 0,
        start.file.cursor == 0,
        held.len() <= u64::MAX,
        crate::io::transfer::sum(counts) <= held.len(),
    ensures
        ({
            let done = crate::io::transfer::sum(counts) as int;
            let after = start.steps(held, counts);
            &&& after.bytes == held.take(done)
            &&& after.file == (File { cursor: done as u64, ..start.file })
        }),
    decreases counts.len(),
{
    if counts.len() > 0 {
        let fewer = counts.drop_last();
        lemma_read(start, held, fewer);
        let done = crate::io::transfer::sum(fewer) as int;
        let more = done + counts.last();
        assert(start.steps(held, counts).bytes =~= held.take(more));
    } else {
        assert(start.bytes =~= held.take(0));
    }
}

/// A file reads back as what was written to it: whatever it held before, a buffer that was written
/// whole to a file opened for writing, in any pieces, is what reading the file to its end gives,
/// in any chunks. The read after that gives nothing, and ends the reading.
pub proof fn law_file_reads_back(
    held: Seq<u8>,
    contents: Seq<u8>,
    written: Seq<usize>,
    read: Seq<usize>,
    io: FileIo,
    read_io: FileIo,
)
    requires
        contents.len() <= usize::MAX,
        contents.len() <= u64::MAX,
        forall|i: int| 0 <= i < written.len() ==> #[trigger] written[i] > 0,
        crate::io::transfer::sum(written) == contents.len(),
        forall|i: int| 0 <= i < read.len() ==> 0 < #[trigger] read[i] <= READ_CHUNK,
        crate::io::transfer::sum(read) == contents.len(),
    ensures
        ({
            let writing = Writing {
                held: opened(held, creating()),
                file: File { io, cursor: 0 },
                transfer: ExactTransfer {
                    done: 0,
                    total: contents.len() as usize,
                    shortfall: IoError::WriteWholeBuffer,
                },
            }.steps(contents, written);
            let reading = Reading {
                file: File { io: read_io, cursor: 0 },
                bytes: Seq::empty(),
            }.steps(opened(writing.held, reading()), read);
            &&& writing.held == contents
            &&& writing.transfer.done == writing.transfer.total
            &&& reading.bytes == contents
            &&& reading.file.cursor == contents.len()
        }),
{
    let start = Writing {
        held: opened(held, creating()),
        file: File { io, cursor: 0 },
        transfer: ExactTransfer {
            done: 0,
            total: contents.len() as usize,
            shortfall: IoError::WriteWholeBuffer,
        },
    };
    lemma_written(start, contents, written);
    assert(contents.take(contents.len() as int) =~= contents);
    lemma_read(
        Reading { file: File { io: read_io, cursor: 0 }, bytes: Seq::empty() },
        contents,
        read,
    );
}

/// A file that is opened is read only, and one that is created is written, emptied and made if it
/// is missing.
pub proof fn law_opening_reads_and_creating_empties(opened: OpenOptions, created: OpenOptions)
    requires
        call_ensures(File::open, (), opened),
        call_ensures(File::create, (), created),
    ensures
        opened.read && !opened.write && !opened.append && !opened.truncate && !opened.create
            && !opened.create_new,
        !created.read && created.write && !created.append && created.truncate && created.create
            && !created.create_new,
{
}

/// A file is registered just if the running driver offers completions; one that could be registered
/// is used through the driver, and another in the blocking pool. It starts where it is told.
pub proof fn law_registered_files_use_the_driver(
    current: Option<bool>,
    wanted: bool,
    registered: Option<Result<InnerRawHandle, IoError>>,
    cursor: u64,
    file: File,
    handle: Option<InnerRawHandle>,
)
    requires
        call_ensures(wants_registration, (current,), wanted),
        call_ensures(File::from_std_with_cursor, (registered, cursor), file),
        call_ensures(File::completion_handle, (&file,), handle),
    ensures
        wanted <==> current == Some(true),
        file.cursor == cursor,
        handle is Some <==> registered is Some && registered->0 is Ok,
        handle matches Some(handle) ==> registered == Some(Ok::<InnerRawHandle, IoError>(handle)),
{
}

/// An operation on a registered file goes to the driver; on another it goes to the blocking pool
/// where a runtime is running, and is carried out at once where none is. Reads and writes go the
/// same way, except those of no bytes, which go nowhere.
pub proof fn law_operations_go_where_the_file_is(
    file: File,
    running: bool,
    len: usize,
    requested: Route,
    read: Option<Route>,
    written: Option<Route>,
)
    requires
        call_ensures(File::request_route, (&file, running), requested),
        call_ensures(File::read_at, (&file, len, running), read),
        call_ensures(File::write_at, (&file, len, running), written),
    ensures
        requested is Completion <==> file.io is Completion,
        requested is BlockingPool <==> file.io is Blocking && running,
        requested is Direct <==> file.io is Blocking && !running,
        len > 0 ==> read == Some(requested) && written == Some(requested),
        len == 0 ==> read is None && written is None,
{
}

/// A read or a write at the cursor moves it by exactly what was transferred, up to the largest
/// place; one that failed moves nothing. How the file is used stays.
pub proof fn law_cursor_moves_over_what_was_transferred(
    file: &mut File,
    result: Result<usize, IoError>,
)
    requires
        call_ensures(File::advance, (file, result), ()),
    ensures
        final(file).io == old(file).io,
        result is Err ==> final(file).cursor == old(file).cursor,
        result matches Ok(count) ==> old(file).cursor + count <= u64::MAX ==> final(file).cursor
            == old(file).cursor + count,
        result matches Ok(count) ==> old(file).cursor + count > u64::MAX ==> final(file).cursor
            == u64::MAX,
{
}

/// A whole file starts empty, takes exactly the bytes of each chunk that were read, behind those it
/// has, and hands them all out; more may come just if something was read.
pub proof fn law_whole_file_takes_what_was_read(
    fresh: WholeFile,
    file: &mut WholeFile,
    chunk: Vec<u8>,
    count: usize,
    more: bool,
    whole: WholeFile,
    bytes: Vec<u8>,
)
    requires
        call_ensures(WholeFile::new, (), fresh),
        count <= chunk@.len(),
        call_ensures(WholeFile::take, (file, &chunk, count), more),
        call_ensures(WholeFile::into_bytes, (whole,), bytes),
    ensures
        fresh@.len() == 0,
        more <==> count > 0,
        final(file)@.len() == old(file)@.len() + count,
        forall|i: int| 0 <= i < old(file)@.len() ==> #[trigger] final(file)@[i] == old(file)@[i],
        forall|i: int|
            old(file)@.len() <= i < old(file)@.len() + count ==> #[trigger] final(file)@[i]
                == chunk@[i - old(file)@.len()],
        bytes@ == whole@,
{
}

/// A file is a text just if its bytes are one, and then it is that text. A failed reading is passed
/// on. Bytes that are no text are refused with the place up to which they are one.
pub proof fn law_text_of_a_file_is_its_bytes(
    read: Result<Vec<u8>, IoError>,
    text: Result<String, IoError>,
)
    requires
        call_ensures(read_to_string, (read,), text),
    ensures
        text is Ok <==> read is Ok && vstd::utf8::valid_utf8(read->Ok_0@),
        text matches Ok(text) ==> vstd::utf8::encode_utf8(text@) == read->Ok_0@,
        read matches Err(err) ==> text == Err::<String, IoError>(err),
        read is Ok && text is Err ==> text->Err_0 is InvalidUtf8 && ({
            let at = text->Err_0->valid_up_to as int;
            &&& 0 <= at < read->Ok_0@.len()
            &&& vstd::utf8::valid_utf8(read->Ok_0@.take(at))
            &&& forall|longer: int|
                at < longer <= read->Ok_0@.len() ==> !vstd::utf8::valid_utf8(
                    #[trigger] read->Ok_0@.take(longer),
                )
        }),
{
}

/// A file operation that no pool took fails with an error of its own.
pub proof fn law_missing_pool_is_an_error(err: IoError)
    requires
        call_ensures(blocking_pool_io_error, (), err),
    ensures
        err == IoError::NoBlockingPoolForFile,
{
}

} // verus!
