//! Buffers that operations read from and write to.

use vstd::prelude::*;
use vstd::string::*;

verus! {

/// A buffer whose bytes can be read.
pub trait IoBuf {
    /// Whether the buffer can be used.
    spec fn valid(&self) -> bool;

    /// The bytes of the buffer.
    spec fn bytes(&self) -> Seq<u8>;

    /// The bytes of the buffer.
    fn as_buf(&self) -> (bytes: &[u8])
        requires
            self.valid(),
        ensures
            bytes@ == self.bytes(),
    ;

    /// How many bytes the buffer has.
    fn buf_len(&self) -> (len: usize)
        requires
            self.valid(),
        ensures
            len == self.bytes().len(),
    ;

    /// Whether the buffer may have room for so many bytes, counted from its beginning.
    spec fn holds(&self, capacity: int) -> bool;

    /// How many bytes the buffer has room for.
    fn buf_capacity(&self) -> (capacity: usize)
        requires
            self.valid(),
        ensures
            self.holds(capacity as int),
            capacity >= self.bytes().len(),
    ;
}

/// A buffer that can be filled.
pub trait IoBufMut: IoBuf {
    /// Whether the buffer has room for so many bytes at a place.
    spec fn has_room(&self, at: int, count: int) -> bool;

    /// The bytes after `received` was put at `at`.
    spec fn filled(&self, at: int, received: Seq<u8>) -> Seq<u8>;

    /// Puts bytes that were received at a place in the buffer.
    fn set_buf_init(&mut self, at: usize, received: &Vec<u8>)
        requires
            old(self).valid(),
            at <= old(self).bytes().len(),
            old(self).has_room(at as int, received@.len() as int),
        ensures
            final(self).valid(),
            final(self).bytes() == old(self).filled(at as int, received@),
            final(self).bytes().len() >= at + received@.len(),
            final(self).bytes().take(at + received@.len()) == old(self).bytes().take(at as int)
                + received@,
    ;
}

/// Calls `Vec::capacity`: how many bytes a vector can hold before it has to grow, which is no
/// fewer than it holds.
#[verifier::external_body]
fn vec_capacity(bytes: &Vec<u8>) -> (capacity: usize)
    ensures
        capacity >= bytes@.len(),
{
    bytes.capacity()
}

/// Calls `String::capacity`: how many bytes a string can hold before it has to grow, which is no
/// fewer than it holds.
#[verifier::external_body]
fn string_capacity(text: &String) -> (capacity: usize)
    ensures
        capacity >= vstd::utf8::encode_utf8(text@).len(),
{
    text.capacity()
}

impl IoBuf for Vec<u8> {
    open spec fn valid(&self) -> bool {
        true
    }

    /// A vector has room for what it holds, or for more.
    open spec fn holds(&self, capacity: int) -> bool {
        capacity >= self.bytes().len()
    }

    open spec fn bytes(&self) -> Seq<u8> {
        self@
    }

    fn as_buf(&self) -> (bytes: &[u8]) {
        self.as_slice()
    }

    fn buf_len(&self) -> (len: usize) {
        self.len()
    }

    fn buf_capacity(&self) -> (capacity: usize) {
        vec_capacity(self)
    }
}

impl IoBufMut for Vec<u8> {
    /// A vector grows as needed.
    open spec fn has_room(&self, at: int, count: int) -> bool {
        true
    }

    /// A vector ends where what was received ends.
    open spec fn filled(&self, at: int, received: Seq<u8>) -> Seq<u8> {
        self@.take(at) + received
    }

    fn set_buf_init(&mut self, at: usize, received: &Vec<u8>) {
        let ghost before = self@;
        self.truncate(at);
        let mut index: usize = 0;
        while index < received.len()
            invariant
                index <= received@.len(),
                at <= before.len(),
                self@ == before.take(at as int) + received@.take(index as int),
            decreases received@.len() - index,
        {
            self.push(received[index]);
            assert(received@.take(index + 1) =~= received@.take(index as int).push(
                received@[index as int],
            ));
            index = index + 1;
        }
        assert(received@.take(received@.len() as int) =~= received@);
        assert(self@.take(at + received@.len()) =~= before.take(at as int) + received@);
    }
}

impl<const N: usize> IoBuf for [u8; N] {
    open spec fn valid(&self) -> bool {
        true
    }

    open spec fn holds(&self, capacity: int) -> bool {
        capacity == N
    }

    open spec fn bytes(&self) -> Seq<u8> {
        self@
    }

    fn as_buf(&self) -> (bytes: &[u8]) {
        self.as_slice()
    }

    fn buf_len(&self) -> (len: usize)
        ensures
            len == N,
    {
        N
    }

    fn buf_capacity(&self) -> (capacity: usize)
        ensures
            capacity == N,
    {
        N
    }
}

impl<const N: usize> IoBufMut for [u8; N] {
    /// An array has the room that it has.
    open spec fn has_room(&self, at: int, count: int) -> bool {
        at + count <= N
    }

    /// An array keeps what stands behind what was received.
    open spec fn filled(&self, at: int, received: Seq<u8>) -> Seq<u8> {
        self@.take(at) + received + self@.skip(at + received.len())
    }

    fn set_buf_init(&mut self, at: usize, received: &Vec<u8>) {
        let ghost before = self@;
        let mut index: usize = 0;
        while index < received.len()
            invariant
                index <= received@.len(),
                before.len() == N,
                at + received@.len() <= N,
                self@.len() == N,
                self@ == before.take(at as int) + received@.take(index as int) + before.skip(
                    at + index,
                ),
            decreases received@.len() - index,
        {
            self[at + index] = received[index];
            index = index + 1;
            assert(self@ =~= before.take(at as int) + received@.take(index as int) + before.skip(
                at + index,
            ));
        }
        assert(received@.take(received@.len() as int) =~= received@);
        assert(self@ =~= before.take(at as int) + received@ + before.skip(at + received@.len()));
        assert(self@.take(at + received@.len()) =~= before.take(at as int) + received@);
    }
}

impl IoBuf for &'static [u8] {
    open spec fn valid(&self) -> bool {
        true
    }

    open spec fn holds(&self, capacity: int) -> bool {
        capacity == self.bytes().len()
    }

    open spec fn bytes(&self) -> Seq<u8> {
        self@
    }

    fn as_buf(&self) -> (bytes: &[u8]) {
        *self
    }

    fn buf_len(&self) -> (len: usize) {
        self.len()
    }

    fn buf_capacity(&self) -> (capacity: usize)
        ensures
            capacity == self.bytes().len(),
    {
        self.len()
    }
}

impl IoBuf for Box<[u8]> {
    open spec fn valid(&self) -> bool {
        true
    }

    open spec fn holds(&self, capacity: int) -> bool {
        capacity == self.bytes().len()
    }

    open spec fn bytes(&self) -> Seq<u8> {
        self@
    }

    fn as_buf(&self) -> (bytes: &[u8]) {
        &**self
    }

    fn buf_len(&self) -> (len: usize) {
        self.len()
    }

    fn buf_capacity(&self) -> (capacity: usize)
        ensures
            capacity == self.bytes().len(),
    {
        self.len()
    }
}

impl IoBufMut for Box<[u8]> {
    /// A slice has the room that it has.
    open spec fn has_room(&self, at: int, count: int) -> bool {
        at + count <= self@.len()
    }

    /// A slice keeps what stands behind what was received.
    open spec fn filled(&self, at: int, received: Seq<u8>) -> Seq<u8> {
        self@.take(at) + received + self@.skip(at + received.len())
    }

    fn set_buf_init(&mut self, at: usize, received: &Vec<u8>) {
        let len = self.len();
        let ghost before = self@;
        let mut index: usize = 0;
        while index < received.len()
            invariant
                index <= received@.len(),
                before.len() == len,
                at + received@.len() <= len,
                self@.len() == len,
                self@ == before.take(at as int) + received@.take(index as int) + before.skip(
                    at + index,
                ),
            decreases received@.len() - index,
        {
            self[at + index] = received[index];
            index = index + 1;
            assert(self@ =~= before.take(at as int) + received@.take(index as int) + before.skip(
                at + index,
            ));
        }
        assert(received@.take(received@.len() as int) =~= received@);
        assert(self@ =~= before.take(at as int) + received@ + before.skip(at + received@.len()));
        assert(self@.take(at + received@.len()) =~= before.take(at as int) + received@);
    }
}

impl IoBuf for String {
    open spec fn valid(&self) -> bool {
        true
    }

    /// A string has room for what it holds, or for more.
    open spec fn holds(&self, capacity: int) -> bool {
        capacity >= self.bytes().len()
    }

    open spec fn bytes(&self) -> Seq<u8> {
        vstd::utf8::encode_utf8(self@)
    }

    fn as_buf(&self) -> (bytes: &[u8]) {
        self.as_str().as_bytes()
    }

    fn buf_len(&self) -> (len: usize) {
        self.as_str().as_bytes().len()
    }

    fn buf_capacity(&self) -> (capacity: usize) {
        string_capacity(self)
    }
}

impl IoBuf for &'static str {
    open spec fn valid(&self) -> bool {
        true
    }

    open spec fn holds(&self, capacity: int) -> bool {
        capacity == self.bytes().len()
    }

    open spec fn bytes(&self) -> Seq<u8> {
        vstd::utf8::encode_utf8(self@)
    }

    fn as_buf(&self) -> (bytes: &[u8]) {
        self.as_bytes()
    }

    fn buf_len(&self) -> (len: usize) {
        self.as_bytes().len()
    }

    fn buf_capacity(&self) -> (capacity: usize)
        ensures
            capacity == self.bytes().len(),
    {
        self.as_bytes().len()
    }
}

/// The rest of a buffer, from a place on that moves.
#[derive(Debug)]
pub struct IoBufWithCursor<I> {
    /// The whole buffer.
    pub buf: I,
    /// Where the rest begins.
    pub cursor: usize,
}

impl<I: IoBuf> IoBufWithCursor<I> {
    /// The whole of a buffer.
    pub fn new(buf: I) -> (rest: IoBufWithCursor<I>)
        ensures
            rest.buf == buf,
            rest.cursor == 0,
            buf.valid() ==> rest.valid() && rest.bytes() == buf.bytes(),
    {
        let rest = IoBufWithCursor { buf, cursor: 0 };
        assert(rest.bytes() =~= buf.bytes());
        rest
    }

    /// Leaves out so many bytes more.
    pub fn advance(&mut self, n: usize)
        requires
            old(self).valid(),
            n <= old(self).bytes().len(),
        ensures
            final(self).valid(),
            final(self).buf == old(self).buf,
            final(self).cursor == old(self).cursor + n,
            final(self).bytes() == old(self).bytes().skip(n as int),
    {
        let len = self.buf.buf_len();
        self.cursor = self.cursor + n;
        assert(self.bytes() =~= old(self).bytes().skip(n as int));
    }

    /// The whole buffer.
    pub fn into_inner(self) -> (buf: I)
        ensures
            buf == self.buf,
    {
        self.buf
    }
}

impl<I: IoBuf> IoBuf for IoBufWithCursor<I> {
    open spec fn valid(&self) -> bool {
        self.buf.valid() && self.cursor <= self.buf.bytes().len()
    }

    /// The room that is left behind the cursor.
    open spec fn holds(&self, capacity: int) -> bool {
        self.buf.holds(capacity + self.cursor)
    }

    open spec fn bytes(&self) -> Seq<u8> {
        self.buf.bytes().skip(self.cursor as int)
    }

    fn as_buf(&self) -> (bytes: &[u8]) {
        let whole = self.buf.as_buf();
        let rest = vstd::slice::slice_subrange(whole, self.cursor, whole.len());
        assert(rest@ =~= self.bytes());
        rest
    }

    fn buf_len(&self) -> (len: usize) {
        self.buf.buf_len() - self.cursor
    }

    fn buf_capacity(&self) -> (capacity: usize) {
        self.buf.buf_capacity() - self.cursor
    }
}

impl<I: IoBufMut> IoBufMut for IoBufWithCursor<I> {
    open spec fn has_room(&self, at: int, count: int) -> bool {
        self.buf.has_room(self.cursor + at, count)
    }

    open spec fn filled(&self, at: int, received: Seq<u8>) -> Seq<u8> {
        self.buf.filled(self.cursor + at, received).skip(self.cursor as int)
    }

    fn set_buf_init(&mut self, at: usize, received: &Vec<u8>)
        ensures
            final(self).cursor == old(self).cursor,
            final(self).buf.bytes() == old(self).buf.filled(old(self).cursor + at, received@),
    {
        let len = self.buf.buf_len();
        let ghost before = self.buf.bytes();
        let ghost start = self.cursor as int;
        self.buf.set_buf_init(self.cursor + at, received);
        let ghost end = start + at + received@.len();
        assert(self.buf.bytes().take(end) == before.take(start + at) + received@);
        assert(self.bytes().take(at + received@.len()) =~= self.buf.bytes().take(end).skip(start));
        assert((before.take(start + at) + received@).skip(start) =~= before.skip(start).take(
            at as int,
        ) + received@);
    }
}

/// One buffer of several that are read or written together.
#[derive(Clone, Copy, Debug, PartialEq, Eq, Structural)]
pub struct IoVec {
    /// Which of the buffers it is.
    pub buffer: usize,
    /// How many bytes it has.
    pub len: usize,
}

/// Several buffers that are written together.
pub trait IoVectoredBuf {
    /// The bytes of each buffer.
    spec fn contents(&self) -> Seq<Seq<u8>>;

    /// The buffers, in order.
    fn as_iovecs(&self) -> (iovecs: Vec<IoVec>)
        ensures
            are_listed(iovecs@, self.contents()),
    ;

    /// Whether there is no buffer.
    fn is_empty(&self) -> (empty: bool)
        ensures
            empty == (self.contents().len() == 0),
    ;
}

/// Several buffers that are filled together.
pub trait IoVectoredBufMut: IoVectoredBuf {
    /// The buffers to fill, in order. Nothing is filled yet.
    fn as_iovecs_mut(&mut self) -> (iovecs: Vec<IoVec>)
        ensures
            are_listed(iovecs@, old(self).contents()),
            final(self).contents() == old(self).contents(),
    ;
}

/// Whether a list names all buffers, in order and with the length of each.
pub open spec fn are_listed(iovecs: Seq<IoVec>, contents: Seq<Seq<u8>>) -> bool {
    &&& iovecs.len() == contents.len()
    &&& forall|i: int|
        0 <= i < iovecs.len() ==> (#[trigger] iovecs[i]).buffer == i && iovecs[i].len
            == contents[i].len()
}

impl IoVectoredBuf for Vec<Vec<u8>> {
    open spec fn contents(&self) -> Seq<Seq<u8>> {
        Seq::new(self@.len(), |i: int| self@[i]@)
    }

    fn as_iovecs(&self) -> (iovecs: Vec<IoVec>) {
        let mut iovecs: Vec<IoVec> = Vec::with_capacity(self.len());
        let mut index: usize = 0;
        while index < self.len()
            invariant
                index <= self@.len(),
                iovecs@.len() == index,
                forall|i: int|
                    0 <= i < index ==> (#[trigger] iovecs@[i]).buffer == i && iovecs@[i].len
                        == self@[i]@.len(),
            decreases self@.len() - index,
        {
            iovecs.push(IoVec { buffer: index, len: self[index].len() });
            index = index + 1;
        }
        iovecs
    }

    fn is_empty(&self) -> (empty: bool) {
        self.len() == 0
    }
}

impl IoVectoredBufMut for Vec<Vec<u8>> {
    fn as_iovecs_mut(&mut self) -> (iovecs: Vec<IoVec>) {
        self.as_iovecs()
    }
}

impl IoVectoredBuf for Box<[Vec<u8>]> {
    open spec fn contents(&self) -> Seq<Seq<u8>> {
        Seq::new(self@.len(), |i: int| self@[i]@)
    }

    fn as_iovecs(&self) -> (iovecs: Vec<IoVec>) {
        let mut iovecs: Vec<IoVec> = Vec::with_capacity(self.len());
        let mut index: usize = 0;
        while index < self.len()
            invariant
                index <= self@.len(),
                iovecs@.len() == index,
                forall|i: int|
                    0 <= i < index ==> (#[trigger] iovecs@[i]).buffer == i && iovecs@[i].len
                        == self@[i]@.len(),
            decreases self@.len() - index,
        {
            iovecs.push(IoVec { buffer: index, len: self[index].len() });
            index = index + 1;
        }
        iovecs
    }

    fn is_empty(&self) -> (empty: bool) {
        self.len() == 0
    }
}

impl IoVectoredBufMut for Box<[Vec<u8>]> {
    fn as_iovecs_mut(&mut self) -> (iovecs: Vec<IoVec>) {
        self.as_iovecs()
    }
}

/// Moving the cursor takes as much from the room that is left as from the length, in one step or
/// in several.
pub proof fn law_room_shrinks_with_cursor<I: IoBuf>(
    rest: IoBufWithCursor<I>,
    moved: IoBufWithCursor<I>,
    capacity: int,
    n: int,
)
    requires
        moved.buf == rest.buf,
        moved.cursor == rest.cursor + n,
        rest.valid(),
        moved.valid(),
        n >= 0,
    ensures
        moved.holds(capacity) == rest.holds(capacity + n),
        moved.bytes().len() == rest.bytes().len() - n,
{
}

/// Moving the cursor over what was transferred leaves the rest of the buffer, and moving it in two
/// steps is moving it in one.
pub proof fn law_cursor_moves_add_up(bytes: Seq<u8>, first: int, second: int)
    requires
        0 <= first,
        0 <= second,
        first + second <= bytes.len(),
    ensures
        bytes.skip(first).skip(second) == bytes.skip(first + second),
        bytes.take(first) + bytes.skip(first) == bytes,
{
    assert(bytes.skip(first).skip(second) =~= bytes.skip(first + second));
    assert(bytes.take(first) + bytes.skip(first) =~= bytes);
}

/// Bytes that are put into a vector stand at their place, behind what stood before it, and the
/// vector ends with them.
pub proof fn law_vector_ends_with_what_was_received(
    buf: &mut Vec<u8>,
    at: usize,
    received: Vec<u8>,
)
    requires
        at <= old(buf)@.len(),
        call_ensures(<Vec<u8> as IoBufMut>::set_buf_init, (buf, at, &received), ()),
    ensures
        final(buf)@.len() == at + received@.len(),
        forall|i: int| 0 <= i < at ==> #[trigger] final(buf)@[i] == old(buf)@[i],
        forall|i: int|
            at <= i < at + received@.len() ==> #[trigger] final(buf)@[i] == received@[i - at],
{
}

/// Bytes that are put into an array stand at their place, and all others stay.
pub proof fn law_array_keeps_what_stands_around<const N: usize>(
    buf: &mut [u8; N],
    at: usize,
    received: Vec<u8>,
)
    requires
        at + received@.len() <= N,
        call_ensures(<[u8; N] as IoBufMut>::set_buf_init, (buf, at, &received), ()),
    ensures
        final(buf)@.len() == N,
        forall|i: int|
            0 <= i < N && !(at <= i < at + received@.len())
                ==> #[trigger] final(buf)@[i] == old(buf)@[i],
        forall|i: int|
            at <= i < at + received@.len() ==> #[trigger] final(buf)@[i] == received@[i - at],
{
}

/// Bytes that are put into a boxed slice stand at their place, and all others stay.
pub proof fn law_slice_keeps_what_stands_around(
    buf: &mut Box<[u8]>,
    at: usize,
    received: Vec<u8>,
)
    requires
        at + received@.len() <= old(buf)@.len(),
        call_ensures(<Box<[u8]> as IoBufMut>::set_buf_init, (buf, at, &received), ()),
    ensures
        final(buf)@.len() == old(buf)@.len(),
        forall|i: int|
            0 <= i < old(buf)@.len() && !(at <= i < at + received@.len())
                ==> #[trigger] final(buf)@[i] == old(buf)@[i],
        forall|i: int|
            at <= i < at + received@.len() ==> #[trigger] final(buf)@[i] == received@[i - at],
{
}

/// A cursor starts at the beginning, moves by exactly what it is told, and leaves out what it moved
/// over; the buffer itself stays.
pub proof fn law_cursor_moves_as_told<I: IoBuf>(
    buf: I,
    fresh: IoBufWithCursor<I>,
    rest: &mut IoBufWithCursor<I>,
    n: usize,
    kept: IoBufWithCursor<I>,
    inner: I,
)
    requires
        call_ensures(IoBufWithCursor::<I>::new, (buf,), fresh),
        call_ensures(IoBufWithCursor::<I>::advance, (rest, n), ()),
        call_ensures(IoBufWithCursor::<I>::into_inner, (kept,), inner),
    ensures
        fresh.cursor == 0,
        fresh.buf == buf,
        final(rest).cursor == old(rest).cursor + n,
        final(rest).buf == old(rest).buf,
        inner == kept.buf,
{
}

/// What is left of a buffer is what stands from the cursor on.
pub proof fn law_rest_stands_behind_the_cursor<I: IoBuf>(rest: IoBufWithCursor<I>)
    requires
        rest.valid(),
    ensures
        rest.bytes().len() == rest.buf.bytes().len() - rest.cursor,
        forall|i: int|
            0 <= i < rest.bytes().len() ==> #[trigger] rest.bytes()[i] == rest.buf.bytes()[i
                + rest.cursor],
{
}

/// The bytes of each buffer are its contents.
pub proof fn law_buffers_are_their_contents<const N: usize>(
    vector: Vec<u8>,
    array: [u8; N],
    slice: &'static [u8],
    boxed: Box<[u8]>,
    text: String,
    literal: &'static str,
)
    ensures
        vector.bytes() == vector@,
        array.bytes() == array@,
        slice.bytes() == slice@,
        boxed.bytes() == boxed@,
        IoBuf::bytes(&text) == vstd::utf8::encode_utf8(text@),
        IoBuf::bytes(&literal) == vstd::utf8::encode_utf8(literal@),
        vector.valid() && array.valid() && slice.valid() && boxed.valid() && text.valid()
            && literal.valid(),
{
}

/// A list of buffers is named in its order, each with its length, and is empty just if there is no
/// buffer.
pub proof fn law_buffers_are_listed_in_order(
    vectors: Vec<Vec<u8>>,
    boxed: Box<[Vec<u8>]>,
    iovecs: Vec<IoVec>,
    boxed_iovecs: Vec<IoVec>,
    empty: bool,
    boxed_empty: bool,
)
    requires
        call_ensures(<Vec<Vec<u8>> as IoVectoredBuf>::as_iovecs, (&vectors,), iovecs),
        call_ensures(<Box<[Vec<u8>]> as IoVectoredBuf>::as_iovecs, (&boxed,), boxed_iovecs),
        call_ensures(<Vec<Vec<u8>> as IoVectoredBuf>::is_empty, (&vectors,), empty),
        call_ensures(<Box<[Vec<u8>]> as IoVectoredBuf>::is_empty, (&boxed,), boxed_empty),
    ensures
        iovecs@.len() == vectors@.len(),
        forall|i: int|
            0 <= i < vectors@.len() ==> (#[trigger] iovecs@[i]).buffer == i && iovecs@[i].len
                == vectors@[i]@.len(),
        boxed_iovecs@.len() == boxed@.len(),
        forall|i: int|
            0 <= i < boxed@.len() ==> (#[trigger] boxed_iovecs@[i]).buffer == i
                && boxed_iovecs@[i].len == boxed@[i]@.len(),
        empty == (vectors@.len() == 0),
        boxed_empty == (boxed@.len() == 0),
{
}

/// Bytes that are put behind a cursor stand that much farther in the buffer, and the cursor stays.
pub proof fn law_cursor_shifts_what_was_received(
    rest: &mut IoBufWithCursor<Vec<u8>>,
    at: usize,
    received: Vec<u8>,
)
    requires
        old(rest).cursor + at <= old(rest).buf@.len(),
        call_ensures(
            <IoBufWithCursor<Vec<u8>> as IoBufMut>::set_buf_init,
            (rest, at, &received),
            (),
        ),
    ensures
        final(rest).cursor == old(rest).cursor,
        final(rest).buf@.len() == old(rest).cursor + at + received@.len(),
        forall|i: int|
            0 <= i < old(rest).cursor + at ==> #[trigger] final(rest).buf@[i] == old(rest).buf@[i],
        forall|i: int|
            0 <= i < received@.len() ==> final(rest).buf@[old(rest).cursor + at + i]
                == #[trigger] received@[i],
{
}

/// A buffer that cannot grow has room for exactly its bytes, one that can for no fewer, and behind
/// a cursor there is room for as much less as the cursor has moved.
pub proof fn law_room_of_buffers<const N: usize>(
    array: [u8; N],
    array_room: usize,
    slice: &'static [u8],
    slice_room: usize,
    boxed: Box<[u8]>,
    boxed_room: usize,
    literal: &'static str,
    literal_room: usize,
    vector: Vec<u8>,
    vector_room: usize,
    text: String,
    text_room: usize,
)
    requires
        call_ensures(<[u8; N] as IoBuf>::buf_capacity, (&array,), array_room),
        call_ensures(<&'static [u8] as IoBuf>::buf_capacity, (&slice,), slice_room),
        call_ensures(<Box<[u8]> as IoBuf>::buf_capacity, (&boxed,), boxed_room),
        call_ensures(<&'static str as IoBuf>::buf_capacity, (&literal,), literal_room),
        call_ensures(<Vec<u8> as IoBuf>::buf_capacity, (&vector,), vector_room),
        call_ensures(<String as IoBuf>::buf_capacity, (&text,), text_room),
    ensures
        array_room == N,
        slice_room == slice@.len(),
        boxed_room == boxed@.len(),
        literal_room == vstd::utf8::encode_utf8(literal@).len(),
        vector_room >= vector@.len(),
        text_room >= vstd::utf8::encode_utf8(text@).len(),
{
}

/// Reading a buffer gives its bytes, and its length is their number.
pub proof fn law_buffer_gives_its_bytes<I: IoBuf>(buf: I, bytes: &[u8], len: usize)
    requires
        call_ensures(I::as_buf, (&buf,), bytes),
        call_ensures(I::buf_len, (&buf,), len),
    ensures
        bytes@ == buf.bytes(),
        len == bytes@.len(),
{
}

/// Buffers that are to be filled are named in their order, each with its length, and are not filled
/// yet.
pub proof fn law_buffers_to_fill_are_listed_in_order(
    vectors: &mut Vec<Vec<u8>>,
    iovecs: Vec<IoVec>,
    boxed: &mut Box<[Vec<u8>]>,
    boxed_iovecs: Vec<IoVec>,
)
    requires
        call_ensures(<Vec<Vec<u8>> as IoVectoredBufMut>::as_iovecs_mut, (vectors,), iovecs),
        call_ensures(
            <Box<[Vec<u8>]> as IoVectoredBufMut>::as_iovecs_mut,
            (boxed,),
            boxed_iovecs,
        ),
    ensures
        iovecs@.len() == old(vectors)@.len(),
        forall|i: int|
            0 <= i < old(vectors)@.len() ==> (#[trigger] iovecs@[i]).buffer == i && iovecs@[i].len
                == old(vectors)@[i]@.len(),
        boxed_iovecs@.len() == old(boxed)@.len(),
        forall|i: int|
            0 <= i < old(boxed)@.len() ==> (#[trigger] boxed_iovecs@[i]).buffer == i
                && boxed_iovecs@[i].len == old(boxed)@[i]@.len(),
        final(vectors)@.len() == old(vectors)@.len(),
        forall|i: int|
            0 <= i < old(vectors)@.len() ==> (#[trigger] final(vectors)@[i])@ == old(vectors)@[i]@,
{
    let before = old(vectors).contents();
    let after = final(vectors).contents();
    assert(before == after);
    assert(before.len() == old(vectors)@.len() && after.len() == final(vectors)@.len());
    assert forall|i: int| 0 <= i < old(vectors)@.len() implies (#[trigger] final(vectors)@[i])@
        == old(vectors)@[i]@ by {
        assert(before[i] == after[i]);
    }
}

} // verus!
