//! Buffers of operations: lengths that interfaces can express, and spreading what was read over a
//! list of buffers.

use crate::error::{BufferRole, IoError, LengthLimit};
use vstd::prelude::*;

verus! {

/// A length as an interface with a 32-bit length field takes it.
pub fn checked_len(len: usize, role: BufferRole, limit: LengthLimit) -> (checked: Result<
    u32,
    IoError,
>)
    ensures
        checked == (if len <= 0xffff_ffff {
            Ok::<u32, IoError>(len as u32)
        } else {
            Err(IoError::TooLarge(role, limit))
        }),
{
    if len as u64 <= 0xffff_ffff {
        Ok(len as u32)
    } else {
        Err(IoError::TooLarge(role, limit))
    }
}

/// The lengths of a list of buffers as a socket takes them: all of them, or the error of the
/// first that is too long.
pub fn checked_lens(lens: &Vec<usize>, role: BufferRole) -> (checked: Result<Vec<u32>, IoError>)
    ensures
        match checked {
            Ok(words) => {
                &&& words@.len() == lens@.len()
                &&& forall|i: int| 0 <= i < lens@.len() ==> #[trigger] words@[i] == lens@[i]
            },
            Err(err) => err == IoError::TooLarge(role, LengthLimit::Socket) && exists|i: int|
                0 <= i < lens@.len() && #[trigger] lens@[i] > 0xffff_ffff,
        },
        checked is Ok <==> forall|i: int| 0 <= i < lens@.len() ==> #[trigger] lens@[i]
            <= 0xffff_ffff,
{
    let mut words: Vec<u32> = Vec::with_capacity(lens.len());
    let mut index: usize = 0;
    while index < lens.len()
        invariant
            index <= lens@.len(),
            words@.len() == index,
            forall|i: int| 0 <= i < index ==> #[trigger] words@[i] == lens@[i],
        decreases lens@.len() - index,
    {
        match checked_len(lens[index], role, LengthLimit::Socket) {
            Ok(word) => {
                words.push(word);
            },
            Err(err) => {
                assert(lens@[index as int] > 0xffff_ffff);
                return Err(err);
            },
        }
        index = index + 1;
    }
    assert forall|i: int| 0 <= i < lens@.len() implies #[trigger] lens@[i] <= 0xffff_ffff by {
        assert(words@[i] == lens@[i]);
    }
    Ok(words)
}

/// The sum of lengths.
pub open spec fn total(lens: Seq<usize>) -> nat
    decreases lens.len(),
{
    if lens.len() == 0 {
        0
    } else {
        total(lens.drop_last()) + lens.last() as nat
    }
}

proof fn lemma_total_grows(lens: Seq<usize>, taken: int)
    requires
        0 <= taken <= lens.len(),
    ensures
        total(lens.take(taken)) <= total(lens),
    decreases lens.len(),
{
    if taken < lens.len() {
        lemma_total_grows(lens.drop_last(), taken);
        assert(lens.drop_last().take(taken) =~= lens.take(taken));
    } else {
        assert(lens.take(taken) =~= lens);
    }
}

/// The length of one read that fills a list of buffers.
pub fn total_len(lens: &Vec<usize>) -> (len: Result<u32, IoError>)
    ensures
        len == (if total(lens@) > usize::MAX {
            Err::<u32, IoError>(IoError::ReadvLengthOverflow)
        } else if total(lens@) > 0xffff_ffff {
            Err(IoError::ReadvTotalTooLarge)
        } else {
            Ok(total(lens@) as u32)
        }),
{
    let mut sum: usize = 0;
    let mut index: usize = 0;
    assert(lens@.take(0) =~= Seq::<usize>::empty());
    while index < lens.len()
        invariant
            index <= lens@.len(),
            sum == total(lens@.take(index as int)),
        decreases lens@.len() - index,
    {
        proof {
            assert(lens@.take(index + 1).drop_last() =~= lens@.take(index as int));
            lemma_total_grows(lens@, index + 1);
        }
        match sum.checked_add(lens[index]) {
            Some(more) => {
                sum = more;
            },
            None => {
                return Err(IoError::ReadvLengthOverflow);
            },
        }
        index = index + 1;
    }
    assert(lens@.take(lens@.len() as int) =~= lens@);
    if sum as u64 > 0xffff_ffff {
        return Err(IoError::ReadvTotalTooLarge);
    }
    Ok(sum as u32)
}

/// All bytes of a list of buffers, one buffer after the other.
pub open spec fn flat(bufs: Seq<Vec<u8>>) -> Seq<u8>
    decreases bufs.len(),
{
    if bufs.len() == 0 {
        Seq::empty()
    } else {
        flat(bufs.drop_last()) + bufs.last()@
    }
}

/// How many bytes of what was read one list of buffers takes.
pub open spec fn taken(bufs: Seq<Vec<u8>>, result: nat) -> int {
    if result < flat(bufs).len() {
        result as int
    } else {
        flat(bufs).len() as int
    }
}

/// The bytes of a list of buffers after the first `result` bytes of `staging` were spread over it.
pub open spec fn scattered(bufs: Seq<Vec<u8>>, staging: Seq<u8>, result: nat) -> Seq<u8> {
    staging.take(taken(bufs, result)) + flat(bufs).skip(taken(bufs, result))
}

/// Spreads the first `result` bytes of `staging` over the buffers, filling one after the other.
pub fn scatter(staging: &Vec<u8>, result: usize, bufs: &mut Vec<Vec<u8>>)
    requires
        result <= staging@.len(),
    ensures
        final(bufs)@.len() == old(bufs)@.len(),
        forall|i: int|
            0 <= i < old(bufs)@.len() ==> (#[trigger] final(bufs)@[i])@.len()
                == old(bufs)@[i]@.len(),
        flat(final(bufs)@) == scattered(old(bufs)@, staging@, result as nat),
{
    let ghost before = bufs@;
    let mut done: Vec<Vec<u8>> = Vec::with_capacity(bufs.len());
    let mut index: usize = 0;
    let mut offset: usize = 0;
    assert(before.take(0) =~= Seq::<Vec<u8>>::empty());
    assert(scattered(Seq::empty(), staging@, result as nat) =~= Seq::<u8>::empty());
    while index < bufs.len()
        invariant
            index <= bufs@.len(),
            bufs@ == before,
            done@.len() == index,
            result <= staging@.len(),
            offset == taken(before.take(index as int), result as nat),
            forall|i: int| 0 <= i < index ==> (#[trigger] done@[i])@.len() == before[i]@.len(),
            flat(done@) == scattered(before.take(index as int), staging@, result as nat),
        decreases bufs@.len() - index,
    {
        let ghost earlier = before.take(index as int);
        let ghost next = before.take(index + 1);
        let ghost filled = done@;
        assert(next.drop_last() =~= earlier);
        assert(next.last() == before[index as int]);
        let mut filled_buf: Vec<u8> = Vec::with_capacity(bufs[index].len());
        let start = offset;
        let mut at: usize = 0;
        while at < bufs[index].len()
            invariant
                index < bufs@.len(),
                bufs@ == before,
                at <= before[index as int]@.len(),
                filled_buf@.len() == at,
                start <= offset <= result,
                result <= staging@.len(),
                offset == (if start + at < result {
                    start + at
                } else {
                    result as int
                }),
                forall|i: int|
                    0 <= i < at ==> #[trigger] filled_buf@[i] == (if start + i < result {
                        staging@[start + i]
                    } else {
                        before[index as int]@[i]
                    }),
            decreases before[index as int]@.len() - at,
        {
            if offset < result {
                filled_buf.push(staging[offset]);
                offset = offset + 1;
            } else {
                filled_buf.push(bufs[index][at]);
            }
            at = at + 1;
        }
        done.push(filled_buf);
        proof {
            assert(done@.drop_last() =~= filled);
            assert(flat(done@) == flat(filled) + filled_buf@);
            assert(flat(next) == flat(earlier) + before[index as int]@);
            assert(flat(done@) =~= scattered(next, staging@, result as nat));
        }
        index = index + 1;
    }
    assert(before.take(before.len() as int) =~= before);
    *bufs = done;
}

/// What a vectored read comes to that was carried out by one read into `staging`: on success the
/// bytes are spread over the buffers.
pub fn finish_readv(
    counted: Result<u32, IoError>,
    staging: Option<Vec<u8>>,
    bufs: &mut Vec<Vec<u8>>,
) -> (result: Result<u32, IoError>)
    requires
        match (counted, staging) {
            (Ok(len), Some(bytes)) => len <= bytes@.len(),
            _ => true,
        },
    ensures
        result == counted,
        final(bufs)@.len() == old(bufs)@.len(),
        forall|i: int|
            0 <= i < old(bufs)@.len() ==> (#[trigger] final(bufs)@[i])@.len()
                == old(bufs)@[i]@.len(),
        match (counted, staging) {
            (Ok(len), Some(bytes)) => flat(final(bufs)@) == scattered(
                old(bufs)@,
                bytes@,
                len as nat,
            ),
            _ => final(bufs)@ == old(bufs)@,
        },
{
    if let Ok(len) = counted {
        if let Some(bytes) = staging {
            scatter(&bytes, len as usize, bufs);
        }
    }
    counted
}

/// Spreading bytes over buffers loses none of them and touches nothing behind them.
pub proof fn law_scatter_keeps_bytes(bufs: Seq<Vec<u8>>, staging: Seq<u8>, result: nat)
    requires
        result <= staging.len(),
    ensures
        scattered(bufs, staging, result).len() == flat(bufs).len(),
        result <= flat(bufs).len() ==> scattered(bufs, staging, result).take(result as int)
            == staging.take(result as int) && scattered(bufs, staging, result).skip(
            result as int,
        ) == flat(bufs).skip(result as int),
{
    if result <= flat(bufs).len() {
        assert(scattered(bufs, staging, result).take(result as int) =~= staging.take(
            result as int,
        ));
        assert(scattered(bufs, staging, result).skip(result as int) =~= flat(bufs).skip(
            result as int,
        ));
    }
}

/// A length is taken as it is if 32 bits can hold it, and is refused otherwise.
pub proof fn law_length_fits_or_is_refused(
    len: usize,
    role: BufferRole,
    limit: LengthLimit,
    checked: Result<u32, IoError>,
)
    requires
        call_ensures(checked_len, (len, role, limit), checked),
    ensures
        checked is Ok <==> len < 0x1_0000_0000,
        checked matches Ok(word) ==> word == len,
        checked matches Err(err) ==> err == IoError::TooLarge(role, limit),
{
}

/// The lengths of a list are taken as they are if 32 bits can hold each of them, and are refused
/// otherwise.
pub proof fn law_lengths_fit_or_are_refused(
    lens: Vec<usize>,
    role: BufferRole,
    checked: Result<Vec<u32>, IoError>,
)
    requires
        call_ensures(checked_lens, (&lens, role), checked),
    ensures
        checked is Ok <==> forall|i: int|
            0 <= i < lens@.len() ==> #[trigger] lens@[i] < 0x1_0000_0000,
        checked matches Ok(words) ==> words@.len() == lens@.len() && forall|i: int|
            0 <= i < lens@.len() ==> #[trigger] words@[i] == lens@[i],
        checked matches Err(err) ==> err == IoError::TooLarge(role, LengthLimit::Socket),
{
    if checked is Ok {
        assert forall|i: int| 0 <= i < lens@.len() implies #[trigger] lens@[i] < 0x1_0000_0000 by {
            assert(lens@[i] <= 0xffff_ffff);
        }
    }
    if forall|i: int| 0 <= i < lens@.len() ==> #[trigger] lens@[i] < 0x1_0000_0000 {
        assert forall|i: int| 0 <= i < lens@.len() implies #[trigger] lens@[i] <= 0xffff_ffff by {
        }
    }
}

/// The sum of lengths grows by each length that is added.
pub proof fn law_lengths_add_up(lens: Seq<usize>, len: usize)
    ensures
        total(Seq::empty()) == 0,
        total(lens.push(len)) == total(lens) + len,
{
    assert(lens.push(len).drop_last() =~= lens);
}

/// One read that fills a list of buffers is as long as all of them, if 32 bits can hold that.
pub proof fn law_one_read_fills_all_buffers(lens: Vec<usize>, len: Result<u32, IoError>)
    requires
        call_ensures(total_len, (&lens,), len),
    ensures
        len is Ok <==> total(lens@) < 0x1_0000_0000,
        len matches Ok(len) ==> len == total(lens@),
        len == Err::<u32, IoError>(IoError::ReadvLengthOverflow) <==> total(lens@) > usize::MAX,
{
}

/// The lengths of buffers.
pub open spec fn lengths(bufs: Seq<Vec<u8>>) -> Seq<usize> {
    bufs.map_values(|buf: Vec<u8>| buf@.len() as usize)
}

/// Where a byte of one of several buffers stands among all of their bytes.
proof fn lemma_flat_at(bufs: Seq<Vec<u8>>, at: int, byte: int)
    requires
        0 <= at < bufs.len(),
        0 <= byte < bufs[at]@.len(),
        forall|i: int| 0 <= i < bufs.len() ==> (#[trigger] bufs[i])@.len() <= usize::MAX,
    ensures
        total(lengths(bufs)) == flat(bufs).len(),
        total(lengths(bufs.take(at))) + byte < flat(bufs).len(),
        flat(bufs)[total(lengths(bufs.take(at))) + byte] == bufs[at]@[byte],
    decreases bufs.len(),
{
    let fewer = bufs.drop_last();
    lemma_flat_len(bufs);
    lemma_flat_len(fewer);
    if at < fewer.len() {
        lemma_flat_at(fewer, at, byte);
        assert(fewer.take(at) =~= bufs.take(at));
    } else {
        assert(bufs.take(at) =~= fewer);
    }
}

/// There are as many bytes as the lengths of the buffers add up to.
proof fn lemma_flat_len(bufs: Seq<Vec<u8>>)
    requires
        forall|i: int| 0 <= i < bufs.len() ==> (#[trigger] bufs[i])@.len() <= usize::MAX,
    ensures
        total(lengths(bufs)) == flat(bufs).len(),
    decreases bufs.len(),
{
    if bufs.len() > 0 {
        let fewer = bufs.drop_last();
        assert forall|i: int| 0 <= i < fewer.len() implies (#[trigger] fewer[i])@.len()
            <= usize::MAX by {
            assert(fewer[i] == bufs[i]);
        }
        lemma_flat_len(fewer);
        assert(lengths(bufs).drop_last() =~= lengths(fewer));
        assert(bufs.last() == bufs[bufs.len() - 1]);
    }
}

/// Spreading fills the buffers one after the other, byte by byte: a byte of a buffer is the one of
/// what was read that stands as far from its beginning as the buffers before and the place in the
/// buffer make up, as far as what was read goes, and behind that stays what it was.
pub proof fn law_each_byte_goes_to_its_place(
    staging: Vec<u8>,
    result: usize,
    bufs: &mut Vec<Vec<u8>>,
    at: int,
    byte: int,
)
    requires
        result <= staging@.len(),
        call_ensures(scatter, (&staging, result, bufs), ()),
        0 <= at < old(bufs)@.len(),
        0 <= byte < old(bufs)@[at]@.len(),
        forall|i: int|
            0 <= i < old(bufs)@.len() ==> (#[trigger] old(bufs)@[i])@.len() <= usize::MAX,
    ensures
        final(bufs)@.len() == old(bufs)@.len(),
        final(bufs)@[at]@.len() == old(bufs)@[at]@.len(),
        ({
            let place = total(lengths(old(bufs)@.take(at))) + byte;
            final(bufs)@[at]@[byte] == (if place < result {
                staging@[place]
            } else {
                old(bufs)@[at]@[byte]
            })
        }),
{
    let before = old(bufs)@;
    let after = final(bufs)@;
    assert forall|i: int| 0 <= i < after.len() implies (#[trigger] after[i])@.len()
        <= usize::MAX by {
        assert(after[i]@.len() == before[i]@.len());
    }
    lemma_flat_at(before, at, byte);
    lemma_flat_at(after, at, byte);
    assert(lengths(after.take(at)) =~= lengths(before.take(at))) by {
        assert forall|i: int| 0 <= i < at implies lengths(after.take(at))[i] == lengths(
            before.take(at),
        )[i] by {
            assert(after[i]@.len() == before[i]@.len());
        }
    }
    let place = total(lengths(before.take(at))) + byte;
    assert(scattered(before, staging@, result as nat)[place] == (if place < result {
        staging@[place]
    } else {
        flat(before)[place]
    }));
}

/// A vectored read comes to what was counted, whatever that is; buffers are filled just if it
/// succeeded and something was staged, as spreading fills them.
pub proof fn law_vectored_read_is_spread(
    counted: Result<u32, IoError>,
    staging: Option<Vec<u8>>,
    bufs: &mut Vec<Vec<u8>>,
    result: Result<u32, IoError>,
    spread: &mut Vec<Vec<u8>>,
)
    requires
        call_ensures(finish_readv, (counted, staging, bufs), result),
        counted is Ok && staging is Some ==> old(spread)@ == old(bufs)@ && call_ensures(
            scatter,
            (&staging->0, counted->Ok_0 as usize, spread),
            (),
        ),
    ensures
        result == counted,
        counted is Ok && staging is Some ==> flat(final(bufs)@) == flat(final(spread)@),
        counted is Err || staging is None ==> final(bufs)@ == old(bufs)@,
{
}

} // verus!
