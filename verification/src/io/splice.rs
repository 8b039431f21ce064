//! Moving bytes between file descriptors without reading them.

use crate::error::IoError;
use vstd::prelude::*;

verus! {

/// A move of so many bytes, or of all that there are.
#[derive(Clone, Copy, Debug, PartialEq, Eq, Structural)]
pub struct SpliceExact {
    /// How many bytes have been moved.
    pub total: usize,
    /// How many bytes to move.
    pub len: usize,
    /// Whether there are no more.
    pub ended: bool,
}

impl SpliceExact {
    /// No more is moved than was asked for.
    pub open spec fn wf(self) -> bool {
        self.total <= self.len
    }

    /// A move that has not started.
    pub fn new(len: usize) -> (splice: SpliceExact)
        ensures
            splice == (SpliceExact { total: 0, len, ended: false }),
            splice.wf(),
    {
        SpliceExact { total: 0, len, ended: false }
    }

    /// How many bytes to move next, unless the move is over.
    pub fn next(&self) -> (len: Option<usize>)
        requires
            self.wf(),
        ensures
            len == (if self.total < self.len && !self.ended {
                Some((self.len - self.total) as usize)
            } else {
                None
            }),
    {
        if self.total < self.len && !self.ended {
            Some(self.len - self.total)
        } else {
            None
        }
    }

    /// Goes on after so many bytes were moved: none means that there are no more.
    pub fn moved(&mut self, count: usize)
        requires
            old(self).wf(),
            count <= old(self).len - old(self).total,
        ensures
            final(self).wf(),
            *final(self) == (if count == 0 {
                SpliceExact { ended: true, ..*old(self) }
            } else {
                SpliceExact { total: (old(self).total + count) as usize, ..*old(self) }
            }),
    {
        if count == 0 {
            self.ended = true;
        } else {
            self.total = self.total + count;
        }
    }
}

/// What sending a file does next.
#[derive(Clone, Copy, Debug, PartialEq, Eq, Structural)]
pub enum SendfileStep {
    /// Move up to so many bytes from the file into the pipe.
    FromFile(usize),
    /// Move up to so many bytes from the pipe to the socket.
    ToSocket(usize),
    /// The file was sent, as far as it goes: so many bytes.
    Done(usize),
}

/// The sending of a part of a file through a pipe.
///
/// Filling the pipe and emptying it take turns, so that the pipe never has to hold the whole file.
#[derive(Clone, Copy, Debug, PartialEq, Eq, Structural)]
pub struct SendfileExact {
    /// How many bytes to send.
    pub len: usize,
    /// How many bytes have left the file.
    pub from_file: usize,
    /// How many bytes have reached the socket.
    pub to_socket: usize,
    /// Whether the file has no more.
    pub file_eof: bool,
    /// Whether it is the socket's turn.
    pub filled: bool,
    /// Whether the socket takes no more.
    pub broken: bool,
}

impl SendfileExact {
    /// Nothing reaches the socket that has not left the file, and no more leaves the file than was
    /// asked for. The socket's turn comes only when the pipe holds something.
    pub open spec fn wf(self) -> bool {
        &&& self.to_socket <= self.from_file <= self.len
        &&& self.filled ==> self.to_socket < self.from_file
    }

    /// Whether there is anything left to do: the file may have more, or the pipe holds something.
    pub open spec fn goes_on(self) -> bool {
        (self.from_file < self.len && !self.file_eof) || self.to_socket < self.from_file
    }

    /// What to do next.
    pub open spec fn next_step(self) -> SendfileStep {
        if self.broken {
            SendfileStep::Done(self.to_socket)
        } else if !self.filled && !self.goes_on() {
            SendfileStep::Done(self.to_socket)
        } else if !self.filled && !self.file_eof && self.from_file < self.len {
            SendfileStep::FromFile((self.len - self.from_file) as usize)
        } else if self.to_socket < self.from_file {
            SendfileStep::ToSocket((self.from_file - self.to_socket) as usize)
        } else {
            SendfileStep::Done(self.to_socket)
        }
    }

    /// After so many bytes have left the file: none means that it has no more. The socket's turn
    /// comes if the pipe holds something.
    pub open spec fn after_file(self, count: usize) -> SendfileExact {
        let next = if count == 0 {
            SendfileExact { file_eof: true, ..self }
        } else {
            SendfileExact { from_file: (self.from_file + count) as usize, ..self }
        };
        SendfileExact { filled: next.to_socket < next.from_file, ..next }
    }

    /// After so many bytes have reached the socket: none means that it takes no more.
    pub open spec fn after_socket(self, count: usize) -> SendfileExact {
        if count == 0 {
            SendfileExact { broken: true, ..self }
        } else {
            SendfileExact {
                to_socket: (self.to_socket + count) as usize,
                filled: false,
                ..self
            }
        }
    }

    /// A sending that has not started.
    pub fn new(len: usize) -> (sending: SendfileExact)
        ensures
            sending == (SendfileExact {
                len,
                from_file: 0,
                to_socket: 0,
                file_eof: false,
                filled: false,
                broken: false,
            }),
            sending.wf(),
    {
        SendfileExact {
            len,
            from_file: 0,
            to_socket: 0,
            file_eof: false,
            filled: false,
            broken: false,
        }
    }

    /// What to do next.
    pub fn next(&self) -> (step: SendfileStep)
        requires
            self.wf(),
        ensures
            step == self.next_step(),
    {
        if self.broken {
            return SendfileStep::Done(self.to_socket);
        }
        if !self.filled {
            let goes_on = (self.from_file < self.len && !self.file_eof) || self.to_socket
                < self.from_file;
            if !goes_on {
                return SendfileStep::Done(self.to_socket);
            }
            let from_file_len = self.len - self.from_file;
            if !self.file_eof && from_file_len > 0 {
                return SendfileStep::FromFile(from_file_len);
            }
        }
        let to_socket_len = self.from_file - self.to_socket;
        if to_socket_len > 0 {
            SendfileStep::ToSocket(to_socket_len)
        } else {
            SendfileStep::Done(self.to_socket)
        }
    }

    /// Goes on after so many bytes have left the file.
    pub fn left_file(&mut self, count: usize)
        requires
            old(self).wf(),
            count <= old(self).len - old(self).from_file,
        ensures
            final(self).wf(),
            *final(self) == old(self).after_file(count),
    {
        if count == 0 {
            self.file_eof = true;
        } else {
            self.from_file = self.from_file + count;
        }
        self.filled = self.to_socket < self.from_file;
    }

    /// Goes on after so many bytes have reached the socket.
    pub fn reached_socket(&mut self, count: usize)
        requires
            old(self).wf(),
            count <= old(self).from_file - old(self).to_socket,
        ensures
            final(self).wf(),
            *final(self) == old(self).after_socket(count),
    {
        if count == 0 {
            self.broken = true;
        } else {
            self.to_socket = self.to_socket + count;
            self.filled = false;
        }
    }
}

/// A sending ends only with a reason: everything was sent, the file had no more and all that left
/// it was sent, or the socket took no more. It never sends more than was asked for.
pub proof fn law_sendfile_ends_with_reason(sending: SendfileExact)
    requires
        sending.wf(),
    ensures
        sending.next_step() matches SendfileStep::Done(sent) ==> {
            &&& sent == sending.to_socket <= sending.len
            &&& sending.broken || (sending.to_socket == sending.from_file && (sending.file_eof
                || sent == sending.len))
        },
        sending.next_step() matches SendfileStep::FromFile(len) ==> 0 < len <= sending.len
            - sending.from_file,
        sending.next_step() matches SendfileStep::ToSocket(len) ==> 0 < len
            == sending.from_file - sending.to_socket,
{
}

/// Every step that moves something brings the end nearer: fewer bytes are left to leave the file,
/// or fewer to reach the socket.
pub proof fn law_sendfile_makes_progress(sending: SendfileExact, count: usize)
    requires
        sending.wf(),
        count > 0,
    ensures
        count <= sending.len - sending.from_file ==> {
            let after = sending.after_file(count);
            after.len - after.from_file < sending.len - sending.from_file && after.to_socket
                == sending.to_socket
        },
        count <= sending.from_file - sending.to_socket ==> {
            let after = sending.after_socket(count);
            after.len - after.to_socket < sending.len - sending.to_socket && after.from_file
                == sending.from_file
        },
{
}

/// A new move has moved nothing, and asks for all of its bytes first.
pub proof fn law_splice_starts_with_everything(
    len: usize,
    splice: SpliceExact,
    asked: Option<usize>,
)
    requires
        call_ensures(SpliceExact::new, (len,), splice),
        call_ensures(SpliceExact::next, (&splice,), asked),
    ensures
        splice.total == 0,
        splice.len == len,
        asked == (if len > 0 {
            Some(len)
        } else {
            None
        }),
{
}

/// A move asks for exactly what is missing, and for nothing just if nothing is missing or there is
/// no more to move.
pub proof fn law_splice_asks_for_the_rest(splice: SpliceExact, asked: Option<usize>)
    requires
        splice.wf(),
        call_ensures(SpliceExact::next, (&splice,), asked),
    ensures
        asked matches Some(len) ==> len > 0 && splice.total + len == splice.len && !splice.ended,
        asked is None ==> splice.ended || splice.total == splice.len,
{
}

/// What was moved is counted, and nothing else: the count grows by exactly so many bytes, and a
/// move ends just if none came.
pub proof fn law_splice_counts_what_moved(splice: &mut SpliceExact, count: usize)
    requires
        old(splice).wf(),
        count <= old(splice).len - old(splice).total,
        call_ensures(SpliceExact::moved, (splice, count), ()),
    ensures
        final(splice).total == old(splice).total + count,
        final(splice).len == old(splice).len,
        final(splice).ended == (old(splice).ended || count == 0),
{
}

/// A new sending has sent nothing.
pub proof fn law_sendfile_starts_empty(len: usize, sending: SendfileExact)
    requires
        call_ensures(SendfileExact::new, (len,), sending),
    ensures
        sending.len == len,
        sending.from_file == 0,
        sending.to_socket == 0,
        !sending.file_eof,
        !sending.filled,
        !sending.broken,
{
}

/// What left the file is counted, and nothing else: `from_file` grows by exactly so many bytes.
/// The file has no more just if none came, and it is the socket's turn just if the pipe holds
/// something.
pub proof fn law_sendfile_counts_what_left(sending: &mut SendfileExact, count: usize)
    requires
        old(sending).wf(),
        count <= old(sending).len - old(sending).from_file,
        call_ensures(SendfileExact::left_file, (sending, count), ()),
    ensures
        final(sending).from_file == old(sending).from_file + count,
        final(sending).to_socket == old(sending).to_socket,
        final(sending).len == old(sending).len,
        final(sending).file_eof == (old(sending).file_eof || count == 0),
        final(sending).filled == (old(sending).to_socket < old(sending).from_file + count),
        final(sending).broken == old(sending).broken,
{
}

/// What reached the socket is counted, and nothing else: `to_socket` grows by exactly so many
/// bytes. The socket takes no more just if it took none, and otherwise it is the file's turn.
pub proof fn law_sendfile_counts_what_arrived(sending: &mut SendfileExact, count: usize)
    requires
        old(sending).wf(),
        count <= old(sending).from_file - old(sending).to_socket,
        call_ensures(SendfileExact::reached_socket, (sending, count), ()),
    ensures
        final(sending).to_socket == old(sending).to_socket + count,
        final(sending).from_file == old(sending).from_file,
        final(sending).len == old(sending).len,
        final(sending).file_eof == old(sending).file_eof,
        final(sending).broken == (old(sending).broken || count == 0),
        final(sending).filled == (old(sending).filled && count == 0),
{
}

/// The next step follows from what is missing. A sending that is broken is over. Otherwise the
/// socket is asked to take exactly what the pipe holds, when it is its turn or the file has no
/// more to give; else the file is asked for exactly what has not left it; and with neither the
/// sending is over. The count that is reported is what has reached the socket.
pub proof fn law_sendfile_asks_for_the_rest(sending: SendfileExact, step: SendfileStep)
    requires
        sending.wf(),
        call_ensures(SendfileExact::next, (&sending,), step),
    ensures
        step matches SendfileStep::Done(sent) ==> sent == sending.to_socket,
        step matches SendfileStep::ToSocket(len) ==> len > 0 && sending.to_socket + len
            == sending.from_file,
        step matches SendfileStep::FromFile(len) ==> len > 0 && sending.from_file + len
            == sending.len,
        sending.broken ==> step is Done,
        !sending.broken && sending.filled ==> step is ToSocket,
        !sending.broken && !sending.filled && !sending.file_eof && sending.from_file
            < sending.len ==> step is FromFile,
        !sending.broken && !sending.filled && (sending.file_eof || sending.from_file
            == sending.len) ==> (step is ToSocket <==> sending.to_socket < sending.from_file) && (
        step is Done <==> sending.to_socket == sending.from_file),
{
}

/// What a sending is told.
pub enum SendfileEvent {
    /// So many bytes have left the file.
    LeftFile(usize),
    /// So many bytes have reached the socket.
    ReachedSocket(usize),
}

/// How many bytes have left the file, by what a sending was told.
pub open spec fn bytes_left_file(events: Seq<SendfileEvent>) -> nat
    decreases events.len(),
{
    if events.len() == 0 {
        0
    } else {
        bytes_left_file(events.drop_last()) + match events.last() {
            SendfileEvent::LeftFile(count) => count as nat,
            SendfileEvent::ReachedSocket(_) => 0,
        }
    }
}

/// How many bytes have reached the socket, by what a sending was told.
pub open spec fn bytes_reached_socket(events: Seq<SendfileEvent>) -> nat
    decreases events.len(),
{
    if events.len() == 0 {
        0
    } else {
        bytes_reached_socket(events.drop_last()) + match events.last() {
            SendfileEvent::LeftFile(_) => 0,
            SendfileEvent::ReachedSocket(count) => count as nat,
        }
    }
}

/// Whether these are the states of a sending of so many bytes as it is told one thing after the
/// other, none of which is more than was asked for.
pub open spec fn sends(len: usize, states: Seq<SendfileExact>, events: Seq<SendfileEvent>) -> bool {
    &&& states.len() == events.len() + 1
    &&& call_ensures(SendfileExact::new, (len,), states[0])
    &&& forall|i: int| 0 <= i < events.len()
        ==> #[trigger] goes_from(states[i], events[i], states[i + 1])
}

/// Whether being told one thing brings a sending from one state to the next.
pub open spec fn goes_from(
    before: SendfileExact,
    event: SendfileEvent,
    after: SendfileExact,
) -> bool {
    match event {
        SendfileEvent::LeftFile(count) => count <= before.len - before.from_file && after
            == before.after_file(count),
        SendfileEvent::ReachedSocket(count) => count <= before.from_file - before.to_socket
            && after == before.after_socket(count),
    }
}

/// A sending reports what has reached the socket: whatever it was told, the counts add up, and the
/// number of bytes with which it ends is the sum of those that reached the socket.
pub proof fn law_sendfile_reports_what_arrived(
    len: usize,
    states: Seq<SendfileExact>,
    events: Seq<SendfileEvent>,
)
    requires
        sends(len, states, events),
    ensures
        states.last().wf(),
        states.last().len == len,
        states.last().from_file == bytes_left_file(events),
        states.last().to_socket == bytes_reached_socket(events),
        states.last().next_step() matches SendfileStep::Done(sent) ==> sent
            == bytes_reached_socket(events),
    decreases events.len(),
{
    if events.len() > 0 {
        let fewer = events.drop_last();
        let earlier = states.drop_last();
        assert forall|i: int| 0 <= i < fewer.len() implies #[trigger] goes_from(
            earlier[i],
            fewer[i],
            earlier[i + 1],
        ) by {
            assert(goes_from(states[i], events[i], states[i + 1]));
        }
        law_sendfile_reports_what_arrived(len, earlier, fewer);
        let last = events.len() - 1;
        assert(goes_from(states[last], events[last], states[last + 1]));
    }
}

} // verus!
