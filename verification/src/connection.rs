//! When a connection counts as closed.

use vstd::prelude::*;

verus! {

/// How one poll of a socket ended.
#[derive(Clone, Copy, Debug, PartialEq, Eq, Structural)]
pub enum IoPoll {
    Pending,
    Done,
    Failed,
}

/// A read shows that the peer has closed: it failed, or it had room and brought nothing.
pub open spec fn read_shows_close(
    poll: IoPoll,
    room: usize,
    filled_before: usize,
    filled_after: usize,
) -> bool {
    poll == IoPoll::Failed || poll == IoPoll::Done && room > 0 && filled_after == filled_before
}

/// Whether a read into a buffer with `room` bytes left shows that the peer has closed.
pub fn read_closes(
    poll: IoPoll,
    room: usize,
    filled_before: usize,
    filled_after: usize,
) -> (closes: bool)
    ensures
        closes == read_shows_close(poll, room, filled_before, filled_after),
{
    match poll {
        IoPoll::Pending => false,
        IoPoll::Done => room > 0 && filled_after == filled_before,
        IoPoll::Failed => true,
    }
}

/// Whether a write or a flush shows that the connection is gone.
pub fn write_closes(poll: IoPoll) -> (closes: bool)
    ensures
        closes == (poll == IoPoll::Failed),
{
    match poll {
        IoPoll::Failed => true,
        _ => false,
    }
}

/// Whether a connection has been seen to close.
pub struct ConnectionState {
    closed: bool,
}

impl ConnectionState {
    pub closed spec fn spec_closed(self) -> bool {
        self.closed
    }

    /// An open connection.
    pub fn new() -> (state: ConnectionState)
        ensures
            !state.spec_closed(),
    {
        ConnectionState { closed: false }
    }

    /// Marks the connection closed, for good; says whether it was open until now, so that whoever
    /// waits for the close is woken once.
    pub fn mark_closed(&mut self) -> (wake: bool)
        ensures
            final(self).spec_closed(),
            wake == !old(self).spec_closed(),
    {
        let wake = !self.closed;
        self.closed = true;
        wake
    }

    pub fn is_closed(&self) -> (closed: bool)
        ensures
            closed == self.spec_closed(),
    {
        self.closed
    }
}

/// A read that is done, had room and left the buffer as full as it was shows that the peer has
/// closed, however full that is; one that brought something does not, and neither does one that had
/// no room.
pub proof fn law_done_read_that_brings_nothing_closes(room: usize, level: usize, other: usize)
    ensures
        room > 0 ==> read_shows_close(IoPoll::Done, room, level, level),
        level != other ==> !read_shows_close(IoPoll::Done, room, level, other),
        !read_shows_close(IoPoll::Done, 0, level, other),
{
}

/// A read that failed shows that the peer has closed, and one that is still waiting does not,
/// whatever the buffer holds.
pub proof fn law_failed_read_closes(room: usize, level: usize, other: usize)
    ensures
        read_shows_close(IoPoll::Failed, room, level, other),
        !read_shows_close(IoPoll::Pending, room, level, other),
{
}

/// A write shows that the connection is gone exactly where it failed.
pub proof fn law_failed_write_closes(poll: IoPoll, closes: bool)
    requires
        call_ensures(write_closes, (poll,), closes),
    ensures
        poll == IoPoll::Failed ==> closes,
        poll != IoPoll::Failed ==> !closes,
{
}

} // verus!
