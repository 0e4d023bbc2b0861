//! A window onto a byte stream: reads and seeks confined to the bytes
//! `[start, end)` of the stream, as the reader of one partition uses it.

use vstd::prelude::*;
use crate::storage::{SeekTarget, saturating_offset, min_int};

verus! {

/// Why a window could not be made or moved.
#[derive(Debug, Clone, Copy, PartialEq, Eq, Structural)]
pub enum WindowError {
    /// The start of the window is not before its end.
    InvalidRange,
    /// The seek would leave the window.
    OutOfRange,
}

/// The window `[start, end)` and the stream position inside it.
pub struct StreamWindow {
    start: u64,
    end: u64,
    position: u64,
}

/// The mathematical state of a window.
pub struct WindowView {
    pub start: u64,
    pub end: u64,
    /// Absolute position in the underlying stream.
    pub position: u64,
}

impl View for StreamWindow {
    type V = WindowView;

    closed spec fn view(&self) -> WindowView {
        WindowView { start: self.start, end: self.end, position: self.position }
    }
}

impl WindowView {
    /// The window is non-empty and the position lies inside it (or at its
    /// end).
    pub open spec fn wf(self) -> bool {
        self.start < self.end && self.start <= self.position <= self.end
    }
}

/// The absolute position a seek asks for: from the start of the window,
/// from its end (the offset taken as an unsigned number, as the reader's
/// `as u64` does, saturating), or from the current position (saturating).
pub open spec fn window_target(w: WindowView, target: SeekTarget) -> int {
    match target {
        SeekTarget::Start(off) => w.start + off,
        SeekTarget::End(off) => saturating_offset(w.end, (off as u64) as int) as int,
        SeekTarget::Current(off) => saturating_offset(w.position, off as int) as int,
    }
}

impl StreamWindow {
    /// A window on `[start, end)`, positioned at `start`.
    pub fn new(start: u64, end: u64) -> (r: Result<Self, WindowError>)
        ensures
            start >= end <==> r is Err,
            r matches Err(e) ==> e == WindowError::InvalidRange,
            r matches Ok(w) ==> w@ == (WindowView { start, end, position: start }) && w@.wf(),
    {
        if start >= end {
            return Err(WindowError::InvalidRange);
        }
        Ok(StreamWindow { start, end, position: start })
    }

    pub fn position(&self) -> (p: u64)
        ensures
            p == self@.position,
    {
        self.position
    }

    pub fn start(&self) -> (s: u64)
        ensures
            s == self@.start,
    {
        self.start
    }

    /// How many bytes a read into a buffer of `buf_len` bytes may take:
    /// none at the end of the window, otherwise up to the end of the window.
    pub fn read_limit(&self, buf_len: usize) -> (n: usize)
        requires
            self@.wf(),
        ensures
            n == min_int(self@.end - self@.position, buf_len as int),
    {
        if self.position >= self.end {
            return 0;
        }
        let left: u64 = self.end - self.position;
        if left < buf_len as u64 {
            left as usize
        } else {
            buf_len
        }
    }

    /// Moves the position past `count` bytes that a read returned.
    pub fn advance(&mut self, count: usize)
        requires
            old(self)@.wf(),
            count <= old(self)@.end - old(self)@.position,
        ensures
            final(self)@ == (WindowView { position: (old(self)@.position + count) as u64, ..old(self)@ }),
            final(self)@.wf(),
    {
        self.position = self.position + count as u64;
    }

    /// Moves the position; on success returns the new position relative to
    /// the start of the window. A target outside the window is refused and
    /// leaves the position unchanged.
    pub fn seek(&mut self, target: SeekTarget) -> (r: Result<u64, WindowError>)
        requires
            old(self)@.wf(),
            target matches SeekTarget::Start(off) ==> old(self)@.start + off <= u64::MAX,
        ensures
            final(self)@.wf(),
            ({
                let t = window_target(old(self)@, target);
                &&& (old(self)@.start <= t <= old(self)@.end) ==>
                        r == Ok::<u64, WindowError>((t - old(self)@.start) as u64)
                        && final(self)@ == (WindowView { position: t as u64, ..old(self)@ })
                &&& !(old(self)@.start <= t <= old(self)@.end) ==>
                        r == Err::<u64, WindowError>(WindowError::OutOfRange) && final(self)@ == old(self)@
            }),
    {
        let new_pos: u64 = match target {
            SeekTarget::Start(off) => self.start + off,
            SeekTarget::End(off) => self.end.saturating_add(off as u64),
            SeekTarget::Current(off) => {
                if off >= 0 {
                    self.position.saturating_add(off as u64)
                } else {
                    let back: u64 = if off == i64::MIN { 0x8000_0000_0000_0000 } else { (-off) as u64 };
                    self.position.saturating_sub(back)
                }
            },
        };
        if new_pos < self.start || new_pos > self.end {
            return Err(WindowError::OutOfRange);
        }
        self.position = new_pos;
        Ok(self.position - self.start)
    }
}

/// Reads never leave the window: whatever the buffer, the bytes a read may
/// take end at or before the end of the window, and seeking to an offset
/// inside the window lands exactly there.
pub proof fn lemma_window_confines(w: WindowView, buf_len: usize, off: u64)
    requires
        w.wf(),
    ensures
        w.position + min_int(w.end - w.position, buf_len as int) <= w.end,
        off <= w.end - w.start ==> window_target(w, SeekTarget::Start(off)) == w.start + off
            && w.start <= w.start + off <= w.end,
{
}

} // verus!
