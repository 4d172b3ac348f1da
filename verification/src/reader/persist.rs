//! Reading time, and what is written to the card and when.

use crate::book_record::{BookRecord, Position, ReadingStats};
use crate::reader::state::PendingPositionChange;
use vstd::prelude::*;

verus! {

/// Seconds between a change and its flush.
pub const PERSIST_DEBOUNCE_SECS: u32 = 30;

/// A longer pause between two page turns is not reading time.
pub const IDLE_SECS: u32 = 600;

/// What is counted while a book is read, and what of it is to be written.
#[derive(Clone, Copy, Debug, PartialEq, Eq, Structural)]
pub struct ReadingLog {
    pub stats: ReadingStats,
    /// when the clock was last read
    pub last_uptime: u32,
    pub running: bool,
    /// the book's record is out of date
    pub dirty: bool,
    /// the record of the last book is
    pub recent_dirty: bool,
    /// pages and seconds that the day does not have yet
    pub day_pages: u16,
    pub day_secs: u32,
    /// when what is out of date is to be written
    pub flush_at: Option<u32>,
    pub record_seq: u32,
    /// the position that was written last
    pub last_saved_pos: Option<Position>,
}

pub open spec fn sat32(x: int) -> u32 {
    if x > u32::MAX {
        u32::MAX
    } else {
        x as u32
    }
}

pub open spec fn sat16(x: int) -> u16 {
    if x > 65535 {
        65535
    } else {
        x as u16
    }
}

/// Seconds since the clock was last read.
pub open spec fn since(last: u32, now: u32) -> u32 {
    if now > last {
        (now - last) as u32
    } else {
        0
    }
}

/// The log with more reading time, for the book and for the day.
pub open spec fn with_time(a: ReadingLog, secs: u32) -> ReadingLog {
    ReadingLog {
        stats: ReadingStats { time_secs: sat32(a.stats.time_secs + secs), ..a.stats },
        day_secs: sat32(a.day_secs + secs),
        ..a
    }
}

/// The clock stopped: the time since it was last read counts, unless it is too
/// long. Whether any was counted.
pub open spec fn clock_stopped(a: ReadingLog, now: u32) -> (ReadingLog, bool) {
    let delta = since(a.last_uptime, now);
    if !a.running {
        (a, false)
    } else if 0 < delta < IDLE_SECS {
        (ReadingLog { running: false, ..with_time(a, delta) }, true)
    } else {
        (ReadingLog { running: false, ..a }, false)
    }
}

pub open spec fn clock_started(a: ReadingLog, now: u32) -> ReadingLog {
    ReadingLog { last_uptime: now, running: true, ..a }
}

/// A page turned: one more page, and the time since the last one unless it is
/// too long.
pub open spec fn page_turned(a: ReadingLog, now: u32) -> ReadingLog {
    let delta = since(a.last_uptime, now);
    let timed = if delta < IDLE_SECS {
        with_time(a, delta)
    } else {
        a
    };
    ReadingLog {
        last_uptime: now,
        stats: ReadingStats { pages: sat32(timed.stats.pages + 1), ..timed.stats },
        day_pages: sat16(timed.day_pages + 1),
        dirty: true,
        ..timed
    }
}

/// A flush is due some time after `now`.
pub open spec fn debounced(a: ReadingLog, now: u32) -> ReadingLog {
    ReadingLog { flush_at: Some(sat32(now + PERSIST_DEBOUNCE_SECS)), ..a }
}

/// A new position is on screen: it is to be written, and a page turn counts.
#[verifier::opaque]
pub open spec fn committed(a: ReadingLog, change: PendingPositionChange, now: u32) -> ReadingLog {
    let dirty = ReadingLog { recent_dirty: true, dirty: true, ..a };
    debounced(
        match change {
            PendingPositionChange::PageTurn => page_turned(dirty, now),
            PendingPositionChange::OpenReady => clock_started(dirty, now),
            PendingPositionChange::RestoreReady => clock_started(dirty, now),
            PendingPositionChange::Jump => dirty,
        },
        now,
    )
}

/// The clock stopped, and what it counted is to be written.
#[verifier::opaque]
pub open spec fn suspended(a: ReadingLog, now: u32) -> ReadingLog {
    let (b, added) = clock_stopped(a, now);
    if added {
        debounced(ReadingLog { dirty: true, ..b }, now)
    } else {
        b
    }
}

/// What a flush writes.
#[derive(Clone, Copy, Debug, PartialEq, Eq, Structural)]
pub struct FlushPlan {
    pub recent: bool,
    pub record: bool,
}

/// What is to be flushed at `now`, if anything: what is dirty, once it is due
/// or when it is forced.
pub open spec fn flush_plan(a: ReadingLog, force: bool, now: u32) -> Option<FlushPlan> {
    let due = force || (a.flush_at matches Some(t) && now >= t);
    if (a.recent_dirty || a.dirty) && due {
        Some(FlushPlan { recent: a.recent_dirty, record: a.dirty })
    } else {
        None
    }
}

/// The log at the start of a flush, and what is written.
pub open spec fn flush_started(a: ReadingLog, force: bool, now: u32) -> (
    ReadingLog,
    Option<FlushPlan>,
) {
    let (stopped, added) = clock_stopped(a, now);
    let after = if !force {
        a
    } else if added {
        ReadingLog { dirty: true, ..stopped }
    } else {
        stopped
    };
    (after, flush_plan(after, force, now))
}

/// The log at the end of a flush.
pub open spec fn flush_ended(
    a: ReadingLog,
    recent_written: bool,
    failed: bool,
    now: u32,
) -> ReadingLog {
    let after = ReadingLog { recent_dirty: a.recent_dirty && !recent_written, ..a };
    if failed {
        debounced(after, now)
    } else {
        ReadingLog { flush_at: None, ..after }
    }
}

impl ReadingLog {
    fn add_time(&mut self, secs: u32)
        ensures
            *final(self) == with_time(*old(self), secs),
    {
        self.stats.time_secs = self.stats.time_secs.saturating_add(secs);
        self.day_secs = self.day_secs.saturating_add(secs);
    }

    /// Stop the reading clock; whether it added any time.
    pub fn stats_pause_clock(&mut self, now: u32) -> (added: bool)
        ensures
            (*final(self), added) == clock_stopped(*old(self), now),
    {
        let mut added: bool = false;
        if self.running {
            let delta: u32 = now.saturating_sub(self.last_uptime);
            if delta > 0 && delta < IDLE_SECS {
                self.add_time(delta);
                added = true;
            }
            self.running = false;
        }
        added
    }

    /// Start the reading clock.
    pub fn stats_resume_clock(&mut self, now: u32)
        ensures
            *final(self) == clock_started(*old(self), now),
    {
        self.last_uptime = now;
        self.running = true;
    }

    /// Count a page turn.
    pub fn stats_record_page_turn(&mut self, now: u32)
        ensures
            *final(self) == page_turned(*old(self), now),
    {
        let delta: u32 = now.saturating_sub(self.last_uptime);
        if delta < IDLE_SECS {
            self.add_time(delta);
        }
        self.last_uptime = now;
        self.stats.pages = self.stats.pages.saturating_add(1);
        self.day_pages = self.day_pages.saturating_add(1);
        self.dirty = true;
    }

    pub fn arm_persist_debounce(&mut self, now: u32)
        ensures
            *final(self) == debounced(*old(self), now),
    {
        self.flush_at = Some(now.saturating_add(PERSIST_DEBOUNCE_SECS));
    }

    /// The page of a change is on screen.
    pub fn commit_position_change(&mut self, change: PendingPositionChange, now: u32)
        ensures
            *final(self) == committed(*old(self), change, now),
    {
        proof {
            reveal(committed);
        }
        self.recent_dirty = true;
        self.dirty = true;
        match change {
            PendingPositionChange::PageTurn => self.stats_record_page_turn(now),
            PendingPositionChange::OpenReady => self.stats_resume_clock(now),
            PendingPositionChange::RestoreReady => self.stats_resume_clock(now),
            PendingPositionChange::Jump => {},
        }
        self.arm_persist_debounce(now);
    }

    /// The reader is left or covered: time in menus does not count.
    pub fn suspend(&mut self, now: u32)
        ensures
            *final(self) == suspended(*old(self), now),
    {
        proof {
            reveal(suspended);
        }
        if self.stats_pause_clock(now) {
            self.dirty = true;
            self.arm_persist_debounce(now);
        }
    }

    /// Pages and seconds of the day that were not handed on yet.
    pub fn drain_day_stats(&mut self) -> (r: (u16, u32))
        ensures
            r == (old(self).day_pages, old(self).day_secs),
            *final(self) == (ReadingLog { day_pages: 0, day_secs: 0, ..*old(self) }),
    {
        let r = (self.day_pages, self.day_secs);
        self.day_pages = 0;
        self.day_secs = 0;
        r
    }

    /// Start a flush. A forced one stops the clock first.
    pub fn flush_deferred_persistence(&mut self, force: bool, now: u32) -> (plan: Option<FlushPlan>)
        ensures
            (*final(self), plan) == flush_started(*old(self), force, now),
    {
        if force && self.stats_pause_clock(now) {
            self.dirty = true;
        }
        if !(self.recent_dirty || self.dirty) {
            return None;
        }
        if !force {
            match self.flush_at {
                Some(deadline) => {
                    if now < deadline {
                        return None;
                    }
                },
                None => {
                    return None;
                },
            }
        }
        Some(FlushPlan { recent: self.recent_dirty, record: self.dirty })
    }

    /// End a flush: what was written is clean, and a failure is tried again
    /// later.
    pub fn finish_flush(&mut self, recent_written: bool, failed: bool, now: u32)
        ensures
            *final(self) == flush_ended(*old(self), recent_written, failed, now),
    {
        self.recent_dirty = self.recent_dirty && !recent_written;
        if failed {
            self.arm_persist_debounce(now);
        } else {
            self.flush_at = None;
        }
    }
}

// ── the book's record ─────────────────────────────────────────────

/// The log once a record was read: its statistics with one more session,
/// and its position as the one that was written last.
#[verifier::opaque]
pub open spec fn with_record(a: ReadingLog, rec: BookRecord) -> ReadingLog {
    ReadingLog {
        stats: ReadingStats { sessions: sat32(rec.stats.sessions + 1), ..rec.stats },
        record_seq: rec.seq,
        last_saved_pos: rec.pos,
        dirty: true,
        ..a
    }
}

/// The clock read while a record is written: only a running one counts.
pub open spec fn clock_read(a: ReadingLog, now: u32) -> ReadingLog {
    let delta = since(a.last_uptime, now);
    if !a.running {
        a
    } else {
        ReadingLog {
            stats: ReadingStats {
                time_secs: if delta < IDLE_SECS {
                    sat32(a.stats.time_secs + delta)
                } else {
                    a.stats.time_secs
                },
                ..a.stats
            },
            last_uptime: now,
            ..a
        }
    }
}

/// The record to write: the place on screen, or else the one that was written
/// last, so that a flush outside of reading never loses it.
pub open spec fn next_record(a: ReadingLog, here: Option<Position>) -> BookRecord {
    BookRecord {
        stats: a.stats,
        pos: if here is Some {
            here
        } else {
            a.last_saved_pos
        },
        seq: if a.record_seq == u32::MAX {
            0
        } else {
            (a.record_seq + 1) as u32
        },
    }
}

/// The log and the record to write, if one is.
pub open spec fn record_due(a: ReadingLog, named: bool, here: Option<Position>, now: u32) -> (
    ReadingLog,
    Option<BookRecord>,
) {
    if !a.dirty || !named {
        (a, None)
    } else {
        let after = clock_read(a, now);
        (after, Some(next_record(after, here)))
    }
}

impl ReadingLog {
    /// Take over the record of the book, or an empty one.
    pub fn record_load(&mut self, rec: Option<BookRecord>)
        ensures
            *final(self) == with_record(
                *old(self),
                match rec {
                    Some(r) => r,
                    None => BookRecord::spec_empty(),
                },
            ),
    {
        proof {
            reveal(with_record);
        }
        let r: BookRecord = match rec {
            Some(r) => r,
            None => BookRecord::empty(),
        };
        self.stats = r.stats;
        self.record_seq = r.seq;
        self.last_saved_pos = r.pos;
        self.stats.sessions = self.stats.sessions.saturating_add(1);
        self.dirty = true;
    }

    /// The record to write now, if there is anything to write and a book is
    /// open; `here` is the place on screen.
    pub fn record_flush(&mut self, named: bool, here: Option<Position>, now: u32) -> (rec: Option<
        BookRecord,
    >)
        ensures
            (*final(self), rec) == record_due(*old(self), named, here, now),
    {
        if !self.dirty || !named {
            return None;
        }
        if self.running {
            let delta: u32 = now.saturating_sub(self.last_uptime);
            if delta < IDLE_SECS {
                self.stats.time_secs = self.stats.time_secs.saturating_add(delta);
            }
            self.last_uptime = now;
        }
        let pos: Option<Position> = match here {
            Some(p) => Some(p),
            None => self.last_saved_pos,
        };
        let seq: u32 = if self.record_seq == u32::MAX {
            0
        } else {
            self.record_seq + 1
        };
        Some(BookRecord { stats: self.stats, pos, seq })
    }

    /// The record was written.
    pub fn record_saved(&mut self, rec: &BookRecord)
        ensures
            *final(self) == (ReadingLog {
                record_seq: rec.seq,
                last_saved_pos: rec.pos,
                dirty: false,
                ..*old(self)
            }),
    {
        self.record_seq = rec.seq;
        self.last_saved_pos = rec.pos;
        self.dirty = false;
    }
}

// ── laws ──────────────────────────────────────────────────────────

/// Reading time never runs backwards, and no single stretch of it is as long
/// as the idle limit.
pub proof fn law_idle_time_does_not_count(a: ReadingLog, now: u32)
    ensures
        ({
            let (b, added) = clock_stopped(a, now);
            &&& a.stats.time_secs <= b.stats.time_secs
            &&& b.stats.time_secs - a.stats.time_secs < IDLE_SECS
            &&& added ==> a.running
        }),
        a.stats.time_secs <= page_turned(a, now).stats.time_secs,
        page_turned(a, now).stats.time_secs - a.stats.time_secs < IDLE_SECS,
{
}

/// A stopped clock counts nothing, however long it is stopped.
pub proof fn law_stopped_clock_counts_nothing(a: ReadingLog, now: u32, later: u32)
    ensures
        clock_stopped(clock_stopped(a, now).0, later) == (clock_stopped(a, now).0, false),
{
}

/// A flush outside of reading keeps the place that was written last.
pub proof fn law_flush_keeps_the_place(a: ReadingLog)
    ensures
        next_record(a, None).pos == a.last_saved_pos,
{
}

} // verus!
