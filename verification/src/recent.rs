//! The record of the book that was read last.
//!
//! On disk: file name, title and author as raw bytes, each behind it a zero
//! byte, then one byte of progress in percent.

use vstd::prelude::*;

verus! {

/// Size of the buffer that holds a whole record.
pub const BUF_LEN: usize = 196;

pub const FILENAME_CAP: usize = 32;

pub const TITLE_CAP: usize = 64;

pub const AUTHOR_CAP: usize = 64;

/// The first `cap` bytes.
pub open spec fn capped(s: Seq<u8>, cap: int) -> Seq<u8> {
    if s.len() < cap {
        s
    } else {
        s.take(cap)
    }
}

/// A field as it is stored: its first `cap` bytes and a zero.
pub open spec fn field(s: Seq<u8>, cap: int) -> Seq<u8> {
    capped(s, cap).push(0)
}

/// Where the first zero from `from` on stands, or the end.
pub open spec fn zero_at(data: Seq<u8>, from: int) -> int
    decreases data.len() - from,
{
    if from < 0 || from >= data.len() || data[from] == 0 {
        from
    } else {
        zero_at(data, from + 1)
    }
}

#[derive(Clone, Copy)]
pub struct RecentRecord<'a> {
    pub filename: &'a [u8],
    pub title: &'a [u8],
    pub author: &'a [u8],
    pub progress: u8,
}

/// The contents of a record.
pub struct Recent {
    pub filename: Seq<u8>,
    pub title: Seq<u8>,
    pub author: Seq<u8>,
    pub progress: u8,
}

impl<'a> View for RecentRecord<'a> {
    type V = Recent;

    open spec fn view(&self) -> Recent {
        Recent {
            filename: self.filename@,
            title: self.title@,
            author: self.author@,
            progress: self.progress,
        }
    }
}

/// A record on disk.
pub open spec fn encoded(r: Recent) -> Seq<u8> {
    (field(r.filename, FILENAME_CAP as int) + field(r.title, TITLE_CAP as int) + field(
        r.author,
        AUTHOR_CAP as int,
    )).push(r.progress)
}

/// The record that bytes stand for. Fields behind the end are empty, and a
/// missing progress is 0.
pub open spec fn decoded(data: Seq<u8>) -> Recent {
    let e1 = zero_at(data, 0);
    let s2 = if e1 < data.len() {
        e1 + 1
    } else {
        e1
    };
    let e2 = zero_at(data, s2);
    let s3 = if e2 < data.len() {
        e2 + 1
    } else {
        e2
    };
    let e3 = zero_at(data, s3);
    Recent {
        filename: data.subrange(0, e1),
        title: data.subrange(s2, e2),
        author: data.subrange(s3, e3),
        progress: if e3 + 1 < data.len() {
            data[e3 + 1]
        } else {
            0
        },
    }
}

/// Write a field at `pos`; where the next one goes. What lies before `pos`
/// stays.
fn put_field(out: &mut [u8; BUF_LEN], pos: usize, src: &[u8], cap: usize) -> (end: usize)
    requires
        pos + cap < BUF_LEN,
    ensures
        end == pos + field(src@, cap as int).len(),
        end <= pos + cap + 1,
        final(out)@.take(end as int) == old(out)@.take(pos as int) + field(src@, cap as int),
{
    let n: usize = if src.len() < cap {
        src.len()
    } else {
        cap
    };
    let mut i: usize = 0;
    while i < n
        invariant
            i <= n <= src@.len(),
            n <= cap,
            pos + cap < BUF_LEN,
            out@.len() == BUF_LEN,
            forall|k: int| 0 <= k < pos ==> out@[k] == old(out)@[k],
            forall|k: int| 0 <= k < i ==> out@[pos + k] == src@[k],
        decreases n - i,
    {
        out[pos + i] = src[i];
        i = i + 1;
    }
    out[pos + n] = 0;
    proof {
        assert(src@.take(n as int) =~= capped(src@, cap as int));
        assert(out@.take(pos + n + 1) =~= old(out)@.take(pos as int) + field(src@, cap as int));
    }
    pos + n + 1
}

fn find_zero(data: &[u8], from: usize) -> (e: usize)
    requires
        from <= data@.len(),
    ensures
        e == zero_at(data@, from as int),
        from <= e <= data@.len(),
{
    let mut e: usize = from;
    while e < data.len() && data[e] != 0
        invariant
            from <= e <= data@.len(),
            zero_at(data@, e as int) == zero_at(data@, from as int),
        decreases data@.len() - e,
    {
        e = e + 1;
    }
    e
}

impl<'a> RecentRecord<'a> {
    /// The record with nothing in it.
    pub fn empty() -> (r: RecentRecord<'static>)
        ensures
            r@ == (Recent {
                filename: Seq::empty(),
                title: Seq::empty(),
                author: Seq::empty(),
                progress: 0,
            }),
    {
        let none: &'static [u8] = &[];
        let r = RecentRecord { filename: none, title: none, author: none, progress: 0 };
        proof {
            assert(none@ =~= Seq::<u8>::empty());
        }
        r
    }

    /// Write the record to the start of `out`; how many bytes it takes.
    pub fn encode(&self, out: &mut [u8; BUF_LEN]) -> (n: usize)
        ensures
            n == encoded(self@).len(),
            n <= BUF_LEN,
            final(out)@.take(n as int) == encoded(self@),
    {
        let p1: usize = put_field(out, 0, self.filename, FILENAME_CAP);
        let p2: usize = put_field(out, p1, self.title, TITLE_CAP);
        let p3: usize = put_field(out, p2, self.author, AUTHOR_CAP);
        let ghost three = out@.take(p3 as int);
        out[p3] = self.progress;
        proof {
            assert(three =~= field(self.filename@, FILENAME_CAP as int) + field(
                self.title@,
                TITLE_CAP as int,
            ) + field(self.author@, AUTHOR_CAP as int));
            assert(out@.take(p3 + 1) =~= three.push(self.progress));
        }
        p3 + 1
    }

    /// The record in `data`.
    pub fn decode(data: &'a [u8]) -> (r: RecentRecord<'a>)
        ensures
            r@ == decoded(data@),
    {
        let len: usize = data.len();
        let e1: usize = find_zero(data, 0);
        let s2: usize = if e1 < len {
            e1 + 1
        } else {
            e1
        };
        let e2: usize = find_zero(data, s2);
        let s3: usize = if e2 < len {
            e2 + 1
        } else {
            e2
        };
        let e3: usize = find_zero(data, s3);
        RecentRecord {
            filename: vstd::slice::slice_subrange(data, 0, e1),
            title: vstd::slice::slice_subrange(data, s2, e2),
            author: vstd::slice::slice_subrange(data, s3, e3),
            progress: if e3 < len && e3 + 1 < len {
                data[e3 + 1]
            } else {
                0
            },
        }
    }
}

proof fn lemma_zero_at(data: Seq<u8>, from: int, end: int)
    requires
        0 <= from <= end < data.len(),
        data[end] == 0,
        forall|k: int| from <= k < end ==> data[k] != 0,
    ensures
        zero_at(data, from) == end,
    decreases end - from,
{
    if from < end {
        lemma_zero_at(data, from + 1, end);
    }
}

/// No byte of the text is zero.
pub open spec fn zero_free(s: Seq<u8>) -> bool {
    forall|k: int| 0 <= k < s.len() ==> s[k] != 0
}

/// Reading a record back gives what was written, each field up to its limit,
/// if no field holds a zero byte.
pub proof fn law_records_come_back(r: Recent)
    requires
        zero_free(r.filename),
        zero_free(r.title),
        zero_free(r.author),
    ensures
        decoded(encoded(r)) == (Recent {
            filename: capped(r.filename, FILENAME_CAP as int),
            title: capped(r.title, TITLE_CAP as int),
            author: capped(r.author, AUTHOR_CAP as int),
            progress: r.progress,
        }),
{
    let f = capped(r.filename, FILENAME_CAP as int);
    let t = capped(r.title, TITLE_CAP as int);
    let a = capped(r.author, AUTHOR_CAP as int);
    let data = encoded(r);
    let e1 = f.len() as int;
    let e2 = e1 + 1 + t.len();
    let e3 = e2 + 1 + a.len();
    assert(data =~= f.push(0) + t.push(0) + a.push(0) + seq![r.progress]);
    assert forall|k: int| 0 <= k < e1 implies data[k] != 0 by {
        assert(data[k] == f[k]);
    }
    lemma_zero_at(data, 0, e1);
    assert forall|k: int| e1 + 1 <= k < e2 implies data[k] != 0 by {
        assert(data[k] == t[k - e1 - 1]);
    }
    lemma_zero_at(data, e1 + 1, e2);
    assert forall|k: int| e2 + 1 <= k < e3 implies data[k] != 0 by {
        assert(data[k] == a[k - e2 - 1]);
    }
    lemma_zero_at(data, e2 + 1, e3);
    assert(data.subrange(0, e1) =~= f);
    assert(data.subrange(e1 + 1, e2) =~= t);
    assert(data.subrange(e2 + 1, e3) =~= a);
}

} // verus!
