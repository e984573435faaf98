//! The line rules of the streamed protocol.
//!
//! A response body is a run of lines. Each line is blank filler, the end
//! mark `data: [DONE]`, or `data: ` followed by a payload. The functions here
//! work on one line at a time, as bytes.

use vstd::prelude::*;

verus! {

/// The byte that ends a line.
pub const NEWLINE: u8 = 0x0a;

/// ASCII whitespace: space, tab, line feed, vertical tab, form feed and
/// carriage return.
pub open spec fn is_space(b: u8) -> bool {
    b == 0x20 || (0x09 <= b && b <= 0x0d)
}

/// `s` without its leading whitespace.
pub open spec fn trim_start(s: Seq<u8>) -> Seq<u8>
    decreases s.len(),
{
    if s.len() > 0 && is_space(s.first()) {
        trim_start(s.drop_first())
    } else {
        s
    }
}

/// `s` without its trailing whitespace.
pub open spec fn trim_end(s: Seq<u8>) -> Seq<u8>
    decreases s.len(),
{
    if s.len() > 0 && is_space(s.last()) {
        trim_end(s.drop_last())
    } else {
        s
    }
}

/// `s` without the whitespace at either end.
pub open spec fn trim(s: Seq<u8>) -> Seq<u8> {
    trim_end(trim_start(s))
}

/// The bytes of `data: `, which introduce a payload.
pub open spec fn data_prefix() -> Seq<u8> {
    seq![0x64u8, 0x61u8, 0x74u8, 0x61u8, 0x3au8, 0x20u8]
}

/// The bytes of `[DONE]`, the payload that ends a stream.
pub open spec fn done_mark() -> Seq<u8> {
    seq![0x5bu8, 0x44u8, 0x4fu8, 0x4eu8, 0x45u8, 0x5du8]
}

/// `s` without one leading `data: `, where it has one.
pub open spec fn strip_data_prefix(s: Seq<u8>) -> Seq<u8> {
    if data_prefix().is_prefix_of(s) {
        s.skip(data_prefix().len() as int)
    } else {
        s
    }
}

/// What one line of a streamed body is.
#[derive(Debug, PartialEq, Eq)]
pub enum Frame {
    /// Nothing but whitespace: filler.
    Blank,
    /// The end mark.
    Done,
    /// A payload, to be read as JSON.
    Payload(Vec<u8>),
}

/// A [`Frame`] in specifications.
pub ghost enum FrameView {
    Blank,
    Done,
    Payload(Seq<u8>),
}

impl View for Frame {
    type V = FrameView;

    open spec fn view(&self) -> FrameView {
        match self {
            Frame::Blank => FrameView::Blank,
            Frame::Done => FrameView::Done,
            Frame::Payload(bytes) => FrameView::Payload(bytes@),
        }
    }
}

/// The frame that a line holds: the line is trimmed; an empty rest is blank;
/// otherwise one `data: ` is taken off its front, and what is left is the end
/// mark or a payload.
pub open spec fn frame_of(line: Seq<u8>) -> FrameView {
    let body = trim(line);
    if body.len() == 0 {
        FrameView::Blank
    } else if strip_data_prefix(body) == done_mark() {
        FrameView::Done
    } else {
        FrameView::Payload(strip_data_prefix(body))
    }
}

/// `trim_start` drops exactly the whitespace before the first other byte.
pub proof fn lemma_trim_start_skips(s: Seq<u8>, n: int)
    requires
        0 <= n <= s.len(),
        forall|k: int| 0 <= k < n ==> is_space(#[trigger] s[k]),
        n < s.len() ==> !is_space(s[n]),
    ensures
        trim_start(s) == s.skip(n),
    decreases n,
{
    if n == 0 {
        assert(s.skip(0) =~= s);
    } else {
        let rest = s.drop_first();
        assert forall|k: int| 0 <= k < n - 1 implies is_space(#[trigger] rest[k]) by {
            assert(rest[k] == s[k + 1]);
        }
        lemma_trim_start_skips(rest, n - 1);
        assert(rest.skip(n - 1) =~= s.skip(n));
    }
}

/// `trim_end` drops exactly the whitespace after the last other byte.
pub proof fn lemma_trim_end_takes(s: Seq<u8>, n: int)
    requires
        0 <= n <= s.len(),
        forall|k: int| n <= k < s.len() ==> is_space(#[trigger] s[k]),
        0 < n ==> !is_space(s[n - 1]),
    ensures
        trim_end(s) == s.take(n),
    decreases s.len() - n,
{
    if n == s.len() {
        assert(s.take(n) =~= s);
    } else {
        let rest = s.drop_last();
        lemma_trim_end_takes(rest, n);
        assert(rest.take(n) =~= s.take(n));
    }
}

fn is_space_byte(b: u8) -> (res: bool)
    ensures
        res == is_space(b),
{
    b == 0x20 || (0x09 <= b && b <= 0x0d)
}

/// Whether `line[from..to]` begins with `data: `.
fn has_data_prefix(line: &[u8], from: usize, to: usize) -> (res: bool)
    requires
        from <= to <= line.len(),
    ensures
        res == data_prefix().is_prefix_of(line@.subrange(from as int, to as int)),
{
    let ghost body = line@.subrange(from as int, to as int);
    if to - from < 6 {
        return false;
    }
    let res = line[from] == 0x64 && line[from + 1] == 0x61 && line[from + 2] == 0x74 && line[from
        + 3] == 0x61 && line[from + 4] == 0x3a && line[from + 5] == 0x20;
    proof {
        if res {
            assert(body.subrange(0, 6) =~= data_prefix());
        } else {
            if data_prefix().is_prefix_of(body) {
                let p = data_prefix();
                assert(body.subrange(0, 6) == p);
                assert forall|k: int| 0 <= k < 6 implies body[k] == p[k] by {
                    assert(body.subrange(0, 6)[k] == body[k]);
                }
                assert(body[0] == p[0] && body[1] == p[1] && body[2] == p[2] && body[3] == p[3]
                    && body[4] == p[4] && body[5] == p[5]);
                assert(false);
            }
        }
    }
    res
}

/// Whether `line[from..to]` is the end mark.
fn is_done_mark(line: &[u8], from: usize, to: usize) -> (res: bool)
    requires
        from <= to <= line.len(),
    ensures
        res == (line@.subrange(from as int, to as int) == done_mark()),
{
    let ghost body = line@.subrange(from as int, to as int);
    if to - from != 6 {
        assert(body.len() != done_mark().len());
        return false;
    }
    let res = line[from] == 0x5b && line[from + 1] == 0x44 && line[from + 2] == 0x4f && line[from
        + 3] == 0x4e && line[from + 4] == 0x45 && line[from + 5] == 0x5d;
    proof {
        if res {
            assert(body =~= done_mark());
        } else {
            if body == done_mark() {
                let m = done_mark();
                assert(body[0] == m[0] && body[1] == m[1] && body[2] == m[2] && body[3] == m[3]
                    && body[4] == m[4] && body[5] == m[5]);
                assert(false);
            }
        }
    }
    res
}

/// Where the trimmed line begins and ends.
pub fn trim_bounds(line: &[u8]) -> (bounds: (usize, usize))
    ensures
        bounds.0 <= bounds.1 <= line@.len(),
        line@.subrange(bounds.0 as int, bounds.1 as int) == trim(line@),
        forall|k: int| 0 <= k < bounds.0 ==> is_space(#[trigger] line@[k]),
        bounds.0 < line@.len() ==> !is_space(line@[bounds.0 as int]),
{
    let len = line.len();
    let mut start: usize = 0;
    while start < len && is_space_byte(line[start])
        invariant
            start <= len == line@.len(),
            forall|k: int| 0 <= k < start ==> is_space(#[trigger] line@[k]),
        decreases len - start,
    {
        start += 1;
    }
    let mut end: usize = len;
    while end > start && is_space_byte(line[end - 1])
        invariant
            start <= end <= len == line@.len(),
            forall|k: int| end <= k < len ==> is_space(#[trigger] line@[k]),
        decreases end,
    {
        end -= 1;
    }
    proof {
        lemma_trim_start_skips(line@, start as int);
        let tail = line@.skip(start as int);
        assert forall|k: int| end - start <= k < tail.len() implies is_space(#[trigger] tail[k]) by {
            assert(tail[k] == line@[k + start]);
        }
        lemma_trim_end_takes(tail, end - start);
        assert(tail.take(end - start) =~= line@.subrange(start as int, end as int));
    }
    (start, end)
}

/// Reads one line: blank, end mark, or payload.
pub fn classify(line: &[u8]) -> (frame: Frame)
    ensures
        frame@ == frame_of(line@),
{
    let (start, end) = trim_bounds(line);
    if start == end {
        return Frame::Blank;
    }
    let from: usize = if has_data_prefix(line, start, end) {
        start + 6
    } else {
        start
    };
    proof {
        let body = line@.subrange(start as int, end as int);
        if from != start {
            assert(body.skip(6) =~= line@.subrange(from as int, end as int));
        }
    }
    assert(strip_data_prefix(trim(line@)) == line@.subrange(from as int, end as int));
    if is_done_mark(line, from, end) {
        return Frame::Done;
    }
    let mut payload: Vec<u8> = Vec::new();
    let mut i: usize = from;
    while i < end
        invariant
            from <= i <= end <= line@.len(),
            payload@ == line@.subrange(from as int, i as int),
        decreases end - i,
    {
        payload.push(line[i]);
        proof {
            assert(line@.subrange(from as int, i as int).push(line@[i as int]) =~= line@.subrange(
                from as int,
                i + 1,
            ));
        }
        i += 1;
    }
    Frame::Payload(payload)
}

} // verus!
