//! The payloads of a body that is there as a whole.

use vstd::prelude::*;
use vstd::slice::slice_subrange;
use crate::frame::{classify, frame_of, Frame, FrameView, NEWLINE};

verus! {

/// The length of the first line of `text`: up to its first newline, or all
/// of it where it has none.
pub open spec fn line_len(text: Seq<u8>) -> nat
    decreases text.len(),
{
    if text.len() == 0 || text.first() == NEWLINE {
        0
    } else {
        1 + line_len(text.drop_first())
    }
}

/// The first line of `text`, without its newline.
pub open spec fn first_line(text: Seq<u8>) -> Seq<u8> {
    text.take(line_len(text) as int)
}

/// What follows the first line of `text` and its newline.
pub open spec fn after_first_line(text: Seq<u8>) -> Seq<u8> {
    if line_len(text) < text.len() {
        text.skip(line_len(text) as int + 1)
    } else {
        Seq::empty()
    }
}

/// The first line ends at the first newline.
pub proof fn lemma_line_len_is(text: Seq<u8>, n: int)
    requires
        0 <= n <= text.len(),
        forall|i: int| 0 <= i < n ==> text[i] != NEWLINE,
        n < text.len() ==> text[n] == NEWLINE,
    ensures
        line_len(text) == n,
    decreases n,
{
    if n > 0 {
        let rest = text.drop_first();
        assert forall|i: int| 0 <= i < n - 1 implies rest[i] != NEWLINE by {
            assert(rest[i] == text[i + 1]);
        }
        lemma_line_len_is(rest, n - 1);
    }
}

/// The next payload of `text`, and what is left of the text after it. Blank
/// lines are passed over, and the end mark ends the payloads whatever
/// follows it. A last line without a newline counts as a line.
pub open spec fn next_payload(text: Seq<u8>) -> (Option<Seq<u8>>, Seq<u8>)
    decreases text.len(),
{
    if text.len() == 0 {
        (None, Seq::empty())
    } else {
        match frame_of(first_line(text)) {
            FrameView::Blank => next_payload(after_first_line(text)),
            FrameView::Done => (None, Seq::empty()),
            FrameView::Payload(payload) => (Some(payload), after_first_line(text)),
        }
    }
}

/// Walks the payloads of a body, line by line.
pub struct SSELines<'a> {
    text: &'a [u8],
    at: usize,
}

impl<'a> SSELines<'a> {
    #[verifier::type_invariant]
    closed spec fn within(&self) -> bool {
        self.at <= self.text@.len()
    }

    /// What is still to be read.
    pub closed spec fn rest(&self) -> Seq<u8> {
        self.text@.skip(self.at as int)
    }

    /// The payloads of `text`, from its start.
    pub fn new(text: &'a [u8]) -> (lines: SSELines<'a>)
        ensures
            lines.rest() == text@,
    {
        assert(text@.skip(0) =~= text@);
        SSELines { text, at: 0 }
    }

    /// The next payload; `None` at the end of the text and at the end mark,
    /// after which nothing is left.
    pub fn next(&mut self) -> (res: Option<Vec<u8>>)
        ensures
            match res {
                Some(payload) => next_payload(old(self).rest()).0 == Some(payload@),
                None => next_payload(old(self).rest()).0 is None,
            },
            final(self).rest() == next_payload(old(self).rest()).1,
    {
        proof {
            use_type_invariant(&*self);
        }
        let text = self.text;
        let len = text.len();
        let mut at = self.at;
        while at < len
            invariant
                at <= len == text@.len(),
                text == self.text,
                text == old(self).text,
                next_payload(old(self).rest()) == next_payload(text@.skip(at as int)),
            decreases len - at,
        {
            let ghost rest = text@.skip(at as int);
            let mut end: usize = at;
            while end < len && text[end] != NEWLINE
                invariant
                    at <= end <= len == text@.len(),
                    forall|i: int| at <= i < end ==> text@[i] != NEWLINE,
                decreases len - end,
            {
                end += 1;
            }
            let next: usize = if end < len {
                end + 1
            } else {
                len
            };
            proof {
                assert forall|i: int| 0 <= i < end - at implies rest[i] != NEWLINE by {
                    assert(rest[i] == text@[at + i]);
                }
                lemma_line_len_is(rest, end - at);
                assert(first_line(rest) =~= text@.subrange(at as int, end as int));
                assert(after_first_line(rest) =~= text@.skip(next as int));
            }
            match classify(slice_subrange(text, at, end)) {
                Frame::Blank => {
                    at = next;
                },
                Frame::Done => {
                    self.at = len;
                    assert(text@.skip(len as int) =~= Seq::<u8>::empty());
                    return None;
                },
                Frame::Payload(payload) => {
                    self.at = next;
                    return Some(payload);
                },
            }
        }
        self.at = len;
        assert(text@.skip(len as int) =~= Seq::<u8>::empty());
        None
    }
}

} // verus!
