//! The rules of the interactive loop.

use vstd::prelude::*;
use vstd::string::StringSliceAdditionalSpecFns;
use crate::frame::{trim, trim_bounds};

verus! {

/// `b` in lower case, where it is an ASCII capital letter.
pub open spec fn lower(b: u8) -> u8 {
    if 0x41 <= b && b <= 0x5a {
        (b + 0x20) as u8
    } else {
        b
    }
}

/// The bytes of `exit`.
pub open spec fn exit_word() -> Seq<u8> {
    seq![0x65u8, 0x78u8, 0x69u8, 0x74u8]
}

/// Whether a line of input is the word `exit`, in any mix of upper and
/// lower case, with nothing but whitespace around it.
pub open spec fn says_exit(line: Seq<u8>) -> bool {
    trim(line).map_values(|b: u8| lower(b)) == exit_word()
}

fn lower_byte(b: u8) -> (res: u8)
    ensures
        res == lower(b),
{
    if 0x41 <= b && b <= 0x5a {
        b + 0x20
    } else {
        b
    }
}

/// Whether `line` asks to leave the interactive loop.
pub fn is_exit(line: &str) -> (res: bool)
    ensures
        res == says_exit(line.spec_bytes()),
{
    let bytes = line.as_bytes();
    let (start, end) = trim_bounds(bytes);
    let ghost word = trim(bytes@).map_values(|b: u8| lower(b));
    if end - start != 4 {
        assert(word.len() != exit_word().len());
        return false;
    }
    let res = lower_byte(bytes[start]) == 0x65 && lower_byte(bytes[start + 1]) == 0x78
        && lower_byte(bytes[start + 2]) == 0x69 && lower_byte(bytes[start + 3]) == 0x74;
    proof {
        let body = bytes@.subrange(start as int, end as int);
        assert(word[0] == lower(body[0]) && word[1] == lower(body[1]) && word[2] == lower(body[2])
            && word[3] == lower(body[3]));
        if res {
            assert(word =~= exit_word());
        } else if word == exit_word() {
            let e = exit_word();
            assert(word[0] == e[0] && word[1] == e[1] && word[2] == e[2] && word[3] == e[3]);
        }
    }
    res
}

/// Says when to draw the line that parts one question from the next: before
/// every question but the first.
pub struct Divider {
    first: bool,
}

impl Divider {
    /// Whether no question has been asked yet.
    pub closed spec fn at_first(&self) -> bool {
        self.first
    }

    /// A divider before the first question.
    pub fn new() -> (divider: Divider)
        ensures
            divider.at_first(),
    {
        Divider { first: true }
    }

    /// Whether to draw the line before the question that comes now.
    pub fn next(&mut self) -> (draw: bool)
        ensures
            draw == !old(self).at_first(),
            !final(self).at_first(),
    {
        let draw = !self.first;
        self.first = false;
        draw
    }
}

} // verus!
