//! Text as the sequence of 16-bit units that wide-character interfaces take.

use vstd::prelude::*;
use vstd::std_specs::iter::IteratorSpec;
use vstd::string::*;

verus! {

/// The units that stand for one character: the character's own number where
/// it is below 0x10000, and otherwise a pair of surrogates that share the
/// twenty bits of what lies above, ten bits each, the high ones first.
pub open spec fn wide_units(c: char) -> Seq<u16> {
    let v = c as u32 as int;
    if v < 0x10000 {
        seq![v as u16]
    } else {
        seq![(0xD800 + (v - 0x10000) / 0x400) as u16, (0xDC00 + (v - 0x10000) % 0x400) as u16]
    }
}

/// The units that stand for a text: those of its characters, in order.
pub open spec fn wide(s: Seq<char>) -> Seq<u16>
    decreases s.len(),
{
    if s.len() == 0 {
        Seq::empty()
    } else {
        wide(s.drop_last()) + wide_units(s.last())
    }
}

/// Appends the units of one character.
fn push_wide_units(out: &mut Vec<u16>, c: char)
    ensures
        final(out)@ == old(out)@ + wide_units(c),
{
    let v: u32 = c as u32;
    if v < 0x10000 {
        out.push(v as u16);
        assert(out@ =~= old(out)@ + wide_units(c));
    } else {
        let above: u32 = v - 0x10000;
        let high: u32 = 0xD800 + above / 0x400;
        let low: u32 = 0xDC00 + above % 0x400;
        out.push(high as u16);
        out.push(low as u16);
        assert(out@ =~= old(out)@ + wide_units(c));
    }
}

/// The wide encoding of `s`, without a terminator.
pub fn encode_wide(s: &str) -> (units: Vec<u16>)
    ensures
        units@ == wide(s@),
{
    let mut units: Vec<u16> = Vec::new();
    let mut rest = s.chars();
    let ghost mut done: Seq<char> = Seq::empty();
    loop
        invariant
            rest.obeys_prophetic_iter_laws(),
            rest.decrease() is Some,
            done + rest.remaining() == s@,
            units@ == wide(done),
        ensures
            units@ == wide(s@),
        decreases rest.decrease()->0,
    {
        let ghost before = rest;
        match rest.next() {
            Some(c) => {
                proof {
                    assert(before.remaining().len() > 0);
                    assert(done.push(c) + rest.remaining() =~= done + before.remaining());
                    assert(done.push(c).drop_last() =~= done);
                    done = done.push(c);
                }
                push_wide_units(&mut units, c);
            },
            None => {
                proof {
                    assert(done + rest.remaining() =~= done);
                }
                break ;
            },
        }
    }
    units
}

} // verus!
