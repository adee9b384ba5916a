//! The progress indicator shown while a reply is outstanding: a counter of
//! dots that grows from none to five, clears itself, and starts over. Each
//! step yields the exact bytes to draw; writing them to the terminal, and the
//! timing between steps, stay outside this crate.

use vstd::prelude::*;

verus! {

/// `\rThinking` — the carriage return takes the cursor back so that each
/// frame overwrites the one before it.
pub open spec fn thinking_prefix() -> Seq<u8> {
    seq![13u8, 84u8, 104u8, 105u8, 110u8, 107u8, 105u8, 110u8, 103u8]
}

/// The frame drawn for a dot count: the prefix followed by that many dots,
/// or, when the count has reached six, by six blanks that wipe them away.
pub open spec fn frame_bytes(dots: nat) -> Seq<u8> {
    if dots >= 6 {
        thinking_prefix() + Seq::new(6, |i: int| 32u8)
    } else {
        thinking_prefix() + Seq::new(dots, |i: int| 46u8)
    }
}

/// The dot count after one step: one more, until the wipe resets it.
pub open spec fn next_dots(dots: nat) -> nat {
    if dots >= 6 {
        0
    } else {
        dots + 1
    }
}

/// The closing frame: the line wiped clean and ended, leaving room for what
/// follows it.
pub open spec fn stop_bytes() -> Seq<u8> {
    thinking_prefix() + Seq::new(7, |i: int| 32u8) + seq![10u8]
}

/// The indicator's state: how many dots the last frame showed.
pub struct Spinner {
    dots: u8,
}

impl View for Spinner {
    type V = nat;

    closed spec fn view(&self) -> nat {
        self.dots as nat
    }
}

impl Spinner {
    /// A fresh indicator has drawn nothing yet.
    pub fn new() -> (s: Spinner)
        ensures
            s@ == 0,
    {
        Spinner { dots: 0 }
    }

    /// One step: the bytes of the next frame, and the state advanced.
    pub fn tick(&mut self) -> (frame: Vec<u8>)
        ensures
            frame@ == frame_bytes(old(self)@),
            final(self)@ == next_dots(old(self)@),
    {
        let mut out: Vec<u8> = Vec::new();
        out.push(13);
        out.push(84);
        out.push(104);
        out.push(105);
        out.push(110);
        out.push(107);
        out.push(105);
        out.push(110);
        out.push(103);
        proof {
            assert(out@ =~= thinking_prefix());
        }
        if self.dots >= 6 {
            let mut k: u8 = 0;
            while k < 6
                invariant
                    k <= 6,
                    out@ == thinking_prefix() + Seq::new(k as nat, |i: int| 32u8),
                decreases 6 - k,
            {
                out.push(32);
                proof {
                    assert(out@ =~= thinking_prefix() + Seq::new(k as nat + 1, |i: int| 32u8));
                }
                k = k + 1;
            }
            self.dots = 0;
        } else {
            let target = self.dots;
            let mut k: u8 = 0;
            while k < target
                invariant
                    k <= target,
                    out@ == thinking_prefix() + Seq::new(k as nat, |i: int| 46u8),
                decreases target - k,
            {
                out.push(46);
                proof {
                    assert(out@ =~= thinking_prefix() + Seq::new(k as nat + 1, |i: int| 46u8));
                }
                k = k + 1;
            }
            self.dots = self.dots + 1;
        }
        out
    }

    /// The bytes that close the indicator once the reply has arrived.
    pub fn stop_frame() -> (frame: Vec<u8>)
        ensures
            frame@ == stop_bytes(),
    {
        let mut out: Vec<u8> = Vec::new();
        out.push(13);
        out.push(84);
        out.push(104);
        out.push(105);
        out.push(110);
        out.push(107);
        out.push(105);
        out.push(110);
        out.push(103);
        let mut k: u8 = 0;
        while k < 7
            invariant
                k <= 7,
                out@ == thinking_prefix() + Seq::new(k as nat, |i: int| 32u8),
            decreases 7 - k,
        {
            out.push(32);
            proof {
                assert(out@ =~= thinking_prefix() + Seq::new(k as nat + 1, |i: int| 32u8));
            }
            k = k + 1;
        }
        out.push(10);
        proof {
            assert(out@ =~= stop_bytes());
        }
        out
    }
}

} // verus!
