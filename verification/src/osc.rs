//! The payload of an operating system command (an `OSC` sequence of a terminal), byte by byte.

use vstd::prelude::*;

verus! {

/// Collects the payload of one sequence: everything between its opener and its terminator.
#[derive(Debug)]
pub struct OscParser {
    pub payload: Vec<u8>,
}

/// A sequence that was ended.
#[derive(Debug)]
pub struct OscCommand {
    pub payload: Vec<u8>,
    /// The byte that ended it: a bell, or the backslash behind an escape.
    pub terminator: u8,
}

pub struct OscCommandV {
    pub payload: Seq<u8>,
    pub terminator: u8,
}

impl View for OscParser {
    type V = Seq<u8>;

    open spec fn view(&self) -> Seq<u8> {
        self.payload@
    }
}

impl View for OscCommand {
    type V = OscCommandV;

    open spec fn view(&self) -> OscCommandV {
        OscCommandV { payload: self.payload@, terminator: self.terminator }
    }
}

impl OscParser {
    pub fn new() -> (p: OscParser)
        ensures
            p@ == Seq::<u8>::empty(),
    {
        OscParser { payload: Vec::new() }
    }

    /// Takes one byte of the payload.
    pub fn next(&mut self, byte: u8)
        ensures
            final(self)@ == old(self)@.push(byte),
    {
        self.payload.push(byte);
    }

    /// Ends the sequence, and starts a new one.
    pub fn end(&mut self, terminator: u8) -> (c: OscCommand)
        ensures
            c@ == (OscCommandV { payload: old(self)@, terminator }),
            final(self)@ == Seq::<u8>::empty(),
    {
        let mut payload: Vec<u8> = Vec::new();
        let mut i: usize = 0;
        while i < self.payload.len()
            invariant
                i <= self.payload.len(),
                *self == *old(self),
                payload@ == self.payload@.take(i as int),
            decreases self.payload.len() - i,
        {
            payload.push(self.payload[i]);
            i = i + 1;
            assert(payload@ =~= self.payload@.take(i as int));
        }
        assert(payload@ =~= self.payload@);
        self.payload = Vec::new();
        OscCommand { payload, terminator }
    }

    /// Forgets what was taken of a sequence.
    pub fn reset(&mut self)
        ensures
            final(self)@ == Seq::<u8>::empty(),
    {
        self.payload = Vec::new();
    }
}

} // verus!
