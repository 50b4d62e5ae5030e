//! Looks for operating system commands in what a terminal prints, and for the notifications
//! among them.

use vstd::prelude::*;

use crate::osc::{OscCommand, OscCommandV, OscParser};
use crate::text::owned;

verus! {

/// Where in a sequence the output stands.
#[derive(Clone, Copy, Debug, PartialEq, Eq, Structural)]
pub enum Scan {
    Idle,
    SawEsc,
    InOsc,
    InOscSawEsc,
}

pub const ESC: u8 = 0x1b;

pub const BEL: u8 = 0x07;

/// Follows the output of a terminal across the chunks that it comes in.
#[derive(Debug)]
pub struct OscWatcher {
    pub parser: OscParser,
    pub state: Scan,
}

/// What a watcher holds.
pub struct WatchV {
    pub payload: Seq<u8>,
    pub state: Scan,
}

impl View for OscWatcher {
    type V = WatchV;

    open spec fn view(&self) -> WatchV {
        WatchV { payload: self.parser@, state: self.state }
    }
}

/// The watcher before any output.
pub open spec fn fresh() -> WatchV {
    WatchV { payload: seq![], state: Scan::Idle }
}

/// What one byte makes of a watcher, and the sequence that it ends. `ESC ]` opens a sequence, and
/// a bell or `ESC \` ends it; another byte behind an escape inside of it drops it.
pub open spec fn step(w: WatchV, byte: u8) -> (WatchV, Option<OscCommandV>) {
    match w.state {
        Scan::Idle => (
            WatchV {
                state: if byte == ESC {
                    Scan::SawEsc
                } else {
                    Scan::Idle
                },
                ..w
            },
            None,
        ),
        Scan::SawEsc => if byte == 0x5d {
            (WatchV { payload: seq![], state: Scan::InOsc }, None)
        } else {
            (WatchV { state: Scan::Idle, ..w }, None)
        },
        Scan::InOsc => if byte == BEL {
            (fresh(), Some(OscCommandV { payload: w.payload, terminator: BEL }))
        } else if byte == ESC {
            (WatchV { state: Scan::InOscSawEsc, ..w }, None)
        } else {
            (WatchV { payload: w.payload.push(byte), ..w }, None)
        },
        Scan::InOscSawEsc => if byte == 0x5c {
            (fresh(), Some(OscCommandV { payload: w.payload, terminator: 0x5c }))
        } else {
            (WatchV { state: Scan::Idle, ..w }, None)
        },
    }
}

pub open spec fn listed<A>(o: Option<A>) -> Seq<A> {
    match o {
        Some(a) => seq![a],
        None => seq![],
    }
}

/// What a run of bytes makes of a watcher, and the sequences that end in it.
pub open spec fn watched(w: WatchV, bytes: Seq<u8>) -> (WatchV, Seq<OscCommandV>)
    decreases bytes.len(),
{
    if bytes.len() == 0 {
        (w, seq![])
    } else {
        let (front, found) = watched(w, bytes.drop_last());
        let (after, ended) = step(front, bytes.last());
        (after, found + listed(ended))
    }
}

pub open spec fn commands(s: Seq<OscCommand>) -> Seq<OscCommandV> {
    s.map_values(|c: OscCommand| c@)
}

impl OscWatcher {
    pub fn new() -> (w: OscWatcher)
        ensures
            w@ == fresh(),
    {
        OscWatcher { parser: OscParser::new(), state: Scan::Idle }
    }

    fn take(&mut self, byte: u8) -> (r: Option<OscCommand>)
        ensures
            final(self)@ == step(old(self)@, byte).0,
            match r {
                Some(c) => step(old(self)@, byte).1 == Some(c@),
                None => step(old(self)@, byte).1 is None,
            },
    {
        match self.state {
            Scan::Idle => {
                if byte == ESC {
                    self.state = Scan::SawEsc;
                }
                None
            },
            Scan::SawEsc => {
                if byte == 0x5d {
                    self.parser.reset();
                    self.state = Scan::InOsc;
                } else {
                    self.state = Scan::Idle;
                }
                None
            },
            Scan::InOsc => {
                if byte == BEL {
                    self.state = Scan::Idle;
                    Some(self.parser.end(BEL))
                } else if byte == ESC {
                    self.state = Scan::InOscSawEsc;
                    None
                } else {
                    self.parser.next(byte);
                    None
                }
            },
            Scan::InOscSawEsc => {
                self.state = Scan::Idle;
                if byte == 0x5c {
                    Some(self.parser.end(0x5c))
                } else {
                    None
                }
            },
        }
    }

    /// Takes a chunk of output, and gives the sequences that end in it, in order.
    pub fn feed(&mut self, bytes: &[u8]) -> (found: Vec<OscCommand>)
        ensures
            (final(self)@, commands(found@)) == watched(old(self)@, bytes@),
    {
        let ghost before = self@;
        let mut found: Vec<OscCommand> = Vec::new();
        let mut i: usize = 0;
        assert(commands(found@) =~= seq![]);
        while i < bytes.len()
            invariant
                i <= bytes.len(),
                before == old(self)@,
                (self@, commands(found@)) == watched(before, bytes@.take(i as int)),
            decreases bytes.len() - i,
        {
            let ghost was = found@;
            proof {
                assert(bytes@.take(i + 1).drop_last() =~= bytes@.take(i as int));
            }
            match self.take(bytes[i]) {
                Some(c) => {
                    found.push(c);
                    assert(commands(found@) =~= commands(was) + seq![c@]);
                },
                None => {
                    assert(commands(was) + seq![] =~= commands(was));
                },
            }
            i = i + 1;
        }
        assert(bytes@.take(bytes.len() as int) =~= bytes@);
        found
    }
}

/// How the output is cut into chunks makes no difference: the sequences that end in two chunks
/// are those that end in the two as one.
pub proof fn law_chunks(w: WatchV, a: Seq<u8>, b: Seq<u8>)
    ensures
        watched(w, a + b).0 == watched(watched(w, a).0, b).0,
        watched(w, a + b).1 == watched(w, a).1 + watched(watched(w, a).0, b).1,
    decreases b.len(),
{
    if b.len() == 0 {
        assert(a + b =~= a);
        assert(watched(w, a).1 + Seq::<OscCommandV>::empty() =~= watched(w, a).1);
    } else {
        law_chunks(w, a, b.drop_last());
        assert((a + b).drop_last() =~= a + b.drop_last());
        let x = watched(w, a);
        let y = watched(x.0, b.drop_last());
        let ended = step(y.0, b.last()).1;
        assert((x.1 + y.1) + listed(ended) =~= x.1 + (y.1 + listed(ended)));
    }
}

/// Whether bytes can stand in a sequence: no escape and no bell is among them.
pub open spec fn plain(payload: Seq<u8>) -> bool {
    forall|i: int| 0 <= i < payload.len() ==> (#[trigger] payload[i]) != ESC && payload[i] != BEL
}

proof fn lemma_open(w: WatchV)
    requires
        w.state is Idle,
    ensures
        watched(w, seq![ESC, 0x5du8]) == (
            WatchV { payload: seq![], state: Scan::InOsc },
            Seq::<OscCommandV>::empty(),
        ),
{
    let two = seq![ESC, 0x5du8];
    let one = seq![ESC];
    assert(two.drop_last() =~= one);
    assert(one.drop_last() =~= Seq::<u8>::empty());
    assert(watched(w, Seq::<u8>::empty()) == (w, Seq::<OscCommandV>::empty()));
    assert(watched(w, one).0.state == Scan::SawEsc);
    assert(watched(w, one).1 =~= Seq::<OscCommandV>::empty());
    assert(watched(w, two).1 =~= Seq::<OscCommandV>::empty());
}

proof fn lemma_inside(w: WatchV, payload: Seq<u8>)
    requires
        w.state is InOsc,
        plain(payload),
    ensures
        watched(w, payload) == (
            WatchV { payload: w.payload + payload, ..w },
            Seq::<OscCommandV>::empty(),
        ),
    decreases payload.len(),
{
    if payload.len() == 0 {
        assert(w.payload + payload =~= w.payload);
    } else {
        let front = payload.drop_last();
        assert(plain(front)) by {
            assert forall|i: int| 0 <= i < front.len() implies (#[trigger] front[i]) != ESC
                && front[i] != BEL by {
                assert(front[i] == payload[i]);
            }
        }
        lemma_inside(w, front);
        assert(payload[payload.len() - 1] != ESC);
        assert((w.payload + front).push(payload.last()) =~= w.payload + payload);
        assert(watched(w, payload).1 =~= Seq::<OscCommandV>::empty());
    }
}

proof fn lemma_one(w: WatchV, byte: u8)
    ensures
        watched(w, seq![byte]) == (step(w, byte).0, listed(step(w, byte).1)),
{
    assert(seq![byte].drop_last() =~= Seq::<u8>::empty());
    assert(watched(w, Seq::<u8>::empty()) == (w, Seq::<OscCommandV>::empty()));
    assert(Seq::<OscCommandV>::empty() + listed(step(w, byte).1) =~= listed(step(w, byte).1));
}

/// A whole sequence is found with its payload, whatever was before it outside of a sequence, and
/// the watcher is outside of a sequence behind it: with a bell at its end, and with `ESC \`.
pub proof fn law_sequence_found(w: WatchV, payload: Seq<u8>)
    requires
        w.state is Idle,
        plain(payload),
    ensures
        watched(w, seq![ESC, 0x5du8] + payload + seq![BEL]) == (
            fresh(),
            seq![OscCommandV { payload, terminator: BEL }],
        ),
        watched(w, seq![ESC, 0x5du8] + payload + seq![ESC, 0x5cu8]) == (
            fresh(),
            seq![OscCommandV { payload, terminator: 0x5cu8 }],
        ),
{
    let opener = seq![ESC, 0x5du8];
    let empty = Seq::<OscCommandV>::empty();
    lemma_open(w);
    let opened = watched(w, opener).0;
    lemma_inside(opened, payload);
    law_chunks(w, opener, payload);
    assert(opened.payload + payload =~= payload);
    assert(empty + empty =~= empty);
    let inside = watched(w, opener + payload).0;
    assert(inside == (WatchV { payload, state: Scan::InOsc }));
    law_chunks(w, opener + payload, seq![BEL]);
    lemma_one(inside, BEL);
    let rung = seq![OscCommandV { payload, terminator: BEL }];
    assert(empty + rung =~= rung);
    law_chunks(w, opener + payload, seq![ESC, 0x5cu8]);
    assert(seq![ESC, 0x5cu8] =~= seq![ESC] + seq![0x5cu8]);
    law_chunks(inside, seq![ESC], seq![0x5cu8]);
    lemma_one(inside, ESC);
    lemma_one(step(inside, ESC).0, 0x5cu8);
    let ended = seq![OscCommandV { payload, terminator: 0x5cu8 }];
    assert(empty + ended =~= ended);
}

// ---- what is shown ------------------------------------------------------------------------

/// A notification: its title, which is often empty, and its body.
pub type Notification = (String, String);

pub open spec fn notification_views(s: Seq<Notification>) -> Seq<(Seq<char>, Seq<char>)> {
    s.map_values(|n: Notification| (n.0@, n.1@))
}

/// The notifications among what the sequences were understood as, in order.
pub open spec fn notifications(read: Seq<Option<Notification>>) -> Seq<(Seq<char>, Seq<char>)>
    decreases read.len(),
{
    if read.len() == 0 {
        seq![]
    } else {
        match read.last() {
            Some(n) => notifications(read.drop_last()).push((n.0@, n.1@)),
            None => notifications(read.drop_last()),
        }
    }
}

/// The notifications among what the sequences of a chunk were understood as.
pub fn desktop_notifications(read: &Vec<Option<Notification>>) -> (out: Vec<Notification>)
    ensures
        notification_views(out@) == notifications(read@),
{
    let mut out: Vec<Notification> = Vec::new();
    let mut i: usize = 0;
    assert(notification_views(out@) =~= seq![]);
    while i < read.len()
        invariant
            i <= read.len(),
            notification_views(out@) == notifications(read@.take(i as int)),
        decreases read.len() - i,
    {
        let ghost before = out@;
        proof {
            assert(read@.take(i + 1).drop_last() =~= read@.take(i as int));
        }
        match &read[i] {
            Some(n) => {
                let copy: Notification = (owned(n.0.as_str()), owned(n.1.as_str()));
                out.push(copy);
                assert(notification_views(out@) =~= notification_views(before).push(
                    (copy.0@, copy.1@),
                ));
            },
            None => {},
        }
        i = i + 1;
    }
    assert(read@.take(read.len() as int) =~= read@);
    out
}

/// Outside a sequence nothing is found: only an escape and a bracket start one. A sequence that an
/// escape breaks off is dropped.
pub proof fn law_nothing_found(w: WatchV, byte: u8)
    ensures
        !(w.state is InOsc) && !(w.state is InOscSawEsc) ==> step(w, byte).1 is None,
        step(w, byte).0.state is InOsc && !(w.state is InOsc) ==> w.state is SawEsc && byte == 0x5d
            && step(w, byte).0.payload.len() == 0,
        w.state is InOsc && byte != 0x07 && byte != 0x1b ==> step(w, byte).0.payload
            == w.payload.push(byte) && step(w, byte).0.state is InOsc && step(w, byte).1 is None,
        w.state is InOscSawEsc && byte != 0x5c ==> step(w, byte).0.state is Idle && step(
            w,
            byte,
        ).1 is None,
        step(w, byte).1 matches Some(c) ==> c.payload == w.payload && c.terminator == byte && (byte
            == 0x07 || byte == 0x5c),
{
}

/// What can be read is told, in order, its title before its body.
pub proof fn law_notifications(read: Seq<Option<Notification>>, n: Notification)
    ensures
        notifications(seq![]).len() == 0,
        notifications(read.push(None)) == notifications(read),
        notifications(read.push(Some(n))) == notifications(read).push((n.0@, n.1@)),
{
    assert(read.push(None).drop_last() =~= read);
    assert(read.push(Some(n)).drop_last() =~= read);
}

} // verus!
