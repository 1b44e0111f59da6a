//! The life of a one-shot listener session.
//!
//! A session accepts exactly one connection and then ends. It moves through
//! five phases in a fixed order: created, bound to a loopback port, one
//! connection accepted, the peer's bytes read, done. [`Session`] records the
//! progress of a running exchange together with the assigned port and the
//! text that was received; the surrounding program performs the socket calls
//! and reports each outcome to the session. Every transition advances the
//! phase by exactly one step, and [`lemma_at_most_one_accept`] shows that a
//! phase trace therefore contains at most one accepting transition.

use vstd::prelude::*;
use vstd::utf8::decode_utf8;
use vstd::utf8::valid_utf8;

use crate::text::received_text;

verus! {

/// The phase a one-shot session is in. A session only ever moves forward:
/// created, bound, accepted, read, done.
#[derive(Clone, Copy, Debug, PartialEq, Eq, Structural)]
pub enum Phase {
    /// No socket exists yet.
    Created,
    /// A listener is bound to a loopback port.
    Bound,
    /// The single connection has been accepted.
    Accepted,
    /// The peer's byte stream has been read to its end.
    Read,
    /// The exchange is over.
    Done,
}

/// How far along its life a phase is.
pub open spec fn phase_rank(p: Phase) -> int {
    match p {
        Phase::Created => 0,
        Phase::Bound => 1,
        Phase::Accepted => 2,
        Phase::Read => 3,
        Phase::Done => 4,
    }
}

/// The phase that follows `p` in a session's life. A finished session
/// stays finished.
pub open spec fn next_phase(p: Phase) -> Phase {
    match p {
        Phase::Created => Phase::Bound,
        Phase::Bound => Phase::Accepted,
        Phase::Accepted => Phase::Read,
        Phase::Read => Phase::Done,
        Phase::Done => Phase::Done,
    }
}

/// The abstract state of a session: its phase, the port the listener was
/// bound to (zero before binding), and the text received so far.
pub struct SessionView {
    pub phase: Phase,
    pub port: u16,
    pub text: Seq<char>,
}

/// A one-shot session: one listener, one connection, one byte stream.
///
/// The program drives it in order: [`Session::record_bound`] with the port
/// the operating system assigned, [`Session::record_accepted`] when the one
/// connection arrives, [`Session::record_received`] with the bytes the peer
/// sent, and [`Session::finish`] once the text has been reported.
pub struct Session {
    phase: Phase,
    port: u16,
    text: String,
}

impl View for Session {
    type V = SessionView;

    closed spec fn view(&self) -> SessionView {
        SessionView { phase: self.phase, port: self.port, text: self.text@ }
    }
}

impl Session {
    /// A fresh session: no socket yet, no port, no text.
    pub fn new() -> (s: Session)
        ensures
            s@.phase is Created,
            s@.port == 0,
            s@.text == Seq::<char>::empty(),
    {
        Session { phase: Phase::Created, port: 0, text: String::new() }
    }

    /// Records that the listener was bound and was assigned `port`.
    pub fn record_bound(&mut self, port: u16)
        requires
            old(self)@.phase is Created,
        ensures
            final(self)@.phase == next_phase(old(self)@.phase),
            final(self)@.phase is Bound,
            final(self)@.port == port,
            final(self)@.text == old(self)@.text,
    {
        self.phase = Phase::Bound;
        self.port = port;
    }

    /// Records that the single connection was accepted.
    pub fn record_accepted(&mut self)
        requires
            old(self)@.phase is Bound,
        ensures
            final(self)@.phase == next_phase(old(self)@.phase),
            final(self)@.phase is Accepted,
            final(self)@.port == old(self)@.port,
            final(self)@.text == old(self)@.text,
    {
        self.phase = Phase::Accepted;
    }

    /// Records the bytes read from the connection, decoded best-effort:
    /// the session's text becomes the decoded UTF-8 text when the bytes are
    /// valid UTF-8 and the empty string otherwise.
    pub fn record_received(&mut self, bytes: &Vec<u8>)
        requires
            old(self)@.phase is Accepted,
        ensures
            final(self)@.phase == next_phase(old(self)@.phase),
            final(self)@.phase is Read,
            final(self)@.port == old(self)@.port,
            valid_utf8(bytes@) ==> final(self)@.text == decode_utf8(bytes@),
            !valid_utf8(bytes@) ==> final(self)@.text == Seq::<char>::empty(),
    {
        self.phase = Phase::Read;
        self.text = received_text(bytes);
    }

    /// Records that the received text was reported; the exchange is over.
    pub fn finish(&mut self)
        requires
            old(self)@.phase is Read,
        ensures
            final(self)@.phase == next_phase(old(self)@.phase),
            final(self)@.phase is Done,
            final(self)@.port == old(self)@.port,
            final(self)@.text == old(self)@.text,
    {
        self.phase = Phase::Done;
    }

    /// The phase the session is in.
    pub fn current_phase(&self) -> (p: Phase)
        ensures
            p == self@.phase,
    {
        self.phase
    }

    /// The port the listener was bound to, zero before binding.
    pub fn port(&self) -> (p: u16)
        ensures
            p == self@.port,
    {
        self.port
    }

    /// The text received from the peer, empty before the read.
    pub fn text(&self) -> (t: &String)
        ensures
            t@ == self@.text,
    {
        &self.text
    }
}

/// True when `t` lists the phases of one session in order: each entry is
/// followed by the phase that [`next_phase`] gives for it.
pub open spec fn is_phase_trace(t: Seq<Phase>) -> bool {
    forall|k: int| 0 <= k < t.len() - 1 ==> t[k + 1] == next_phase(#[trigger] t[k])
}

/// Along a phase trace the rank never decreases: a session never returns to
/// an earlier phase.
pub proof fn lemma_rank_monotonic(t: Seq<Phase>, i: int, j: int)
    requires
        is_phase_trace(t),
        0 <= i <= j < t.len(),
    ensures
        phase_rank(t[i]) <= phase_rank(t[j]),
    decreases j - i,
{
    if i < j {
        lemma_rank_monotonic(t, i, j - 1);
        assert(t[j] == next_phase(t[j - 1]));
    }
}

/// At most one connection is ever accepted: any two accepting transitions
/// of a phase trace (from bound to accepted) are the same transition.
pub proof fn lemma_at_most_one_accept(t: Seq<Phase>, i: int, j: int)
    requires
        is_phase_trace(t),
        0 <= i <= j < t.len() - 1,
        t[i] is Bound,
        t[i + 1] is Accepted,
        t[j] is Bound,
        t[j + 1] is Accepted,
    ensures
        i == j,
{
    if i < j {
        lemma_rank_monotonic(t, i + 1, j);
        assert(false);
    }
}

} // verus!
