//! The probe session: one request/reply cycle per outstanding probe. The
//! session builds a request, records the probe, and later consumes events —
//! a received datagram or an elapsed timeout — handed in by the surrounding
//! transport loop. A reply resolves a probe only when its identifier and
//! sequence match; anything else leaves the probe outstanding. Timestamps are
//! plain milliseconds from a monotonic clock owned by the caller.

use vstd::prelude::*;
use crate::packet::{build_echo_request, echo_request_bytes};
use crate::parser::{parse, spec_parse, ProtocolError};

verus! {

/// One outstanding probe, created when a request is sent and destroyed when a
/// matching reply arrives, a timeout elapses or the probe is cancelled.
#[derive(Clone, Copy, PartialEq, Eq, Structural, Debug)]
pub struct Probe {
    pub identifier: u16,
    pub sequence: u16,
    /// Monotonic timestamp, in milliseconds, of the moment the request left.
    pub sent_at: u64,
}

/// Outcome of one probe, reported to the caller.
#[derive(Clone, Copy, PartialEq, Eq, Structural, Debug)]
pub enum ProbeResult {
    /// A matching Echo Reply arrived after `round_trip_time` milliseconds.
    ReplyReceived { sequence: u16, round_trip_time: u64 },
    /// No matching reply arrived within the caller's bound. Expected, not fatal.
    TimedOut,
    /// A received datagram was malformed; reported, never retried here.
    ProtocolFailed(ProtocolError),
}

/// Whether probe `p` answers to `(identifier, sequence)`.
pub open spec fn probe_matches(p: Probe, identifier: u16, sequence: u16) -> bool {
    p.identifier == identifier && p.sequence == sequence
}

/// Index of the first probe matching `(identifier, sequence)`, or -1 when
/// none does.
pub open spec fn find_probe(probes: Seq<Probe>, identifier: u16, sequence: u16) -> int
    decreases probes.len(),
{
    if probes.len() == 0 {
        -1
    } else if probe_matches(probes[0], identifier, sequence) {
        0
    } else {
        let rest = find_probe(probes.drop_first(), identifier, sequence);
        if rest == -1 {
            -1
        } else {
            rest + 1
        }
    }
}

/// Correlation law: a reply carrying `(identifier, sequence)` selects exactly
/// the first matching outstanding probe — the selected index matches, every
/// earlier index does not, and a result of -1 means no probe matches at all.
pub proof fn lemma_correlation(probes: Seq<Probe>, identifier: u16, sequence: u16)
    ensures
        ({
            let idx = find_probe(probes, identifier, sequence);
            &&& idx == -1 ==> forall|i: int|
                0 <= i < probes.len() ==> !probe_matches(probes[i], identifier, sequence)
            &&& idx != -1 ==> {
                &&& 0 <= idx < probes.len()
                &&& probe_matches(probes[idx], identifier, sequence)
                &&& forall|j: int| 0 <= j < idx ==> !probe_matches(probes[j], identifier, sequence)
            }
        }),
    decreases probes.len(),
{
    if probes.len() > 0 && !probe_matches(probes[0], identifier, sequence) {
        lemma_correlation(probes.drop_first(), identifier, sequence);
        let rest = find_probe(probes.drop_first(), identifier, sequence);
        if rest == -1 {
            assert forall|i: int|
                0 <= i < probes.len() implies !probe_matches(
                probes[i],
                identifier,
                sequence,
            ) by {
                if i > 0 {
                    assert(probes.drop_first()[i - 1] == probes[i]);
                }
            }
        } else {
            assert(probes.drop_first()[rest] == probes[rest + 1]);
            assert forall|j: int| 0 <= j < rest + 1 implies !probe_matches(
                probes[j],
                identifier,
                sequence,
            ) by {
                if j > 0 {
                    assert(probes.drop_first()[j - 1] == probes[j]);
                }
            }
        }
    }
}

/// Finds the first probe in `probes` matching `(identifier, sequence)`.
fn find_first(probes: &[Probe], identifier: u16, sequence: u16) -> (r: Option<usize>)
    ensures
        match r {
            Some(i) => i < probes@.len() && find_probe(probes@, identifier, sequence) == i,
            None => find_probe(probes@, identifier, sequence) == -1,
        },
    decreases probes@.len(),
{
    if probes.len() == 0 {
        None
    } else if probes[0].identifier == identifier && probes[0].sequence == sequence {
        Some(0)
    } else {
        let (_, rest) = probes.split_at(1);
        assert(rest@ =~= probes@.drop_first());
        match find_first(rest, identifier, sequence) {
            Some(i) => Some(i + 1),
            None => None,
        }
    }
}

/// Drives request/reply cycles: owns the outstanding probes, builds requests,
/// and resolves probes from events handed in by the transport loop.
pub struct ProbeSession {
    pub outstanding: Vec<Probe>,
}

impl ProbeSession {
    /// A session with no outstanding probe.
    pub fn new() -> (r: ProbeSession)
        ensures
            r.outstanding@.len() == 0,
    {
        ProbeSession { outstanding: Vec::new() }
    }

    /// Starts one probe: returns the Echo Request bytes to hand to the
    /// transport and records the probe as outstanding, stamped with the
    /// caller's monotonic send time.
    pub fn begin_probe(
        &mut self,
        identifier: u16,
        sequence: u16,
        payload: &[u8],
        sent_at: u64,
    ) -> (r: Vec<u8>)
        ensures
            r@ == echo_request_bytes(identifier, sequence, payload@),
            final(self).outstanding@ == old(self).outstanding@.push(
                Probe { identifier, sequence, sent_at },
            ),
    {
        let request = build_echo_request(identifier, sequence, payload);
        self.outstanding.push(Probe { identifier, sequence, sent_at });
        request
    }

    /// Consumes one received datagram at monotonic time `now`. A malformed
    /// datagram is reported as a protocol failure and changes nothing. A
    /// well-formed reply resolves the first outstanding probe with the same
    /// identifier and sequence, removing it and reporting its round-trip
    /// time; a reply matching no probe is not ours and changes nothing.
    pub fn on_datagram(&mut self, datagram: &[u8], now: u64) -> (r: Option<ProbeResult>)
        requires
            forall|i: int|
                0 <= i < old(self).outstanding@.len()
                    ==> old(self).outstanding@[i].sent_at <= now,
        ensures
            ({
                let probes = old(self).outstanding@;
                match spec_parse(datagram@) {
                    Err(e) => r == Some(ProbeResult::ProtocolFailed(e))
                        && final(self).outstanding@ == probes,
                    Ok(m) => {
                        let idx = find_probe(probes, m.identifier, m.sequence);
                        if idx >= 0 {
                            r == Some(
                                ProbeResult::ReplyReceived {
                                    sequence: m.sequence,
                                    round_trip_time: (now - probes[idx].sent_at) as u64,
                                },
                            ) && final(self).outstanding@ == probes.remove(idx)
                        } else {
                            r is None && final(self).outstanding@ == probes
                        }
                    },
                }
            }),
    {
        match parse(datagram) {
            Err(e) => Some(ProbeResult::ProtocolFailed(e)),
            Ok(reply) => {
                match find_first(self.outstanding.as_slice(), reply.identifier, reply.sequence) {
                    Some(i) => {
                        let probe = self.outstanding[i];
                        self.outstanding.remove(i);
                        Some(
                            ProbeResult::ReplyReceived {
                                sequence: reply.sequence,
                                round_trip_time: now - probe.sent_at,
                            },
                        )
                    },
                    None => None,
                }
            },
        }
    }

    /// Gives up on `(identifier, sequence)` after the caller's receive bound
    /// elapsed: the probe (if still outstanding) is released, so a late reply
    /// can no longer resolve it, and the timeout is reported as an ordinary
    /// outcome.
    pub fn on_timeout(&mut self, identifier: u16, sequence: u16) -> (r: ProbeResult)
        ensures
            r == ProbeResult::TimedOut,
            ({
                let idx = find_probe(old(self).outstanding@, identifier, sequence);
                if idx >= 0 {
                    final(self).outstanding@ == old(self).outstanding@.remove(idx)
                } else {
                    final(self).outstanding@ == old(self).outstanding@
                }
            }),
    {
        self.cancel(identifier, sequence);
        ProbeResult::TimedOut
    }

    /// Releases the first outstanding probe matching `(identifier, sequence)`,
    /// reporting whether one was found. After this, a late or spurious reply
    /// carrying those values cannot be delivered for the released probe.
    pub fn cancel(&mut self, identifier: u16, sequence: u16) -> (r: bool)
        ensures
            r == (find_probe(old(self).outstanding@, identifier, sequence) >= 0),
            ({
                let idx = find_probe(old(self).outstanding@, identifier, sequence);
                if idx >= 0 {
                    final(self).outstanding@ == old(self).outstanding@.remove(idx)
                } else {
                    final(self).outstanding@ == old(self).outstanding@
                }
            }),
    {
        match find_first(self.outstanding.as_slice(), identifier, sequence) {
            Some(i) => {
                self.outstanding.remove(i);
                true
            },
            None => false,
        }
    }

    /// Number of probes still outstanding.
    pub fn outstanding_count(&self) -> (r: usize)
        ensures
            r == self.outstanding@.len(),
    {
        self.outstanding.len()
    }

    /// Whether a probe with `(identifier, sequence)` is still outstanding.
    pub fn contains_probe(&self, identifier: u16, sequence: u16) -> (r: bool)
        ensures
            r == (find_probe(self.outstanding@, identifier, sequence) >= 0),
    {
        match find_first(self.outstanding.as_slice(), identifier, sequence) {
            Some(_) => true,
            None => false,
        }
    }
}

} // verus!
