//! Reachability bookkeeping for the list.
//!
//! A background prober times TCP connects to each host's SSH port; its
//! results are keyed by `"host:port"` and folded into a [`ProbeState`] per
//! host. A latency sample is whatever type the prober measures in; this
//! module only keeps the record.

use std::collections::VecDeque;

use vstd::prelude::*;

use crate::storage::{Session, SessionView};
use crate::text;

verus! {

/// How many past latency samples to keep per host (drives the sparkline).
pub const HISTORY_CAP: usize = 12;

/// The `"host:port"` key used to look up probe state.
pub fn key(host: &str, port: u16) -> (r: String)
    ensures
        r@ == host@ + seq![':'] + text::decimal(port as nat),
{
    let mut s = text::to_owned_string(host);
    text::push_char(&mut s, ':');
    text::push_decimal(&mut s, port);
    s
}

/// Per-host reachability state.
#[derive(Clone, Debug)]
pub struct ProbeState<T> {
    /// Most recent probe outcome: `Some(latency)` reachable, `None` never
    /// probed or unreachable.
    pub last: Option<T>,
    /// Whether a result came back at least once (tells "probing…" from
    /// "unreachable").
    pub seen: bool,
    /// Recent latency samples (reachable probes only), oldest first.
    pub history: VecDeque<T>,
}

/// What the status glyph of a host shows.
#[derive(Clone, Copy, Debug, PartialEq, Eq)]
pub enum ProbeStatus {
    /// No result yet.
    NotProbed,
    /// The last probe failed.
    Unreachable,
    /// The last probe connected; its latency is in `last`.
    Reachable,
}

/// The history after one more reachable sample: the oldest sample drops out
/// once [`HISTORY_CAP`] are kept.
pub open spec fn pushed_history<T>(h: Seq<T>, x: T) -> Seq<T> {
    if h.len() >= HISTORY_CAP {
        h.drop_first().push(x)
    } else {
        h.push(x)
    }
}

impl<T> Default for ProbeState<T> {
    fn default() -> (s: ProbeState<T>)
        ensures
            s.last is None,
            !s.seen,
            s.history@.len() == 0,
    {
        ProbeState { last: None, seen: false, history: VecDeque::new() }
    }
}

impl<T: Copy> ProbeState<T> {
    /// The history holds at most [`HISTORY_CAP`] samples.
    pub open spec fn wf(&self) -> bool {
        self.history@.len() <= HISTORY_CAP
    }

    /// Fold one probe result in: the host now counts as seen, the result is
    /// the latest, and a reachable sample joins the history.
    pub fn record(&mut self, latency: Option<T>)
        requires
            old(self).wf(),
        ensures
            final(self).wf(),
            final(self).seen,
            final(self).last == latency,
            final(self).history@ == match latency {
                Some(x) => pushed_history(old(self).history@, x),
                None => old(self).history@,
            },
    {
        self.seen = true;
        self.last = latency;
        if let Some(x) = latency {
            if self.history.len() >= HISTORY_CAP {
                self.history.pop_front();
            }
            self.history.push_back(x);
        }
    }

    /// The status shown for this host.
    pub fn status(&self) -> (st: ProbeStatus)
        ensures
            st == (if !self.seen {
                ProbeStatus::NotProbed
            } else if self.last is None {
                ProbeStatus::Unreachable
            } else {
                ProbeStatus::Reachable
            }),
    {
        if !self.seen {
            ProbeStatus::NotProbed
        } else if self.last.is_none() {
            ProbeStatus::Unreachable
        } else {
            ProbeStatus::Reachable
        }
    }
}

/// The history keeps exactly the most recent reachable samples: after any
/// run of results it is the last [`HISTORY_CAP`] (or fewer) of the samples
/// recorded, oldest first.
pub open spec fn history_after<T>(h: Seq<T>, results: Seq<Option<T>>) -> Seq<T>
    decreases results.len(),
{
    if results.len() == 0 {
        h
    } else {
        let h2 = match results[0] {
            Some(x) => pushed_history(h, x),
            None => h,
        };
        history_after(h2, results.drop_first())
    }
}

/// The reachable samples among `results`, in order.
pub open spec fn samples<T>(results: Seq<Option<T>>) -> Seq<T>
    decreases results.len(),
{
    if results.len() == 0 {
        Seq::empty()
    } else {
        let rest = samples(results.drop_first());
        match results[0] {
            Some(x) => seq![x] + rest,
            None => rest,
        }
    }
}

/// The last `n` elements of `s` (all of it when shorter).
pub open spec fn last_n<T>(s: Seq<T>, n: nat) -> Seq<T> {
    if s.len() <= n {
        s
    } else {
        s.subrange(s.len() - n, s.len() as int)
    }
}

/// The capped history is the most recent samples: starting from `h`, it ends
/// as the last [`HISTORY_CAP`] of `h` followed by every reachable sample, and
/// an unreachable result never adds to it.
pub proof fn lemma_history_is_recent<T>(h: Seq<T>, results: Seq<Option<T>>)
    requires
        h.len() <= HISTORY_CAP,
    ensures
        history_after(h, results) == last_n(h + samples(results), HISTORY_CAP as nat),
    decreases results.len(),
{
    if results.len() == 0 {
        assert(h + samples(results) =~= h);
    } else {
        let h2 = match results[0] {
            Some(x) => pushed_history(h, x),
            None => h,
        };
        lemma_history_is_recent(h2, results.drop_first());
        let rest = samples(results.drop_first());
        match results[0] {
            Some(x) => {
                assert(samples(results) == seq![x] + rest);
                assert(h + samples(results) =~= h.push(x) + rest);
                if h.len() >= HISTORY_CAP {
                    assert(h2 =~= h.push(x).drop_first());
                    let all = h.push(x) + rest;
                    assert(h2 + rest =~= all.subrange(1, all.len() as int));
                    assert(last_n(h2 + rest, HISTORY_CAP as nat) =~= last_n(all, HISTORY_CAP as nat));
                } else {
                    assert(h2 =~= h.push(x));
                }
            },
            None => {
                assert(samples(results) == rest);
            },
        }
    }
}

/// The hosts the prober should watch: every session's `(host, port)` in list
/// order while probing is on, none while it is off.
pub open spec fn probe_targets_spec(s: Seq<SessionView>, enabled: bool) -> Seq<(Seq<char>, u16)> {
    if enabled {
        s.map_values(|x: SessionView| (x.host, x.port))
    } else {
        Seq::empty()
    }
}

/// The `(host, port)` targets to hand the prober.
pub fn probe_targets(sessions: &Vec<Session>, enabled: bool) -> (r: Vec<(String, u16)>)
    ensures
        r@.map_values(|t: (String, u16)| (t.0@, t.1)) == probe_targets_spec(
            crate::storage::sessions_view(sessions@),
            enabled,
        ),
{
    let ghost sv = crate::storage::sessions_view(sessions@);
    let mut out: Vec<(String, u16)> = Vec::new();
    if !enabled {
        assert(out@.map_values(|t: (String, u16)| (t.0@, t.1)) =~= Seq::<(Seq<char>, u16)>::empty());
        return out;
    }
    let mut i: usize = 0;
    while i < sessions.len()
        invariant
            0 <= i <= sessions.len(),
            sv == crate::storage::sessions_view(sessions@),
            out@.map_values(|t: (String, u16)| (t.0@, t.1)) == sv.subrange(0, i as int).map_values(
                |x: SessionView| (x.host, x.port),
            ),
        decreases sessions.len() - i,
    {
        let ghost before = out@;
        out.push((sessions[i].host.clone(), sessions[i].port));
        assert(out@.map_values(|t: (String, u16)| (t.0@, t.1)) =~= before.map_values(
            |t: (String, u16)| (t.0@, t.1),
        ).push((sessions@[i as int]@.host, sessions@[i as int]@.port)));
        assert(sv.subrange(0, i + 1).map_values(|x: SessionView| (x.host, x.port)) =~= sv.subrange(
            0,
            i as int,
        ).map_values(|x: SessionView| (x.host, x.port)).push((sv[i as int].host, sv[i as int].port)));
        i += 1;
    }
    assert(sv.subrange(0, sv.len() as int) =~= sv);
    out
}

} // verus!
