//! The stream-processing loop, as a pure step function: mode filtering,
//! one-shot zero calibration, and the display output, driven one decoded
//! message at a time.

use vstd::prelude::*;
use crate::msg::DebugMessage;
use crate::msg::Fixed;
use crate::msg::Location;
use crate::msg::Message;
use crate::msg::Raw;

verus! {

/// Startup configuration whose effects the loop applies.
pub struct Config {
    /// If set, only Locations whose mode equals it exactly are processed.
    pub mode_filter: Option<String>,
    /// If set, the first Location that survives the filter becomes the
    /// zero reference.
    pub rezero: bool,
}

/// The state that outlives a loop iteration: the zero reference, set at
/// most once and never cleared. Holding it as one optional pair rules out
/// a flag that disagrees with its value.
pub struct ProcState {
    pub zero: Option<(Fixed, Fixed)>,
}

/// What one step asks the caller to emit.
#[derive(Clone, PartialEq, Debug)]
pub enum Output {
    /// A debug record: its body and attributes.
    Diagnostic(DebugMessage),
    /// A raw sensor sample, passed through whole.
    Sensor(Raw),
    /// The current display line: coordinates relative to the zero
    /// reference if one is set, and the fix's mode.
    Display { x: Fixed, y: Fixed, mode: String },
}

impl ProcState {
    /// Both coordinates of a set reference are bounded.
    pub open spec fn wf(self) -> bool {
        self.zero matches Some(z) ==> z.0.wf() && z.1.wf()
    }

    /// The startup state: no zero reference yet.
    pub fn new() -> (r: ProcState)
        ensures
            r.zero is None,
            r.wf(),
    {
        ProcState { zero: None }
    }

    /// Runtime test of `wf`.
    pub fn check_wf(&self) -> (b: bool)
        ensures
            b == self.wf(),
    {
        match &self.zero {
            None => true,
            Some(z) => z.0.check_wf() && z.1.check_wf(),
        }
    }
}

/// Whether a Location survives the configured mode filter: no filter, or
/// an exact, case-sensitive match.
pub open spec fn passes_filter(cfg: Config, l: Location) -> bool {
    match cfg.mode_filter {
        None => true,
        Some(f) => f@ == l.mode@,
    }
}

/// The zero reference after a Location that survived the filter: latched
/// from the fix if calibration is requested and nothing is latched yet,
/// unchanged otherwise.
pub open spec fn next_zero(cfg: Config, st: ProcState, l: Location) -> Option<(Fixed, Fixed)> {
    if cfg.rezero && st.zero is None {
        Some((l.x, l.y))
    } else {
        st.zero
    }
}

/// One loop step: the state after a message, and what to emit for it.
pub open spec fn spec_step(cfg: Config, st: ProcState, m: Message) -> (ProcState, Option<Output>) {
    match m {
        Message::Message(d) => (st, Some(Output::Diagnostic(d))),
        Message::Raw(w) => (st, Some(Output::Sensor(w))),
        Message::Location(l) => if !passes_filter(cfg, l) {
            (st, None)
        } else {
            let z = next_zero(cfg, st, l);
            let (zx, zy) = match z {
                None => (0, 0),
                Some(zr) => (zr.0.units as int, zr.1.units as int),
            };
            (
                ProcState { zero: z },
                Some(
                    Output::Display {
                        x: Fixed { units: (l.x.units - zx) as i64 },
                        y: Fixed { units: (l.y.units - zy) as i64 },
                        mode: l.mode,
                    },
                ),
            )
        },
    }
}

/// Performs one loop step on the live state. A debug or raw message is
/// emitted unchanged and moves nothing; a Location is dropped whole if the
/// filter rejects its mode (the reference cannot latch from it), may latch
/// the zero reference once, and is displayed relative to the reference.
pub fn step(cfg: &Config, st: &mut ProcState, m: Message) -> (out: Option<Output>)
    requires
        old(st).wf(),
        m.bounded(),
    ensures
        *final(st) == spec_step(*cfg, *old(st), m).0,
        out == spec_step(*cfg, *old(st), m).1,
        final(st).wf(),
{
    match m {
        Message::Message(d) => Some(Output::Diagnostic(d)),
        Message::Raw(w) => Some(Output::Sensor(w)),
        Message::Location(l) => {
            match &cfg.mode_filter {
                Some(f) => if !f.eq(&l.mode) {
                    return None;
                },
                None => {},
            }
            if cfg.rezero && st.zero.is_none() {
                st.zero = Some((l.x, l.y));
            }
            let (dx, dy) = match &st.zero {
                None => (l.x, l.y),
                Some(z) => (l.x.sub(z.0), l.y.sub(z.1)),
            };
            Some(Output::Display { x: dx, y: dy, mode: l.mode })
        },
    }
}

/// The state after a whole run of the loop over `msgs`, in order.
pub open spec fn run_state(cfg: Config, st: ProcState, msgs: Seq<Message>) -> ProcState
    decreases msgs.len(),
{
    if msgs.len() == 0 {
        st
    } else {
        run_state(cfg, spec_step(cfg, st, msgs[0]).0, msgs.skip(1))
    }
}

/// The first Location in `msgs` that survives the mode filter.
pub open spec fn first_passing(cfg: Config, msgs: Seq<Message>) -> Option<Location>
    decreases msgs.len(),
{
    if msgs.len() == 0 {
        None
    } else {
        match msgs[0] {
            Message::Location(l) => if passes_filter(cfg, l) {
                Some(l)
            } else {
                first_passing(cfg, msgs.skip(1))
            },
            _ => first_passing(cfg, msgs.skip(1)),
        }
    }
}

/// Once the zero reference is set it never changes, whatever messages
/// follow.
pub proof fn lemma_zero_latched(cfg: Config, st: ProcState, msgs: Seq<Message>)
    requires
        st.zero is Some,
    ensures
        run_state(cfg, st, msgs).zero == st.zero,
    decreases msgs.len(),
{
    if msgs.len() > 0 {
        lemma_zero_latched(cfg, spec_step(cfg, st, msgs[0]).0, msgs.skip(1));
    }
}

/// With calibration requested and no reference yet, a run latches the zero
/// reference from the first Location that passes the mode filter — never
/// from one the filter rejects — and from nothing else.
pub proof fn lemma_zero_from_first_passing(cfg: Config, st: ProcState, msgs: Seq<Message>)
    requires
        cfg.rezero,
        st.zero is None,
    ensures
        run_state(cfg, st, msgs).zero == (match first_passing(cfg, msgs) {
            None => None::<(Fixed, Fixed)>,
            Some(l) => Some((l.x, l.y)),
        }),
    decreases msgs.len(),
{
    if msgs.len() > 0 {
        let st1 = spec_step(cfg, st, msgs[0]).0;
        match msgs[0] {
            Message::Location(l) => if passes_filter(cfg, l) {
                lemma_zero_latched(cfg, st1, msgs.skip(1));
            } else {
                lemma_zero_from_first_passing(cfg, st1, msgs.skip(1));
            },
            _ => lemma_zero_from_first_passing(cfg, st1, msgs.skip(1)),
        }
    }
}

} // verus!
