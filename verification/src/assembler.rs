//! The element assembler: a state machine over ordered tokenizer events.
//!
//! Outside any object it waits for a `node`, `way` or `relation` opening;
//! inside one it buffers child elements until the matching close, then
//! hands the buffered group to the builder and emits the finished record.
//! A skipped kind is tracked but never buffered. Structural violations —
//! a child element outside any object, an object nested in another, an
//! object close with none open — are emitted as error values and end the
//! sequence; end-of-input ends it silently.

use vstd::prelude::*;
use crate::builder::spec_build;
use crate::builder::build_object;
use crate::events::{ElemClass, RawAttr, RawChild, RawEvent, classify_name, spec_classify};
use crate::filter::SkipConfig;
use crate::model::{ObjKind, ObjV, OsmError, ParseItem, item_view, items_view};

verus! {

/// The assembler's state.
pub enum AsmState {
    /// Outside any top-level object.
    Idle,
    /// Inside an object: its kind, whether it is being skipped, and — when
    /// not skipped — the opening element's attributes and the buffered
    /// children in document order.
    InObject { kind: ObjKind, skipping: bool, attrs: Vec<RawAttr>, children: Vec<RawChild> },
    /// The sequence has ended (end of input or a structural violation).
    Done,
}

/// Mathematical form of `AsmState`.
pub ghost enum StateV {
    Idle,
    InObject { kind: ObjKind, skipping: bool, attrs: Seq<RawAttr>, children: Seq<RawChild> },
    Done,
}

impl View for AsmState {
    type V = StateV;

    open spec fn view(&self) -> StateV {
        match self {
            AsmState::Idle => StateV::Idle,
            AsmState::InObject { kind, skipping, attrs, children } => StateV::InObject {
                kind: *kind,
                skipping: *skipping,
                attrs: attrs@,
                children: children@,
            },
            AsmState::Done => StateV::Done,
        }
    }
}

/// What one event produced.
pub enum Step {
    /// Nothing emitted; feed the next event.
    Nothing,
    /// One finished record or one recoverable error.
    Emit(ParseItem),
    /// The sequence has ended; no further event will emit anything.
    Finished,
}

/// Mathematical form of `Step`.
pub ghost enum StepV {
    Nothing,
    Emit(Result<ObjV, OsmError>),
    Finished,
}

impl View for Step {
    type V = StepV;

    open spec fn view(&self) -> StepV {
        match self {
            Step::Nothing => StepV::Nothing,
            Step::Emit(r) => StepV::Emit(item_view(*r)),
            Step::Finished => StepV::Finished,
        }
    }
}

/// The transition relation: one event moves the assembler from one state
/// to the next and yields at most one emission.
pub open spec fn spec_step(s: StateV, cfg: SkipConfig, ev: RawEvent) -> (StateV, StepV) {
    match s {
        StateV::Done => (StateV::Done, StepV::Finished),
        StateV::Idle => match ev {
            RawEvent::Eof => (StateV::Done, StepV::Finished),
            RawEvent::Start { name, attrs } => match spec_classify(name@) {
                ElemClass::Object(kind) => if cfg.spec_skips(kind) {
                    (
                        StateV::InObject {
                            kind,
                            skipping: true,
                            attrs: Seq::empty(),
                            children: Seq::empty(),
                        },
                        StepV::Nothing,
                    )
                } else {
                    (
                        StateV::InObject {
                            kind,
                            skipping: false,
                            attrs: attrs@,
                            children: Seq::empty(),
                        },
                        StepV::Nothing,
                    )
                },
                ElemClass::Child => (
                    StateV::Done,
                    StepV::Emit(Err(OsmError::ChildOutsideObject)),
                ),
                ElemClass::Other => (StateV::Idle, StepV::Nothing),
            },
            RawEvent::Empty { name, attrs } => match spec_classify(name@) {
                ElemClass::Object(kind) => if cfg.spec_skips(kind) {
                    (StateV::Idle, StepV::Nothing)
                } else {
                    (StateV::Idle, StepV::Emit(spec_build(kind, attrs@, Seq::empty())))
                },
                ElemClass::Child => (
                    StateV::Done,
                    StepV::Emit(Err(OsmError::ChildOutsideObject)),
                ),
                ElemClass::Other => (StateV::Idle, StepV::Nothing),
            },
            RawEvent::End { name } => match spec_classify(name@) {
                ElemClass::Object(_) => (
                    StateV::Done,
                    StepV::Emit(Err(OsmError::UnexpectedObjectClose)),
                ),
                _ => (StateV::Idle, StepV::Nothing),
            },
        },
        StateV::InObject { kind, skipping, attrs, children } => match ev {
            RawEvent::Eof => (StateV::Done, StepV::Finished),
            RawEvent::Start { name, attrs: cattrs } => match spec_classify(name@) {
                ElemClass::Object(_) => (StateV::Done, StepV::Emit(Err(OsmError::NestedObject))),
                _ => if skipping {
                    (StateV::InObject { kind, skipping, attrs, children }, StepV::Nothing)
                } else {
                    (
                        StateV::InObject {
                            kind,
                            skipping,
                            attrs,
                            children: children.push(RawChild { name, attrs: cattrs }),
                        },
                        StepV::Nothing,
                    )
                },
            },
            RawEvent::Empty { name, attrs: cattrs } => match spec_classify(name@) {
                ElemClass::Object(_) => (StateV::Done, StepV::Emit(Err(OsmError::NestedObject))),
                _ => if skipping {
                    (StateV::InObject { kind, skipping, attrs, children }, StepV::Nothing)
                } else {
                    (
                        StateV::InObject {
                            kind,
                            skipping,
                            attrs,
                            children: children.push(RawChild { name, attrs: cattrs }),
                        },
                        StepV::Nothing,
                    )
                },
            },
            RawEvent::End { name } => match spec_classify(name@) {
                ElemClass::Object(_) => if skipping {
                    (StateV::Idle, StepV::Nothing)
                } else {
                    (StateV::Idle, StepV::Emit(spec_build(kind, attrs, children)))
                },
                _ => (StateV::InObject { kind, skipping, attrs, children }, StepV::Nothing),
            },
        },
    }
}

/// The emissions of running the machine from `s` over `events`.
pub open spec fn spec_run_from(s: StateV, cfg: SkipConfig, events: Seq<RawEvent>) -> Seq<
    Result<ObjV, OsmError>,
>
    decreases events.len(),
{
    if events.len() == 0 {
        Seq::empty()
    } else {
        let (s2, st) = spec_step(s, cfg, events.first());
        let rest = spec_run_from(s2, cfg, events.drop_first());
        match st {
            StepV::Emit(r) => seq![r] + rest,
            _ => rest,
        }
    }
}

/// The whole result sequence of a parse: what a consumer sees, in order.
pub open spec fn spec_run(events: Seq<RawEvent>, cfg: SkipConfig) -> Seq<Result<ObjV, OsmError>> {
    spec_run_from(StateV::Idle, cfg, events)
}

/// A finished machine emits nothing more.
pub proof fn lemma_run_from_done(cfg: SkipConfig, events: Seq<RawEvent>)
    ensures
        spec_run_from(StateV::Done, cfg, events) == Seq::<Result<ObjV, OsmError>>::empty(),
    decreases events.len(),
{
    if events.len() > 0 {
        lemma_run_from_done(cfg, events.drop_first());
    }
}

/// No success in `outs` carries a record of kind `kind`.
pub open spec fn no_kind(outs: Seq<Result<ObjV, OsmError>>, kind: ObjKind) -> bool {
    forall|i: int| 0 <= i < outs.len() && outs[i] is Ok ==> (#[trigger] outs[i])->Ok_0.kind()
        != kind
}

/// The state never holds an unskipped object of a kind the filter skips.
pub open spec fn state_respects(s: StateV, cfg: SkipConfig) -> bool {
    match s {
        StateV::InObject { kind, skipping, .. } => cfg.spec_skips(kind) ==> skipping,
        _ => true,
    }
}

/// A successful build has the kind it was built for.
pub proof fn lemma_build_kind(kind: ObjKind, attrs: Seq<RawAttr>, children: Seq<RawChild>)
    ensures
        spec_build(kind, attrs, children) is Ok ==> spec_build(kind, attrs, children)->Ok_0.kind()
            == kind,
{
}

/// A skipped kind is never emitted: every success in the run's output has
/// some other kind.
pub proof fn lemma_skipped_kind_silent(
    s: StateV,
    cfg: SkipConfig,
    events: Seq<RawEvent>,
    kind: ObjKind,
)
    requires
        cfg.spec_skips(kind),
        state_respects(s, cfg),
    ensures
        no_kind(spec_run_from(s, cfg, events), kind),
    decreases events.len(),
{
    if events.len() > 0 {
        let ev = events.first();
        let (s2, st) = spec_step(s, cfg, ev);
        assert(state_respects(s2, cfg)) by {
            match ev {
                RawEvent::Start { name, attrs } => {},
                RawEvent::Empty { name, attrs } => {},
                RawEvent::End { name } => {},
                RawEvent::Eof => {},
            }
        }
        lemma_skipped_kind_silent(s2, cfg, events.drop_first(), kind);
        match st {
            StepV::Emit(r) => {
                if r is Ok {
                    match s {
                        StateV::Idle => {
                            match ev {
                                RawEvent::Empty { name, attrs } => {
                                    match spec_classify(name@) {
                                        ElemClass::Object(k) => {
                                            lemma_build_kind(k, attrs@, Seq::empty());
                                        },
                                        _ => {},
                                    }
                                },
                                _ => {},
                            }
                        },
                        StateV::InObject { kind: k, skipping, attrs, children } => {
                            lemma_build_kind(k, attrs, children);
                        },
                        _ => {},
                    }
                }
                let rest = spec_run_from(s2, cfg, events.drop_first());
                assert forall|i: int|
                    0 <= i < spec_run_from(s, cfg, events).len() && spec_run_from(s, cfg, events)[i]
                        is Ok implies (#[trigger] spec_run_from(s, cfg, events)[i])->Ok_0.kind()
                    != kind by {
                    if i > 0 {
                        assert(spec_run_from(s, cfg, events)[i] == rest[i - 1]);
                    }
                }
            },
            _ => {},
        }
    }
}

/// The element assembler.
pub struct Assembler {
    /// Which kinds are skipped; fixed at creation.
    pub cfg: SkipConfig,
    /// The current state.
    pub state: AsmState,
}

impl Assembler {
    /// A skipped in-progress object holds no buffered storage.
    pub open spec fn wf(&self) -> bool {
        match self.state {
            AsmState::InObject { skipping, attrs, children, .. } => skipping ==> attrs@.len()
                == 0 && children@.len() == 0,
            _ => true,
        }
    }

    /// A fresh assembler, outside any object.
    pub fn new(cfg: SkipConfig) -> (a: Assembler)
        ensures
            a.wf(),
            a.cfg == cfg,
            a.state@ == StateV::Idle,
    {
        Assembler { cfg, state: AsmState::Idle }
    }

    /// Feeds one event; the state advances and at most one record or error
    /// comes out, exactly as the transition relation says.
    pub fn handle_event(&mut self, ev: RawEvent) -> (st: Step)
        requires
            old(self).wf(),
        ensures
            final(self).wf(),
            final(self).cfg == old(self).cfg,
            ({
                let (s2, stv) = spec_step(old(self).state@, old(self).cfg, ev);
                final(self).state@ == s2 && st@ == stv
            }),
    {
        let mut taken = AsmState::Idle;
        core::mem::swap(&mut taken, &mut self.state);
        match taken {
            AsmState::Done => {
                self.state = AsmState::Done;
                Step::Finished
            },
            AsmState::Idle => match ev {
                RawEvent::Eof => {
                    self.state = AsmState::Done;
                    Step::Finished
                },
                RawEvent::Start { name, attrs } => match classify_name(name.as_slice()) {
                    ElemClass::Object(kind) => {
                        if self.cfg.skips(kind) {
                            self.state = AsmState::InObject {
                                kind,
                                skipping: true,
                                attrs: Vec::new(),
                                children: Vec::new(),
                            };
                        } else {
                            self.state = AsmState::InObject {
                                kind,
                                skipping: false,
                                attrs,
                                children: Vec::new(),
                            };
                        }
                        Step::Nothing
                    },
                    ElemClass::Child => {
                        self.state = AsmState::Done;
                        Step::Emit(Err(OsmError::ChildOutsideObject))
                    },
                    ElemClass::Other => {
                        self.state = AsmState::Idle;
                        Step::Nothing
                    },
                },
                RawEvent::Empty { name, attrs } => match classify_name(name.as_slice()) {
                    ElemClass::Object(kind) => {
                        self.state = AsmState::Idle;
                        if self.cfg.skips(kind) {
                            Step::Nothing
                        } else {
                            let none: Vec<RawChild> = Vec::new();
                            proof {
                                assert(none@ =~= Seq::<RawChild>::empty());
                            }
                            Step::Emit(build_object(kind, attrs.as_slice(), none.as_slice()))
                        }
                    },
                    ElemClass::Child => {
                        self.state = AsmState::Done;
                        Step::Emit(Err(OsmError::ChildOutsideObject))
                    },
                    ElemClass::Other => {
                        self.state = AsmState::Idle;
                        Step::Nothing
                    },
                },
                RawEvent::End { name } => match classify_name(name.as_slice()) {
                    ElemClass::Object(_) => {
                        self.state = AsmState::Done;
                        Step::Emit(Err(OsmError::UnexpectedObjectClose))
                    },
                    _ => {
                        self.state = AsmState::Idle;
                        Step::Nothing
                    },
                },
            },
            AsmState::InObject { kind, skipping, attrs, mut children } => match ev {
                RawEvent::Eof => {
                    self.state = AsmState::Done;
                    Step::Finished
                },
                RawEvent::Start { name, attrs: cattrs } => match classify_name(name.as_slice()) {
                    ElemClass::Object(_) => {
                        self.state = AsmState::Done;
                        Step::Emit(Err(OsmError::NestedObject))
                    },
                    _ => {
                        if !skipping {
                            children.push(RawChild { name, attrs: cattrs });
                        }
                        self.state = AsmState::InObject { kind, skipping, attrs, children };
                        Step::Nothing
                    },
                },
                RawEvent::Empty { name, attrs: cattrs } => match classify_name(name.as_slice()) {
                    ElemClass::Object(_) => {
                        self.state = AsmState::Done;
                        Step::Emit(Err(OsmError::NestedObject))
                    },
                    _ => {
                        if !skipping {
                            children.push(RawChild { name, attrs: cattrs });
                        }
                        self.state = AsmState::InObject { kind, skipping, attrs, children };
                        Step::Nothing
                    },
                },
                RawEvent::End { name } => match classify_name(name.as_slice()) {
                    ElemClass::Object(_) => {
                        self.state = AsmState::Idle;
                        if skipping {
                            Step::Nothing
                        } else {
                            Step::Emit(build_object(kind, attrs.as_slice(), children.as_slice()))
                        }
                    },
                    _ => {
                        self.state = AsmState::InObject { kind, skipping, attrs, children };
                        Step::Nothing
                    },
                },
            },
        }
    }
}

/// Runs the whole event sequence in the foreground and collects every
/// emission, in document order.
pub fn parse_events(events: Vec<RawEvent>, cfg: SkipConfig) -> (out: Vec<ParseItem>)
    ensures
        items_view(out@) == spec_run(events@, cfg),
{
    let ghost all = events@;
    let mut evs = events;
    let mut machine = Assembler::new(cfg);
    let mut out: Vec<ParseItem> = Vec::new();
    proof {
        assert(items_view(out@) =~= Seq::<Result<ObjV, OsmError>>::empty());
    }
    while evs.len() > 0
        invariant
            all == events@,
            machine.wf(),
            machine.cfg == cfg,
            items_view(out@) + spec_run_from(machine.state@, cfg, evs@) == spec_run(all, cfg),
        decreases evs@.len(),
    {
        let ghost pre = evs@;
        let ghost out_pre = out@;
        let ev = evs.remove(0);
        proof {
            assert(evs@ =~= pre.drop_first());
        }
        let ghost s_pre = machine.state@;
        match machine.handle_event(ev) {
            Step::Nothing => {
                proof {
                    assert(spec_run_from(s_pre, cfg, pre) == spec_run_from(machine.state@, cfg, evs@));
                }
            },
            Step::Emit(r) => {
                out.push(r);
                proof {
                    assert(items_view(out@) =~= items_view(out_pre).push(item_view(r)));
                    assert(spec_run_from(s_pre, cfg, pre) == seq![item_view(r)]
                        + spec_run_from(machine.state@, cfg, evs@));
                    assert(items_view(out_pre).push(item_view(r)) + spec_run_from(
                        machine.state@,
                        cfg,
                        evs@,
                    ) =~= items_view(out_pre) + (seq![item_view(r)] + spec_run_from(
                        machine.state@,
                        cfg,
                        evs@,
                    )));
                }
            },
            Step::Finished => {
                proof {
                    assert(machine.state@ == StateV::Done);
                    lemma_run_from_done(cfg, evs@);
                    assert(items_view(out@) + spec_run_from(machine.state@, cfg, evs@) =~= items_view(
                        out@,
                    ));
                }
                return out;
            },
        }
    }
    proof {
        assert(items_view(out@) + spec_run_from(machine.state@, cfg, evs@) =~= items_view(out@));
    }
    out
}

} // verus!
