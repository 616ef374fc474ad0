//! The consumption interface: a forward-only lazy sequence of results, and
//! fail-fast drivers that run it to completion, per kind or for every kept
//! kind. Every driver stops at the first error and hands it back; nothing
//! after it is consumed.

use vstd::prelude::*;
use crate::assembler::{Assembler, StateV, Step, lemma_run_from_done, lemma_skipped_kind_silent,
    no_kind, spec_run, spec_run_from};
use crate::events::RawEvent;
use crate::filter::{SkipConfig, only_kind};
use crate::model::{Node, ObjKind, ObjV, OsmError, OsmObj, ParseItem, Relation, Way, item_view};

verus! {

/// A forward-only reader over an event sequence: each call to `next`
/// yields the next record or error, until the sequence ends.
pub struct OsmReader {
    machine: Assembler,
    events: Vec<RawEvent>,
}

impl OsmReader {
    /// Internal soundness of the assembler state.
    pub closed spec fn wf(&self) -> bool {
        self.machine.wf()
    }

    /// The results not yet handed out, in order.
    pub closed spec fn pending(&self) -> Seq<Result<ObjV, OsmError>> {
        spec_run_from(self.machine.state@, self.machine.cfg, self.events@)
    }

    /// A reader over `events` with the given filter.
    pub fn new(events: Vec<RawEvent>, cfg: SkipConfig) -> (r: OsmReader)
        ensures
            r.wf(),
            r.pending() == spec_run(events@, cfg),
    {
        OsmReader { machine: Assembler::new(cfg), events }
    }

    /// The next record or error; `None` once the sequence has ended. The
    /// sequence is single-pass and not restartable.
    #[verifier::loop_isolation(false)]
    pub fn next(&mut self) -> (r: Option<ParseItem>)
        requires
            old(self).wf(),
        ensures
            final(self).wf(),
            match r {
                Some(item) => old(self).pending() == seq![item_view(item)]
                    + final(self).pending(),
                None => old(self).pending().len() == 0 && final(self).pending().len() == 0,
            },
    {
        let ghost pend0 = self.pending();
        while self.events.len() > 0
            invariant
                self.machine.wf(),
                self.pending() == pend0,
            decreases self.events@.len(),
        {
            let ghost pre = self.events@;
            let ev = self.events.remove(0);
            proof {
                assert(self.events@ =~= pre.drop_first());
            }
            match self.machine.handle_event(ev) {
                Step::Nothing => {},
                Step::Emit(item) => {
                    return Some(item);
                },
                Step::Finished => {
                    proof {
                        lemma_run_from_done(self.machine.cfg, self.events@);
                    }
                    return None;
                },
            }
        }
        None
    }
}

/// Fail-fast reduction of a result sequence: the records up to the end,
/// or the first error.
pub open spec fn spec_failfast(outs: Seq<Result<ObjV, OsmError>>) -> Result<Seq<ObjV>, OsmError>
    decreases outs.len(),
{
    if outs.len() == 0 {
        Ok(Seq::empty())
    } else {
        match outs.first() {
            Err(e) => Err(e),
            Ok(o) => match spec_failfast(outs.drop_first()) {
                Err(e) => Err(e),
                Ok(s) => Ok(seq![o] + s),
            },
        }
    }
}

/// The payloads of a sequence of successes.
pub open spec fn ok_vals(s: Seq<Result<ObjV, OsmError>>) -> Seq<ObjV> {
    s.map_values(|r: Result<ObjV, OsmError>| r->Ok_0)
}

/// Reduction of a sequence that starts with successes: the head records
/// are kept and the tail decides the outcome.
proof fn lemma_failfast_prefix(a: Seq<Result<ObjV, OsmError>>, b: Seq<Result<ObjV, OsmError>>)
    requires
        forall|i: int| 0 <= i < a.len() ==> a[i] is Ok,
    ensures
        spec_failfast(a + b) == (match spec_failfast(b) {
            Ok(s) => Ok::<Seq<ObjV>, OsmError>(ok_vals(a) + s),
            Err(e) => Err::<Seq<ObjV>, OsmError>(e),
        }),
    decreases a.len(),
{
    if a.len() == 0 {
        assert(a + b =~= b);
        match spec_failfast(b) {
            Ok(s) => {
                assert(ok_vals(a) + s =~= s);
            },
            Err(e) => {},
        }
    } else {
        let a2 = a.drop_first();
        assert((a + b).drop_first() =~= a2 + b);
        assert((a + b).first() == a.first());
        lemma_failfast_prefix(a2, b);
        match spec_failfast(b) {
            Ok(s) => {
                assert(ok_vals(a) + s =~= seq![a.first()->Ok_0] + (ok_vals(a2) + s));
            },
            Err(e) => {},
        }
    }
}

/// A fail-fast reduction keeps only kinds that appear among the successes.
proof fn lemma_failfast_kinds(outs: Seq<Result<ObjV, OsmError>>, kind: ObjKind)
    requires
        no_kind(outs, kind),
        spec_failfast(outs) is Ok,
    ensures
        forall|j: int| 0 <= j < spec_failfast(outs)->Ok_0.len() ==> (#[trigger] spec_failfast(
            outs,
        )->Ok_0[j]).kind() != kind,
    decreases outs.len(),
{
    if outs.len() > 0 {
        assert(no_kind(outs.drop_first(), kind)) by {
            assert(forall|i: int|
                0 <= i < outs.drop_first().len() ==> outs.drop_first()[i] == outs[i + 1]);
        }
        lemma_failfast_kinds(outs.drop_first(), kind);
        let s = spec_failfast(outs)->Ok_0;
        let s2 = spec_failfast(outs.drop_first())->Ok_0;
        assert(outs[0] is Ok);
        assert forall|j: int| 0 <= j < s.len() implies (#[trigger] s[j]).kind() != kind by {
            if j > 0 {
                assert(s[j] == s2[j - 1]);
            }
        }
    }
}

/// Runs the sequence to completion under `cfg`, fail-fast: the kept
/// records in document order, or the first error.
pub fn run_filtered(events: Vec<RawEvent>, cfg: SkipConfig) -> (r: Result<Vec<OsmObj>, OsmError>)
    ensures
        match r {
            Ok(objs) => spec_failfast(spec_run(events@, cfg)) == Ok::<Seq<ObjV>, OsmError>(
                objs@.map_values(|o: OsmObj| o@),
            ),
            Err(e) => spec_failfast(spec_run(events@, cfg)) == Err::<Seq<ObjV>, OsmError>(e),
        },
{
    let ghost all = events@;
    let mut evs = events;
    let mut machine = Assembler::new(cfg);
    let mut objs: Vec<OsmObj> = Vec::new();
    proof {
        assert(objs@.map_values(|o: OsmObj| Ok::<ObjV, OsmError>(o@)) =~= Seq::<
            Result<ObjV, OsmError>,
        >::empty());
    }
    while evs.len() > 0
        invariant
            all == events@,
            machine.wf(),
            machine.cfg == cfg,
            objs@.map_values(|o: OsmObj| Ok::<ObjV, OsmError>(o@)) + spec_run_from(
                machine.state@,
                cfg,
                evs@,
            ) == spec_run(all, cfg),
        decreases evs@.len(),
    {
        let ghost pre = evs@;
        let ghost oks_pre = objs@.map_values(|o: OsmObj| Ok::<ObjV, OsmError>(o@));
        let ev = evs.remove(0);
        proof {
            assert(evs@ =~= pre.drop_first());
        }
        match machine.handle_event(ev) {
            Step::Nothing => {},
            Step::Emit(item) => match item {
                Err(e) => {
                    proof {
                        let rest = spec_run_from(machine.state@, cfg, evs@);
                        lemma_failfast_prefix(oks_pre, seq![item_view(item)] + rest);
                        assert((seq![item_view(item)] + rest).first() == item_view(item));
                    }
                    return Err(e);
                },
                Ok(o) => {
                    let ghost objs_pre = objs@;
                    objs.push(o);
                    proof {
                        assert(objs@.map_values(|x: OsmObj| Ok::<ObjV, OsmError>(x@))
                            =~= objs_pre.map_values(|x: OsmObj| Ok::<ObjV, OsmError>(x@)).push(
                            Ok(o@),
                        ));
                        let rest = spec_run_from(machine.state@, cfg, evs@);
                        assert(oks_pre.push(Ok(o@)) + rest =~= oks_pre + (seq![
                            Ok::<ObjV, OsmError>(o@),
                        ] + rest));
                        assert(item_view(item) == Ok::<ObjV, OsmError>(o@));
                    }
                },
            },
            Step::Finished => {
                proof {
                    lemma_run_from_done(cfg, evs@);
                    let oks = objs@.map_values(|o: OsmObj| Ok::<ObjV, OsmError>(o@));
                    assert(oks + spec_run_from(machine.state@, cfg, evs@) =~= oks);
                    lemma_failfast_prefix(oks, Seq::empty());
                    assert(oks + Seq::<Result<ObjV, OsmError>>::empty() =~= oks);
                    assert(ok_vals(oks) + Seq::<ObjV>::empty() =~= ok_vals(oks));
                    assert(ok_vals(oks) =~= objs@.map_values(|o: OsmObj| o@));
                }
                return Ok(objs);
            },
        }
    }
    proof {
        let oks = objs@.map_values(|o: OsmObj| Ok::<ObjV, OsmError>(o@));
        assert(oks + spec_run_from(machine.state@, cfg, evs@) =~= oks);
        assert(spec_run(all, cfg) == oks);
        lemma_failfast_prefix(oks, Seq::empty());
        assert(oks + Seq::<Result<ObjV, OsmError>>::empty() =~= oks);
        assert(ok_vals(oks) + Seq::<ObjV>::empty() =~= ok_vals(oks));
        assert(ok_vals(oks) =~= objs@.map_values(|o: OsmObj| o@));
    }
    Ok(objs)
}

/// The node driver's filter: keep nodes, skip ways and relations.
pub open spec fn node_driver_cfg() -> SkipConfig {
    SkipConfig { skip_nodes: false, skip_ways: true, skip_relations: true }
}

/// The way driver's filter.
pub open spec fn way_driver_cfg() -> SkipConfig {
    SkipConfig { skip_nodes: true, skip_ways: false, skip_relations: true }
}

/// The relation driver's filter.
pub open spec fn relation_driver_cfg() -> SkipConfig {
    SkipConfig { skip_nodes: true, skip_ways: true, skip_relations: false }
}

/// Runs the sequence for nodes only, fail-fast: every node in document
/// order, or the first error. Ways and relations are skipped outright,
/// so nothing of theirs is typed, built or reported.
#[verifier::loop_isolation(false)]
pub fn collect_nodes(events: Vec<RawEvent>) -> (r: Result<Vec<Node>, OsmError>)
    ensures
        match r {
            Ok(ns) => spec_failfast(spec_run(events@, node_driver_cfg())) == Ok::<
                Seq<ObjV>,
                OsmError,
            >(ns@.map_values(|n: Node| ObjV::Node(n@))),
            Err(e) => spec_failfast(spec_run(events@, node_driver_cfg())) == Err::<
                Seq<ObjV>,
                OsmError,
            >(e),
        },
{
    let cfg = only_kind(ObjKind::Node);
    let ghost outs = spec_run(events@, cfg);
    proof {
        lemma_skipped_kind_silent(StateV::Idle, cfg, events@, ObjKind::Way);
        lemma_skipped_kind_silent(StateV::Idle, cfg, events@, ObjKind::Relation);
    }
    match run_filtered(events, cfg) {
        Err(e) => Err(e),
        Ok(objs) => {
            proof {
                lemma_failfast_kinds(outs, ObjKind::Way);
                lemma_failfast_kinds(outs, ObjKind::Relation);
            }
            let ghost vals = objs@.map_values(|o: OsmObj| o@);
            let mut ns: Vec<Node> = Vec::new();
            let mut rest = objs;
            proof {
                assert(ns@.map_values(|n: Node| ObjV::Node(n@)) + rest@.map_values(
                    |o: OsmObj| o@,
                ) =~= vals);
            }
            while rest.len() > 0
                invariant
                    ns@.map_values(|n: Node| ObjV::Node(n@)) + rest@.map_values(|o: OsmObj| o@)
                        == vals,
                decreases rest@.len(),
            {
                let ghost rest_pre = rest@;
                let ghost ns_pre = ns@;
                let ghost k = ns@.len() as int;
                proof {
                    assert(vals[k] == rest@.map_values(|o: OsmObj| o@)[0]);
                    assert(vals[k].kind() != ObjKind::Way);
                    assert(vals[k].kind() != ObjKind::Relation);
                }
                let o = rest.remove(0);
                proof {
                    assert(rest@ =~= rest_pre.drop_first());
                    assert(rest@.map_values(|x: OsmObj| x@) =~= rest_pre.map_values(
                        |x: OsmObj| x@,
                    ).drop_first());
                }
                match o {
                    OsmObj::Node(n) => {
                        ns.push(n);
                        proof {
                            assert(ns@.map_values(|x: Node| ObjV::Node(x@)) =~= ns_pre.map_values(
                                |x: Node| ObjV::Node(x@),
                            ).push(ObjV::Node(n@)));
                            assert(ns@.map_values(|x: Node| ObjV::Node(x@)) + rest@.map_values(
                                |x: OsmObj| x@,
                            ) =~= vals);
                        }
                    },
                    OsmObj::Way(_) => {
                        proof {
                            assert(false);
                        }
                        vstd::pervasive::unreached()
                    },
                    OsmObj::Relation(_) => {
                        proof {
                            assert(false);
                        }
                        vstd::pervasive::unreached()
                    },
                }
            }
            proof {
                assert(ns@.map_values(|n: Node| ObjV::Node(n@)) =~= vals);
            }
            Ok(ns)
        },
    }
}

/// Runs the sequence for ways only, fail-fast.
#[verifier::loop_isolation(false)]
pub fn collect_ways(events: Vec<RawEvent>) -> (r: Result<Vec<Way>, OsmError>)
    ensures
        match r {
            Ok(ws) => spec_failfast(spec_run(events@, way_driver_cfg())) == Ok::<
                Seq<ObjV>,
                OsmError,
            >(ws@.map_values(|w: Way| ObjV::Way(w@))),
            Err(e) => spec_failfast(spec_run(events@, way_driver_cfg())) == Err::<
                Seq<ObjV>,
                OsmError,
            >(e),
        },
{
    let cfg = only_kind(ObjKind::Way);
    let ghost outs = spec_run(events@, cfg);
    proof {
        lemma_skipped_kind_silent(StateV::Idle, cfg, events@, ObjKind::Node);
        lemma_skipped_kind_silent(StateV::Idle, cfg, events@, ObjKind::Relation);
    }
    match run_filtered(events, cfg) {
        Err(e) => Err(e),
        Ok(objs) => {
            proof {
                lemma_failfast_kinds(outs, ObjKind::Node);
                lemma_failfast_kinds(outs, ObjKind::Relation);
            }
            let ghost vals = objs@.map_values(|o: OsmObj| o@);
            let mut ws: Vec<Way> = Vec::new();
            let mut rest = objs;
            proof {
                assert(ws@.map_values(|w: Way| ObjV::Way(w@)) + rest@.map_values(
                    |o: OsmObj| o@,
                ) =~= vals);
            }
            while rest.len() > 0
                invariant
                    ws@.map_values(|w: Way| ObjV::Way(w@)) + rest@.map_values(|o: OsmObj| o@)
                        == vals,
                decreases rest@.len(),
            {
                let ghost rest_pre = rest@;
                let ghost ws_pre = ws@;
                let ghost k = ws@.len() as int;
                proof {
                    assert(vals[k] == rest@.map_values(|o: OsmObj| o@)[0]);
                    assert(vals[k].kind() != ObjKind::Node);
                    assert(vals[k].kind() != ObjKind::Relation);
                }
                let o = rest.remove(0);
                proof {
                    assert(rest@ =~= rest_pre.drop_first());
                    assert(rest@.map_values(|x: OsmObj| x@) =~= rest_pre.map_values(
                        |x: OsmObj| x@,
                    ).drop_first());
                }
                match o {
                    OsmObj::Way(w) => {
                        ws.push(w);
                        proof {
                            assert(ws@.map_values(|x: Way| ObjV::Way(x@)) =~= ws_pre.map_values(
                                |x: Way| ObjV::Way(x@),
                            ).push(ObjV::Way(w@)));
                            assert(ws@.map_values(|x: Way| ObjV::Way(x@)) + rest@.map_values(
                                |x: OsmObj| x@,
                            ) =~= vals);
                        }
                    },
                    OsmObj::Node(_) => {
                        proof {
                            assert(false);
                        }
                        vstd::pervasive::unreached()
                    },
                    OsmObj::Relation(_) => {
                        proof {
                            assert(false);
                        }
                        vstd::pervasive::unreached()
                    },
                }
            }
            proof {
                assert(ws@.map_values(|w: Way| ObjV::Way(w@)) =~= vals);
            }
            Ok(ws)
        },
    }
}

/// Runs the sequence for relations only, fail-fast.
#[verifier::loop_isolation(false)]
pub fn collect_relations(events: Vec<RawEvent>) -> (r: Result<Vec<Relation>, OsmError>)
    ensures
        match r {
            Ok(rs) => spec_failfast(spec_run(events@, relation_driver_cfg())) == Ok::<
                Seq<ObjV>,
                OsmError,
            >(rs@.map_values(|rl: Relation| ObjV::Relation(rl@))),
            Err(e) => spec_failfast(spec_run(events@, relation_driver_cfg())) == Err::<
                Seq<ObjV>,
                OsmError,
            >(e),
        },
{
    let cfg = only_kind(ObjKind::Relation);
    let ghost outs = spec_run(events@, cfg);
    proof {
        lemma_skipped_kind_silent(StateV::Idle, cfg, events@, ObjKind::Node);
        lemma_skipped_kind_silent(StateV::Idle, cfg, events@, ObjKind::Way);
    }
    match run_filtered(events, cfg) {
        Err(e) => Err(e),
        Ok(objs) => {
            proof {
                lemma_failfast_kinds(outs, ObjKind::Node);
                lemma_failfast_kinds(outs, ObjKind::Way);
            }
            let ghost vals = objs@.map_values(|o: OsmObj| o@);
            let mut rs: Vec<Relation> = Vec::new();
            let mut rest = objs;
            proof {
                assert(rs@.map_values(|rl: Relation| ObjV::Relation(rl@)) + rest@.map_values(
                    |o: OsmObj| o@,
                ) =~= vals);
            }
            while rest.len() > 0
                invariant
                    rs@.map_values(|rl: Relation| ObjV::Relation(rl@)) + rest@.map_values(|o: OsmObj| o@)
                        == vals,
                decreases rest@.len(),
            {
                let ghost rest_pre = rest@;
                let ghost rs_pre = rs@;
                let ghost k = rs@.len() as int;
                proof {
                    assert(vals[k] == rest@.map_values(|o: OsmObj| o@)[0]);
                    assert(vals[k].kind() != ObjKind::Node);
                    assert(vals[k].kind() != ObjKind::Way);
                }
                let o = rest.remove(0);
                proof {
                    assert(rest@ =~= rest_pre.drop_first());
                    assert(rest@.map_values(|x: OsmObj| x@) =~= rest_pre.map_values(
                        |x: OsmObj| x@,
                    ).drop_first());
                }
                match o {
                    OsmObj::Relation(rl) => {
                        rs.push(rl);
                        proof {
                            assert(rs@.map_values(|x: Relation| ObjV::Relation(x@)) =~= rs_pre.map_values(
                                |x: Relation| ObjV::Relation(x@),
                            ).push(ObjV::Relation(rl@)));
                            assert(rs@.map_values(|x: Relation| ObjV::Relation(x@)) + rest@.map_values(
                                |x: OsmObj| x@,
                            ) =~= vals);
                        }
                    },
                    OsmObj::Node(_) => {
                        proof {
                            assert(false);
                        }
                        vstd::pervasive::unreached()
                    },
                    OsmObj::Way(_) => {
                        proof {
                            assert(false);
                        }
                        vstd::pervasive::unreached()
                    },
                }
            }
            proof {
                assert(rs@.map_values(|rl: Relation| ObjV::Relation(rl@)) =~= vals);
            }
            Ok(rs)
        },
    }
}

} // verus!
