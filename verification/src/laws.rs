//! The library's laws, each proved once and for all inputs: what a
//! well-formed document yields, what filtering suppresses, and which tag
//! value survives a repeated key.

use vstd::prelude::*;
use crate::assembler::{StateV, no_kind, spec_run, spec_run_from, lemma_skipped_kind_silent};
use crate::builder::{is_kv_tag, spec_build, spec_tags};
use crate::events::{ElemClass, RawAttr, RawChild, RawEvent, attr_lookup, spec_classify};
use crate::filter::SkipConfig;
use crate::model::{ObjKind, ObjV, OsmError};
use crate::names::{key_k, key_v};

verus! {

/// An event that may stand between a group's opening and its close: any
/// start, empty or end of a non-object element.
pub open spec fn is_child_event(ev: RawEvent) -> bool {
    match ev {
        RawEvent::Start { name, .. } => !(spec_classify(name@) is Object),
        RawEvent::Empty { name, .. } => !(spec_classify(name@) is Object),
        RawEvent::End { name } => !(spec_classify(name@) is Object),
        RawEvent::Eof => false,
    }
}

/// The children the assembler buffers while consuming `mid`: one for each
/// start or empty element, in document order.
pub open spec fn children_of(mid: Seq<RawEvent>) -> Seq<RawChild>
    decreases mid.len(),
{
    if mid.len() == 0 {
        Seq::empty()
    } else {
        let rest = children_of(mid.drop_first());
        match mid.first() {
            RawEvent::Start { name, attrs } => seq![RawChild { name, attrs }] + rest,
            RawEvent::Empty { name, attrs } => seq![RawChild { name, attrs }] + rest,
            _ => rest,
        }
    }
}

/// One complete top-level group of `kind`: a single empty object element,
/// or an object opening, child events, and an object close.
pub open spec fn is_group(events: Seq<RawEvent>, kind: ObjKind) -> bool {
    ||| (events.len() == 1 && (match events[0] {
        RawEvent::Empty { name, .. } => spec_classify(name@) == ElemClass::Object(kind),
        _ => false,
    }))
    ||| (events.len() >= 2 && (match events[0] {
        RawEvent::Start { name, .. } => spec_classify(name@) == ElemClass::Object(kind),
        _ => false,
    }) && (forall|i: int| 1 <= i < events.len() - 1 ==> is_child_event(#[trigger] events[i]))
        && (match events.last() {
        RawEvent::End { name } => spec_classify(name@) is Object,
        _ => false,
    }))
}

/// The attributes of the group's opening element.
pub open spec fn group_attrs(events: Seq<RawEvent>) -> Seq<RawAttr> {
    match events[0] {
        RawEvent::Start { attrs, .. } => attrs@,
        RawEvent::Empty { attrs, .. } => attrs@,
        _ => Seq::empty(),
    }
}

/// The children the group buffers.
pub open spec fn group_children(events: Seq<RawEvent>) -> Seq<RawChild> {
    if events.len() <= 1 {
        Seq::empty()
    } else {
        children_of(events.subrange(1, events.len() - 1))
    }
}

/// What one group contributes to the result sequence: nothing when its
/// kind is skipped, else exactly its build result.
pub open spec fn group_out(events: Seq<RawEvent>, kind: ObjKind, cfg: SkipConfig) -> Seq<
    Result<ObjV, OsmError>,
> {
    if cfg.spec_skips(kind) {
        Seq::empty()
    } else {
        seq![spec_build(kind, group_attrs(events), group_children(events))]
    }
}

/// Running inside an object over its remaining child events and close:
/// the buffered children grow by exactly the child elements seen, one
/// result is emitted at the close unless the object is skipped, and the
/// machine is idle again for the rest.
proof fn lemma_run_in_object(
    kind: ObjKind,
    skipping: bool,
    attrs: Seq<RawAttr>,
    children: Seq<RawChild>,
    mid: Seq<RawEvent>,
    endev: RawEvent,
    cfg: SkipConfig,
    rest: Seq<RawEvent>,
)
    requires
        forall|i: int| 0 <= i < mid.len() ==> is_child_event(#[trigger] mid[i]),
        (match endev {
            RawEvent::End { name } => spec_classify(name@) is Object,
            _ => false,
        }),
    ensures
        spec_run_from(
            StateV::InObject { kind, skipping, attrs, children },
            cfg,
            mid + seq![endev] + rest,
        ) == (if skipping {
            Seq::<Result<ObjV, OsmError>>::empty()
        } else {
            seq![spec_build(kind, attrs, children + children_of(mid))]
        }) + spec_run_from(StateV::Idle, cfg, rest),
    decreases mid.len(),
{
    let s = StateV::InObject { kind, skipping, attrs, children };
    let evs = mid + seq![endev] + rest;
    if mid.len() == 0 {
        assert(evs.first() == endev);
        assert(evs.drop_first() =~= rest);
        assert(children + children_of(mid) =~= children);
    } else {
        let ev0 = mid.first();
        assert(evs.first() == ev0);
        let mid2 = mid.drop_first();
        assert(evs.drop_first() =~= mid2 + seq![endev] + rest);
        assert(forall|i: int| 0 <= i < mid2.len() ==> mid2[i] == mid[i + 1]);
        assert(is_child_event(ev0));
        match ev0 {
            RawEvent::Start { name, attrs: cattrs } => {
                if skipping {
                    lemma_run_in_object(kind, skipping, attrs, children, mid2, endev, cfg, rest);
                } else {
                    let c = RawChild { name, attrs: cattrs };
                    lemma_run_in_object(
                        kind,
                        skipping,
                        attrs,
                        children.push(c),
                        mid2,
                        endev,
                        cfg,
                        rest,
                    );
                    assert(children.push(c) + children_of(mid2) =~= children + children_of(mid));
                }
            },
            RawEvent::Empty { name, attrs: cattrs } => {
                if skipping {
                    lemma_run_in_object(kind, skipping, attrs, children, mid2, endev, cfg, rest);
                } else {
                    let c = RawChild { name, attrs: cattrs };
                    lemma_run_in_object(
                        kind,
                        skipping,
                        attrs,
                        children.push(c),
                        mid2,
                        endev,
                        cfg,
                        rest,
                    );
                    assert(children.push(c) + children_of(mid2) =~= children + children_of(mid));
                }
            },
            RawEvent::End { name } => {
                lemma_run_in_object(kind, skipping, attrs, children, mid2, endev, cfg, rest);
                assert(children_of(mid) == children_of(mid2));
            },
            RawEvent::Eof => {
                assert(false);
            },
        }
    }
}

/// Running one complete group from idle: its contribution, then the rest.
pub proof fn lemma_run_group(g: Seq<RawEvent>, kind: ObjKind, cfg: SkipConfig, rest: Seq<RawEvent>)
    requires
        is_group(g, kind),
    ensures
        spec_run_from(StateV::Idle, cfg, g + rest) == group_out(g, kind, cfg) + spec_run_from(
            StateV::Idle,
            cfg,
            rest,
        ),
{
    let evs = g + rest;
    assert(evs.first() == g[0]);
    if g.len() == 1 {
        assert(evs.drop_first() =~= rest);
        if cfg.spec_skips(kind) {
            assert(group_out(g, kind, cfg) + spec_run_from(StateV::Idle, cfg, rest)
                =~= spec_run_from(StateV::Idle, cfg, rest));
        }
    } else {
        let mid = g.subrange(1, g.len() - 1);
        let endev = g.last();
        assert(evs.drop_first() =~= mid + seq![endev] + rest);
        assert(forall|i: int| 0 <= i < mid.len() ==> mid[i] == g[i + 1]);
        match g[0] {
            RawEvent::Start { name, attrs } => {
                if cfg.spec_skips(kind) {
                    lemma_run_in_object(
                        kind,
                        true,
                        Seq::empty(),
                        Seq::empty(),
                        mid,
                        endev,
                        cfg,
                        rest,
                    );
                    assert(group_out(g, kind, cfg) + spec_run_from(StateV::Idle, cfg, rest)
                        =~= spec_run_from(StateV::Idle, cfg, rest));
                } else {
                    lemma_run_in_object(kind, false, attrs@, Seq::empty(), mid, endev, cfg, rest);
                    assert(Seq::<RawChild>::empty() + children_of(mid) =~= children_of(mid));
                }
            },
            _ => {
                assert(false);
            },
        }
    }
}

/// A document: a run of complete groups.
pub ghost struct DocGroup {
    pub kind: ObjKind,
    pub events: Seq<RawEvent>,
}

/// The group is complete and of its declared kind.
pub open spec fn wf_group(g: DocGroup) -> bool {
    is_group(g.events, g.kind)
}

/// The concatenated event stream of a document.
pub open spec fn doc_events(gs: Seq<DocGroup>) -> Seq<RawEvent>
    decreases gs.len(),
{
    if gs.len() == 0 {
        Seq::empty()
    } else {
        gs.first().events + doc_events(gs.drop_first())
    }
}

/// The concatenated contributions of a document's groups.
pub open spec fn doc_out(gs: Seq<DocGroup>, cfg: SkipConfig) -> Seq<Result<ObjV, OsmError>>
    decreases gs.len(),
{
    if gs.len() == 0 {
        Seq::empty()
    } else {
        group_out(gs.first().events, gs.first().kind, cfg) + doc_out(gs.drop_first(), cfg)
    }
}

/// Parsing a well-formed document yields exactly the groups'
/// contributions, in document order.
pub proof fn lemma_run_document(gs: Seq<DocGroup>, cfg: SkipConfig)
    requires
        forall|i: int| 0 <= i < gs.len() ==> wf_group(#[trigger] gs[i]),
    ensures
        spec_run(doc_events(gs) + seq![RawEvent::Eof], cfg) == doc_out(gs, cfg),
    decreases gs.len(),
{
    if gs.len() == 0 {
        let evs = doc_events(gs) + seq![RawEvent::Eof];
        assert(evs =~= seq![RawEvent::Eof]);
        assert(evs.first() == RawEvent::Eof);
        assert(evs.drop_first() =~= Seq::<RawEvent>::empty());
        assert(spec_run_from(StateV::Done, cfg, evs.drop_first())
            == Seq::<Result<ObjV, OsmError>>::empty());
        assert(spec_run(evs, cfg) =~= Seq::<Result<ObjV, OsmError>>::empty());
    } else {
        let g0 = gs.first();
        let tail = gs.drop_first();
        assert(forall|i: int| 0 <= i < tail.len() ==> tail[i] == gs[i + 1]);
        assert(doc_events(gs) + seq![RawEvent::Eof] =~= g0.events + (doc_events(tail) + seq![
            RawEvent::Eof,
        ]));
        lemma_run_group(g0.events, g0.kind, cfg, doc_events(tail) + seq![RawEvent::Eof]);
        lemma_run_document(tail, cfg);
    }
}

/// How many groups of a document have the given kind.
pub open spec fn count_groups(gs: Seq<DocGroup>, kind: ObjKind) -> int
    decreases gs.len(),
{
    if gs.len() == 0 {
        0
    } else {
        count_groups(gs.drop_first(), kind) + (if gs.first().kind == kind {
            1int
        } else {
            0int
        })
    }
}

/// How many results are successes of the given kind.
pub open spec fn count_ok_kind(outs: Seq<Result<ObjV, OsmError>>, kind: ObjKind) -> int
    decreases outs.len(),
{
    if outs.len() == 0 {
        0
    } else {
        count_ok_kind(outs.drop_first(), kind) + (if outs.first() is Ok
            && outs.first()->Ok_0.kind() == kind {
            1int
        } else {
            0int
        })
    }
}

/// A well-formed document with N nodes, M ways and K relations, every
/// object building successfully and nothing filtered, yields exactly
/// N+M+K results, all successes, with matching per-kind counts.
pub proof fn lemma_document_counts(gs: Seq<DocGroup>, cfg: SkipConfig)
    requires
        forall|i: int| 0 <= i < gs.len() ==> wf_group(#[trigger] gs[i]),
        forall|i: int|
            0 <= i < gs.len() ==> spec_build(
                (#[trigger] gs[i]).kind,
                group_attrs(gs[i].events),
                group_children(gs[i].events),
            ) is Ok,
        !cfg.skip_nodes && !cfg.skip_ways && !cfg.skip_relations,
    ensures
        spec_run(doc_events(gs) + seq![RawEvent::Eof], cfg).len() == gs.len(),
        forall|j: int|
            0 <= j < gs.len() ==> (#[trigger] spec_run(
                doc_events(gs) + seq![RawEvent::Eof],
                cfg,
            )[j]) is Ok,
        count_ok_kind(spec_run(doc_events(gs) + seq![RawEvent::Eof], cfg), ObjKind::Node)
            == count_groups(gs, ObjKind::Node),
        count_ok_kind(spec_run(doc_events(gs) + seq![RawEvent::Eof], cfg), ObjKind::Way)
            == count_groups(gs, ObjKind::Way),
        count_ok_kind(spec_run(doc_events(gs) + seq![RawEvent::Eof], cfg), ObjKind::Relation)
            == count_groups(gs, ObjKind::Relation),
{
    lemma_run_document(gs, cfg);
    lemma_doc_out_counts(gs, cfg);
}

/// The counting induction behind `lemma_document_counts`.
proof fn lemma_doc_out_counts(gs: Seq<DocGroup>, cfg: SkipConfig)
    requires
        forall|i: int| 0 <= i < gs.len() ==> wf_group(#[trigger] gs[i]),
        forall|i: int|
            0 <= i < gs.len() ==> spec_build(
                (#[trigger] gs[i]).kind,
                group_attrs(gs[i].events),
                group_children(gs[i].events),
            ) is Ok,
        !cfg.skip_nodes && !cfg.skip_ways && !cfg.skip_relations,
    ensures
        doc_out(gs, cfg).len() == gs.len(),
        forall|j: int| 0 <= j < gs.len() ==> (#[trigger] doc_out(gs, cfg)[j]) is Ok,
        count_ok_kind(doc_out(gs, cfg), ObjKind::Node) == count_groups(gs, ObjKind::Node),
        count_ok_kind(doc_out(gs, cfg), ObjKind::Way) == count_groups(gs, ObjKind::Way),
        count_ok_kind(doc_out(gs, cfg), ObjKind::Relation) == count_groups(gs, ObjKind::Relation),
    decreases gs.len(),
{
    if gs.len() > 0 {
        let g0 = gs.first();
        let tail = gs.drop_first();
        assert(forall|i: int| 0 <= i < tail.len() ==> tail[i] == gs[i + 1]);
        lemma_doc_out_counts(tail, cfg);
        assert(!cfg.spec_skips(g0.kind));
        let out0 = spec_build(g0.kind, group_attrs(g0.events), group_children(g0.events));
        crate::assembler::lemma_build_kind(g0.kind, group_attrs(g0.events), group_children(
            g0.events,
        ));
        let outs = doc_out(gs, cfg);
        let rest = doc_out(tail, cfg);
        assert(outs =~= seq![out0] + rest);
        assert(outs.drop_first() =~= rest);
        assert(count_ok_kind(outs, ObjKind::Node) == count_groups(gs, ObjKind::Node));
        assert(count_ok_kind(outs, ObjKind::Way) == count_groups(gs, ObjKind::Way));
        assert(count_ok_kind(outs, ObjKind::Relation) == count_groups(gs, ObjKind::Relation));
    }
}

/// With `skip_relations` set, no relation record is ever emitted, for any
/// input whatever; and likewise for each of the other two flags.
pub proof fn lemma_skip_relations_silent(events: Seq<RawEvent>, cfg: SkipConfig)
    requires
        cfg.skip_relations,
    ensures
        no_kind(spec_run(events, cfg), ObjKind::Relation),
{
    lemma_skipped_kind_silent(StateV::Idle, cfg, events, ObjKind::Relation);
}

/// Duplicate tag keys: the mapping holds the value of the last `tag`
/// child in document order that carries the key.
pub proof fn lemma_last_tag_wins(children: Seq<RawChild>, i: int)
    requires
        0 <= i < children.len(),
        is_kv_tag(children[i]),
        forall|j: int|
            i < j < children.len() && is_kv_tag(#[trigger] children[j]) ==> attr_lookup(
                children[j].attrs@,
                key_k(),
            )->Some_0 != attr_lookup(children[i].attrs@, key_k())->Some_0,
    ensures
        spec_tags(children).contains_key(attr_lookup(children[i].attrs@, key_k())->Some_0),
        spec_tags(children)[attr_lookup(children[i].attrs@, key_k())->Some_0] == attr_lookup(
            children[i].attrs@,
            key_v(),
        )->Some_0,
    decreases children.len(),
{
    if i < children.len() - 1 {
        let prefix = children.drop_last();
        assert(prefix[i] == children[i]);
        assert(forall|j: int| 0 <= j < prefix.len() ==> prefix[j] == children[j]);
        lemma_last_tag_wins(prefix, i);
        if is_kv_tag(children.last()) {
            assert(attr_lookup(children.last().attrs@, key_k())->Some_0 != attr_lookup(
                children[i].attrs@,
                key_k(),
            )->Some_0);
        }
    }
}

} // verus!
