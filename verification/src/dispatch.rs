//! The dispatcher: binds a configuration into a route table and two
//! registries, starts one accept loop per bound inbound, and cancels them.

use std::sync::Arc;
use vstd::prelude::*;

pub use crate::callback::DispatchCallback;
use crate::callback::DispatchCallbackView;
use crate::dns::{Dns, DnsOption};
use crate::error::{
    DispatchError, DispatchErrorView, InboundErrorView, OptionError, OptionErrorView,
    OutboundErrorView,
};
use crate::inbound::{Inbound, InboundOption};
use crate::outbound::{Outbound, OutboundOption};
use crate::parts::Parts;
use crate::route::{bindings, route_fault, Binding, Route, RouteOption};

verus! {

/// A whole configuration: the resolver, the rules, and the declared
/// inbounds and outbounds in the order of the configuration.
pub struct DispatchOption<P: Parts> {
    pub dns: DnsOption<P>,
    pub route: RouteOption,
    pub inbound: Vec<InboundOption<P>>,
    pub outbound: Vec<OutboundOption<P>>,
}

/// What is wrong with the inbound declared at position `i`, given that
/// those before it are sound: a collaborator that could not be built, the
/// service looked at first, or else a tag that an earlier inbound carries.
pub open spec fn inbound_fault_at<P: Parts>(opts: Seq<InboundOption<P>>, i: int) -> Option<
    DispatchErrorView,
> {
    match (opts[i].service, opts[i].server) {
        (Err(m), _) => Some(DispatchErrorView::Inbound(InboundErrorView::Service(m@))),
        (Ok(_), Err(m)) => Some(DispatchErrorView::Inbound(InboundErrorView::Server(m@))),
        (Ok(_), Ok(_)) => if exists|j: int|
            0 <= j < i && (#[trigger] opts[j]).tag@ == opts[i].tag@ {
            Some(DispatchErrorView::Option(OptionErrorView::DuplicateTag(opts[i].tag@)))
        } else {
            None
        },
    }
}

/// What is wrong with the outbound declared at position `i`, given that
/// those before it are sound: a collaborator that could not be built, the
/// client looked at first, or else a tag that an earlier outbound carries.
pub open spec fn outbound_fault_at<P: Parts>(opts: Seq<OutboundOption<P>>, i: int) -> Option<
    DispatchErrorView,
> {
    match (opts[i].client, opts[i].service) {
        (Err(m), _) => Some(DispatchErrorView::Outbound(OutboundErrorView::Client(m@))),
        (Ok(_), Err(m)) => Some(DispatchErrorView::Outbound(OutboundErrorView::Service(m@))),
        (Ok(_), Ok(_)) => if exists|j: int|
            0 <= j < i && (#[trigger] opts[j]).tag@ == opts[i].tag@ {
            Some(DispatchErrorView::Option(OptionErrorView::DuplicateTag(opts[i].tag@)))
        } else {
            None
        },
    }
}

/// The fault of each declared inbound.
pub open spec fn inbound_faults<P: Parts>(opts: Seq<InboundOption<P>>) -> Seq<
    Option<DispatchErrorView>,
> {
    Seq::new(opts.len(), |i: int| inbound_fault_at(opts, i))
}

/// The fault of each declared outbound.
pub open spec fn outbound_faults<P: Parts>(opts: Seq<OutboundOption<P>>) -> Seq<
    Option<DispatchErrorView>,
> {
    Seq::new(opts.len(), |i: int| outbound_fault_at(opts, i))
}

/// The first fault at or after position `from`.
pub open spec fn first_fault(faults: Seq<Option<DispatchErrorView>>, from: int) -> Option<
    DispatchErrorView,
>
    decreases faults.len() - from,
{
    if from < 0 || from >= faults.len() {
        None
    } else if faults[from] is Some {
        faults[from]
    } else {
        first_fault(faults, from + 1)
    }
}

/// Position of the first fault at or after `from`; the length where there
/// is none.
pub open spec fn first_fault_index(faults: Seq<Option<DispatchErrorView>>, from: int) -> int
    decreases faults.len() - from,
{
    if from < 0 || from >= faults.len() {
        faults.len() as int
    } else if faults[from] is Some {
        from
    } else {
        first_fault_index(faults, from + 1)
    }
}

/// The error that building a dispatcher from `option` ends in, if any. The
/// rules are looked at first, then the inbounds in order, then the
/// outbounds in order.
pub open spec fn init_fault<P: Parts>(option: DispatchOption<P>) -> Option<DispatchErrorView> {
    match route_fault(option.route@) {
        Some(e) => Some(DispatchErrorView::Route(e)),
        None => match first_fault(inbound_faults(option.inbound@), 0) {
            Some(e) => Some(e),
            None => first_fault(outbound_faults(option.outbound@), 0),
        },
    }
}

/// The first fault is the fault at the first position that has one, and
/// there is none exactly where no position has one.
pub proof fn lemma_first_fault(faults: Seq<Option<DispatchErrorView>>, from: int)
    requires
        0 <= from <= faults.len(),
    ensures
        ({
            let k = first_fault_index(faults, from);
            &&& from <= k <= faults.len()
            &&& forall|j: int| from <= j < k ==> (#[trigger] faults[j]) is None
            &&& k < faults.len() ==> faults[k] is Some && first_fault(faults, from) == faults[k]
            &&& k == faults.len() ==> first_fault(faults, from) is None
        }),
    decreases faults.len() - from,
{
    if from < faults.len() && faults[from] is None {
        lemma_first_fault(faults, from + 1);
    }
}

/// Whether an error says that a tag occurs twice.
pub open spec fn is_duplicate_tag(e: DispatchErrorView) -> bool {
    ||| e matches DispatchErrorView::Option(OptionErrorView::DuplicateTag(_))
    ||| e matches DispatchErrorView::Route(
        crate::error::RouteErrorView::Option(OptionErrorView::DuplicateTag(_)),
    )
}

/// Whether every collaborator of every declared inbound and outbound was
/// built.
pub open spec fn all_built<P: Parts>(option: DispatchOption<P>) -> bool {
    &&& forall|i: int|
        0 <= i < option.inbound@.len() ==> (#[trigger] option.inbound@[i]).service is Ok
            && option.inbound@[i].server is Ok
    &&& forall|i: int|
        0 <= i < option.outbound@.len() ==> (#[trigger] option.outbound@[i]).service is Ok
            && option.outbound@[i].client is Ok
}

/// Whether two declared inbounds, or two declared outbounds, carry the
/// same tag.
pub open spec fn repeats_tag<P: Parts>(option: DispatchOption<P>) -> bool {
    ||| exists|i: int, j: int|
        0 <= i < j < option.inbound@.len() && (#[trigger] option.inbound@[i]).tag@ == (
        #[trigger] option.inbound@[j]).tag@
    ||| exists|i: int, j: int|
        0 <= i < j < option.outbound@.len() && (#[trigger] option.outbound@[i]).tag@ == (
        #[trigger] option.outbound@[j]).tag@
}

/// A configuration whose collaborators were all built and in which an
/// inbound tag or an outbound tag occurs twice cannot be made into a
/// dispatcher: building it ends in a duplicate tag.
pub proof fn lemma_repeated_tag_rejected<P: Parts>(option: DispatchOption<P>)
    requires
        all_built(option),
        repeats_tag(option),
    ensures
        init_fault(option) matches Some(e) && is_duplicate_tag(e),
{
    let ins = option.inbound@;
    let outs = option.outbound@;
    let in_faults = inbound_faults(ins);
    let out_faults = outbound_faults(outs);
    lemma_first_fault(in_faults, 0);
    lemma_first_fault(out_faults, 0);
    if route_fault(option.route@) is None {
        let ki = first_fault_index(in_faults, 0);
        let ko = first_fault_index(out_faults, 0);
        if ki < in_faults.len() {
            assert(in_faults[ki] == inbound_fault_at(ins, ki));
            assert(ins[ki].service is Ok && ins[ki].server is Ok);
        } else {
            if exists|i: int, j: int|
                0 <= i < j < ins.len() && (#[trigger] ins[i]).tag@ == (#[trigger] ins[j]).tag@ {
                let (i, j) = choose|i: int, j: int|
                    0 <= i < j < ins.len() && (#[trigger] ins[i]).tag@ == (#[trigger] ins[j]).tag@;
                assert(in_faults[j] == inbound_fault_at(ins, j));
                assert(ins[j].service is Ok && ins[j].server is Ok);
                assert(in_faults[j] is Some);
            }
            let (i, j) = choose|i: int, j: int|
                0 <= i < j < outs.len() && (#[trigger] outs[i]).tag@ == (#[trigger] outs[j]).tag@;
            assert(out_faults[j] == outbound_fault_at(outs, j));
            assert(outs[j].service is Ok && outs[j].client is Ok);
            assert(out_faults[j] is Some);
            assert(ko < out_faults.len());
            assert(out_faults[ko] == outbound_fault_at(outs, ko));
            assert(outs[ko].service is Ok && outs[ko].client is Ok);
        }
    }
}

/// A configuration whose rules bind an inbound tag twice cannot be made
/// into a dispatcher, whatever else it declares: building it ends in a
/// duplicate tag.
pub proof fn lemma_repeated_binding_rejected<P: Parts>(option: DispatchOption<P>)
    requires
        !crate::route::distinct_tags(bindings(option.route@)),
    ensures
        init_fault(option) matches Some(e) && is_duplicate_tag(e),
{
}

/// The task of one inbound's accept loop, while it has not been cancelled.
pub struct TaskSlot<P: Parts> {
    tag: String,
    task: Option<P::Task>,
}

/// Owner of the resolver, the route table, the two registries and the
/// tasks of the accept loops.
pub struct Dispatch<P: Parts> {
    dns: Dns<P>,
    route: Route,
    inbound: Vec<Inbound<P>>,
    outbound: Vec<Outbound<P>>,
    in_state: Vec<TaskSlot<P>>,
}

/// Whether some slot carries `tag`.
pub open spec fn has_slot<T>(slots: Seq<(Seq<char>, Option<T>)>, tag: Seq<char>) -> bool {
    exists|i: int| 0 <= i < slots.len() && (#[trigger] slots[i]).0 == tag
}

/// The slots as a map from tag to task.
pub open spec fn slot_map<T>(slots: Seq<(Seq<char>, Option<T>)>) -> Map<Seq<char>, Option<T>> {
    Map::new(
        |tag: Seq<char>| has_slot(slots, tag),
        |tag: Seq<char>|
            slots[choose|i: int| 0 <= i < slots.len() && (#[trigger] slots[i]).0 == tag].1,
    )
}

/// No tag has two slots.
pub open spec fn distinct_slots<T>(slots: Seq<(Seq<char>, Option<T>)>) -> bool {
    forall|i: int, j: int|
        0 <= i < j < slots.len() ==> (#[trigger] slots[i]).0 != (#[trigger] slots[j]).0
}

/// In slots without repeated tags, every slot is what the map holds.
pub proof fn lemma_slot_at<T>(slots: Seq<(Seq<char>, Option<T>)>, i: int)
    requires
        distinct_slots(slots),
        0 <= i < slots.len(),
    ensures
        slot_map(slots).contains_key(slots[i].0),
        slot_map(slots)[slots[i].0] == slots[i].1,
{
    let tag = slots[i].0;
    assert(has_slot(slots, tag));
    let k = choose|k: int| 0 <= k < slots.len() && (#[trigger] slots[k]).0 == tag;
    if k < i {
        assert(slots[k].0 != slots[i].0);
    } else if i < k {
        assert(slots[i].0 != slots[k].0);
    }
}

/// A slot for a new tag adds one entry to the map.
pub proof fn lemma_slot_push<T>(slots: Seq<(Seq<char>, Option<T>)>, tag: Seq<char>, task: Option<T>)
    requires
        distinct_slots(slots),
        !has_slot(slots, tag),
    ensures
        distinct_slots(slots.push((tag, task))),
        slot_map(slots.push((tag, task))) == slot_map(slots).insert(tag, task),
{
    let more = slots.push((tag, task));
    assert forall|i: int, j: int| 0 <= i < j < more.len() implies (#[trigger] more[i]).0 != (
    #[trigger] more[j]).0 by {
        if j < slots.len() {
            assert(slots[i].0 != slots[j].0);
        } else {
            assert(slots[i].0 != tag);
        }
    }
    assert forall|t: Seq<char>| has_slot(more, t) <==> (t == tag || has_slot(slots, t)) by {
        if has_slot(more, t) {
            let i = choose|i: int| 0 <= i < more.len() && (#[trigger] more[i]).0 == t;
            if i < slots.len() {
                assert(slots[i].0 == t);
            }
        }
        if has_slot(slots, t) {
            let i = choose|i: int| 0 <= i < slots.len() && (#[trigger] slots[i]).0 == t;
            assert(more[i].0 == t);
        }
        if t == tag {
            assert(more[slots.len() as int].0 == t);
        }
    }
    assert forall|t: Seq<char>| has_slot(more, t) implies #[trigger] slot_map(more)[t] == slot_map(
        slots,
    ).insert(tag, task)[t] by {
        let i = choose|i: int| 0 <= i < more.len() && (#[trigger] more[i]).0 == t;
        lemma_slot_at(more, i);
        if i < slots.len() {
            assert(slots[i].0 == t);
            lemma_slot_at(slots, i);
        }
    }
    assert(slot_map(more) =~= slot_map(slots).insert(tag, task));
}

/// A new task in an existing slot changes one entry of the map.
pub proof fn lemma_slot_update<T>(slots: Seq<(Seq<char>, Option<T>)>, at: int, task: Option<T>)
    requires
        distinct_slots(slots),
        0 <= at < slots.len(),
    ensures
        distinct_slots(slots.update(at, (slots[at].0, task))),
        slot_map(slots.update(at, (slots[at].0, task))) == slot_map(slots).insert(
            slots[at].0,
            task,
        ),
{
    let tag = slots[at].0;
    let more = slots.update(at, (tag, task));
    assert forall|i: int, j: int| 0 <= i < j < more.len() implies (#[trigger] more[i]).0 != (
    #[trigger] more[j]).0 by {
        assert(slots[i].0 != slots[j].0);
    }
    assert forall|t: Seq<char>| has_slot(more, t) <==> has_slot(slots, t) by {
        if has_slot(more, t) {
            let i = choose|i: int| 0 <= i < more.len() && (#[trigger] more[i]).0 == t;
            assert(slots[i].0 == t);
        }
        if has_slot(slots, t) {
            let i = choose|i: int| 0 <= i < slots.len() && (#[trigger] slots[i]).0 == t;
            assert(more[i].0 == t);
        }
    }
    assert(has_slot(slots, tag)) by {
        assert(slots[at].0 == tag);
    }
    assert forall|t: Seq<char>| has_slot(more, t) implies #[trigger] slot_map(more)[t] == slot_map(
        slots,
    ).insert(tag, task)[t] by {
        let i = choose|i: int| 0 <= i < more.len() && (#[trigger] more[i]).0 == t;
        lemma_slot_at(more, i);
        assert(slots[i].0 == t);
        lemma_slot_at(slots, i);
    }
    assert(slot_map(more) =~= slot_map(slots).insert(tag, task));
}

/// The tasks after all of them were cancelled: the same tags, no task.
pub open spec fn cancelled<T>(tasks: Map<Seq<char>, Option<T>>) -> Map<Seq<char>, Option<T>> {
    Map::new(|tag: Seq<char>| tasks.contains_key(tag), |tag: Seq<char>| None::<T>)
}

/// Whether `task` is recorded under `tag` and was not cancelled.
pub open spec fn live<T>(tasks: Map<Seq<char>, Option<T>>, tag: Seq<char>, task: T) -> bool {
    tasks.contains_key(tag) && tasks[tag] == Some(task)
}

/// Cancelling is idempotent: once all tasks were cancelled none is live,
/// and cancelling again changes nothing.
pub proof fn lemma_cancel_idempotent<T>(tasks: Map<Seq<char>, Option<T>>)
    ensures
        forall|tag: Seq<char>, task: T| !live(cancelled(tasks), tag, task),
        cancelled(cancelled(tasks)) == cancelled(tasks),
{
    assert(cancelled(cancelled(tasks)) =~= cancelled(tasks));
}

/// The slots with every task taken out.
pub open spec fn emptied<T>(slots: Seq<(Seq<char>, Option<T>)>) -> Seq<(Seq<char>, Option<T>)> {
    slots.map_values(|s: (Seq<char>, Option<T>)| (s.0, None::<T>))
}

/// The tasks that are still in their slots, with their tags, in the order
/// of the slots.
pub open spec fn live_slots<T>(slots: Seq<(Seq<char>, Option<T>)>) -> Seq<(Seq<char>, T)>
    decreases slots.len(),
{
    if slots.len() == 0 {
        Seq::empty()
    } else {
        let rest = live_slots(slots.drop_last());
        match slots.last().1 {
            Some(task) => rest.push((slots.last().0, task)),
            None => rest,
        }
    }
}

/// Emptying every slot cancels every task of the map.
pub proof fn lemma_slots_cancelled<T>(slots: Seq<(Seq<char>, Option<T>)>)
    requires
        distinct_slots(slots),
    ensures
        distinct_slots(emptied(slots)),
        slot_map(emptied(slots)) == cancelled(slot_map(slots)),
{
    let empty = emptied(slots);
    assert forall|i: int, j: int| 0 <= i < j < empty.len() implies (#[trigger] empty[i]).0 != (
    #[trigger] empty[j]).0 by {
        assert(slots[i].0 != slots[j].0);
    }
    assert forall|t: Seq<char>| has_slot(empty, t) <==> has_slot(slots, t) by {
        if has_slot(empty, t) {
            let i = choose|i: int| 0 <= i < empty.len() && (#[trigger] empty[i]).0 == t;
            assert(slots[i].0 == t);
        }
        if has_slot(slots, t) {
            let i = choose|i: int| 0 <= i < slots.len() && (#[trigger] slots[i]).0 == t;
            assert(empty[i].0 == t);
        }
    }
    assert forall|t: Seq<char>| has_slot(empty, t) implies #[trigger] slot_map(empty)[t]
        == None::<T> by {
        let i = choose|i: int| 0 <= i < empty.len() && (#[trigger] empty[i]).0 == t;
        lemma_slot_at(empty, i);
    }
    assert(slot_map(empty) =~= cancelled(slot_map(slots)));
}

/// The tasks that a close hands back are exactly the live ones of the map,
/// each once.
pub proof fn lemma_live_slots<T>(slots: Seq<(Seq<char>, Option<T>)>)
    requires
        distinct_slots(slots),
    ensures
        forall|tag: Seq<char>, task: T|
            live(slot_map(slots), tag, task) <==> #[trigger] live_slots(slots).contains(
                (tag, task),
            ),
        forall|i: int, j: int|
            0 <= i < j < live_slots(slots).len() ==> (#[trigger] live_slots(slots)[i]).0 != (
            #[trigger] live_slots(slots)[j]).0,
    decreases slots.len(),
{
    let out = live_slots(slots);
    if slots.len() == 0 {
        assert forall|tag: Seq<char>, task: T| !live(slot_map(slots), tag, task) by {}
    } else {
        let front = slots.drop_last();
        let last = slots.last();
        assert forall|i: int, j: int| 0 <= i < j < front.len() implies (#[trigger] front[i]).0 != (
        #[trigger] front[j]).0 by {
            assert(slots[i].0 != slots[j].0);
        }
        lemma_live_slots(front);
        let rest = live_slots(front);
        assert(!has_slot(front, last.0)) by {
            if has_slot(front, last.0) {
                let i = choose|i: int| 0 <= i < front.len() && (#[trigger] front[i]).0 == last.0;
                assert(slots[i].0 != slots[slots.len() - 1].0);
            }
        }
        assert(slots =~= front.push(last));
        lemma_slot_push(front, last.0, last.1);
        assert forall|i: int| 0 <= i < rest.len() implies (#[trigger] rest[i]).0 != last.0 by {
            assert(rest.contains(rest[i]));
            assert(live(slot_map(front), rest[i].0, rest[i].1));
        }
        assert forall|tag: Seq<char>, task: T|
            live(slot_map(slots), tag, task) <==> #[trigger] out.contains((tag, task)) by {
            if live(slot_map(slots), tag, task) {
                if tag == last.0 {
                    assert(out[out.len() - 1] == (tag, task));
                } else {
                    assert(live(slot_map(front), tag, task));
                    assert(rest.contains((tag, task)));
                    let i = choose|i: int| 0 <= i < rest.len() && rest[i] == (tag, task);
                    assert(out[i] == (tag, task));
                }
            }
            if out.contains((tag, task)) {
                let i = choose|i: int| 0 <= i < out.len() && out[i] == (tag, task);
                if i < rest.len() {
                    assert(rest[i] == (tag, task));
                    assert(rest.contains((tag, task)));
                    assert(live(slot_map(front), tag, task));
                }
            }
        }
        assert forall|i: int, j: int| 0 <= i < j < out.len() implies (#[trigger] out[i]).0 != (
        #[trigger] out[j]).0 by {
            if j < rest.len() {
                assert(rest[i].0 != rest[j].0);
            } else {
                assert(out[i] == rest[i]);
            }
        }
    }
}

/// Slots that all hold a task are all live, in their order.
pub proof fn lemma_all_live<T>(slots: Seq<(Seq<char>, Option<T>)>)
    requires
        forall|i: int| 0 <= i < slots.len() ==> (#[trigger] slots[i]).1 is Some,
    ensures
        live_slots(slots).len() == slots.len(),
        forall|i: int|
            0 <= i < slots.len() ==> (#[trigger] live_slots(slots)[i]) == (
                slots[i].0,
                slots[i].1->0,
            ),
    decreases slots.len(),
{
    if slots.len() > 0 {
        let front = slots.drop_last();
        assert forall|i: int| 0 <= i < front.len() implies (#[trigger] front[i]).1 is Some by {
            assert(slots[i].1 is Some);
        }
        lemma_all_live(front);
        assert(slots.last() == slots[slots.len() - 1]);
        assert forall|i: int| 0 <= i < slots.len() implies (#[trigger] live_slots(slots)[i]) == (
            slots[i].0,
            slots[i].1->0,
        ) by {
            if i < front.len() {
                assert(front[i] == slots[i]);
                assert(live_slots(slots)[i] == live_slots(front)[i]);
            }
        }
    }
}

/// Closing is idempotent: after every task was taken out, none is left to
/// hand back and emptying again changes nothing.
pub proof fn lemma_close_idempotent<T>(slots: Seq<(Seq<char>, Option<T>)>)
    ensures
        live_slots(emptied(slots)).len() == 0,
        emptied(emptied(slots)) == emptied(slots),
    decreases slots.len(),
{
    assert(emptied(emptied(slots)) =~= emptied(slots));
    if slots.len() > 0 {
        lemma_close_idempotent(slots.drop_last());
        assert(emptied(slots).drop_last() =~= emptied(slots.drop_last()));
    }
}

/// How often the server of one inbound is run before its accept loop gives
/// up, and how many failures in a row are fatal.
pub const SERVER_RETRY: u8 = 30;

/// What an accept loop does after one run of its server ended.
#[derive(Debug, Clone, Copy, PartialEq, Eq, Structural)]
pub enum Retry {
    /// Run the server again, after logging the failure where there was one.
    Serve { log: bool },
    /// The runs are used up: the loop is over, after logging the failure
    /// where there was one.
    Stop { log: bool },
    /// Every run failed: the inbound is broken and the process is to be
    /// aborted.
    Abort,
}

/// Mathematical value of an [`AcceptLoop`]: the runs that ended, and how
/// many of the latest of them failed in a row.
pub struct AcceptLoopView {
    pub runs: nat,
    pub streak: nat,
}

/// The decision after one more run ended, with a failure or without. A
/// failure that completes `SERVER_RETRY` failures in a row is fatal; else
/// the server is run again until it was run `SERVER_RETRY` times.
pub open spec fn retry_after(v: AcceptLoopView, failed: bool) -> (AcceptLoopView, Retry) {
    let streak = if !failed {
        0
    } else if v.streak < SERVER_RETRY {
        v.streak + 1
    } else {
        v.streak
    };
    let runs = if v.runs < SERVER_RETRY {
        v.runs + 1
    } else {
        v.runs
    };
    let next = AcceptLoopView { runs: runs as nat, streak: streak as nat };
    if streak >= SERVER_RETRY {
        (next, Retry::Abort)
    } else if runs < SERVER_RETRY {
        (next, Retry::Serve { log: failed })
    } else {
        (next, Retry::Stop { log: failed })
    }
}

/// The count of runs of one accept loop.
pub struct AcceptLoop {
    runs: u8,
    streak: u8,
}

impl View for AcceptLoop {
    type V = AcceptLoopView;

    closed spec fn view(&self) -> AcceptLoopView {
        AcceptLoopView { runs: self.runs as nat, streak: self.streak as nat }
    }
}

impl AcceptLoop {
    /// The invariant of the counts: no more failures in a row than runs,
    /// and no more runs than allowed.
    #[verifier::type_invariant]
    spec fn bounded(&self) -> bool {
        self.streak <= self.runs <= SERVER_RETRY
    }

    /// A loop whose server was not run yet.
    pub fn new() -> (l: AcceptLoop)
        ensures
            l@ == (AcceptLoopView { runs: 0, streak: 0 }),
    {
        AcceptLoop { runs: 0, streak: 0 }
    }

    /// Reports that one more run of the server ended, with a failure or
    /// without, and says what to do next.
    pub fn after_serve(&mut self, failed: bool) -> (step: Retry)
        ensures
            (final(self)@, step) == retry_after(old(self)@, failed),
    {
        proof {
            use_type_invariant(&*self);
        }
        if self.runs < SERVER_RETRY {
            self.runs += 1;
        }
        if failed {
            if self.streak < SERVER_RETRY {
                self.streak += 1;
            }
        } else {
            self.streak = 0;
        }
        if self.streak >= SERVER_RETRY {
            Retry::Abort
        } else if self.runs < SERVER_RETRY {
            Retry::Serve { log: failed }
        } else {
            Retry::Stop { log: failed }
        }
    }
}

/// Where a loop stands after `n` runs that all failed.
pub open spec fn all_failed(n: nat) -> AcceptLoopView {
    AcceptLoopView { runs: n, streak: n }
}

/// A server that fails every time is run `SERVER_RETRY` times: each
/// failure but the last is logged and followed by another run, and the
/// last aborts.
pub proof fn lemma_retry_budget(n: nat)
    requires
        n < SERVER_RETRY,
    ensures
        n + 1 < SERVER_RETRY ==> retry_after(all_failed(n), true) == (
            all_failed(n + 1),
            Retry::Serve { log: true },
        ),
        n + 1 == SERVER_RETRY ==> retry_after(all_failed(n), true).1 == Retry::Abort,
{
}

/// Only failures in a row are fatal: after a run that ended without a
/// failure, the next `SERVER_RETRY - 1` runs cannot abort.
pub proof fn lemma_success_resets(v: AcceptLoopView, failed: bool)
    requires
        v.streak + 1 < SERVER_RETRY,
    ensures
        retry_after(v, failed).1 != Retry::Abort,
        retry_after(v, false).0.streak == 0,
{
}

impl<P: Parts> Dispatch<P> {
    /// The resolver that the dispatcher owns.
    pub closed spec fn spec_resolver(&self) -> P::Resolver {
        self.dns.spec_resolver()
    }

    /// The bindings of the route table, in declaration order.
    pub closed spec fn route_entries(&self) -> Seq<Binding> {
        self.route.entries()
    }

    /// The inbound registry, in declaration order.
    pub closed spec fn inbounds(&self) -> Seq<Inbound<P>> {
        self.inbound@
    }

    /// The outbound registry, in declaration order.
    pub closed spec fn outbounds(&self) -> Seq<Outbound<P>> {
        self.outbound@
    }

    /// The recorded tasks with their tags, in the order of recording.
    pub closed spec fn slots(&self) -> Seq<(Seq<char>, Option<P::Task>)> {
        self.in_state@.map_values(|s: TaskSlot<P>| (s.tag@, s.task))
    }

    /// The tags under which tasks are recorded, in the order of recording.
    pub open spec fn slot_tags(&self) -> Seq<Seq<char>> {
        self.slots().map_values(|s: (Seq<char>, Option<P::Task>)| s.0)
    }

    /// The recorded task of each inbound tag: `None` once cancelled.
    pub open spec fn tasks(&self) -> Map<Seq<char>, Option<P::Task>> {
        slot_map(self.slots())
    }

    /// The tags of the inbound registry.
    pub open spec fn inbound_tags(&self) -> Seq<Seq<char>> {
        self.inbounds().map_values(|i: Inbound<P>| i.spec_tag())
    }

    /// The tags of the outbound registry.
    pub open spec fn outbound_tags(&self) -> Seq<Seq<char>> {
        self.outbounds().map_values(|o: Outbound<P>| o.spec_tag())
    }

    /// The dispatcher's invariant: tags are unique within the route table,
    /// within each registry and among the tasks.
    pub open spec fn wf(&self) -> bool {
        &&& crate::route::distinct_tags(self.route_entries())
        &&& self.inbound_tags().no_duplicates()
        &&& self.outbound_tags().no_duplicates()
        &&& distinct_slots(self.slots())
    }

    /// Whether the registries hold what `option` declares, item by item.
    pub open spec fn built_from(&self, option: DispatchOption<P>) -> bool {
        &&& self.spec_resolver() == option.dns.resolve
        &&& self.route_entries() == bindings(option.route@)
        &&& self.inbounds().len() == option.inbound@.len()
        &&& forall|i: int|
            0 <= i < option.inbound@.len() ==> {
                let made = #[trigger] self.inbounds()[i];
                let opt = option.inbound@[i];
                &&& made.spec_tag() == opt.tag@
                &&& opt.service == Ok::<P::InboundService, String>(made.spec_service())
                &&& opt.server == Ok::<P::Server, String>(made.spec_server())
            }
        &&& self.outbounds().len() == option.outbound@.len()
        &&& forall|i: int|
            0 <= i < option.outbound@.len() ==> {
                let made = #[trigger] self.outbounds()[i];
                let opt = option.outbound@[i];
                &&& made.spec_tag() == opt.tag@
                &&& opt.service == Ok::<P::OutboundService, String>(made.spec_service())
                &&& opt.client == Ok::<P::Client, String>(made.spec_client())
                &&& made.spec_timeout() == opt.timeout
            }
    }

    /// Builds the dispatcher: the resolver, the route table, the inbound
    /// registry, the outbound registry, in that order. Fails on the first
    /// fault; no task is recorded yet.
    pub fn init(option: DispatchOption<P>) -> (r: Result<Self, DispatchError>)
        ensures
            match r {
                Ok(d) => init_fault(option) is None && d.wf() && d.built_from(option)
                    && d.slots().len() == 0,
                Err(e) => init_fault(option) == Some(e@),
            },
    {
        let ghost whole = option;
        let DispatchOption { dns, route, inbound, outbound } = option;
        let dns = match Dns::init(dns) {
            Ok(dns) => dns,
            Err(e) => {
                return Err(DispatchError::Dns(e));
            },
        };
        let route = match Route::init(route) {
            Ok(route) => route,
            Err(e) => {
                return Err(DispatchError::Route(e));
            },
        };

        let ghost in_opts = inbound@;
        let ghost in_faults = inbound_faults(in_opts);
        let mut ins: Vec<Inbound<P>> = Vec::new();
        let mut inbound = inbound;
        let mut n: usize = 0;
        let total = inbound.len();
        while n < total
            invariant
                n <= total,
                whole == option,
                total == in_opts.len(),
                in_faults == inbound_faults(in_opts),
                first_fault(in_faults, 0) is Some ==> init_fault(whole) == first_fault(
                    in_faults,
                    0,
                ),
                inbound@.len() == total - n,
                inbound@ == in_opts.skip(n as int),
                first_fault(in_faults, 0) == first_fault(in_faults, n as int),
                ins@.len() == n,
                forall|i: int|
                    0 <= i < n ==> {
                        let made = #[trigger] ins@[i];
                        let opt = in_opts[i];
                        &&& made.spec_tag() == opt.tag@
                        &&& opt.service == Ok::<P::InboundService, String>(made.spec_service())
                        &&& opt.server == Ok::<P::Server, String>(made.spec_server())
                    },
                ins@.map_values(|i: Inbound<P>| i.spec_tag()).no_duplicates(),
            decreases total - n,
        {
            let in_opt = inbound.remove(0);
            assert(in_opt == in_opts[n as int]);
            assert(inbound@ == in_opts.skip(n as int + 1));
            let made = match Inbound::init(in_opt) {
                Ok(made) => made,
                Err(e) => {
                    assert(in_faults[n as int] == inbound_fault_at(in_opts, n as int));
                    return Err(DispatchError::Inbound(e));
                },
            };
            let ghost tags = ins@.map_values(|i: Inbound<P>| i.spec_tag());
            if find_inbound(&ins, made.tag()).is_some() {
                proof {
                    let at = choose|at: int| 0 <= at < tags.len() && tags[at] == made.spec_tag();
                    assert(ins@[at].spec_tag() == tags[at]);
                    assert(in_opts[at].tag@ == in_opts[n as int].tag@);
                    assert(in_faults[n as int] == inbound_fault_at(in_opts, n as int));
                }
                return Err(DispatchError::Option(OptionError::DuplicateTag(made.get_tag())));
            }
            proof {
                assert forall|j: int| 0 <= j < n implies (#[trigger] in_opts[j]).tag@
                    != in_opts[n as int].tag@ by {
                    assert(tags[j] == ins@[j].spec_tag());
                }
                assert(in_faults[n as int] == inbound_fault_at(in_opts, n as int));
                assert(in_faults[n as int] is None);
            }
            ins.push(made);
            proof {
                let tags2 = ins@.map_values(|i: Inbound<P>| i.spec_tag());
                assert(tags2 =~= tags.push(made.spec_tag()));
            }
            n += 1;
        }

        let ghost out_opts = outbound@;
        let ghost out_faults = outbound_faults(out_opts);
        assert(init_fault(whole) == first_fault(out_faults, 0));
        let mut outs: Vec<Outbound<P>> = Vec::new();
        let mut outbound = outbound;
        let mut m: usize = 0;
        let out_total = outbound.len();
        while m < out_total
            invariant
                m <= out_total,
                whole == option,
                out_total == out_opts.len(),
                out_faults == outbound_faults(out_opts),
                init_fault(whole) == first_fault(out_faults, 0),
                outbound@.len() == out_total - m,
                outbound@ == out_opts.skip(m as int),
                first_fault(out_faults, 0) == first_fault(out_faults, m as int),
                outs@.len() == m,
                forall|i: int|
                    0 <= i < m ==> {
                        let made = #[trigger] outs@[i];
                        let opt = out_opts[i];
                        &&& made.spec_tag() == opt.tag@
                        &&& opt.service == Ok::<P::OutboundService, String>(made.spec_service())
                        &&& opt.client == Ok::<P::Client, String>(made.spec_client())
                        &&& made.spec_timeout() == opt.timeout
                    },
                outs@.map_values(|o: Outbound<P>| o.spec_tag()).no_duplicates(),
            decreases out_total - m,
        {
            let out_opt = outbound.remove(0);
            assert(out_opt == out_opts[m as int]);
            assert(outbound@ == out_opts.skip(m as int + 1));
            let made = match Outbound::init(out_opt) {
                Ok(made) => made,
                Err(e) => {
                    assert(out_faults[m as int] == outbound_fault_at(out_opts, m as int));
                    return Err(DispatchError::Outbound(e));
                },
            };
            let ghost tags = outs@.map_values(|o: Outbound<P>| o.spec_tag());
            if find_outbound(&outs, made.tag()).is_some() {
                proof {
                    let at = choose|at: int| 0 <= at < tags.len() && tags[at] == made.spec_tag();
                    assert(outs@[at].spec_tag() == tags[at]);
                    assert(out_opts[at].tag@ == out_opts[m as int].tag@);
                    assert(out_faults[m as int] == outbound_fault_at(out_opts, m as int));
                }
                return Err(DispatchError::Option(OptionError::DuplicateTag(made.get_tag())));
            }
            proof {
                assert forall|j: int| 0 <= j < m implies (#[trigger] out_opts[j]).tag@
                    != out_opts[m as int].tag@ by {
                    assert(tags[j] == outs@[j].spec_tag());
                }
                assert(out_faults[m as int] == outbound_fault_at(out_opts, m as int));
                assert(out_faults[m as int] is None);
            }
            outs.push(made);
            proof {
                let tags2 = outs@.map_values(|o: Outbound<P>| o.spec_tag());
                assert(tags2 =~= tags.push(made.spec_tag()));
            }
            m += 1;
        }

        let d = Dispatch { dns, route, inbound: ins, outbound: outs, in_state: Vec::new() };
        assert(d.slots() =~= Seq::empty());
        Ok(d)
    }

    /// The inbound that carries `tag`.
    pub open spec fn inbound_of(&self, tag: Seq<char>) -> Inbound<P> {
        self.inbounds()[self.inbound_tags().index_of(tag)]
    }

    /// The outbound that carries `tag`.
    pub open spec fn outbound_of(&self, tag: Seq<char>) -> Outbound<P> {
        self.outbounds()[self.outbound_tags().index_of(tag)]
    }

    /// What the accept loop of the binding at position `k` handles its
    /// connections with: the bound inbound and outbound, and the resolver
    /// if and only if the rule asks for resolution.
    pub open spec fn callback_of(&self, k: int) -> DispatchCallbackView<P> {
        let b = self.route_entries()[k];
        let inbound = self.inbound_of(b.tag);
        let outbound = self.outbound_of(b.rule.outbound);
        DispatchCallbackView {
            resolver: if b.rule.dns {
                Some(self.spec_resolver())
            } else {
                None
            },
            in_tag: inbound.spec_tag(),
            in_svc: inbound.spec_service(),
            out_tag: outbound.spec_tag(),
            out_svc: outbound.spec_service(),
            out_cli: outbound.spec_client(),
            timeout: outbound.spec_timeout(),
        }
    }

    /// Why the binding at position `k` cannot be started, if so: its
    /// inbound is unknown, or else its outbound is unknown, or else a task
    /// is already recorded under its inbound tag.
    pub open spec fn start_fault_at(&self, k: int) -> Option<DispatchErrorView> {
        let b = self.route_entries()[k];
        if !self.inbound_tags().contains(b.tag) {
            Some(DispatchErrorView::Option(OptionErrorView::UnknownTag(b.tag)))
        } else if !self.outbound_tags().contains(b.rule.outbound) {
            Some(DispatchErrorView::Option(OptionErrorView::UnknownTag(b.rule.outbound)))
        } else if self.tasks().contains_key(b.tag) {
            Some(DispatchErrorView::Option(OptionErrorView::DuplicateTag(b.tag)))
        } else {
            None
        }
    }

    /// The fault of each binding.
    pub open spec fn start_faults(&self) -> Seq<Option<DispatchErrorView>> {
        Seq::new(self.route_entries().len(), |k: int| self.start_fault_at(k))
    }

    /// The error that starting ends in, if any: the fault of the first
    /// binding that has one.
    pub open spec fn start_fault(&self) -> Option<DispatchErrorView> {
        first_fault(self.start_faults(), 0)
    }

    /// How many accept loops a start launches: one per binding up to the
    /// first fault, and one more where that fault is a task already
    /// recorded, which shows only after the launch.
    pub open spec fn launches(&self) -> int {
        let k = first_fault_index(self.start_faults(), 0);
        if k < self.route_entries().len() && self.start_faults()[k] matches Some(
            DispatchErrorView::Option(OptionErrorView::DuplicateTag(_)),
        ) {
            k + 1
        } else {
            k
        }
    }

    /// Whether `task` is what `spawn` can return for the binding at
    /// position `k`: it was handed the server of the bound inbound and the
    /// binding's callback.
    pub open spec fn launched<F: Fn(Arc<P::Server>, DispatchCallback<P>) -> P::Task>(
        &self,
        spawn: F,
        k: int,
        task: P::Task,
    ) -> bool {
        exists|server: Arc<P::Server>, callback: DispatchCallback<P>|
            {
                &&& #[trigger] call_ensures(spawn, (server, callback), task)
                &&& *server == self.inbound_of(self.route_entries()[k].tag).spec_server()
                &&& callback@ == self.callback_of(k)
            }
    }

    /// Whether the tasks are those of `before` with the first `n` bindings
    /// launched by `spawn`: each of them has its task recorded under its
    /// inbound tag, and the other tasks are as they were.
    pub open spec fn started<F: Fn(Arc<P::Server>, DispatchCallback<P>) -> P::Task>(
        &self,
        before: Self,
        spawn: F,
        n: int,
    ) -> bool {
        let b = before.route_entries();
        &&& forall|tag: Seq<char>| #[trigger]
            self.tasks().contains_key(tag) <==> before.tasks().contains_key(tag) || exists|j: int|
                0 <= j < n && (#[trigger] b[j]).tag == tag
        &&& forall|j: int|
            0 <= j < n ==> (self.tasks()[(#[trigger] b[j]).tag] matches Some(task)
                && before.launched(spawn, j, task))
        &&& forall|tag: Seq<char>|
            before.tasks().contains_key(tag) && !(exists|j: int|
                0 <= j < n && (#[trigger] b[j]).tag == tag) ==> #[trigger] self.tasks()[tag]
                == before.tasks()[tag]
    }

    /// Whether the resolver, the route table and the registries are those
    /// of `before`.
    pub open spec fn same_setup(&self, before: Self) -> bool {
        &&& self.spec_resolver() == before.spec_resolver()
        &&& self.route_entries() == before.route_entries()
        &&& self.inbounds() == before.inbounds()
        &&& self.outbounds() == before.outbounds()
    }

    /// Starts one accept loop per binding of the route table, in
    /// declaration order, and records its task under the inbound tag.
    ///
    /// `spawn` launches the accept loop of one inbound: it is handed the
    /// inbound's server and the callback for its connections, and returns
    /// the task. A binding whose inbound or outbound is unknown ends the
    /// start before its launch; one whose tag already has a task ends it
    /// after, with the new task in place of the old.
    pub fn start<F: Fn(Arc<P::Server>, DispatchCallback<P>) -> P::Task>(&mut self, spawn: F) -> (r:
        Result<(), DispatchError>)
        requires
            old(self).wf(),
            forall|server: Arc<P::Server>, callback: DispatchCallback<P>|
                call_requires(spawn, (server, callback)),
        ensures
            match r {
                Ok(_) => old(self).start_fault() is None,
                Err(e) => old(self).start_fault() == Some(e@),
            },
            final(self).wf(),
            final(self).same_setup(*old(self)),
            final(self).started(*old(self), spawn, old(self).launches()),
            final(self).slot_tags() == old(self).slot_tags() + old(self).route_entries().take(
                first_fault_index(old(self).start_faults(), 0),
            ).map_values(|b: Binding| b.tag),
    {
        let ghost before = *self;
        let ghost b = self.route.entries();
        let ghost faults = self.start_faults();
        let total = self.route.len();
        let mut k: usize = 0;
        proof {
            lemma_first_fault(faults, 0);
            assert(b.take(0).map_values(|b: Binding| b.tag) =~= Seq::<Seq<char>>::empty());
            assert(self.slot_tags() =~= before.slot_tags() + b.take(0).map_values(
                |b: Binding| b.tag,
            ));
        }
        while k < total
            invariant
                k <= total,
                before == *old(self),
                before.wf(),
                b == before.route_entries(),
                b.len() == total,
                faults == before.start_faults(),
                self.wf(),
                self.same_setup(before),
                forall|server: Arc<P::Server>, callback: DispatchCallback<P>|
                    call_requires(spawn, (server, callback)),
                first_fault(faults, 0) == first_fault(faults, k as int),
                first_fault_index(faults, 0) == first_fault_index(faults, k as int),
                self.started(before, spawn, k as int),
                self.slot_tags() == before.slot_tags() + b.take(k as int).map_values(
                    |b: Binding| b.tag,
                ),
            decreases total - k,
        {
            let entry = self.route.entry(k);
            let in_tag = entry.tag.clone();
            let out_tag = entry.rule.outbound.clone();
            let dns = entry.rule.dns;
            assert(faults[k as int] == before.start_fault_at(k as int));
            assert(b[k as int].tag == in_tag@);

            let in_at = match find_inbound(&self.inbound, in_tag.as_str()) {
                Some(at) => at,
                None => {
                    return Err(DispatchError::Option(OptionError::UnknownTag(in_tag)));
                },
            };
            let out_at = match find_outbound(&self.outbound, out_tag.as_str()) {
                Some(at) => at,
                None => {
                    return Err(DispatchError::Option(OptionError::UnknownTag(out_tag)));
                },
            };
            let resolver = if dns {
                Some(self.dns.get_resolver())
            } else {
                None
            };
            let server = self.inbound[in_at].get_server();
            let callback = DispatchCallback::new(
                &self.inbound[in_at],
                &self.outbound[out_at],
                resolver,
            );
            proof {
                let in_tags = before.inbound_tags();
                let out_tags = before.outbound_tags();
                assert(in_tags[in_at as int] == in_tag@);
                assert(out_tags[out_at as int] == out_tag@);
                assert(in_tags.index_of(in_tag@) == in_at);
                assert(out_tags.index_of(out_tag@) == out_at);
                assert(callback@ == before.callback_of(k as int));
            }
            let task = spawn(server, callback);
            assert(before.launched(spawn, k as int, task));

            let ghost slots = self.slots();
            let ghost was = *self;
            match find_slot(&self.in_state, &in_tag) {
                Some(at) => {
                    self.in_state.set(at, TaskSlot { tag: in_tag.clone(), task: Some(task) });
                    proof {
                        assert(self.slots() =~= slots.update(
                            at as int,
                            (slots[at as int].0, Some(task)),
                        ));
                        assert(self.slot_tags() =~= was.slot_tags());
                        lemma_slot_update(slots, at as int, Some(task));
                        lemma_slot_at(slots, at as int);
                        before.lemma_fresh_before(was, spawn, k as int);
                        assert(before.tasks().contains_key(in_tag@));
                        assert(faults[k as int] is Some);
                        self.lemma_started_step(was, before, spawn, k as int, task);
                    }
                    return Err(DispatchError::Option(OptionError::DuplicateTag(in_tag)));
                },
                None => {
                    self.in_state.push(TaskSlot { tag: in_tag, task: Some(task) });
                    proof {
                        assert(self.slots() =~= slots.push((b[k as int].tag, Some(task))));
                        assert(self.slot_tags() =~= was.slot_tags().push(b[k as int].tag));
                        assert(b.take(k as int + 1).map_values(|b: Binding| b.tag) =~= b.take(
                            k as int,
                        ).map_values(|b: Binding| b.tag).push(b[k as int].tag));
                        lemma_slot_push(slots, b[k as int].tag, Some(task));
                        assert(!before.tasks().contains_key(b[k as int].tag)) by {
                            if before.tasks().contains_key(b[k as int].tag) {
                                assert(was.tasks().contains_key(b[k as int].tag));
                            }
                        }
                        assert(faults[k as int] is None);
                        self.lemma_started_step(was, before, spawn, k as int, task);
                    }
                },
            }
            k += 1;
        }
        proof {
            lemma_first_fault(faults, k as int);
        }
        Ok(())
    }

    /// Cancels every accept loop: takes each recorded task out of its slot
    /// and hands it back with its tag, in the order of recording, for the
    /// caller to abort. The tags stay recorded. Idempotent: a second call
    /// finds no task.
    pub fn close(&mut self) -> (closed: Vec<(String, P::Task)>)
        requires
            old(self).wf(),
        ensures
            final(self).wf(),
            final(self).same_setup(*old(self)),
            final(self).slots() == emptied(old(self).slots()),
            final(self).tasks() == cancelled(old(self).tasks()),
            closed@.map_values(|c: (String, P::Task)| (c.0@, c.1)) == live_slots(
                old(self).slots(),
            ),
    {
        let ghost before = *self;
        let ghost slots = self.slots();
        let mut taken: Vec<TaskSlot<P>> = Vec::new();
        core::mem::swap(&mut self.in_state, &mut taken);
        let mut closed: Vec<(String, P::Task)> = Vec::new();
        let total = taken.len();
        let mut n: usize = 0;
        let ghost all = taken@;
        proof {
            assert(taken@.skip(0) =~= taken@);
            assert(slots.take(0) =~= Seq::empty());
            assert(self.slots() =~= emptied(slots.take(0)));
            assert(closed@.map_values(|c: (String, P::Task)| (c.0@, c.1)) =~= live_slots(
                slots.take(0),
            ));
        }
        while n < total
            invariant
                n <= total,
                total == all.len(),
                taken@ == all.skip(n as int),
                slots == all.map_values(|s: TaskSlot<P>| (s.tag@, s.task)),
                self.same_setup(before),
                self.slots() == emptied(slots.take(n as int)),
                closed@.map_values(|c: (String, P::Task)| (c.0@, c.1)) == live_slots(
                    slots.take(n as int),
                ),
            decreases total - n,
        {
            let slot = taken.remove(0);
            assert(slot == all[n as int]);
            assert(taken@ == all.skip(n as int + 1));
            assert(slots[n as int] == (slot.tag@, slot.task));
            let ghost held = self.slots();
            let ghost given = closed@.map_values(|c: (String, P::Task)| (c.0@, c.1));
            proof {
                assert(slots.take(n as int + 1).drop_last() =~= slots.take(n as int));
                assert(slots.take(n as int + 1).last() == slots[n as int]);
            }
            let TaskSlot { tag, task } = slot;
            match task {
                Some(task) => {
                    closed.push((tag.clone(), task));
                    assert(closed@.map_values(|c: (String, P::Task)| (c.0@, c.1)) =~= given.push(
                        (slots[n as int].0, task),
                    ));
                },
                None => {},
            }
            self.in_state.push(TaskSlot { tag, task: None });
            proof {
                assert(self.slots() =~= held.push((slots[n as int].0, None::<P::Task>)));
                assert(emptied(slots.take(n as int + 1)) =~= held.push(
                    (slots[n as int].0, None::<P::Task>),
                ));
            }
            n += 1;
        }
        proof {
            assert(slots.take(n as int) =~= slots);
            lemma_slots_cancelled(slots);
        }
        closed
    }

    /// A dispatcher that has no task yet and whose route table names an
    /// inbound or an outbound that is not in the registries cannot be
    /// started: starting it ends in an unknown tag.
    pub proof fn lemma_dangling_tag_rejected(&self, k: int)
        requires
            self.slots().len() == 0,
            0 <= k < self.route_entries().len(),
            !self.inbound_tags().contains(self.route_entries()[k].tag)
                || !self.outbound_tags().contains(self.route_entries()[k].rule.outbound),
        ensures
            self.start_fault() matches Some(
                DispatchErrorView::Option(OptionErrorView::UnknownTag(_)),
            ),
    {
        let faults = self.start_faults();
        lemma_first_fault(faults, 0);
        let first = first_fault_index(faults, 0);
        assert(faults[k] == self.start_fault_at(k));
        assert(faults[k] is Some);
        assert(faults[first] == self.start_fault_at(first));
        assert(!self.tasks().contains_key(self.route_entries()[first].tag));
    }

    /// What a close hands back after a start. Where no task was recorded
    /// before the start, the tasks that are live after it are those of the
    /// launched bindings, one each and in their order: none escapes the
    /// next close.
    pub proof fn lemma_started_are_live<F: Fn(Arc<P::Server>, DispatchCallback<P>) -> P::Task>(
        &self,
        before: Self,
        spawn: F,
        n: int,
    )
        requires
            0 <= n <= before.route_entries().len(),
            before.slots().len() == 0,
            distinct_slots(self.slots()),
            self.started(before, spawn, n),
            self.slot_tags() == before.route_entries().take(n).map_values(|b: Binding| b.tag),
        ensures
            live_slots(self.slots()).len() == n,
            forall|j: int|
                0 <= j < n ==> (#[trigger] live_slots(self.slots())[j]).0
                    == before.route_entries()[j].tag && before.launched(
                    spawn,
                    j,
                    live_slots(self.slots())[j].1,
                ),
    {
        let b = before.route_entries();
        let slots = self.slots();
        assert(slots.len() == n) by {
            assert(self.slot_tags().len() == slots.len());
        }
        assert forall|j: int| 0 <= j < n implies (#[trigger] slots[j]).0 == b[j].tag && (
        slots[j].1 matches Some(task) && before.launched(spawn, j, task)) by {
            assert(self.slot_tags()[j] == slots[j].0);
            assert(b.take(n).map_values(|b: Binding| b.tag)[j] == b[j].tag);
            lemma_slot_at(slots, j);
        }
        lemma_all_live(slots);
    }

    /// While no binding before `k` had a fault, none of their tags had a
    /// task before the start.
    proof fn lemma_fresh_before<F: Fn(Arc<P::Server>, DispatchCallback<P>) -> P::Task>(
        &self,
        now: Self,
        spawn: F,
        k: int,
    )
        requires
            0 <= k < self.route_entries().len(),
            crate::route::distinct_tags(self.route_entries()),
            now.started(*self, spawn, k),
        ensures
            now.tasks().contains_key(self.route_entries()[k].tag) ==> self.tasks().contains_key(
                self.route_entries()[k].tag,
            ),
    {
        let b = self.route_entries();
        let tag = b[k].tag;
        if now.tasks().contains_key(tag) && !self.tasks().contains_key(tag) {
            let j = choose|j: int| 0 <= j < k && (#[trigger] b[j]).tag == tag;
            assert(b[j].tag != b[k].tag);
        }
    }

    /// Recording the task of the binding at position `k` extends what was
    /// started by one.
    proof fn lemma_started_step<F: Fn(Arc<P::Server>, DispatchCallback<P>) -> P::Task>(
        &self,
        was: Self,
        before: Self,
        spawn: F,
        k: int,
        task: P::Task,
    )
        requires
            0 <= k < before.route_entries().len(),
            crate::route::distinct_tags(before.route_entries()),
            was.started(before, spawn, k),
            before.launched(spawn, k, task),
            self.tasks() == was.tasks().insert(before.route_entries()[k].tag, Some(task)),
        ensures
            self.started(before, spawn, k + 1),
    {
        let b = before.route_entries();
        let tag = b[k].tag;
        assert forall|t: Seq<char>| #[trigger]
            self.tasks().contains_key(t) <==> before.tasks().contains_key(t) || exists|j: int|
                0 <= j < k + 1 && (#[trigger] b[j]).tag == t by {
            if self.tasks().contains_key(t) {
                if t == tag {
                    assert(b[k].tag == t);
                } else {
                    assert(was.tasks().contains_key(t));
                    if !before.tasks().contains_key(t) {
                        let j = choose|j: int| 0 <= j < k && (#[trigger] b[j]).tag == t;
                        assert(0 <= j < k + 1 && b[j].tag == t);
                    }
                }
            }
            if exists|j: int| 0 <= j < k + 1 && (#[trigger] b[j]).tag == t {
                let j = choose|j: int| 0 <= j < k + 1 && (#[trigger] b[j]).tag == t;
                if j < k {
                    assert(was.tasks().contains_key(t));
                }
            }
            if before.tasks().contains_key(t) {
                assert(was.tasks().contains_key(t));
            }
        }
        assert forall|j: int| 0 <= j < k + 1 implies (self.tasks()[(
        #[trigger] b[j]).tag] matches Some(h) && before.launched(spawn, j, h)) by {
            if j < k {
                assert(b[j].tag != b[k].tag);
            }
        }
        assert forall|t: Seq<char>|
            before.tasks().contains_key(t) && !(exists|j: int|
                0 <= j < k + 1 && (#[trigger] b[j]).tag == t) implies #[trigger] self.tasks()[t]
            == before.tasks()[t] by {
            assert(t != tag) by {
                if t == tag {
                    assert(b[k].tag == t);
                }
            }
            assert(!(exists|j: int| 0 <= j < k && (#[trigger] b[j]).tag == t)) by {
                if exists|j: int| 0 <= j < k && (#[trigger] b[j]).tag == t {
                    let j = choose|j: int| 0 <= j < k && (#[trigger] b[j]).tag == t;
                    assert(0 <= j < k + 1 && b[j].tag == t);
                }
            }
        }
    }
}

/// Position of the inbound that carries `tag`, if there is one.
fn find_inbound<P: Parts>(registry: &Vec<Inbound<P>>, tag: &str) -> (r: Option<usize>)
    ensures
        r is Some <==> registry@.map_values(|i: Inbound<P>| i.spec_tag()).contains(tag@),
        r matches Some(at) ==> at < registry.len() && registry[at as int].spec_tag() == tag@,
{
    let ghost tags = registry@.map_values(|i: Inbound<P>| i.spec_tag());
    let key = tag.to_owned();
    let mut at: usize = 0;
    while at < registry.len()
        invariant
            at <= registry.len(),
            key@ == tag@,
            tags == registry@.map_values(|i: Inbound<P>| i.spec_tag()),
            forall|i: int| 0 <= i < at ==> tags[i] != tag@,
        decreases registry.len() - at,
    {
        if registry[at].get_tag() == key {
            assert(tags[at as int] == tag@);
            return Some(at);
        }
        at += 1;
    }
    None
}

/// Position of the outbound that carries `tag`, if there is one.
fn find_outbound<P: Parts>(registry: &Vec<Outbound<P>>, tag: &str) -> (r: Option<usize>)
    ensures
        r is Some <==> registry@.map_values(|o: Outbound<P>| o.spec_tag()).contains(tag@),
        r matches Some(at) ==> at < registry.len() && registry[at as int].spec_tag() == tag@,
{
    let ghost tags = registry@.map_values(|o: Outbound<P>| o.spec_tag());
    let key = tag.to_owned();
    let mut at: usize = 0;
    while at < registry.len()
        invariant
            at <= registry.len(),
            key@ == tag@,
            tags == registry@.map_values(|o: Outbound<P>| o.spec_tag()),
            forall|i: int| 0 <= i < at ==> tags[i] != tag@,
        decreases registry.len() - at,
    {
        if registry[at].get_tag() == key {
            assert(tags[at as int] == tag@);
            return Some(at);
        }
        at += 1;
    }
    None
}

/// Position of the slot that carries `tag`, if there is one.
fn find_slot<P: Parts>(slots: &Vec<TaskSlot<P>>, tag: &String) -> (r: Option<usize>)
    ensures
        r is Some <==> has_slot(slots@.map_values(|s: TaskSlot<P>| (s.tag@, s.task)), tag@),
        r matches Some(at) ==> at < slots.len() && slots[at as int].tag@ == tag@,
{
    let ghost pairs = slots@.map_values(|s: TaskSlot<P>| (s.tag@, s.task));
    let mut at: usize = 0;
    while at < slots.len()
        invariant
            at <= slots.len(),
            pairs == slots@.map_values(|s: TaskSlot<P>| (s.tag@, s.task)),
            forall|i: int| 0 <= i < at ==> (#[trigger] pairs[i]).0 != tag@,
        decreases slots.len() - at,
    {
        if slots[at].tag == *tag {
            assert(pairs[at as int].0 == tag@);
            return Some(at);
        }
        at += 1;
    }
    None
}

} // verus!
