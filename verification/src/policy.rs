//! The aggregation policy of one evaluation pass, as a pure fold.
//!
//! The evaluator walks the matching constraints in registry order, one
//! outcome per constraint, and folds the outcomes into a scan state:
//! an enforced rejection decides the pass at once; a tolerated rejection
//! or a passing reason becomes a warning; patches accumulate; each engaged
//! constraint leaves one event and its counter increments.  The laws of
//! short-circuiting are proved here once, over arbitrary outcomes.

use vstd::prelude::*;

use crate::constraint::ConstraintModel;
use crate::events::CounterKind;
use crate::events::EventModel;
use crate::events::MetricModel;
use crate::patch::PatchOpModel;

verus! {

/// What one constraint's execution came to.
pub struct OutcomeModel {
    pub allowed: bool,
    pub reason: Option<Seq<char>>,
    pub patch: Option<Seq<PatchOpModel>>,
    pub error: bool,
}

/// The state of one pass over the matching constraints.
pub struct ScanState {
    pub decided: bool,
    pub reason: Option<Seq<char>>,
    pub warnings: Seq<Seq<char>>,
    pub ops: Seq<PatchOpModel>,
    pub events: Seq<EventModel>,
    pub metrics: Seq<MetricModel>,
}

/// The state before any constraint has been engaged.
pub open spec fn init_state() -> ScanState {
    ScanState {
        decided: false,
        reason: Option::None,
        warnings: Seq::empty(),
        ops: Seq::empty(),
        events: Seq::empty(),
        metrics: Seq::empty(),
    }
}

/// The counter increments one engaged constraint leaves: matched, an error
/// if its execution broke, and the evaluation's success or rejection.
pub open spec fn step_metrics(c: ConstraintModel, o: OutcomeModel) -> Seq<MetricModel> {
    seq![MetricModel { kind: CounterKind::Matched, name: c.name }] + (if o.error {
        seq![MetricModel { kind: CounterKind::EvaluatedError, name: c.name }]
    } else {
        Seq::empty()
    }) + (if o.allowed {
        seq![MetricModel { kind: CounterKind::EvaluatedSuccess, name: c.name }]
    } else {
        seq![MetricModel { kind: CounterKind::EvaluatedReject, name: c.name }]
    })
}

/// One constraint folded into the state.  A decided state is left alone:
/// nothing after an enforced rejection is engaged.
pub open spec fn scan_step(
    s: ScanState,
    c: ConstraintModel,
    target: Seq<char>,
    o: OutcomeModel,
) -> ScanState {
    if s.decided {
        s
    } else {
        let events2 = s.events.push(
            EventModel { ref_name: c.ref_name, target: target, result: o.allowed, reason: o.reason },
        );
        let metrics2 = s.metrics + step_metrics(c, o);
        let ops2 = s.ops + (match o.patch {
            Option::Some(p) => p,
            Option::None => Seq::empty(),
        });
        if !o.allowed && c.enforce {
            ScanState {
                decided: true,
                reason: o.reason,
                warnings: s.warnings,
                ops: ops2,
                events: events2,
                metrics: metrics2,
            }
        } else {
            ScanState {
                decided: false,
                reason: s.reason,
                warnings: if o.reason is Some {
                    s.warnings.push(o.reason->Some_0)
                } else {
                    s.warnings
                },
                ops: ops2,
                events: events2,
                metrics: metrics2,
            }
        }
    }
}

/// The first `k` matching constraints folded, in order.
pub open spec fn scan(
    cs: Seq<ConstraintModel>,
    target: Seq<char>,
    outs: Seq<OutcomeModel>,
    k: int,
) -> ScanState
    decreases k,
{
    if k <= 0 {
        init_state()
    } else {
        scan_step(scan(cs, target, outs, k - 1), cs[k - 1], target, outs[k - 1])
    }
}

/// Model of the result of one pass.
pub struct ResultModel {
    pub allowed: bool,
    pub reason: Option<Seq<char>>,
    pub warnings: Seq<Seq<char>>,
    pub patch: Option<Seq<PatchOpModel>>,
}

/// The result a finished scan returns: a decided scan rejects with its
/// reason and never carries a patch; an undecided scan allows, with the
/// accumulated patch if there is one.
pub open spec fn finalize(s: ScanState) -> ResultModel {
    if s.decided {
        ResultModel {
            allowed: false,
            reason: s.reason,
            warnings: s.warnings,
            patch: Option::None,
        }
    } else {
        ResultModel {
            allowed: true,
            reason: Option::None,
            warnings: s.warnings,
            patch: if s.ops.len() > 0 {
                Option::Some(s.ops)
            } else {
                Option::None
            },
        }
    }
}

/// A scan of the first `k` constraints reads only the first `k` outcomes.
pub proof fn lemma_scan_prefix(
    cs: Seq<ConstraintModel>,
    target: Seq<char>,
    o1: Seq<OutcomeModel>,
    o2: Seq<OutcomeModel>,
    k: int,
)
    requires
        forall|j: int| 0 <= j < k ==> o1[j] == o2[j],
    ensures
        scan(cs, target, o1, k) == scan(cs, target, o2, k),
    decreases k,
{
    if k > 0 {
        lemma_scan_prefix(cs, target, o1, o2, k - 1);
    }
}

/// Once a scan is decided, folding further constraints changes nothing.
pub proof fn lemma_scan_stable(
    cs: Seq<ConstraintModel>,
    target: Seq<char>,
    outs: Seq<OutcomeModel>,
    k: int,
    m: int,
)
    requires
        0 <= k <= m,
        scan(cs, target, outs, k).decided,
    ensures
        scan(cs, target, outs, m) == scan(cs, target, outs, k),
    decreases m - k,
{
    if m > k {
        lemma_scan_stable(cs, target, outs, k, m - 1);
    }
}

/// Law: when the first matching constraint is enforced and rejects, the
/// pass returns that rejection with its reason and no patch, and no later
/// constraint is engaged: exactly one event and one constraint's counters
/// arise, whatever the later outcomes would have been.
pub proof fn lemma_enforced_rejection_short_circuits(
    cs: Seq<ConstraintModel>,
    target: Seq<char>,
    outs: Seq<OutcomeModel>,
)
    requires
        cs.len() == outs.len(),
        cs.len() >= 1,
        !outs[0].allowed,
        cs[0].enforce,
    ensures
        ({
            let s = scan(cs, target, outs, cs.len() as int);
            let f = finalize(s);
            &&& f.allowed == false
            &&& f.reason == outs[0].reason
            &&& f.patch is None
            &&& s.events.len() == 1
            &&& s.events[0].ref_name == cs[0].ref_name
            &&& s.events[0].result == false
            &&& s.metrics == step_metrics(cs[0], outs[0])
        }),
{
    assert(scan(cs, target, outs, 0) == init_state());
    let s1 = scan(cs, target, outs, 1);
    assert(s1 == scan_step(init_state(), cs[0], target, outs[0]));
    assert(s1.decided);
    lemma_scan_stable(cs, target, outs, 1, cs.len() as int);
    assert(s1.metrics =~= step_metrics(cs[0], outs[0]));
}

/// Law: a non-enforced rejection does not block the pass: with a matching,
/// passing constraint after it, the pass allows, the rejection's reason
/// stands among the warnings, and both constraints were engaged.
pub proof fn lemma_non_enforced_rejection_warns(
    cs: Seq<ConstraintModel>,
    target: Seq<char>,
    outs: Seq<OutcomeModel>,
)
    requires
        cs.len() == 2,
        outs.len() == 2,
        !outs[0].allowed,
        !cs[0].enforce,
        outs[0].reason is Some,
        outs[1].allowed,
        outs[1].reason is None,
        outs[0].patch is None,
        outs[1].patch is None,
    ensures
        ({
            let s = scan(cs, target, outs, 2);
            let f = finalize(s);
            &&& f.allowed == true
            &&& f.warnings == seq![outs[0].reason->Some_0]
            &&& f.patch is None
            &&& s.events.len() == 2
            &&& s.events[0].ref_name == cs[0].ref_name
            &&& s.events[1].ref_name == cs[1].ref_name
        }),
{
    let s0 = init_state();
    assert(scan(cs, target, outs, 0) == s0);
    let s1 = scan(cs, target, outs, 1);
    let s2 = scan(cs, target, outs, 2);
    assert(s1 == scan_step(s0, cs[0], target, outs[0]));
    assert(s2 == scan_step(s1, cs[1], target, outs[1]));
    assert(s2.warnings =~= seq![outs[0].reason->Some_0]);
    assert(s2.ops =~= Seq::<PatchOpModel>::empty());
}

} // verus!
