//! Driving a run, one step at a time.
//!
//! The caller asks what to do next (`poll`), does it (performing an action,
//! taking the time), and hands back what came of it (`record`, `end_item`).
//! The driver decides which item and action come next, when an abort stops
//! the run, which events to report, and in what order; at the end it gives
//! the run record, with every item of the plan recorded once, in order.

use vstd::prelude::*;
use crate::execute::events::ExecuteEvent;
use crate::execute::result::{capped, is_unperformed_item, is_unperformed_record, run_status_spec};
use crate::execute::runner::{is_action_record, ActionRecord, ItemRun, Notice, RunProgress};
use crate::model::{
    describe_spec, ActionStatus, OutputLine, Plan, Run, RunAction, RunItem, RunStatus, MAX_HISTORY_OUTPUT_LINES,
};

verus! {

/// What the caller does next.
#[derive(Debug, Clone, Copy, PartialEq, Eq, Structural)]
pub enum Next {
    /// Ask again.
    Continue,
    /// An item starts: take its start time, then ask again.
    BeginItem,
    /// Perform action `action` of item `index`, then `record` what came of it.
    Perform,
    /// The item is over: take its finish time and call `end_item`.
    EndItem,
    /// The run is over: call `finish`.
    Done,
}

/// Where a run stands.
pub struct RunDriver {
    /// The items recorded so far.
    pub progress: RunProgress,
    /// The item being run, once it has started.
    pub current: Option<ItemRun>,
    /// The plan item the run is at.
    pub index: usize,
    /// The next action of the current item.
    pub action: usize,
    /// The current item stopped early (a failure or an abort).
    pub item_stopped: bool,
    /// An abort stopped the run.
    pub stopped: bool,
    /// The number of `Aborted` events reported so far.
    pub aborts: Ghost<nat>,
}

/// The number of `Aborted` events in `es`.
pub open spec fn aborted_count(es: Seq<ExecuteEvent>) -> nat
    decreases es.len(),
{
    if es.len() == 0 {
        0
    } else {
        aborted_count(es.drop_last()) + (if es.last() is Aborted {
            1nat
        } else {
            0nat
        })
    }
}

proof fn lemma_aborted_count_push(es: Seq<ExecuteEvent>, e: ExecuteEvent)
    ensures
        aborted_count(es.push(e)) == aborted_count(es) + (if e is Aborted {
            1nat
        } else {
            0nat
        }),
{
    assert(es.push(e).drop_last() =~= es);
}

/// A selected item of `plan` among the recorded ones ended with an error.
pub open spec fn some_failed(items: Seq<RunItem>, plan: Plan) -> bool {
    exists|k: int| 0 <= k < items.len() && plan.items@[k].selected && (#[trigger] items[k]).error is Some
}

/// The items recorded so far are those of the plan's first items, in order.
pub open spec fn recorded_in_order(d: RunDriver, plan: Plan) -> bool {
    &&& d.progress.items@.len() <= plan.items@.len()
    &&& forall|k: int|
        0 <= k < d.progress.items@.len() ==> (#[trigger] d.progress.items@[k]).id == plan.items@[k].id
            && d.progress.items@[k].name == plan.items@[k].name
}

/// Each action's output holds at most `MAX_HISTORY_OUTPUT_LINES` lines.
pub open spec fn actions_capped(acts: Seq<RunAction>) -> bool {
    forall|k: int| 0 <= k < acts.len() ==> (#[trigger] acts[k]).output@.len() <= MAX_HISTORY_OUTPUT_LINES
}

/// Each item's output, and each of its actions', holds at most
/// `MAX_HISTORY_OUTPUT_LINES` lines.
pub open spec fn items_capped(items: Seq<RunItem>) -> bool {
    forall|k: int|
        0 <= k < items.len() ==> (#[trigger] items[k]).output@.len() <= MAX_HISTORY_OUTPUT_LINES && actions_capped(
            items[k].actions@,
        )
}

proof fn lemma_capped_len(s: Seq<OutputLine>)
    ensures
        capped(s).len() <= MAX_HISTORY_OUTPUT_LINES,
{
}

proof fn lemma_unperformed_capped(r: RunItem, p: crate::model::PlanItem)
    requires
        is_unperformed_item(r, p),
    ensures
        r.output@.len() <= MAX_HISTORY_OUTPUT_LINES,
        actions_capped(r.actions@),
{
    assert forall|k: int| 0 <= k < r.actions@.len() implies (#[trigger] r.actions@[k]).output@.len()
        <= MAX_HISTORY_OUTPUT_LINES by {
        let (status, reason) = if p.selected {
            (ActionStatus::NotRun, "not run (aborted)"@)
        } else {
            (ActionStatus::WillSkip, "skipped (not selected)"@)
        };
        assert(is_unperformed_record(r.actions@[k], p.actions@[k], status, reason));
    }
}

impl RunDriver {
    /// The driver is consistent with `plan`.
    pub open spec fn wf(&self, plan: Plan) -> bool {
        &&& self.index <= plan.items@.len()
        &&& recorded_in_order(*self, plan)
        &&& self.progress.items@.len() == self.index
        &&& self.stopped ==> self.current is None && self.progress.aborted && self.progress.not_run_start
            == Some(self.index)
        &&& !self.stopped ==> !self.progress.aborted && self.progress.not_run_start is None
        &&& self.current is Some ==> self.index < plan.items@.len() && plan.items@[self.index as int].selected
            && self.action <= plan.items@[self.index as int].actions@.len()
        &&& self.current is Some && !self.item_stopped ==> (self.current->0.actions@.len() == self.action
            && !self.current->0.aborted && self.current->0.error is None)
        &&& items_capped(self.progress.items@)
        &&& forall|k: int|
            0 <= k < self.progress.items@.len() && !plan.items@[k].selected ==> is_unperformed_item(
                #[trigger] self.progress.items@[k],
                plan.items@[k],
            )
        &&& self.progress.any_failed == some_failed(self.progress.items@, plan)
        &&& self.aborts@ == (if self.stopped || (self.current is Some && self.current->0.aborted) {
            1nat
        } else {
            0nat
        })
        &&& self.current is Some ==> self.current->0.output@.len() <= MAX_HISTORY_OUTPUT_LINES && actions_capped(
            self.current->0.actions@,
        )
    }

    /// A run about to start.
    pub fn new() -> (r: RunDriver)
        ensures
            r.progress.items@.len() == 0,
            r.current is None,
            r.index == 0,
            !r.stopped,
            !r.progress.aborted,
            !r.progress.any_failed,
            r.progress.not_run_start is None,
            r.aborts@ == 0,
    {
        RunDriver {
            progress: RunProgress::new(),
            current: None,
            index: 0,
            action: 0,
            item_stopped: false,
            stopped: false,
            aborts: Ghost(0),
        }
    }

    /// What to do next. `abort` is whether an abort was requested, asked
    /// anew before each call: before an item starts it stops the run there,
    /// before an action it stops the item (and then the run) there.
    pub fn poll(&mut self, plan: &Plan, abort: bool) -> (r: (Vec<ExecuteEvent>, Next))
        requires
            old(self).wf(*plan),
            plan.items@.len() < usize::MAX,
        ensures
            final(self).wf(*plan),
            final(self).aborts@ == old(self).aborts@ + aborted_count(r.0@),
            old(self).stopped || (old(self).current is None && old(self).index == plan.items@.len()) ==> (r.1
                == Next::Done && r.0@.len() == 0 && *final(self) == *old(self)),
            !old(self).stopped && old(self).current is None && old(self).index < plan.items@.len() ==> {
                let i = old(self).index as int;
                let p = plan.items@[i];
                if abort {
                    &&& r.1 == Next::Done
                    &&& r.0@.len() == 1 && r.0@[0] is Aborted
                    &&& final(self).stopped && final(self).index == old(self).index
                    &&& final(self).progress.items == old(self).progress.items
                    &&& final(self).progress.any_failed == old(self).progress.any_failed
                } else if !p.selected {
                    &&& r.1 == Next::Continue && r.0@.len() == 0
                    &&& final(self).index == i + 1 && final(self).current is None && !final(self).stopped
                    &&& is_unperformed_item(final(self).progress.items@.last(), p)
                    &&& final(self).progress.any_failed == old(self).progress.any_failed
                } else {
                    &&& r.1 == Next::BeginItem
                    &&& r.0@.len() == 1
                    &&& r.0@[0] matches ExecuteEvent::ItemStarted { index, name } && index == i && name == p.name
                    &&& final(self).index == i && final(self).action == 0 && !final(self).item_stopped
                    &&& final(self).current matches Some(c) && c.error is None && c.attempts == 0
                        && c.actions@.len() == 0 && c.output@.len() == 0 && !c.aborted
                    &&& final(self).progress == old(self).progress
                }
            },
            old(self).current is Some ==> {
                let i = old(self).index as int;
                let p = plan.items@[i];
                if old(self).item_stopped || old(self).action == p.actions@.len() {
                    r.1 == Next::EndItem && r.0@.len() == 0 && *final(self) == *old(self)
                } else if abort {
                    &&& r.1 == Next::EndItem
                    &&& r.0@.len() == 1 && r.0@[0] is Aborted
                    &&& final(self).item_stopped
                    &&& final(self).current matches Some(c) && c.aborted && c.last_status == ActionStatus::Aborted
                        && c.actions@.len() == p.actions@.len()
                    &&& final(self).index == old(self).index && final(self).progress == old(self).progress
                } else {
                    &&& r.1 == Next::Perform
                    &&& r.0@.len() == 1
                    &&& r.0@[0] matches ExecuteEvent::ActionStarted {
                        item_index,
                        action_index,
                        item,
                        action,
                    } && item_index == i && action_index == old(self).action && item == p.name && action@
                        == describe_spec(p.actions@[old(self).action as int])
                    &&& *final(self) == *old(self)
                }
            },
    {
        if self.stopped {
            return (Vec::new(), Next::Done);
        }
        match &self.current {
            None => {
                if self.index >= plan.items.len() {
                    return (Vec::new(), Next::Done);
                }
                let mut events: Vec<ExecuteEvent> = Vec::new();
                if abort {
                    self.progress.abort_before(self.index);
                    self.stopped = true;
                    events.push(ExecuteEvent::Aborted);
                    proof {
                        lemma_aborted_count_push(Seq::empty(), ExecuteEvent::Aborted);
                        assert(events@ == Seq::<ExecuteEvent>::empty().push(ExecuteEvent::Aborted));
                        self.aborts = Ghost(self.aborts@ + 1);
                    }
                    return (events, Next::Done);
                }
                let p = &plan.items[self.index];
                if !p.selected {
                    let ghost before = self.progress.items@;
                    self.progress.skip(p);
                    self.index = self.index + 1;
                    proof {
                        assert forall|k: int| 0 <= k < self.progress.items@.len() implies (
                        #[trigger] self.progress.items@[k]).id == plan.items@[k].id && self.progress.items@[k].name
                            == plan.items@[k].name by {
                            if k < before.len() {
                                assert(self.progress.items@[k] == before[k]);
                            }
                        }
                        lemma_unperformed_capped(self.progress.items@.last(), *p);
                        assert forall|k: int| 0 <= k < self.progress.items@.len() implies (
                        #[trigger] self.progress.items@[k]).output@.len() <= MAX_HISTORY_OUTPUT_LINES && actions_capped(
                            self.progress.items@[k].actions@,
                        ) by {
                            if k < before.len() {
                                assert(self.progress.items@[k] == before[k]);
                            }
                        }
                        assert forall|k: int|
                            0 <= k < self.progress.items@.len() && !plan.items@[k].selected implies is_unperformed_item(
                            #[trigger] self.progress.items@[k],
                            plan.items@[k],
                        ) by {
                            if k < before.len() {
                                assert(self.progress.items@[k] == before[k]);
                            }
                        }
                        if some_failed(self.progress.items@, *plan) {
                            let k = choose|k: int|
                                0 <= k < self.progress.items@.len() && plan.items@[k].selected && (
                                #[trigger] self.progress.items@[k]).error is Some;
                            assert(k < before.len());
                            assert(self.progress.items@[k] == before[k]);
                        }
                        if some_failed(before, *plan) {
                            let k = choose|k: int|
                                0 <= k < before.len() && plan.items@[k].selected && (#[trigger] before[k]).error is Some;
                            assert(self.progress.items@[k] == before[k]);
                        }
                    }
                    return (events, Next::Continue);
                }
                events.push(ExecuteEvent::ItemStarted { index: self.index, name: p.name.clone() });
                proof {
                    lemma_aborted_count_push(Seq::empty(), events@[0]);
                    assert(events@ == Seq::<ExecuteEvent>::empty().push(events@[0]));
                }
                self.current = Some(ItemRun::new());
                self.action = 0;
                self.item_stopped = false;
                (events, Next::BeginItem)
            },
            Some(c) => {
                let p = &plan.items[self.index];
                if self.item_stopped || self.action >= p.actions.len() {
                    return (Vec::new(), Next::EndItem);
                }
                let mut events: Vec<ExecuteEvent> = Vec::new();
                if abort {
                    let mut c = self.current.take().unwrap();
                    let ghost old_acts = c.actions@;
                    c.abort_at(&p.actions, self.action);
                    proof {
                        self.aborts = Ghost(self.aborts@ + 1);
                        let act = self.action as int;
                        assert forall|k: int| 0 <= k < c.actions@.len() implies (#[trigger] c.actions@[k]).output@.len()
                            <= MAX_HISTORY_OUTPUT_LINES by {
                            if k < old_acts.len() {
                                assert(c.actions@[k] == old_acts[k]);
                            } else {
                                let j = k - old_acts.len() + act;
                                assert(is_unperformed_record(
                                    c.actions@[old_acts.len() + j - act],
                                    p.actions@[j],
                                    ActionStatus::NotRun,
                                    "not run (aborted)"@,
                                ));
                            }
                        }
                    }
                    self.current = Some(c);
                    self.item_stopped = true;
                    events.push(ExecuteEvent::Aborted);
                    proof {
                        lemma_aborted_count_push(Seq::empty(), ExecuteEvent::Aborted);
                        assert(events@ == Seq::<ExecuteEvent>::empty().push(ExecuteEvent::Aborted));
                    }
                    return (events, Next::EndItem);
                }
                let a = &p.actions[self.action];
                events.push(
                    ExecuteEvent::ActionStarted {
                        item_index: self.index,
                        action_index: self.action,
                        item: p.name.clone(),
                        action: a.describe(),
                    },
                );
                proof {
                    lemma_aborted_count_push(Seq::empty(), events@[0]);
                    assert(events@ == Seq::<ExecuteEvent>::empty().push(events@[0]));
                }
                (events, Next::Perform)
            },
        }
    }

    /// Records what the action that `poll` asked for came to, and reports
    /// it: its notices (messages and errors), an abort when it was cut short,
    /// then its end with its status. A failure or an abort stops the item.
    pub fn record(&mut self, plan: &Plan, rec: ActionRecord) -> (events: Vec<ExecuteEvent>)
        requires
            old(self).wf(*plan),
            old(self).current is Some,
            !old(self).item_stopped,
            old(self).action < plan.items@[old(self).index as int].actions@.len(),
        ensures
            final(self).wf(*plan),
            final(self).index == old(self).index,
            final(self).progress == old(self).progress,
            final(self).current matches Some(c) && c.last_status == rec.status && (c.error is Some
                <==> (old(self).current->0.error is Some || rec.error is Some)),
            final(self).item_stopped == (final(self).current->0.error is Some || final(self).current->0.aborted),
            !final(self).item_stopped ==> final(self).action == old(self).action + 1,
            final(self).current->0.attempts == match rec.attempts {
                Some(n) => n,
                None => old(self).current->0.attempts,
            },
            final(self).current->0.aborted == (old(self).current->0.aborted || rec.aborted || rec.status
                == ActionStatus::Aborted),
            final(self).current->0.output@ == capped(old(self).current->0.output@ + capped(rec.output@)),
            final(self).current->0.error == (if rec.error is Some {
                rec.error
            } else {
                old(self).current->0.error
            }),
            final(self).current->0.actions@.take(old(self).current->0.actions@.len() as int)
                == old(self).current->0.actions@,
            final(self).current->0.actions@.len() == old(self).current->0.actions@.len() + 1 + (if rec.error
                is Some {
                plan.items@[old(self).index as int].actions@.len() - old(self).action - 1
            } else {
                0
            }),
            is_action_record(
                final(self).current->0.actions@[old(self).current->0.actions@.len() as int],
                plan.items@[old(self).index as int].actions@[old(self).action as int],
                rec.status,
                rec.error,
                rec.output@,
            ),
            rec.error is Some ==> forall|k: int|
                old(self).action < k < plan.items@[old(self).index as int].actions@.len() ==> is_unperformed_record(
                    #[trigger] final(self).current->0.actions@[old(self).current->0.actions@.len() + k
                        - old(self).action],
                    plan.items@[old(self).index as int].actions@[k],
                    ActionStatus::NotRun,
                    "not run after previous failure"@,
                ),
            events@.len() == rec.notices@.len() + (if rec.status == ActionStatus::Aborted || rec.aborted {
                1int
            } else {
                0int
            }) + 1,
            final(self).aborts@ == old(self).aborts@ + aborted_count(events@),
            forall|k: int|
                0 <= k < rec.notices@.len() ==> notice_event(#[trigger] events@[k], rec.notices@[k], plan.items@[old(self).index as int].name@),
            rec.status == ActionStatus::Aborted || rec.aborted ==> events@[rec.notices@.len() as int] is Aborted,
            events@.last() matches ExecuteEvent::ActionFinished { item_index, action_index, item, action, status }
                && item_index == old(self).index && action_index == old(self).action && item == plan.items@[old(self).index as int].name
                && action@ == describe_spec(plan.items@[old(self).index as int].actions@[old(self).action as int])
                && status == rec.status,
    {
        let p = &plan.items[self.index];
        let mut events: Vec<ExecuteEvent> = Vec::new();
        let mut k: usize = 0;
        while k < rec.notices.len()
            invariant
                k <= rec.notices@.len(),
                *self == *old(self),
                p == plan.items@[old(self).index as int],
                old(self).action < p.actions@.len(),
                events@.len() == k,
                aborted_count(events@) == 0,
                forall|j: int| 0 <= j < k ==> notice_event(#[trigger] events@[j], rec.notices@[j], p.name@),
            decreases rec.notices@.len() - k,
        {
            let n = &rec.notices[k];
            let ghost before = events@;
            if n.is_error {
                events.push(ExecuteEvent::ActionError { item: p.name.clone(), message: n.message.clone() });
            } else {
                events.push(ExecuteEvent::ActionMessage { item: p.name.clone(), message: n.message.clone() });
            }
            proof {
                lemma_aborted_count_push(before, events@.last());
                assert(events@ == before.push(events@.last()));
            }
            k += 1;
        }
        let status = rec.status;
        if matches!(status, ActionStatus::Aborted) || rec.aborted {
            let ghost before = events@;
            events.push(ExecuteEvent::Aborted);
            proof {
                lemma_aborted_count_push(before, ExecuteEvent::Aborted);
                self.aborts = Ghost(self.aborts@ + 1);
            }
        }
        let a = &p.actions[self.action];
        let ghost before_end = events@;
        events.push(
            ExecuteEvent::ActionFinished {
                item_index: self.index,
                action_index: self.action,
                item: p.name.clone(),
                action: a.describe(),
                status,
            },
        );
        proof {
            lemma_aborted_count_push(before_end, events@.last());
        }
        let act = self.action;
        let n_actions = p.actions.len();
        assert(act < n_actions);
        let mut c = self.current.take().unwrap();
        let ghost old_acts = c.actions@;
        let ghost rec_out = rec.output@;
        let stop = c.record(&p.actions, act, rec);
        proof {
            assert forall|k: int| 0 <= k < c.actions@.len() implies (#[trigger] c.actions@[k]).output@.len()
                <= MAX_HISTORY_OUTPUT_LINES by {
                if k < old_acts.len() {
                    assert(c.actions@[k] == old_acts[k]);
                } else if k == old_acts.len() {
                    lemma_capped_len(rec_out);
                } else {
                    let j = k - old_acts.len() + act;
                    assert(is_unperformed_record(
                        c.actions@[old_acts.len() + j - act],
                        p.actions@[j],
                        ActionStatus::NotRun,
                        "not run after previous failure"@,
                    ));
                }
            }
        }
        let ended = stop || c.aborted;
        self.current = Some(c);
        if ended {
            self.item_stopped = true;
        } else {
            self.action = act + 1;
        }
        events
    }

    /// Ends the current item with its times, and reports its end with its
    /// status. An aborted item stops the run; a failed one does not.
    pub fn end_item(&mut self, plan: &Plan, started_at: String, finished_at: String, duration_ms: u64) -> (events: Vec<ExecuteEvent>)
        requires
            old(self).wf(*plan),
            old(self).current is Some,
            old(self).item_stopped || old(self).action == plan.items@[old(self).index as int].actions@.len(),
            plan.items@.len() < usize::MAX,
        ensures
            final(self).wf(*plan),
            final(self).current is None,
            final(self).index == old(self).index + 1,
            final(self).stopped == old(self).current->0.aborted,
            final(self).progress.any_failed == (old(self).progress.any_failed || old(self).current->0.error is Some),
            final(self).progress.items@.len() == old(self).progress.items@.len() + 1,
            final(self).progress.items@.take(old(self).progress.items@.len() as int) == old(self).progress.items@,
            final(self).progress.items@.last().status == old(self).current->0.last_status,
            final(self).progress.items@.last().error == old(self).current->0.error,
            final(self).progress.items@.last().actions == old(self).current->0.actions,
            final(self).progress.items@.last().output == old(self).current->0.output,
            final(self).progress.items@.last().started_at == Some(started_at),
            final(self).progress.items@.last().finished_at == Some(finished_at),
            final(self).progress.items@.last().duration_ms == Some(duration_ms),
            final(self).aborts == old(self).aborts,
            events@.len() == 1,
            events@[0] matches ExecuteEvent::ItemFinished { index, name, status } && index == old(self).index
                && name == plan.items@[old(self).index as int].name && status == old(self).current->0.last_status,
    {
        let p = &plan.items[self.index];
        let c = self.current.take().unwrap();
        let ghost c_error = c.error;
        let status = c.last_status;
        let ghost before = self.progress.items@;
        let stop = self.progress.finish_item(self.index, p, c, started_at, finished_at, duration_ms);
        let mut events: Vec<ExecuteEvent> = Vec::new();
        events.push(ExecuteEvent::ItemFinished { index: self.index, name: p.name.clone(), status });
        self.index = self.index + 1;
        self.stopped = stop;
        self.item_stopped = false;
        self.action = 0;
        proof {
            assert forall|k: int| 0 <= k < self.progress.items@.len() implies (
            #[trigger] self.progress.items@[k]).id == plan.items@[k].id && self.progress.items@[k].name
                == plan.items@[k].name by {
                if k < before.len() {
                    assert(self.progress.items@[k] == before[k]);
                }
            }
            assert forall|k: int| 0 <= k < self.progress.items@.len() implies (
            #[trigger] self.progress.items@[k]).output@.len() <= MAX_HISTORY_OUTPUT_LINES && actions_capped(
                self.progress.items@[k].actions@,
            ) by {
                if k < before.len() {
                    assert(self.progress.items@[k] == before[k]);
                }
            }
            assert forall|k: int|
                0 <= k < self.progress.items@.len() && !plan.items@[k].selected implies is_unperformed_item(
                #[trigger] self.progress.items@[k],
                plan.items@[k],
            ) by {
                assert(k < before.len());
                assert(self.progress.items@[k] == before[k]);
            }
            let n = before.len() as int;
            assert(self.progress.items@[n].error == c_error);
            if some_failed(self.progress.items@, *plan) {
                let k = choose|k: int|
                    0 <= k < self.progress.items@.len() && plan.items@[k].selected && (
                    #[trigger] self.progress.items@[k]).error is Some;
                if k < n {
                    assert(self.progress.items@[k] == before[k]);
                }
            }
            if some_failed(before, *plan) {
                let k = choose|k: int| 0 <= k < before.len() && plan.items@[k].selected && (#[trigger] before[k]).error is Some;
                assert(self.progress.items@[k] == before[k]);
            }
        }
        events
    }

    /// The run record once the run is over: every plan item is recorded
    /// once, in plan order; the items an abort kept from running are not
    /// run (or skipped, when not selected); an abort makes the run aborted,
    /// else a failed item makes it failed, else it succeeded.
    pub fn finish(self, plan: &Plan, id: String, started_at: String, finished_at: String) -> (r: Run)
        requires
            self.wf(*plan),
            self.stopped || (self.current is None && self.index == plan.items@.len()),
        ensures
            r.items@.len() == plan.items@.len(),
            forall|k: int| 0 <= k < r.items@.len() ==> (#[trigger] r.items@[k]).id == plan.items@[k].id
                && r.items@[k].name == plan.items@[k].name,
            forall|k: int|
                self.index <= k < plan.items@.len() ==> is_unperformed_item(#[trigger] r.items@[k], plan.items@[k]),
            r.items@.take(self.index as int) == self.progress.items@,
            r.status == run_status_spec(self.stopped, self.progress.any_failed),
            self.stopped ==> r.status == RunStatus::Aborted,
            r.id == id,
            r.plan_id == Some(plan.id),
            items_capped(r.items@),
            forall|k: int|
                0 <= k < plan.items@.len() && !plan.items@[k].selected ==> is_unperformed_item(
                    #[trigger] r.items@[k],
                    plan.items@[k],
                ),
            self.aborts@ <= 1,
            (r.status == RunStatus::Aborted) == (self.aborts@ == 1),
            (r.status == RunStatus::Failed) == (self.aborts@ == 0 && some_failed(r.items@, *plan)),
            (r.status == RunStatus::Success) == (self.aborts@ == 0 && !some_failed(r.items@, *plan)),
    {
        let n = self.progress.items.len();
        let ghost prog = self.progress;
        let r = self.progress.finish(plan, id, started_at, finished_at);
        proof {
            assert forall|k: int| 0 <= k < r.items@.len() implies (#[trigger] r.items@[k]).id == plan.items@[k].id
                && r.items@[k].name == plan.items@[k].name by {
                if k < n {
                    assert(r.items@[k] == prog.items@[k]);
                } else {
                    assert(is_unperformed_item(r.items@[n + k - n], plan.items@[k]));
                }
            }
            assert forall|k: int| n <= k < plan.items@.len() implies is_unperformed_item(
                #[trigger] r.items@[k],
                plan.items@[k],
            ) by {
                assert(is_unperformed_item(r.items@[n + k - n], plan.items@[k]));
            }
            assert forall|k: int| 0 <= k < r.items@.len() implies (#[trigger] r.items@[k]).output@.len()
                <= MAX_HISTORY_OUTPUT_LINES && actions_capped(r.items@[k].actions@) by {
                if k < n {
                    assert(r.items@[k] == prog.items@[k]);
                } else {
                    assert(is_unperformed_item(r.items@[n + k - n], plan.items@[k]));
                    lemma_unperformed_capped(r.items@[k], plan.items@[k]);
                }
            }
            assert forall|k: int|
                0 <= k < plan.items@.len() && !plan.items@[k].selected implies is_unperformed_item(
                #[trigger] r.items@[k],
                plan.items@[k],
            ) by {
                if k < n {
                    assert(r.items@[k] == prog.items@[k]);
                } else {
                    assert(is_unperformed_item(r.items@[n + k - n], plan.items@[k]));
                }
            }
            if !self.stopped {
                assert(r.items@ =~= prog.items@);
            }
        }
        r
    }
}

/// `e` reports notice `n` of item `item`: an error as an error, else as a
/// message.
pub open spec fn notice_event(e: ExecuteEvent, n: Notice, item: Seq<char>) -> bool {
    if n.is_error {
        e matches ExecuteEvent::ActionError { item: i, message } && i@ == item && message == n.message
    } else {
        e matches ExecuteEvent::ActionMessage { item: i, message } && i@ == item && message == n.message
    }
}

} // verus!
