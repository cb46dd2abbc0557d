//! What holds of a whole run of `dns set`.

use vstd::prelude::*;

use crate::api::{answers, error_of, CallView, RecordView, ReplyView};
use crate::json::Json;
use crate::outcome::{failure_count, lemma_kinds_differ, set_success, succeeded_as, OutcomeView};
use crate::plan::{lemma_filter_range_len, overlap_len, set_plan, SetActionView};
use crate::set::{delete_detail, ids_of, SetRunView};
use crate::write::{
    clearing, conflicts_among, removal_outcome, types_conflict, unremovable_text, write_after,
    write_pending, WriteStateView, WriteView,
};
use crate::write_laws::{
    law_write_outcomes, lemma_conflicts_are_listed, lemma_one_more_answer, write_replies_answer,
    write_result, write_run,
};

verus! {

impl SetRunView {
    /// The run after several replies, in order.
    pub open spec fn after_all(self, replies: Seq<ReplyView>) -> SetRunView
        decreases replies.len(),
    {
        if replies.len() == 0 {
            self
        } else {
            self.after_all(replies.drop_last()).after(replies.last())
        }
    }

    /// Whether the replies are answers to the calls of one action, from its first to its last.
    pub open spec fn answers_action(self, action: SetActionView, replies: Seq<ReplyView>) -> bool {
        match action {
            SetActionView::Replace { record_id, data } => {
                let write = self.write_for(data, Some(record_id));
                write_replies_answer(write, replies) && write_run(write, replies) is Done
            },
            SetActionView::Create { data } => {
                let write = self.write_for(data, None);
                write_replies_answer(write, replies) && write_run(write, replies) is Done
            },
            SetActionView::Delete { .. } => replies.len() == 1 && !(replies[0] is Listed),
        }
    }

    /// Whether `segments` holds the replies to each action of the plan, from its first to its last,
    /// so that the run is complete when it has taken them.
    pub open spec fn answered_by(self, segments: Seq<Seq<ReplyView>>) -> bool {
        &&& segments.len() == self.plan.len()
        &&& forall|i: int|
            #![trigger segments[i]]
            0 <= i < segments.len() ==> self.answers_action(self.plan[i], segments[i])
    }

    /// The outcomes of one action that met the given replies.
    pub open spec fn action_outcomes(
        self,
        action: SetActionView,
        replies: Seq<ReplyView>,
    ) -> Seq<OutcomeView> {
        match action {
            SetActionView::Replace { record_id, data } => write_result(
                self.write_for(data, Some(record_id)),
                replies,
            ),
            SetActionView::Create { data } => write_result(self.write_for(data, None), replies),
            SetActionView::Delete { record_id } => seq![
                OutcomeView {
                    kind: "deleted"@,
                    detail: delete_detail(self.record_type, self.existing, record_id),
                    error: error_of(replies[0]),
                },
            ],
        }
    }

    /// Taking replies one after another is taking the first of them and then the others.
    pub proof fn lemma_after_all_add(self, first: Seq<ReplyView>, others: Seq<ReplyView>)
        ensures
            self.after_all(first + others) == self.after_all(first).after_all(others),
        decreases others.len(),
    {
        if others.len() == 0 {
            assert(first + others =~= first);
        } else {
            assert((first + others).drop_last() =~= first + others.drop_last());
            assert((first + others).last() == others.last());
            self.lemma_after_all_add(first, others.drop_last());
        }
    }

    /// While the write of the current action goes on, nothing else of the run changes.
    pub proof fn lemma_write_goes_on(self, write: WriteView, replies: Seq<ReplyView>, k: int)
        requires
            self.position < self.plan.len(),
            match self.plan[self.position as int] {
                SetActionView::Replace { record_id, data } => write == self.write_for(
                    data,
                    Some(record_id),
                ),
                SetActionView::Create { data } => write == self.write_for(data, None),
                SetActionView::Delete { .. } => false,
            },
            self.write == WriteStateView::Sending,
            write_replies_answer(write, replies),
            0 <= k < replies.len(),
        ensures
            self.after_all(replies.take(k)) == (SetRunView {
                write: write_run(write, replies.take(k)),
                ..self
            }),
        decreases k,
    {
        if k == 0 {
            assert(replies.take(0) =~= Seq::empty());
        } else {
            self.lemma_write_goes_on(write, replies, k - 1);
            assert(replies.take(k).drop_last() =~= replies.take(k - 1));
            assert(replies.take(k).last() == replies[k - 1]);
            // The write goes on, because another reply is to come.
            let reply = replies[k];
            assert(write_pending(write, write_run(write, replies.take(k))) is Some);
        }
    }

    /// One action comes to its end with its own outcomes, whatever they are.
    proof fn lemma_action(self, replies: Seq<ReplyView>)
        requires
            self.position < self.plan.len(),
            self.write == WriteStateView::Sending,
            self.answers_action(self.plan[self.position as int], replies),
        ensures
            self.after_all(replies) == self.moved_on(
                self.action_outcomes(self.plan[self.position as int], replies),
            ),
    {
        let action = self.plan[self.position as int];
        if action is Delete {
            assert(replies.drop_last() =~= Seq::empty());
        } else {
            let write = match action {
                SetActionView::Replace { record_id, data } => self.write_for(data, Some(record_id)),
                SetActionView::Create { data } => self.write_for(data, None),
                SetActionView::Delete { .. } => arbitrary(),
            };
            law_write_outcomes(write, replies);
            let k = replies.len() - 1;
            self.lemma_write_goes_on(write, replies, k);
            assert(replies.take(k) =~= replies.drop_last());
        }
    }

    /// After the replies to the first `k` actions, `k` actions are over.
    pub proof fn lemma_actions(self, segments: Seq<Seq<ReplyView>>, k: int)
        requires
            self.position == 0,
            self.write == WriteStateView::Sending,
            self.outcomes == Seq::<OutcomeView>::empty(),
            self.answered_by(segments),
            0 <= k <= segments.len(),
        ensures
            self.after_all(segments.take(k).flatten_alt()) == (SetRunView {
                position: k as nat,
                outcomes: self.all_outcomes(segments).take(k).flatten_alt(),
                ..self
            }),
        decreases k,
    {
        let all = self.all_outcomes(segments);
        if k == 0 {
            assert(segments.take(0).flatten_alt() =~= Seq::empty());
            assert(all.take(0).flatten_alt() =~= Seq::empty());
        } else {
            self.lemma_actions(segments, k - 1);
            assert(segments.take(k).drop_last() =~= segments.take(k - 1));
            assert(segments.take(k).last() == segments[k - 1]);
            assert(all.take(k).drop_last() =~= all.take(k - 1));
            assert(all.take(k).last() == all[k - 1]);
            let earlier = segments.take(k - 1).flatten_alt();
            assert(segments.take(k).flatten_alt() == earlier + segments[k - 1]);
            self.lemma_after_all_add(earlier, segments[k - 1]);
            let run = self.after_all(earlier);
            assert(run.answers_action(run.plan[k - 1], segments[k - 1]));
            run.lemma_action(segments[k - 1]);
        }
    }

    /// The outcomes of each action of the plan, where `segments` holds the replies to each.
    pub open spec fn all_outcomes(self, segments: Seq<Seq<ReplyView>>) -> Seq<Seq<OutcomeView>> {
        Seq::new(
            segments.len(),
            |i: int| self.action_outcomes(self.plan[i], segments[i]),
        )
    }
}

/// A run of `dns set` carries out every action of its plan, in order, whatever became of the
/// earlier ones, and its outcomes are those of the actions one after another.
pub proof fn law_set_run_outcomes(
    domain: Seq<char>,
    record_type: Seq<char>,
    name: Seq<char>,
    desired: Seq<Seq<char>>,
    replace_conflicting: bool,
    existing: Seq<RecordView>,
    segments: Seq<Seq<ReplyView>>,
)
    requires
        SetRunView::started(
            domain,
            record_type,
            name,
            desired,
            replace_conflicting,
            existing,
        ).answered_by(segments),
    ensures
        ({
            let start = SetRunView::started(
                domain,
                record_type,
                name,
                desired,
                replace_conflicting,
                existing,
            );
            let end = start.after_all(segments.flatten());
            &&& end.pending() is None
            &&& end.outcomes == start.all_outcomes(segments).flatten()
        }),
{
    let start = SetRunView::started(
        domain,
        record_type,
        name,
        desired,
        replace_conflicting,
        existing,
    );
    let k = segments.len() as int;
    start.lemma_actions(segments, k);
    segments.lemma_flatten_and_flatten_alt_are_equivalent();
    start.all_outcomes(segments).lemma_flatten_and_flatten_alt_are_equivalent();
    assert(segments.take(k) =~= segments);
    assert(start.all_outcomes(segments).take(k) =~= start.all_outcomes(segments));
}

/// The outcome of an action that succeeded at once.
pub open spec fn clean_outcome(run: SetRunView, action: SetActionView) -> OutcomeView {
    match action {
        SetActionView::Replace { record_id, data } => OutcomeView {
            kind: "replaced"@,
            detail: data,
            error: None,
        },
        SetActionView::Create { data } => OutcomeView {
            kind: "created"@,
            detail: data,
            error: None,
        },
        SetActionView::Delete { record_id } => OutcomeView {
            kind: "deleted"@,
            detail: delete_detail(run.record_type, run.existing, record_id),
            error: None,
        },
    }
}

/// Where every call succeeds, each reply ends one action.
pub proof fn lemma_clean_run(run: SetRunView, replies: Seq<ReplyView>, k: int)
    requires
        run.position == 0,
        run.write == WriteStateView::Sending,
        run.outcomes == Seq::<OutcomeView>::empty(),
        replies.len() == run.plan.len(),
        forall|i: int| 0 <= i < replies.len() ==> #[trigger] replies[i] == ReplyView::Succeeded,
        0 <= k <= replies.len(),
    ensures
        run.after_all(replies.take(k)) == (SetRunView {
            position: k as nat,
            outcomes: Seq::new(k as nat, |i: int| clean_outcome(run, run.plan[i])),
            ..run
        }),
    decreases k,
{
    if k == 0 {
        assert(replies.take(0) =~= Seq::empty());
        assert(Seq::new(0, |i: int| clean_outcome(run, run.plan[i])) =~= Seq::empty());
    } else {
        lemma_clean_run(run, replies, k - 1);
        assert(replies.take(k).drop_last() =~= replies.take(k - 1));
        assert(replies.take(k).last() == replies[k - 1]);
        let before = run.after_all(replies.take(k - 1));
        let outcome = clean_outcome(run, run.plan[k - 1]);
        assert(Seq::<OutcomeView>::empty().push(outcome) =~= seq![outcome]);
        assert(Seq::new(k as nat, |i: int| clean_outcome(run, run.plan[i])) =~= Seq::new(
            (k - 1) as nat,
            |i: int| clean_outcome(run, run.plan[i]),
        ) + seq![outcome]);
    }
}

/// A run of `dns set` of which every call succeeds makes one call for each action of its plan and
/// reports how many records it reused, created and deleted: as many as the two sides have in
/// common, as many as were missing, and as many as were too many.
pub proof fn law_clean_set_run(
    domain: Seq<char>,
    record_type: Seq<char>,
    name: Seq<char>,
    desired: Seq<Seq<char>>,
    replace_conflicting: bool,
    existing: Seq<RecordView>,
    replies: Seq<ReplyView>,
)
    requires
        replies.len() == set_plan(ids_of(existing), desired).len(),
        forall|i: int| 0 <= i < replies.len() ==> #[trigger] replies[i] == ReplyView::Succeeded,
    ensures
        ({
            let end = SetRunView::started(
                domain,
                record_type,
                name,
                desired,
                replace_conflicting,
                existing,
            ).after_all(replies);
            let overlap = overlap_len(ids_of(existing), desired);
            &&& end.pending() is None
            &&& failure_count(end.outcomes) == 0
            &&& set_success(domain, record_type, name, end.outcomes) == Json::Object(
                map![
                    "domain"@ => Json::Text(domain),
                    "type"@ => Json::Text(record_type),
                    "name"@ => Json::Text(name),
                    "replaced"@ => Json::Number(overlap as int),
                    "created"@ => Json::Number(desired.len() - overlap),
                    "deleted"@ => Json::Number(existing.len() - overlap),
                    "action"@ => Json::Text("set"@),
                ],
            )
        }),
{
    let run = SetRunView::started(
        domain,
        record_type,
        name,
        desired,
        replace_conflicting,
        existing,
    );
    let k = replies.len() as int;
    lemma_clean_run(run, replies, k);
    assert(replies.take(k) =~= replies);
    let outcomes = run.after_all(replies).outcomes;
    let overlap = overlap_len(ids_of(existing), desired) as int;
    lemma_kinds_differ();
    lemma_filter_range_len(outcomes, |outcome: OutcomeView| outcome.error is Some, 0, 0);
    lemma_filter_range_len(outcomes, succeeded_as("replaced"@), 0, overlap);
    lemma_filter_range_len(
        outcomes,
        succeeded_as("deleted"@),
        overlap,
        existing.len() as int,
    );
    lemma_filter_range_len(
        outcomes,
        succeeded_as("created"@),
        existing.len() as int,
        outcomes.len() as int,
    );
}

/// Whether some reply listed the record.
pub open spec fn was_listed(replies: Seq<ReplyView>, record: RecordView) -> bool {
    exists|k: int|
        #![trigger replies[k]]
        0 <= k < replies.len() && (replies[k] matches ReplyView::Listed { records, .. }
            && records.contains(record))
}

/// What has been listed stays listed when another reply comes.
pub proof fn lemma_stays_listed(replies: Seq<ReplyView>)
    requires
        replies.len() > 0,
    ensures
        forall|record: RecordView|
            #![trigger was_listed(replies.drop_last(), record)]
            was_listed(replies.drop_last(), record) ==> was_listed(replies, record),
{
    let earlier = replies.drop_last();
    assert forall|record: RecordView|
        #![trigger was_listed(replies.drop_last(), record)]
        was_listed(earlier, record) implies was_listed(replies, record) by {
        let k = choose|k: int|
            #![trigger earlier[k]]
            0 <= k < earlier.len() && (earlier[k] matches ReplyView::Listed { records, .. }
                && records.contains(record));
        assert(replies[k] == earlier[k]);
    }
}

/// What a run keeps to whatever the replies are: conflicting records are deleted only where the
/// user allows it, each of them was listed and does conflict, and the next of them has an id.
spec fn confined(run: SetRunView, replies: Seq<ReplyView>) -> bool {
    &&& run.position <= run.plan.len()
    &&& match run.write {
        WriteStateView::Done { .. } => false,
        WriteStateView::Clearing { conflicts, outcomes } => {
            &&& run.replace_conflicting
            &&& outcomes.len() < conflicts.len()
            &&& conflicts[outcomes.len() as int].record_id is Some
            &&& forall|i: int|
                #![trigger conflicts[i]]
                0 <= i < conflicts.len() ==> types_conflict(run.record_type, conflicts[i].type_)
                    && was_listed(replies, conflicts[i])
        },
        _ => true,
    }
}

/// Clearing goes on with the same conflicting records, at one that has an id.
proof fn lemma_clearing_keeps_conflicts(conflicts: Seq<RecordView>, outcomes: Seq<OutcomeView>)
    ensures
        clearing(conflicts, outcomes) matches WriteStateView::Clearing {
            conflicts: kept,
            outcomes: so_far,
        } ==> kept == conflicts && so_far.len() < kept.len()
            && kept[so_far.len() as int].record_id is Some,
        !(clearing(conflicts, outcomes) is Done),
    decreases conflicts.len() - outcomes.len(),
{
    if outcomes.len() < conflicts.len() && conflicts[outcomes.len() as int].record_id is None {
        lemma_clearing_keeps_conflicts(
            conflicts,
            outcomes.push(
                removal_outcome(
                    conflicts[outcomes.len() as int],
                    Some(unremovable_text()),
                ),
            ),
        );
    }
}

/// A run keeps what it started with and stays confined, whatever the replies are.
proof fn lemma_confined(start: SetRunView, replies: Seq<ReplyView>)
    requires
        start.position == 0,
        start.write == WriteStateView::Sending,
    ensures
        ({
            let run = start.after_all(replies);
            &&& run.domain == start.domain
            &&& run.record_type == start.record_type
            &&& run.name == start.name
            &&& run.replace_conflicting == start.replace_conflicting
            &&& run.existing == start.existing
            &&& run.plan == start.plan
            &&& confined(run, replies)
        }),
    decreases replies.len(),
{
    if replies.len() > 0 {
        let earlier = replies.drop_last();
        lemma_confined(start, earlier);
        let before = start.after_all(earlier);
        let run = start.after_all(replies);
        let reply = replies.last();
        assert(run == before.after(reply));
        match before.write {
            WriteStateView::Clearing { conflicts, outcomes } => {
                lemma_clearing_keeps_conflicts(
                    conflicts,
                    outcomes.push(
                        removal_outcome(
                            conflicts[outcomes.len() as int],
                            error_of(reply),
                        ),
                    ),
                );
            },
            WriteStateView::Listing => {
                lemma_clearing_keeps_conflicts(
                    conflicts_among(run.record_type, reply->records),
                    Seq::empty(),
                );
            },
            _ => {},
        }
        if let WriteStateView::Clearing { conflicts, outcomes } = run.write {
            lemma_stays_listed(replies);
            match before.write {
                WriteStateView::Clearing { conflicts: kept, .. } => {
                    assert(conflicts == kept);
                },
                WriteStateView::Listing => {
                    let records = reply->records;
                    let listed = conflicts_among(run.record_type, records);
                    assert(conflicts == listed);
                    assert forall|i: int|
                        #![trigger conflicts[i]]
                        0 <= i < conflicts.len() implies types_conflict(
                        run.record_type,
                        conflicts[i].type_,
                    ) && was_listed(replies, conflicts[i]) by {
                        lemma_conflicts_are_listed(run.record_type, records, i);
                        assert(replies[replies.len() - 1] == reply);
                    }
                },
                _ => {},
            }
        }
    }
}

/// Whatever the replies are, a run of `dns set` stays with what it was asked for. It writes only
/// the given values, under the given type and name, as new records or over existing ones for that
/// type and name, and lists only that name. It deletes only existing ones for that type and name,
/// and, where the user allows it, listed records of a type that cannot stand beside the given one.
pub proof fn law_set_run_is_confined(
    domain: Seq<char>,
    record_type: Seq<char>,
    name: Seq<char>,
    desired: Seq<Seq<char>>,
    replace_conflicting: bool,
    existing: Seq<RecordView>,
    replies: Seq<ReplyView>,
)
    ensures
        SetRunView::started(
            domain,
            record_type,
            name,
            desired,
            replace_conflicting,
            existing,
        ).after_all(replies).pending() matches Some(call) ==> match call {
            CallView::Create { zone, draft, .. } => {
                &&& zone == domain
                &&& draft.name == name
                &&& draft.record_type == record_type
                &&& desired.contains(draft.data)
            },
            CallView::Replace { zone, record_id, draft, .. } => {
                &&& zone == domain
                &&& ids_of(existing).contains(record_id)
                &&& draft.name == name
                &&& draft.record_type == record_type
                &&& desired.contains(draft.data)
            },
            CallView::Delete { zone, record_id, conflict } => {
                &&& zone == domain
                &&& if conflict {
                    replace_conflicting && exists|record: RecordView|
                        #![trigger was_listed(replies, record)]
                        was_listed(replies, record) && record.record_id == Some(record_id)
                            && types_conflict(record_type, record.type_)
                } else {
                    ids_of(existing).contains(record_id)
                }
            },
            CallView::ListName { zone, draft } => {
                &&& zone == domain
                &&& draft.name == name
                &&& draft.record_type == record_type
                &&& desired.contains(draft.data)
            },
        },
{
    let start = SetRunView::started(
        domain,
        record_type,
        name,
        desired,
        replace_conflicting,
        existing,
    );
    lemma_confined(start, replies);
    let run = start.after_all(replies);
    if run.position < run.plan.len() {
        let i = run.position as int;
        let ids = ids_of(existing);
        match run.plan[i] {
            SetActionView::Replace { record_id, data } => {
                assert(ids[i] == record_id);
                assert(desired[i] == data);
            },
            SetActionView::Create { data } => {
                assert(desired[i] == data);
            },
            SetActionView::Delete { record_id } => {
                assert(ids[i] == record_id);
            },
        }
        if let WriteStateView::Clearing { conflicts, outcomes } = run.write {
            if outcomes.len() < conflicts.len() {
                let record = conflicts[outcomes.len() as int];
                assert(was_listed(replies, record));
            }
        }
    }
}

/// Whatever the replies are, a run of `dns set` never gets stuck: it asks for a call until every
/// action of its plan is over.
pub proof fn law_set_run_never_stuck(
    domain: Seq<char>,
    record_type: Seq<char>,
    name: Seq<char>,
    desired: Seq<Seq<char>>,
    replace_conflicting: bool,
    existing: Seq<RecordView>,
    replies: Seq<ReplyView>,
)
    ensures
        ({
            let run = SetRunView::started(
                domain,
                record_type,
                name,
                desired,
                replace_conflicting,
                existing,
            ).after_all(replies);
            &&& run.position <= run.plan.len()
            &&& run.pending() is None <==> run.position == run.plan.len()
        }),
{
    lemma_confined(
        SetRunView::started(
            domain,
            record_type,
            name,
            desired,
            replace_conflicting,
            existing,
        ),
        replies,
    );
}

/// Whether each outcome is of something replaced, created or deleted.
pub open spec fn known_kinds(outcomes: Seq<OutcomeView>) -> bool {
    forall|i: int|
        #![trigger outcomes[i]]
        0 <= i < outcomes.len() ==> outcomes[i].kind == "replaced"@ || outcomes[i].kind
            == "created"@ || outcomes[i].kind == "deleted"@
}

/// Whether the outcomes that the write of the current action has so far are of known kinds.
spec fn write_kinds_known(state: WriteStateView) -> bool {
    match state {
        WriteStateView::Clearing { outcomes, .. } => known_kinds(outcomes),
        WriteStateView::Resending { outcomes } => known_kinds(outcomes),
        WriteStateView::Done { outcomes } => known_kinds(outcomes),
        _ => true,
    }
}

/// Clearing adds only outcomes of deletions.
proof fn lemma_clearing_kinds(conflicts: Seq<RecordView>, outcomes: Seq<OutcomeView>)
    requires
        known_kinds(outcomes),
    ensures
        write_kinds_known(clearing(conflicts, outcomes)),
    decreases conflicts.len() - outcomes.len(),
{
    if outcomes.len() < conflicts.len() && conflicts[outcomes.len() as int].record_id is None {
        lemma_clearing_kinds(
            conflicts,
            outcomes.push(
                removal_outcome(
                    conflicts[outcomes.len() as int],
                    Some(unremovable_text()),
                ),
            ),
        );
    }
}

/// A reply to a call of a write leads to outcomes of known kinds.
proof fn lemma_write_kinds(write: WriteView, state: WriteStateView, reply: ReplyView)
    requires
        write_kinds_known(state),
    ensures
        write_kinds_known(write_after(write, state, reply)),
{
    match state {
        WriteStateView::Listing => {
            if let ReplyView::Listed { records, .. } = reply {
                lemma_clearing_kinds(conflicts_among(write.record_type, records), Seq::empty());
            }
        },
        WriteStateView::Clearing { conflicts, outcomes } => {
            lemma_clearing_kinds(
                conflicts,
                outcomes.push(
                    removal_outcome(conflicts[outcomes.len() as int], error_of(reply)),
                ),
            );
        },
        _ => {},
    }
}

/// Whatever the replies are, every outcome that a run of `dns set` reports is of something
/// replaced, created or deleted, so that the counts it reports account for all of them.
pub proof fn law_set_run_kinds(
    domain: Seq<char>,
    record_type: Seq<char>,
    name: Seq<char>,
    desired: Seq<Seq<char>>,
    replace_conflicting: bool,
    existing: Seq<RecordView>,
    replies: Seq<ReplyView>,
)
    ensures
        known_kinds(
            SetRunView::started(
                domain,
                record_type,
                name,
                desired,
                replace_conflicting,
                existing,
            ).after_all(replies).outcomes,
        ),
{
    lemma_run_kinds(
        SetRunView::started(
            domain,
            record_type,
            name,
            desired,
            replace_conflicting,
            existing,
        ),
        replies,
    );
}

/// A run has only outcomes of known kinds, those of its current write with them.
proof fn lemma_run_kinds(start: SetRunView, replies: Seq<ReplyView>)
    requires
        start.write is Sending,
        start.outcomes.len() == 0,
    ensures
        known_kinds(start.after_all(replies).outcomes),
        write_kinds_known(start.after_all(replies).write),
    decreases replies.len(),
{
    if replies.len() > 0 {
        lemma_run_kinds(start, replies.drop_last());
        let before = start.after_all(replies.drop_last());
        if before.position < before.plan.len() {
            match before.plan[before.position as int] {
                SetActionView::Replace { record_id, data } => {
                    lemma_write_kinds(
                        before.write_for(data, Some(record_id)),
                        before.write,
                        replies.last(),
                    );
                },
                SetActionView::Create { data } => {
                    lemma_write_kinds(before.write_for(data, None), before.write, replies.last());
                },
                SetActionView::Delete { .. } => {},
            }
        }
    }
}

/// How much is left of a run: the actions that are not over, how many steps the write of the
/// current one can still go through, and the conflicting records that have no outcome yet.
pub open spec fn work_left(run: SetRunView) -> (int, int, int) {
    let (steps, conflicts_left) = match run.write {
        WriteStateView::Sending => (3, 0),
        WriteStateView::Listing => (2, 0),
        WriteStateView::Clearing { conflicts, outcomes } => (1, conflicts.len() - outcomes.len()),
        WriteStateView::Resending { .. } => (0, 0),
        WriteStateView::Done { .. } => (0, 0),
    };
    (run.plan.len() - run.position, steps, conflicts_left)
}

/// Whether less work is left than before: fewer actions, or as many with fewer steps, or as many of
/// both with fewer conflicting records.
pub open spec fn less_work(now: (int, int, int), before: (int, int, int)) -> bool {
    ||| now.0 < before.0
    ||| now.0 == before.0 && now.1 < before.1
    ||| now.0 == before.0 && now.1 == before.1 && now.2 < before.2
}

/// Clearing leaves no more conflicting records than before.
proof fn lemma_clearing_work(conflicts: Seq<RecordView>, outcomes: Seq<OutcomeView>)
    ensures
        match clearing(conflicts, outcomes) {
            WriteStateView::Clearing { conflicts: kept, outcomes: so_far } => {
                0 < kept.len() - so_far.len() <= conflicts.len() - outcomes.len()
            },
            WriteStateView::Resending { .. } => true,
            _ => false,
        },
    decreases conflicts.len() - outcomes.len(),
{
    if outcomes.len() < conflicts.len() && conflicts[outcomes.len() as int].record_id is None {
        lemma_clearing_work(
            conflicts,
            outcomes.push(
                removal_outcome(
                    conflicts[outcomes.len() as int],
                    Some(unremovable_text()),
                ),
            ),
        );
    }
}

/// A run of `dns set` always comes to an end: with every reply that answers the call it asked for
/// there is less left to do, and what is left cannot shrink forever.
pub proof fn law_set_run_makes_progress(
    domain: Seq<char>,
    record_type: Seq<char>,
    name: Seq<char>,
    desired: Seq<Seq<char>>,
    replace_conflicting: bool,
    existing: Seq<RecordView>,
    replies: Seq<ReplyView>,
    reply: ReplyView,
)
    ensures
        ({
            let run = SetRunView::started(
                domain,
                record_type,
                name,
                desired,
                replace_conflicting,
                existing,
            ).after_all(replies);
            let left = work_left(run);
            &&& left.0 >= 0 && left.1 >= 0 && left.2 >= 0
            &&& run.pending() matches Some(call) ==> answers(reply, call) ==> less_work(
                work_left(run.after(reply)),
                left,
            )
        }),
{
    let start = SetRunView::started(
        domain,
        record_type,
        name,
        desired,
        replace_conflicting,
        existing,
    );
    lemma_confined(start, replies);
    let run = start.after_all(replies);
    match run.write {
        WriteStateView::Listing => {
            if let ReplyView::Listed { records, .. } = reply {
                lemma_clearing_work(conflicts_among(record_type, records), Seq::empty());
            }
        },
        WriteStateView::Clearing { conflicts, outcomes } => {
            lemma_clearing_work(
                conflicts,
                outcomes.push(
                    removal_outcome(conflicts[outcomes.len() as int], error_of(reply)),
                ),
            );
        },
        _ => {},
    }
}

impl SetRunView {
    /// Whether each reply answers the call that was pending when it came.
    pub open spec fn replies_answer(self, replies: Seq<ReplyView>) -> bool {
        forall|k: int|
            #![trigger replies.take(k)]
            0 <= k < replies.len() ==> {
                let pending = self.after_all(replies.take(k)).pending();
                pending matches Some(call) && answers(replies[k], call)
            }
    }

    /// Whether the replies answer the calls that the current action of the run has made so far.
    spec fn answers_so_far(self, replies: Seq<ReplyView>) -> bool {
        if self.position < self.plan.len() {
            match self.plan[self.position as int] {
                SetActionView::Replace { record_id, data } => {
                    let write = self.write_for(data, Some(record_id));
                    write_replies_answer(write, replies) && self.write == write_run(write, replies)
                },
                SetActionView::Create { data } => {
                    let write = self.write_for(data, None);
                    write_replies_answer(write, replies) && self.write == write_run(write, replies)
                },
                SetActionView::Delete { .. } => replies.len() == 0,
            }
        } else {
            replies.len() == 0
        }
    }

    /// The first `k` replies of a run are the replies to the actions that are over, and then those
    /// to the current one.
    proof fn lemma_split(self, replies: Seq<ReplyView>, k: int) -> (split: (
        Seq<Seq<ReplyView>>,
        Seq<ReplyView>,
    ))
        requires
            self.position == 0,
            self.write == WriteStateView::Sending,
            self.replies_answer(replies),
            0 <= k <= replies.len(),
        ensures
            ({
                let run = self.after_all(replies.take(k));
                let (segments, current) = split;
                &&& segments.len() == run.position <= self.plan.len()
                &&& forall|i: int|
                    #![trigger segments[i]]
                    0 <= i < segments.len() ==> self.answers_action(self.plan[i], segments[i])
                &&& run.answers_so_far(current)
                &&& replies.take(k) == segments.flatten_alt() + current
            }),
        decreases k,
    {
        lemma_confined(self, replies.take(k));
        if k == 0 {
            let segments = Seq::<Seq<ReplyView>>::empty();
            let current = Seq::<ReplyView>::empty();
            assert(replies.take(0) =~= Seq::empty());
            assert(replies.take(0) =~= segments.flatten_alt() + current);
            (segments, current)
        } else {
            let (segments, current) = self.lemma_split(replies, k - 1);
            lemma_confined(self, replies.take(k - 1));
            let before = self.after_all(replies.take(k - 1));
            let reply = replies[k - 1];
            assert(replies.take(k).drop_last() =~= replies.take(k - 1));
            assert(replies.take(k).last() == reply);
            let run = self.after_all(replies.take(k));
            assert(run == before.after(reply));
            assert(before.pending() is Some);
            let action = before.plan[before.position as int];
            let more = current.push(reply);
            assert(replies.take(k) =~= segments.flatten_alt() + more);
            if !(action is Delete) {
                let write = match action {
                    SetActionView::Replace { record_id, data } => before.write_for(
                        data,
                        Some(record_id),
                    ),
                    SetActionView::Create { data } => before.write_for(data, None),
                    SetActionView::Delete { .. } => arbitrary(),
                };
                lemma_one_more_answer(write, current, reply);
            }
            if run.position == before.position {
                (segments, more)
            } else {
                let none = Seq::<ReplyView>::empty();
                let longer = segments.push(more);
                assert(longer.drop_last() =~= segments);
                assert(replies.take(k) =~= longer.flatten_alt() + none);
                (longer, none)
            }
        }
    }
}

/// Every complete run of `dns set` goes through its plan action by action: its replies are those to
/// the first action, from its first call to its last, then those to the second, and so on.
pub proof fn law_complete_set_run_splits(
    domain: Seq<char>,
    record_type: Seq<char>,
    name: Seq<char>,
    desired: Seq<Seq<char>>,
    replace_conflicting: bool,
    existing: Seq<RecordView>,
    replies: Seq<ReplyView>,
) -> (segments: Seq<Seq<ReplyView>>)
    requires
        SetRunView::started(
            domain,
            record_type,
            name,
            desired,
            replace_conflicting,
            existing,
        ).replies_answer(replies),
        SetRunView::started(
            domain,
            record_type,
            name,
            desired,
            replace_conflicting,
            existing,
        ).after_all(replies).pending() is None,
    ensures
        SetRunView::started(
            domain,
            record_type,
            name,
            desired,
            replace_conflicting,
            existing,
        ).answered_by(segments),
        segments.flatten() == replies,
{
    let start = SetRunView::started(
        domain,
        record_type,
        name,
        desired,
        replace_conflicting,
        existing,
    );
    let k = replies.len() as int;
    let (segments, current) = start.lemma_split(replies, k);
    lemma_confined(start, replies);
    assert(replies.take(k) =~= replies);
    assert(current.len() == 0);
    assert(replies =~= segments.flatten_alt());
    segments.lemma_flatten_and_flatten_alt_are_equivalent();
    segments
}

} // verus!
