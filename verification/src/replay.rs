//! The handler played against a table and a publisher that do as they are
//! asked: what it asks of them for one event, and what the table holds after.

use vstd::prelude::*;
use crate::aggregator::should_publish;
use crate::handler::{
    ActionView, BoardEntryView, Completed, EventView, Failure, Handler, MessageSnapshotView,
    OperationFailed, ProgressView, Reaction, Source, StoreFailure,
};
use crate::store::{
    after_insert, bijective, has_counter, has_reference, inserted, lemma_insert_keeps_bijection,
    lemma_inserted_is_found, lookup, next_row, BoardMapping, StoreError,
};

verus! {

/// What one event came to: the actions that the handler asked for, in order,
/// and the table after them.
pub ghost struct Replay {
    pub actions: Seq<ActionView>,
    pub rows: Seq<BoardMapping>,
}

/// How a willing caller answers an action: the message reads as `snapshot`,
/// the table is `rows`, and an entry that the publisher creates gets the
/// identifier `fresh`. The table changes by insertions alone. The finish has
/// no answer.
pub open spec fn answer(
    rows: Seq<BoardMapping>,
    snapshot: MessageSnapshotView,
    fresh: u64,
    action: ActionView,
) -> Option<(Seq<BoardMapping>, EventView)> {
    match action {
        ActionView::FetchMessage { .. } => Some((rows, EventView::Fetched(snapshot))),
        ActionView::FindMapping { reference_id } => Some(
            (rows, EventView::Found(lookup(rows, reference_id))),
        ),
        ActionView::EditEntry { .. } => Some((rows, EventView::Edited)),
        ActionView::CreateEntry { .. } => Some((rows, EventView::Created(Some(fresh)))),
        ActionView::CrossReference { .. } => Some((rows, EventView::CrossReferenced)),
        ActionView::InsertMapping { reference_id, counter_id } => Some(
            (
                after_insert(rows, reference_id, counter_id),
                EventView::Inserted(
                    match inserted(rows, reference_id, counter_id) {
                        Ok(_) => Ok(next_row(rows, reference_id, counter_id)),
                        Err(refusal) => Err(refusal),
                    },
                ),
            ),
        ),
        ActionView::Finish(_) => None,
    }
}

/// The rest of an event from the point where the handler stands at
/// `progress` and has asked for `action`, followed for at most `steps`
/// answers.
pub open spec fn replay_from(
    handler: Handler,
    progress: ProgressView,
    action: ActionView,
    rows: Seq<BoardMapping>,
    snapshot: MessageSnapshotView,
    fresh: u64,
    steps: nat,
) -> Replay
    decreases steps,
{
    match answer(rows, snapshot, fresh, action) {
        Some((rows_after, event)) if steps > 0 => {
            let (next, asked) = handler.next_step(progress, event);
            let rest = replay_from(
                handler,
                next,
                asked,
                rows_after,
                snapshot,
                fresh,
                (steps - 1) as nat,
            );
            Replay { actions: seq![action] + rest.actions, rows: rest.rows }
        },
        _ => Replay { actions: seq![action], rows },
    }
}

/// The most answers that one event takes.
pub open spec fn longest_event() -> nat {
    7
}

/// One whole event: a reaction on a message that reads as `snapshot`,
/// handled while the table holds `rows`.
pub open spec fn replay(
    handler: Handler,
    rows: Seq<BoardMapping>,
    reaction: Reaction,
    snapshot: MessageSnapshotView,
    fresh: u64,
) -> Replay {
    let (progress, action) = handler.first_step(reaction);
    replay_from(handler, progress, action, rows, snapshot, fresh, longest_event())
}

/// A reaction from the board channel, from another guild or from none is
/// ended at once: nothing is asked of the publisher or of the table, and the
/// table stays as it is.
pub proof fn lemma_skipped_reaction_reaches_nothing(
    handler: Handler,
    rows: Seq<BoardMapping>,
    reaction: Reaction,
    snapshot: MessageSnapshotView,
    fresh: u64,
)
    requires
        reaction.channel_id == handler.board_channel_id || reaction.guild_id != Some(
            handler.guild_id,
        ),
    ensures
        handler.skip_reason(reaction) is Some,
        replay(handler, rows, reaction, snapshot, fresh) == (Replay {
            actions: seq![
                ActionView::Finish(Ok(Completed::Skipped(handler.skip_reason(reaction).unwrap()))),
            ],
            rows,
        }),
{
    reveal_with_fuel(replay_from, 2);
}

/// A reaction on a message of which no tally reaches the threshold has the
/// message read and nothing else: no entry is created or edited, and the
/// table stays as it is.
pub proof fn lemma_quiet_message_reaches_nothing(
    handler: Handler,
    rows: Seq<BoardMapping>,
    reaction: Reaction,
    snapshot: MessageSnapshotView,
    fresh: u64,
)
    requires
        handler.skip_reason(reaction) is None,
        !should_publish(snapshot.tallies, handler.min_count),
    ensures
        replay(handler, rows, reaction, snapshot, fresh) == (Replay {
            actions: seq![
                ActionView::FetchMessage {
                    channel_id: reaction.channel_id,
                    message_id: reaction.message_id,
                },
                ActionView::Finish(Ok(Completed::BelowThreshold)),
            ],
            rows,
        }),
{
    reveal_with_fuel(replay_from, 3);
    let got = replay(handler, rows, reaction, snapshot, fresh);
    assert(got.actions =~= seq![
        ActionView::FetchMessage {
            channel_id: reaction.channel_id,
            message_id: reaction.message_id,
        },
        ActionView::Finish(Ok(Completed::BelowThreshold)),
    ]);
}

/// A publish-worthy reaction on a message that has no board entry yet
/// creates one, posts the cross-reference and records the pair: the table
/// gains exactly the row that pairs the message with the new entry.
pub proof fn lemma_unpublished_message_is_created(
    handler: Handler,
    rows: Seq<BoardMapping>,
    reaction: Reaction,
    snapshot: MessageSnapshotView,
    fresh: u64,
)
    requires
        bijective(rows),
        handler.skip_reason(reaction) is None,
        should_publish(snapshot.tallies, handler.min_count),
        !has_reference(rows, reaction.message_id),
        !has_counter(rows, fresh),
    ensures
        replay(handler, rows, reaction, snapshot, fresh) == (Replay {
            actions: seq![
                ActionView::FetchMessage {
                    channel_id: reaction.channel_id,
                    message_id: reaction.message_id,
                },
                ActionView::FindMapping { reference_id: reaction.message_id },
                ActionView::CreateEntry { entry: snapshot.entry(handler.min_count) },
                ActionView::CrossReference {
                    board_channel_id: handler.board_channel_id,
                    guild_id: handler.guild_id,
                    channel_id: reaction.channel_id,
                    message_id: reaction.message_id,
                },
                ActionView::InsertMapping { reference_id: reaction.message_id, counter_id: fresh },
                ActionView::Finish(Ok(Completed::Created { counter_id: fresh })),
            ],
            rows: rows.push(next_row(rows, reaction.message_id, fresh)),
        }),
        lookup(replay(handler, rows, reaction, snapshot, fresh).rows, reaction.message_id) == Some(
            next_row(rows, reaction.message_id, fresh),
        ),
{
    reveal_with_fuel(replay_from, 7);
    let got = replay(handler, rows, reaction, snapshot, fresh);
    assert(got.actions =~= seq![
        ActionView::FetchMessage {
            channel_id: reaction.channel_id,
            message_id: reaction.message_id,
        },
        ActionView::FindMapping { reference_id: reaction.message_id },
        ActionView::CreateEntry { entry: snapshot.entry(handler.min_count) },
        ActionView::CrossReference {
            board_channel_id: handler.board_channel_id,
            guild_id: handler.guild_id,
            channel_id: reaction.channel_id,
            message_id: reaction.message_id,
        },
        ActionView::InsertMapping { reference_id: reaction.message_id, counter_id: fresh },
        ActionView::Finish(Ok(Completed::Created { counter_id: fresh })),
    ]);
    lemma_inserted_is_found(rows, reaction.message_id, fresh);
}

/// A publish-worthy reaction on a message that has a board entry rewrites
/// that entry and nothing else: no entry is created, and the table stays as
/// it is.
pub proof fn lemma_published_message_is_edited(
    handler: Handler,
    rows: Seq<BoardMapping>,
    reaction: Reaction,
    snapshot: MessageSnapshotView,
    fresh: u64,
    row: BoardMapping,
)
    requires
        handler.skip_reason(reaction) is None,
        should_publish(snapshot.tallies, handler.min_count),
        lookup(rows, reaction.message_id) == Some(row),
    ensures
        replay(handler, rows, reaction, snapshot, fresh) == (Replay {
            actions: seq![
                ActionView::FetchMessage {
                    channel_id: reaction.channel_id,
                    message_id: reaction.message_id,
                },
                ActionView::FindMapping { reference_id: reaction.message_id },
                ActionView::EditEntry {
                    counter_id: row.counter_id,
                    entry: snapshot.entry(handler.min_count),
                },
                ActionView::Finish(Ok(Completed::Edited { counter_id: row.counter_id })),
            ],
            rows,
        }),
{
    reveal_with_fuel(replay_from, 5);
    let got = replay(handler, rows, reaction, snapshot, fresh);
    assert(got.actions =~= seq![
        ActionView::FetchMessage {
            channel_id: reaction.channel_id,
            message_id: reaction.message_id,
        },
        ActionView::FindMapping { reference_id: reaction.message_id },
        ActionView::EditEntry {
            counter_id: row.counter_id,
            entry: snapshot.entry(handler.min_count),
        },
        ActionView::Finish(Ok(Completed::Edited { counter_id: row.counter_id })),
    ]);
}

/// A publish-worthy reaction on a message without a board entry, at a moment
/// when the publisher hands out an identifier that the table already holds,
/// creates the entry and is then refused by the table, which stays as it is.
pub proof fn lemma_used_entry_is_refused(
    handler: Handler,
    rows: Seq<BoardMapping>,
    reaction: Reaction,
    snapshot: MessageSnapshotView,
    fresh: u64,
)
    requires
        handler.skip_reason(reaction) is None,
        should_publish(snapshot.tallies, handler.min_count),
        !has_reference(rows, reaction.message_id),
        has_counter(rows, fresh),
    ensures
        replay(handler, rows, reaction, snapshot, fresh).rows == rows,
        replay(handler, rows, reaction, snapshot, fresh).actions.last() == ActionView::Finish(
            Err(
                OperationFailed {
                    cause: Failure::Store(StoreFailure::Conflict(StoreError::DuplicateCounter)),
                },
            ),
        ),
{
    reveal_with_fuel(replay_from, 7);
}

/// The first publish-worthy reaction on a message creates its board entry
/// and its row; a later one, whatever the message then reads as, rewrites that
/// same entry and adds no row. As the table is the same after the later
/// event as before it, this holds of every event that follows.
pub proof fn lemma_created_once_then_edited(
    handler: Handler,
    rows: Seq<BoardMapping>,
    reaction: Reaction,
    snapshot: MessageSnapshotView,
    fresh: u64,
    later: MessageSnapshotView,
    later_fresh: u64,
)
    requires
        bijective(rows),
        handler.skip_reason(reaction) is None,
        should_publish(snapshot.tallies, handler.min_count),
        should_publish(later.tallies, handler.min_count),
        !has_reference(rows, reaction.message_id),
        !has_counter(rows, fresh),
    ensures
        ({
            let first = replay(handler, rows, reaction, snapshot, fresh);
            let second = replay(handler, first.rows, reaction, later, later_fresh);
            &&& first.rows == rows.push(next_row(rows, reaction.message_id, fresh))
            &&& first.actions[2] == ActionView::CreateEntry {
                entry: snapshot.entry(handler.min_count),
            }
            &&& second.rows == first.rows
            &&& second.actions == seq![
                ActionView::FetchMessage {
                    channel_id: reaction.channel_id,
                    message_id: reaction.message_id,
                },
                ActionView::FindMapping { reference_id: reaction.message_id },
                ActionView::EditEntry {
                    counter_id: fresh,
                    entry: later.entry(handler.min_count),
                },
                ActionView::Finish(Ok(Completed::Edited { counter_id: fresh })),
            ]
        }),
{
    lemma_unpublished_message_is_created(handler, rows, reaction, snapshot, fresh);
    let first = replay(handler, rows, reaction, snapshot, fresh);
    lemma_published_message_is_edited(
        handler,
        first.rows,
        reaction,
        later,
        later_fresh,
        next_row(rows, reaction.message_id, fresh),
    );
}

/// An event that finds, when it comes to insert, that the message has been
/// paired meanwhile, looks the message up again and rewrites the entry that
/// it is paired with. The table stays as it is.
pub proof fn lemma_lost_race_ends_in_edit(
    handler: Handler,
    rows: Seq<BoardMapping>,
    source: Source,
    entry: BoardEntryView,
    counter_id: u64,
    snapshot: MessageSnapshotView,
    fresh: u64,
    row: BoardMapping,
)
    requires
        lookup(rows, source.message_id) == Some(row),
    ensures
        replay_from(
            handler,
            ProgressView::Recording { source, entry, counter_id },
            ActionView::InsertMapping { reference_id: source.message_id, counter_id },
            rows,
            snapshot,
            fresh,
            longest_event(),
        ) == (Replay {
            actions: seq![
                ActionView::InsertMapping { reference_id: source.message_id, counter_id },
                ActionView::FindMapping { reference_id: source.message_id },
                ActionView::EditEntry { counter_id: row.counter_id, entry },
                ActionView::Finish(Ok(Completed::Edited { counter_id: row.counter_id })),
            ],
            rows,
        }),
{
    reveal_with_fuel(replay_from, 5);
    let got = replay_from(
        handler,
        ProgressView::Recording { source, entry, counter_id },
        ActionView::InsertMapping { reference_id: source.message_id, counter_id },
        rows,
        snapshot,
        fresh,
        longest_event(),
    );
    assert(got.actions =~= seq![
        ActionView::InsertMapping { reference_id: source.message_id, counter_id },
        ActionView::FindMapping { reference_id: source.message_id },
        ActionView::EditEntry { counter_id: row.counter_id, entry },
        ActionView::Finish(Ok(Completed::Edited { counter_id: row.counter_id })),
    ]);
}

/// Whatever the reaction, the message and the table: an event ends with a
/// finish, and it leaves the table a bijection, with the rows that it had
/// and at most one more.
pub proof fn lemma_event_ends_and_keeps_bijection(
    handler: Handler,
    rows: Seq<BoardMapping>,
    reaction: Reaction,
    snapshot: MessageSnapshotView,
    fresh: u64,
)
    requires
        bijective(rows),
    ensures
        replay(handler, rows, reaction, snapshot, fresh).actions.last() is Finish,
        bijective(replay(handler, rows, reaction, snapshot, fresh).rows),
        rows.is_prefix_of(replay(handler, rows, reaction, snapshot, fresh).rows),
        replay(handler, rows, reaction, snapshot, fresh).rows.len() <= rows.len() + 1,
{
    let reference_id = reaction.message_id;
    if handler.skip_reason(reaction) is Some {
        lemma_skipped_reaction_reaches_nothing(handler, rows, reaction, snapshot, fresh);
    } else if !should_publish(snapshot.tallies, handler.min_count) {
        lemma_quiet_message_reaches_nothing(handler, rows, reaction, snapshot, fresh);
    } else if has_reference(rows, reference_id) {
        lemma_published_message_is_edited(
            handler,
            rows,
            reaction,
            snapshot,
            fresh,
            lookup(rows, reference_id).unwrap(),
        );
    } else if has_counter(rows, fresh) {
        lemma_used_entry_is_refused(handler, rows, reaction, snapshot, fresh);
    } else {
        lemma_unpublished_message_is_created(handler, rows, reaction, snapshot, fresh);
        lemma_insert_keeps_bijection(rows, reference_id, fresh);
    }
}

/// One of two events that are under way at once: where its handling
/// stands, what it has asked for, and what its caller will answer.
pub ghost struct Session {
    pub progress: ProgressView,
    pub action: ActionView,
    pub snapshot: MessageSnapshotView,
    pub fresh: u64,
}

/// One answer given to a session, and the handler's next step on it. A
/// session that has finished stays as it is.
pub open spec fn session_step(handler: Handler, session: Session, rows: Seq<BoardMapping>) -> (
    Session,
    Seq<BoardMapping>,
) {
    match answer(rows, session.snapshot, session.fresh, session.action) {
        Some((rows_after, event)) => {
            let (progress, action) = handler.next_step(session.progress, event);
            (Session { progress, action, ..session }, rows_after)
        },
        None => (session, rows),
    }
}

/// Two events on one table, advanced in turns: `true` lets the first take
/// a step, `false` the second.
pub open spec fn interleaved(
    handler: Handler,
    first: Session,
    second: Session,
    rows: Seq<BoardMapping>,
    turns: Seq<bool>,
) -> (Session, Session, Seq<BoardMapping>)
    decreases turns.len(),
{
    if turns.len() == 0 {
        (first, second, rows)
    } else {
        let (a, b, table) = interleaved(handler, first, second, rows, turns.drop_last());
        if turns.last() {
            let (a_next, table_next) = session_step(handler, a, table);
            (a_next, b, table_next)
        } else {
            let (b_next, table_next) = session_step(handler, b, table);
            (a, b_next, table_next)
        }
    }
}

/// However the steps of two events fall between one another, for the same
/// message or for two, and wherever each stands: the table stays a
/// bijection, and keeps the rows that it had.
pub proof fn lemma_interleaved_events_keep_bijection(
    handler: Handler,
    first: Session,
    second: Session,
    rows: Seq<BoardMapping>,
    turns: Seq<bool>,
)
    requires
        bijective(rows),
    ensures
        bijective(interleaved(handler, first, second, rows, turns).2),
        rows.is_prefix_of(interleaved(handler, first, second, rows, turns).2),
    decreases turns.len(),
{
    if turns.len() > 0 {
        lemma_interleaved_events_keep_bijection(handler, first, second, rows, turns.drop_last());
        let (a, b, table) = interleaved(handler, first, second, rows, turns.drop_last());
        let moving = if turns.last() {
            a
        } else {
            b
        };
        match moving.action {
            ActionView::InsertMapping { reference_id, counter_id } => {
                lemma_insert_keeps_bijection(table, reference_id, counter_id);
            },
            _ => {},
        }
    }
}

} // verus!
