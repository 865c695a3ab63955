//! One reaction event, from its arrival to the board entry that shows it.
//!
//! The handler never talks to the chat service or to the table itself. It
//! answers each event with the next [`Action`]; the caller performs the
//! action and comes back with the [`Event`] that tells how it went, until the
//! action is [`Action::Finish`]. Between [`Action::FindMapping`] and the
//! finish the caller holds its exclusive access to the table, so that no
//! other event can pair the same message meanwhile.
//!
//! A cross-reference that cannot be posted does not keep the new pair from
//! the table. An insertion that the table refuses because the message has
//! been paired meanwhile is no failure either: the message is looked up once
//! more, and the entry that it is paired with is rewritten. Every other
//! failure ends the event, which is dropped.

use vstd::prelude::*;
use crate::aggregator::{decide, should_publish, summary, Tally};
use crate::store::{BoardMapping, StoreError};

verus! {

/// A reaction as it arrives: where it was placed.
#[derive(Clone, Copy, Debug, PartialEq, Eq, Structural)]
pub struct Reaction {
    /// The guild, if the reaction was placed in one.
    pub guild_id: Option<u64>,
    /// The channel of the message.
    pub channel_id: u64,
    /// The message that was reacted to.
    pub message_id: u64,
}

/// A reaction that the handler works on: one from its own guild.
#[derive(Clone, Copy, Debug, PartialEq, Eq, Structural)]
pub struct Source {
    /// The guild of the message.
    pub guild_id: u64,
    /// The channel of the message.
    pub channel_id: u64,
    /// The message that was reacted to.
    pub message_id: u64,
}

/// Who wrote a message, as the chat service describes them.
#[derive(Debug)]
pub struct Author {
    /// The name under which they appear.
    pub display_name: String,
    /// Where their own avatar is found, if they have set one.
    pub avatar_url: Option<String>,
    /// Where the avatar that the service gives them is found.
    pub default_avatar_url: String,
}

/// A message as it was read: its author and its current reactions.
#[derive(Debug)]
pub struct MessageSnapshot {
    /// The author of the message.
    pub author: Author,
    /// The reactions on the message, in the service's order.
    pub tallies: Vec<Tally>,
}

/// What is shown on the board for a message.
#[derive(Debug, PartialEq, Eq)]
pub struct BoardEntry {
    /// The message's author.
    pub author_name: String,
    /// Where the author's picture is found.
    pub author_icon: String,
    /// The summary of the reactions.
    pub description: String,
}

/// An [`Author`] with its texts as sequences.
pub ghost struct AuthorView {
    pub display_name: Seq<char>,
    pub avatar_url: Option<Seq<char>>,
    pub default_avatar_url: Seq<char>,
}

/// A [`MessageSnapshot`] with its texts as sequences.
pub ghost struct MessageSnapshotView {
    pub author: AuthorView,
    pub tallies: Seq<(Seq<char>, u64)>,
}

/// A [`BoardEntry`] with its texts as sequences.
pub ghost struct BoardEntryView {
    pub author_name: Seq<char>,
    pub author_icon: Seq<char>,
    pub description: Seq<char>,
}

impl View for Author {
    type V = AuthorView;

    open spec fn view(&self) -> AuthorView {
        AuthorView {
            display_name: self.display_name@,
            avatar_url: match self.avatar_url {
                Some(url) => Some(url@),
                None => None,
            },
            default_avatar_url: self.default_avatar_url@,
        }
    }
}

impl View for MessageSnapshot {
    type V = MessageSnapshotView;

    open spec fn view(&self) -> MessageSnapshotView {
        MessageSnapshotView { author: self.author@, tallies: self.tallies.deep_view() }
    }
}

impl View for BoardEntry {
    type V = BoardEntryView;

    open spec fn view(&self) -> BoardEntryView {
        BoardEntryView {
            author_name: self.author_name@,
            author_icon: self.author_icon@,
            description: self.description@,
        }
    }
}

impl AuthorView {
    /// The picture that stands for the author: their own avatar, or else the
    /// one that the service gives them.
    pub open spec fn icon_url(self) -> Seq<char> {
        match self.avatar_url {
            Some(url) => url,
            None => self.default_avatar_url,
        }
    }
}

impl MessageSnapshotView {
    /// The board entry for the message under a threshold: the author's name
    /// and picture, and the summary of the tallies.
    pub open spec fn entry(self, threshold: u64) -> BoardEntryView {
        BoardEntryView {
            author_name: self.author.display_name,
            author_icon: self.author.icon_url(),
            description: summary(self.tallies, threshold),
        }
    }
}

impl Author {
    /// The board entry for a message of this author with the given summary.
    pub fn into_entry(self, description: String) -> (entry: BoardEntry)
        ensures
            entry@ == (BoardEntryView {
                author_name: self@.display_name,
                author_icon: self@.icon_url(),
                description: description@,
            }),
    {
        let author_icon = match self.avatar_url {
            Some(url) => url,
            None => self.default_avatar_url,
        };
        BoardEntry { author_name: self.display_name, author_icon, description }
    }
}

impl BoardEntry {
    /// A second copy of the entry.
    pub fn duplicate(&self) -> (copy: BoardEntry)
        ensures
            copy@ == self@,
    {
        BoardEntry {
            author_name: self.author_name.clone(),
            author_icon: self.author_icon.clone(),
            description: self.description.clone(),
        }
    }
}

/// Why an event is left alone. This is no failure.
#[derive(Clone, Copy, Debug, PartialEq, Eq, Structural)]
pub enum ValidationSkip {
    /// It comes from no guild, or from another guild than the handler's.
    OtherGuild,
    /// It comes from the board channel itself.
    BoardChannel,
}

/// What went wrong at the publisher.
#[derive(Clone, Copy, Debug, PartialEq, Eq, Structural)]
pub enum PublisherFailure {
    /// A call to create or edit an entry failed.
    Rejected,
    /// An entry was created, but the publisher did not say which.
    NoEntry,
}

/// What went wrong at the mapping table.
#[derive(Clone, Copy, Debug, PartialEq, Eq, Structural)]
pub enum StoreFailure {
    /// A lookup or an insertion did not come through.
    Unavailable,
    /// The table refused a row.
    Conflict(StoreError),
}

/// The cause of a failed event.
#[derive(Clone, Copy, Debug, PartialEq, Eq, Structural)]
pub enum Failure {
    /// The message could not be read.
    Ingress,
    /// The publisher failed.
    Publisher(PublisherFailure),
    /// The mapping table failed.
    Store(StoreFailure),
    /// The caller reported something that the handler had not asked for.
    OutOfTurn,
}

/// An event was not carried through; it is dropped.
#[derive(Clone, Copy, Debug, PartialEq, Eq, Structural)]
pub struct OperationFailed {
    /// What stopped it.
    pub cause: Failure,
}

/// How an event ended when nothing failed.
#[derive(Clone, Copy, Debug, PartialEq, Eq, Structural)]
pub enum Completed {
    /// The event was not for this handler.
    Skipped(ValidationSkip),
    /// No tally reaches the threshold.
    BelowThreshold,
    /// The message's board entry was rewritten.
    Edited { counter_id: u64 },
    /// The message got its board entry.
    Created { counter_id: u64 },
}

/// What the caller reports back.
#[derive(Debug)]
pub enum Event {
    /// The message was read.
    Fetched(MessageSnapshot),
    /// The lookup in the mapping table was answered.
    Found(Option<BoardMapping>),
    /// The board entry was rewritten.
    Edited,
    /// A board entry was created; its identifier, if the publisher gave one.
    Created(Option<u64>),
    /// The cross-reference to the source message was posted.
    CrossReferenced,
    /// The mapping table answered the insertion.
    Inserted(Result<BoardMapping, StoreError>),
    /// The action could not be performed.
    Failed(Failure),
}

/// What the caller is to do next.
#[derive(Debug, PartialEq, Eq)]
pub enum Action {
    /// Read the message with its current reactions.
    FetchMessage { channel_id: u64, message_id: u64 },
    /// Take exclusive access to the mapping table and look the message up.
    FindMapping { reference_id: u64 },
    /// Replace the body of a board entry.
    EditEntry { counter_id: u64, entry: BoardEntry },
    /// Publish a new board entry.
    CreateEntry { entry: BoardEntry },
    /// Post, on the board, a reference to the source message.
    CrossReference { board_channel_id: u64, guild_id: u64, channel_id: u64, message_id: u64 },
    /// Record that the message is shown as this board entry.
    InsertMapping { reference_id: u64, counter_id: u64 },
    /// Nothing more: release the table and report the result.
    Finish(Result<Completed, OperationFailed>),
}

/// How far the handling of one event has come.
#[derive(Debug)]
pub enum Progress {
    /// The message is being read.
    Fetching { source: Source },
    /// The message is being looked up in the mapping table.
    Locating { source: Source, entry: BoardEntry },
    /// The board entry is being rewritten.
    Editing { counter_id: u64 },
    /// A board entry is being created.
    Creating { source: Source, entry: BoardEntry },
    /// The cross-reference is being posted.
    Linking { source: Source, entry: BoardEntry, counter_id: u64 },
    /// The new pair is being inserted.
    Recording { source: Source, entry: BoardEntry, counter_id: u64 },
    /// The message turned out to be paired already, and is looked up again.
    Relocating { entry: BoardEntry },
    /// There is nothing left to do.
    Finished,
}

/// An [`Event`] with its texts as sequences.
pub ghost enum EventView {
    Fetched(MessageSnapshotView),
    Found(Option<BoardMapping>),
    Edited,
    Created(Option<u64>),
    CrossReferenced,
    Inserted(Result<BoardMapping, StoreError>),
    Failed(Failure),
}

/// An [`Action`] with its texts as sequences.
pub ghost enum ActionView {
    FetchMessage { channel_id: u64, message_id: u64 },
    FindMapping { reference_id: u64 },
    EditEntry { counter_id: u64, entry: BoardEntryView },
    CreateEntry { entry: BoardEntryView },
    CrossReference { board_channel_id: u64, guild_id: u64, channel_id: u64, message_id: u64 },
    InsertMapping { reference_id: u64, counter_id: u64 },
    Finish(Result<Completed, OperationFailed>),
}

/// A [`Progress`] with its texts as sequences.
pub ghost enum ProgressView {
    Fetching { source: Source },
    Locating { source: Source, entry: BoardEntryView },
    Editing { counter_id: u64 },
    Creating { source: Source, entry: BoardEntryView },
    Linking { source: Source, entry: BoardEntryView, counter_id: u64 },
    Recording { source: Source, entry: BoardEntryView, counter_id: u64 },
    Relocating { entry: BoardEntryView },
    Finished,
}

impl View for Event {
    type V = EventView;

    open spec fn view(&self) -> EventView {
        match *self {
            Event::Fetched(snapshot) => EventView::Fetched(snapshot@),
            Event::Found(row) => EventView::Found(row),
            Event::Edited => EventView::Edited,
            Event::Created(counter_id) => EventView::Created(counter_id),
            Event::CrossReferenced => EventView::CrossReferenced,
            Event::Inserted(outcome) => EventView::Inserted(outcome),
            Event::Failed(cause) => EventView::Failed(cause),
        }
    }
}

impl View for Action {
    type V = ActionView;

    open spec fn view(&self) -> ActionView {
        match *self {
            Action::FetchMessage { channel_id, message_id } => ActionView::FetchMessage {
                channel_id,
                message_id,
            },
            Action::FindMapping { reference_id } => ActionView::FindMapping { reference_id },
            Action::EditEntry { counter_id, entry } => ActionView::EditEntry {
                counter_id,
                entry: entry@,
            },
            Action::CreateEntry { entry } => ActionView::CreateEntry { entry: entry@ },
            Action::CrossReference {
                board_channel_id,
                guild_id,
                channel_id,
                message_id,
            } => ActionView::CrossReference { board_channel_id, guild_id, channel_id, message_id },
            Action::InsertMapping { reference_id, counter_id } => ActionView::InsertMapping {
                reference_id,
                counter_id,
            },
            Action::Finish(result) => ActionView::Finish(result),
        }
    }
}

impl View for Progress {
    type V = ProgressView;

    open spec fn view(&self) -> ProgressView {
        match *self {
            Progress::Fetching { source } => ProgressView::Fetching { source },
            Progress::Locating { source, entry } => ProgressView::Locating {
                source,
                entry: entry@,
            },
            Progress::Editing { counter_id } => ProgressView::Editing { counter_id },
            Progress::Creating { source, entry } => ProgressView::Creating {
                source,
                entry: entry@,
            },
            Progress::Linking { source, entry, counter_id } => ProgressView::Linking {
                source,
                entry: entry@,
                counter_id,
            },
            Progress::Recording { source, entry, counter_id } => ProgressView::Recording {
                source,
                entry: entry@,
                counter_id,
            },
            Progress::Relocating { entry } => ProgressView::Relocating { entry: entry@ },
            Progress::Finished => ProgressView::Finished,
        }
    }
}

/// The threshold of a handler that was given none.
pub const DEFAULT_MIN_COUNT: u64 = 3;

/// The handler's settings: which guild it serves, where its board is, and
/// how many reactions of one emoji put a message on the board.
#[derive(Clone, Copy, Debug, PartialEq, Eq, Structural)]
pub struct Handler {
    /// The guild whose reactions are counted.
    pub guild_id: u64,
    /// The channel that holds the board.
    pub board_channel_id: u64,
    /// The threshold.
    pub min_count: u64,
}

/// The end of an event with this result.
pub open spec fn finish(result: Result<Completed, OperationFailed>) -> (ProgressView, ActionView) {
    (ProgressView::Finished, ActionView::Finish(result))
}

/// The end of an event that failed for this cause.
pub open spec fn fail(cause: Failure) -> (ProgressView, ActionView) {
    finish(Err(OperationFailed { cause }))
}

impl Handler {
    /// Why a reaction is left alone, if it is: it is not from the handler's
    /// guild, or it is from the board channel.
    pub open spec fn skip_reason(&self, reaction: Reaction) -> Option<ValidationSkip> {
        if reaction.guild_id != Some(self.guild_id) {
            Some(ValidationSkip::OtherGuild)
        } else if reaction.channel_id == self.board_channel_id {
            Some(ValidationSkip::BoardChannel)
        } else {
            None
        }
    }

    /// The first step on a reaction.
    pub open spec fn first_step(&self, reaction: Reaction) -> (ProgressView, ActionView) {
        match self.skip_reason(reaction) {
            Some(reason) => finish(Ok(Completed::Skipped(reason))),
            None => {
                let source = Source {
                    guild_id: self.guild_id,
                    channel_id: reaction.channel_id,
                    message_id: reaction.message_id,
                };
                (
                    ProgressView::Fetching { source },
                    ActionView::FetchMessage {
                        channel_id: reaction.channel_id,
                        message_id: reaction.message_id,
                    },
                )
            },
        }
    }

    /// The step that answers `event` when the handling stands at `progress`.
    pub open spec fn next_step(&self, progress: ProgressView, event: EventView) -> (
        ProgressView,
        ActionView,
    ) {
        match (progress, event) {
            (ProgressView::Fetching { source }, EventView::Fetched(snapshot)) => {
                if should_publish(snapshot.tallies, self.min_count) {
                    (
                        ProgressView::Locating { source, entry: snapshot.entry(self.min_count) },
                        ActionView::FindMapping { reference_id: source.message_id },
                    )
                } else {
                    finish(Ok(Completed::BelowThreshold))
                }
            },
            (ProgressView::Locating { source, entry }, EventView::Found(Some(row))) => (
                ProgressView::Editing { counter_id: row.counter_id },
                ActionView::EditEntry { counter_id: row.counter_id, entry },
            ),
            (ProgressView::Locating { source, entry }, EventView::Found(None)) => (
                ProgressView::Creating { source, entry },
                ActionView::CreateEntry { entry },
            ),
            (ProgressView::Editing { counter_id }, EventView::Edited) => finish(
                Ok(Completed::Edited { counter_id }),
            ),
            (ProgressView::Creating { source, entry }, EventView::Created(Some(counter_id))) => (
                ProgressView::Linking { source, entry, counter_id },
                ActionView::CrossReference {
                    board_channel_id: self.board_channel_id,
                    guild_id: source.guild_id,
                    channel_id: source.channel_id,
                    message_id: source.message_id,
                },
            ),
            (ProgressView::Creating { source, entry }, EventView::Created(None)) => fail(
                Failure::Publisher(PublisherFailure::NoEntry),
            ),
            (ProgressView::Linking { source, entry, counter_id }, EventView::CrossReferenced)
            | (ProgressView::Linking { source, entry, counter_id }, EventView::Failed(_)) => (
                ProgressView::Recording { source, entry, counter_id },
                ActionView::InsertMapping { reference_id: source.message_id, counter_id },
            ),
            (
                ProgressView::Recording { source, entry, counter_id },
                EventView::Inserted(Ok(_)),
            ) => finish(Ok(Completed::Created { counter_id })),
            (
                ProgressView::Recording { source, entry, counter_id },
                EventView::Inserted(Err(StoreError::DuplicateReference)),
            ) => (
                ProgressView::Relocating { entry },
                ActionView::FindMapping { reference_id: source.message_id },
            ),
            (
                ProgressView::Recording { source, entry, counter_id },
                EventView::Inserted(Err(StoreError::DuplicateCounter)),
            ) => fail(Failure::Store(StoreFailure::Conflict(StoreError::DuplicateCounter))),
            (ProgressView::Relocating { entry }, EventView::Found(Some(row))) => (
                ProgressView::Editing { counter_id: row.counter_id },
                ActionView::EditEntry { counter_id: row.counter_id, entry },
            ),
            (ProgressView::Relocating { entry }, EventView::Found(None)) => fail(
                Failure::Store(StoreFailure::Conflict(StoreError::DuplicateReference)),
            ),
            (ProgressView::Finished, _) => fail(Failure::OutOfTurn),
            (_, EventView::Failed(cause)) => fail(cause),
            _ => fail(Failure::OutOfTurn),
        }
    }

    /// Why a reaction is left alone, if it is.
    pub fn validate(&self, reaction: &Reaction) -> (skip: Option<ValidationSkip>)
        ensures
            skip == self.skip_reason(*reaction),
    {
        match reaction.guild_id {
            Some(guild_id) => {
                if guild_id != self.guild_id {
                    Some(ValidationSkip::OtherGuild)
                } else if reaction.channel_id == self.board_channel_id {
                    Some(ValidationSkip::BoardChannel)
                } else {
                    None
                }
            },
            None => Some(ValidationSkip::OtherGuild),
        }
    }

    /// Takes up a reaction: it is either left alone, which ends the event at
    /// once, or its message is asked for.
    pub fn reaction_add(&self, reaction: Reaction) -> (step: (Progress, Action))
        ensures
            (step.0@, step.1@) == self.first_step(reaction),
    {
        match self.validate(&reaction) {
            Some(reason) => (Progress::Finished, Action::Finish(Ok(Completed::Skipped(reason)))),
            None => {
                let source = Source {
                    guild_id: self.guild_id,
                    channel_id: reaction.channel_id,
                    message_id: reaction.message_id,
                };
                (
                    Progress::Fetching { source },
                    Action::FetchMessage {
                        channel_id: reaction.channel_id,
                        message_id: reaction.message_id,
                    },
                )
            },
        }
    }

    /// Answers what the caller reports with the next thing to do.
    pub fn advance(&self, progress: Progress, event: Event) -> (step: (Progress, Action))
        ensures
            (step.0@, step.1@) == self.next_step(progress@, event@),
    {
        match progress {
            Progress::Fetching { source } => match event {
                Event::Fetched(snapshot) => {
                    let decision = decide(&snapshot.tallies, self.min_count);
                    if decision.should_publish {
                        let entry = snapshot.author.into_entry(decision.summary);
                        (
                            Progress::Locating { source, entry },
                            Action::FindMapping { reference_id: source.message_id },
                        )
                    } else {
                        done(Ok(Completed::BelowThreshold))
                    }
                },
                other => stop(other),
            },
            Progress::Locating { source, entry } => match event {
                Event::Found(Some(row)) => (
                    Progress::Editing { counter_id: row.counter_id },
                    Action::EditEntry { counter_id: row.counter_id, entry },
                ),
                Event::Found(None) => {
                    let copy = entry.duplicate();
                    (Progress::Creating { source, entry }, Action::CreateEntry { entry: copy })
                },
                other => stop(other),
            },
            Progress::Editing { counter_id } => match event {
                Event::Edited => done(Ok(Completed::Edited { counter_id })),
                other => stop(other),
            },
            Progress::Creating { source, entry } => match event {
                Event::Created(Some(counter_id)) => (
                    Progress::Linking { source, entry, counter_id },
                    Action::CrossReference {
                        board_channel_id: self.board_channel_id,
                        guild_id: source.guild_id,
                        channel_id: source.channel_id,
                        message_id: source.message_id,
                    },
                ),
                Event::Created(None) => done(
                    Err(OperationFailed { cause: Failure::Publisher(PublisherFailure::NoEntry) }),
                ),
                other => stop(other),
            },
            Progress::Linking { source, entry, counter_id } => match event {
                Event::CrossReferenced | Event::Failed(_) => (
                    Progress::Recording { source, entry, counter_id },
                    Action::InsertMapping { reference_id: source.message_id, counter_id },
                ),
                other => stop(other),
            },
            Progress::Recording { source, entry, counter_id } => match event {
                Event::Inserted(Ok(_)) => done(Ok(Completed::Created { counter_id })),
                Event::Inserted(Err(StoreError::DuplicateReference)) => (
                    Progress::Relocating { entry },
                    Action::FindMapping { reference_id: source.message_id },
                ),
                Event::Inserted(Err(StoreError::DuplicateCounter)) => done(
                    Err(
                        OperationFailed {
                            cause: Failure::Store(
                                StoreFailure::Conflict(StoreError::DuplicateCounter),
                            ),
                        },
                    ),
                ),
                other => stop(other),
            },
            Progress::Relocating { entry } => match event {
                Event::Found(Some(row)) => (
                    Progress::Editing { counter_id: row.counter_id },
                    Action::EditEntry { counter_id: row.counter_id, entry },
                ),
                Event::Found(None) => done(
                    Err(
                        OperationFailed {
                            cause: Failure::Store(
                                StoreFailure::Conflict(StoreError::DuplicateReference),
                            ),
                        },
                    ),
                ),
                other => stop(other),
            },
            Progress::Finished => done(Err(OperationFailed { cause: Failure::OutOfTurn })),
        }
    }
}

/// The step that ends an event.
fn done(result: Result<Completed, OperationFailed>) -> (step: (Progress, Action))
    ensures
        (step.0@, step.1@) == finish(result),
{
    (Progress::Finished, Action::Finish(result))
}

/// The step that ends an event on a report that does not continue it: with
/// the failure that was reported, or as out of turn.
fn stop(event: Event) -> (step: (Progress, Action))
    ensures
        (step.0@, step.1@) == fail(
            match event@ {
                EventView::Failed(cause) => cause,
                _ => Failure::OutOfTurn,
            },
        ),
{
    match event {
        Event::Failed(cause) => done(Err(OperationFailed { cause })),
        _ => done(Err(OperationFailed { cause: Failure::OutOfTurn })),
    }
}

} // verus!
