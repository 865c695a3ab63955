use reaction_board::aggregator::Tally;
use reaction_board::handler::{
    Action, Author, BoardEntry, Completed, Event, Failure, Handler, MessageSnapshot,
    OperationFailed, Progress, PublisherFailure, Reaction, StoreFailure, ValidationSkip,
    DEFAULT_MIN_COUNT,
};
use reaction_board::store::{BoardMapping, MappingStore, StoreError};

const STAR: &str = "\u{2b50}";
const GUILD: u64 = 7;
const BOARD: u64 = 70;
const CHANNEL: u64 = 71;
const MESSAGE: u64 = 1000;

fn handler() -> Handler {
    Handler { guild_id: GUILD, board_channel_id: BOARD, min_count: 3 }
}

fn reaction() -> Reaction {
    Reaction { guild_id: Some(GUILD), channel_id: CHANNEL, message_id: MESSAGE }
}

const NAME: &str = "koi";
const AVATAR: &str = "https://cdn.example/avatars/1/a.webp";
const DEFAULT_AVATAR: &str = "https://cdn.example/embed/avatars/0.png";

fn snapshot(tallies: Vec<Tally>) -> MessageSnapshot {
    MessageSnapshot {
        author: Author {
            display_name: NAME.to_string(),
            avatar_url: Some(AVATAR.to_string()),
            default_avatar_url: DEFAULT_AVATAR.to_string(),
        },
        tallies,
    }
}

fn stars(count: u64) -> MessageSnapshot {
    snapshot(vec![Tally { emoji: STAR.to_string(), count }])
}

fn entry(description: &str) -> BoardEntry {
    BoardEntry {
        author_name: NAME.to_string(),
        author_icon: AVATAR.to_string(),
        description: description.to_string(),
    }
}

fn failed(cause: Failure) -> Action {
    Action::Finish(Err(OperationFailed { cause }))
}

/// A board that hands out identifiers from `next_entry` on, and a table.
struct World {
    store: MappingStore,
    next_entry: u64,
    created: Vec<(u64, String)>,
    edited: Vec<(u64, String)>,
    cross_references: usize,
}

fn world() -> World {
    World {
        store: MappingStore::new(),
        next_entry: 5000,
        created: Vec::new(),
        edited: Vec::new(),
        cross_references: 0,
    }
}

/// Handles one reaction to the end and returns every action asked for.
fn handle(
    h: &Handler,
    w: &mut World,
    reaction: Reaction,
    message: MessageSnapshot,
) -> Vec<Action> {
    let mut message = Some(message);
    let mut asked = Vec::new();
    let (mut progress, mut action) = h.reaction_add(reaction);
    for _ in 0..8 {
        let event = match &action {
            Action::FetchMessage { .. } => Event::Fetched(message.take().unwrap()),
            Action::FindMapping { reference_id } => {
                Event::Found(w.store.find_by_reference(*reference_id))
            }
            Action::EditEntry { counter_id, entry } => {
                w.edited.push((*counter_id, entry.description.clone()));
                Event::Edited
            }
            Action::CreateEntry { entry } => {
                let id = w.next_entry;
                w.next_entry += 1;
                w.created.push((id, entry.description.clone()));
                Event::Created(Some(id))
            }
            Action::CrossReference { .. } => {
                w.cross_references += 1;
                Event::CrossReferenced
            }
            Action::InsertMapping { reference_id, counter_id } => {
                Event::Inserted(w.store.insert(*reference_id, *counter_id))
            }
            Action::Finish(_) => {
                asked.push(action);
                return asked;
            }
        };
        let (next, then) = h.advance(progress, event);
        asked.push(action);
        progress = next;
        action = then;
    }
    panic!("the event did not end");
}

#[test]
fn the_default_threshold_is_three() {
    assert_eq!(DEFAULT_MIN_COUNT, 3);
}

#[test]
fn a_reaction_in_the_board_channel_is_skipped() {
    let h = handler();
    let r = Reaction { guild_id: Some(GUILD), channel_id: BOARD, message_id: MESSAGE };
    assert_eq!(h.validate(&r), Some(ValidationSkip::BoardChannel));
    let (progress, action) = h.reaction_add(r);
    assert!(matches!(progress, Progress::Finished));
    assert_eq!(action, Action::Finish(Ok(Completed::Skipped(ValidationSkip::BoardChannel))));
}

#[test]
fn a_reaction_from_another_guild_is_skipped() {
    let h = handler();
    let r = Reaction { guild_id: Some(GUILD + 1), channel_id: CHANNEL, message_id: MESSAGE };
    assert_eq!(h.validate(&r), Some(ValidationSkip::OtherGuild));
    let (_, action) = h.reaction_add(r);
    assert_eq!(action, Action::Finish(Ok(Completed::Skipped(ValidationSkip::OtherGuild))));
}

#[test]
fn a_reaction_outside_any_guild_is_skipped() {
    let h = handler();
    let r = Reaction { guild_id: None, channel_id: CHANNEL, message_id: MESSAGE };
    assert_eq!(h.validate(&r), Some(ValidationSkip::OtherGuild));
    let (_, action) = h.reaction_add(r);
    assert_eq!(action, Action::Finish(Ok(Completed::Skipped(ValidationSkip::OtherGuild))));
}

#[test]
fn the_guild_is_checked_before_the_channel() {
    let h = handler();
    let r = Reaction { guild_id: Some(GUILD + 1), channel_id: BOARD, message_id: MESSAGE };
    assert_eq!(h.validate(&r), Some(ValidationSkip::OtherGuild));
}

#[test]
fn a_skipped_reaction_reaches_neither_board_nor_table() {
    let h = handler();
    let mut w = world();
    let r = Reaction { guild_id: Some(GUILD), channel_id: BOARD, message_id: MESSAGE };
    let asked = handle(&h, &mut w, r, stars(9));
    assert_eq!(asked, vec![Action::Finish(Ok(Completed::Skipped(ValidationSkip::BoardChannel)))]);
    assert_eq!(w.store.len(), 0);
    assert!(w.created.is_empty());
    assert!(w.edited.is_empty());
    assert_eq!(w.cross_references, 0);
}

#[test]
fn an_accepted_reaction_has_its_message_read() {
    let h = handler();
    assert_eq!(h.validate(&reaction()), None);
    let (progress, action) = h.reaction_add(reaction());
    assert!(matches!(progress, Progress::Fetching { .. }));
    assert_eq!(action, Action::FetchMessage { channel_id: CHANNEL, message_id: MESSAGE });
}

#[test]
fn a_quiet_message_is_left_alone() {
    let h = handler();
    let mut w = world();
    let asked = handle(&h, &mut w, reaction(), stars(2));
    assert_eq!(
        asked,
        vec![
            Action::FetchMessage { channel_id: CHANNEL, message_id: MESSAGE },
            Action::Finish(Ok(Completed::BelowThreshold)),
        ]
    );
    assert_eq!(w.store.len(), 0);
    assert!(w.created.is_empty());
}

#[test]
fn first_event_creates_and_second_event_edits() {
    let h = handler();
    let mut w = world();
    let first = handle(&h, &mut w, reaction(), stars(3));
    assert_eq!(
        first,
        vec![
            Action::FetchMessage { channel_id: CHANNEL, message_id: MESSAGE },
            Action::FindMapping { reference_id: MESSAGE },
            Action::CreateEntry { entry: entry("\u{2b50} 3") },
            Action::CrossReference {
                board_channel_id: BOARD,
                guild_id: GUILD,
                channel_id: CHANNEL,
                message_id: MESSAGE,
            },
            Action::InsertMapping { reference_id: MESSAGE, counter_id: 5000 },
            Action::Finish(Ok(Completed::Created { counter_id: 5000 })),
        ]
    );
    assert_eq!(
        w.store.rows(),
        &vec![BoardMapping { id: 0, reference_id: MESSAGE, counter_id: 5000 }]
    );

    let second = handle(&h, &mut w, reaction(), stars(7));
    assert_eq!(
        second,
        vec![
            Action::FetchMessage { channel_id: CHANNEL, message_id: MESSAGE },
            Action::FindMapping { reference_id: MESSAGE },
            Action::EditEntry { counter_id: 5000, entry: entry("\u{2b50} 7") },
            Action::Finish(Ok(Completed::Edited { counter_id: 5000 })),
        ]
    );
    assert_eq!(
        w.store.rows(),
        &vec![BoardMapping { id: 0, reference_id: MESSAGE, counter_id: 5000 }]
    );
    assert_eq!(w.created, vec![(5000, "\u{2b50} 3".to_string())]);
    assert_eq!(w.edited, vec![(5000, "\u{2b50} 7".to_string())]);
    assert_eq!(w.cross_references, 1);
}

#[test]
fn repeated_events_keep_one_row_per_message() {
    let h = handler();
    let mut w = world();
    for round in 0..5u64 {
        for message_id in [MESSAGE, MESSAGE + 1, MESSAGE + 2] {
            let r = Reaction { guild_id: Some(GUILD), channel_id: CHANNEL, message_id };
            handle(&h, &mut w, r, stars(3 + round));
        }
    }
    assert_eq!(w.store.len(), 3);
    assert_eq!(w.created.len(), 3);
    assert_eq!(w.edited.len(), 12);
    assert_eq!(w.store.find_by_reference(MESSAGE).map(|row| row.counter_id), Some(5000));
    assert_eq!(w.store.find_by_reference(MESSAGE + 1).map(|row| row.counter_id), Some(5001));
    assert_eq!(w.store.find_by_reference(MESSAGE + 2).map(|row| row.counter_id), Some(5002));
}

/// Advances a fresh event to the point where it has asked for its entry to
/// be created.
fn up_to_create(h: &Handler, message: MessageSnapshot) -> (Progress, Action) {
    let (progress, _) = h.reaction_add(reaction());
    let (progress, _) = h.advance(progress, Event::Fetched(message));
    h.advance(progress, Event::Found(None))
}

#[test]
fn two_events_that_race_end_with_one_row_and_an_edit() {
    let h = handler();
    let mut store = MappingStore::new();
    let (a, a_asks) = up_to_create(&h, stars(3));
    let (b, b_asks) = up_to_create(&h, stars(4));
    assert_eq!(a_asks, Action::CreateEntry { entry: entry("\u{2b50} 3") });
    assert_eq!(b_asks, Action::CreateEntry { entry: entry("\u{2b50} 4") });

    let (a, _) = h.advance(a, Event::Created(Some(5000)));
    let (b, _) = h.advance(b, Event::Created(Some(5001)));
    let (a, a_asks) = h.advance(a, Event::CrossReferenced);
    let (b, b_asks) = h.advance(b, Event::CrossReferenced);
    assert_eq!(a_asks, Action::InsertMapping { reference_id: MESSAGE, counter_id: 5000 });
    assert_eq!(b_asks, Action::InsertMapping { reference_id: MESSAGE, counter_id: 5001 });

    let (_, a_asks) = h.advance(a, Event::Inserted(store.insert(MESSAGE, 5000)));
    assert_eq!(a_asks, Action::Finish(Ok(Completed::Created { counter_id: 5000 })));

    let refused = store.insert(MESSAGE, 5001);
    assert_eq!(refused, Err(StoreError::DuplicateReference));
    let (b, b_asks) = h.advance(b, Event::Inserted(refused));
    assert_eq!(b_asks, Action::FindMapping { reference_id: MESSAGE });
    let (b, b_asks) = h.advance(b, Event::Found(store.find_by_reference(MESSAGE)));
    assert_eq!(b_asks, Action::EditEntry { counter_id: 5000, entry: entry("\u{2b50} 4") });
    let (b, b_asks) = h.advance(b, Event::Edited);
    assert_eq!(b_asks, Action::Finish(Ok(Completed::Edited { counter_id: 5000 })));
    assert!(matches!(b, Progress::Finished));
    assert_eq!(store.len(), 1);
}

#[test]
fn a_lost_race_with_no_row_to_be_found_is_a_store_failure() {
    let h = handler();
    let (p, _) = up_to_create(&h, stars(3));
    let (p, _) = h.advance(p, Event::Created(Some(5000)));
    let (p, _) = h.advance(p, Event::CrossReferenced);
    let (p, _) = h.advance(p, Event::Inserted(Err(StoreError::DuplicateReference)));
    let (p, action) = h.advance(p, Event::Found(None));
    assert!(matches!(p, Progress::Finished));
    assert_eq!(
        action,
        failed(Failure::Store(StoreFailure::Conflict(StoreError::DuplicateReference)))
    );
}

#[test]
fn an_entry_that_is_already_paired_is_a_store_failure() {
    let h = handler();
    let (p, _) = up_to_create(&h, stars(3));
    let (p, _) = h.advance(p, Event::Created(Some(5000)));
    let (p, _) = h.advance(p, Event::CrossReferenced);
    let (_, action) = h.advance(p, Event::Inserted(Err(StoreError::DuplicateCounter)));
    assert_eq!(
        action,
        failed(Failure::Store(StoreFailure::Conflict(StoreError::DuplicateCounter)))
    );
}

#[test]
fn a_failed_cross_reference_does_not_keep_the_pair_from_the_table() {
    let h = handler();
    let (p, _) = up_to_create(&h, stars(3));
    let (p, action) = h.advance(p, Event::Created(Some(5000)));
    assert_eq!(
        action,
        Action::CrossReference {
            board_channel_id: BOARD,
            guild_id: GUILD,
            channel_id: CHANNEL,
            message_id: MESSAGE,
        }
    );
    let (p, action) = h.advance(p, Event::Failed(Failure::Publisher(PublisherFailure::Rejected)));
    assert!(matches!(p, Progress::Recording { .. }));
    assert_eq!(action, Action::InsertMapping { reference_id: MESSAGE, counter_id: 5000 });
}

#[test]
fn a_creation_without_an_identifier_is_a_publisher_failure() {
    let h = handler();
    let (p, _) = up_to_create(&h, stars(3));
    let (p, action) = h.advance(p, Event::Created(None));
    assert!(matches!(p, Progress::Finished));
    assert_eq!(action, failed(Failure::Publisher(PublisherFailure::NoEntry)));
}

#[test]
fn a_failure_ends_the_event_with_its_cause() {
    let h = handler();

    let (p, _) = h.reaction_add(reaction());
    let (_, action) = h.advance(p, Event::Failed(Failure::Ingress));
    assert_eq!(action, failed(Failure::Ingress));

    let (p, _) = h.reaction_add(reaction());
    let (p, _) = h.advance(p, Event::Fetched(stars(3)));
    let (_, action) = h.advance(p, Event::Failed(Failure::Store(StoreFailure::Unavailable)));
    assert_eq!(action, failed(Failure::Store(StoreFailure::Unavailable)));

    let (p, _) = up_to_create(&h, stars(3));
    let (_, action) = h.advance(p, Event::Failed(Failure::Publisher(PublisherFailure::Rejected)));
    assert_eq!(action, failed(Failure::Publisher(PublisherFailure::Rejected)));

    let (p, _) = h.reaction_add(reaction());
    let (p, _) = h.advance(p, Event::Fetched(stars(3)));
    let row = BoardMapping { id: 0, reference_id: MESSAGE, counter_id: 5000 };
    let (p, _) = h.advance(p, Event::Found(Some(row)));
    let (p, action) = h.advance(p, Event::Failed(Failure::Publisher(PublisherFailure::Rejected)));
    assert!(matches!(p, Progress::Finished));
    assert_eq!(action, failed(Failure::Publisher(PublisherFailure::Rejected)));

    let (p, _) = up_to_create(&h, stars(3));
    let (p, _) = h.advance(p, Event::Created(Some(5000)));
    let (p, _) = h.advance(p, Event::CrossReferenced);
    let (_, action) = h.advance(p, Event::Failed(Failure::Store(StoreFailure::Unavailable)));
    assert_eq!(action, failed(Failure::Store(StoreFailure::Unavailable)));
}

#[test]
fn a_report_that_was_not_asked_for_ends_the_event() {
    let h = handler();
    let (p, _) = h.reaction_add(reaction());
    let (p, action) = h.advance(p, Event::Edited);
    assert!(matches!(p, Progress::Finished));
    assert_eq!(action, failed(Failure::OutOfTurn));

    let (p, _) = h.reaction_add(reaction());
    let (p, _) = h.advance(p, Event::Fetched(stars(3)));
    let (_, action) = h.advance(p, Event::Created(Some(1)));
    assert_eq!(action, failed(Failure::OutOfTurn));
}

#[test]
fn a_finished_event_takes_no_more_reports() {
    let h = handler();
    let r = Reaction { guild_id: None, channel_id: CHANNEL, message_id: MESSAGE };
    let (p, _) = h.reaction_add(r);
    let (p, action) = h.advance(p, Event::Fetched(stars(9)));
    assert!(matches!(p, Progress::Finished));
    assert_eq!(action, failed(Failure::OutOfTurn));
    let (_, action) = h.advance(p, Event::Failed(Failure::Ingress));
    assert_eq!(action, failed(Failure::OutOfTurn));
}

#[test]
fn the_threshold_of_the_handler_decides() {
    let mut w = world();
    let strict = Handler { guild_id: GUILD, board_channel_id: BOARD, min_count: 10 };
    let asked = handle(&strict, &mut w, reaction(), stars(9));
    assert_eq!(asked.last(), Some(&Action::Finish(Ok(Completed::BelowThreshold))));
    let asked = handle(&strict, &mut w, reaction(), stars(10));
    assert_eq!(asked.last(), Some(&Action::Finish(Ok(Completed::Created { counter_id: 5000 }))));
}

#[test]
fn an_edit_carries_every_qualifying_tally() {
    let h = handler();
    let (p, _) = h.reaction_add(reaction());
    let tallies = vec![
        Tally { emoji: "a".to_string(), count: 3 },
        Tally { emoji: "b".to_string(), count: 2 },
        Tally { emoji: "c".to_string(), count: 8 },
    ];
    let (p, _) = h.advance(p, Event::Fetched(snapshot(tallies)));
    let row = BoardMapping { id: 4, reference_id: MESSAGE, counter_id: 77 };
    let (_, action) = h.advance(p, Event::Found(Some(row)));
    assert_eq!(
        action,
        Action::EditEntry { counter_id: 77, entry: entry("a 3  \u{b7}  c 8") }
    );
}

#[test]
fn an_author_without_an_avatar_is_shown_with_the_default_one() {
    let h = handler();
    let (p, _) = h.reaction_add(reaction());
    let message = MessageSnapshot {
        author: Author {
            display_name: NAME.to_string(),
            avatar_url: None,
            default_avatar_url: DEFAULT_AVATAR.to_string(),
        },
        tallies: vec![Tally { emoji: STAR.to_string(), count: 3 }],
    };
    let (p, _) = h.advance(p, Event::Fetched(message));
    let (_, action) = h.advance(p, Event::Found(None));
    assert_eq!(
        action,
        Action::CreateEntry {
            entry: BoardEntry {
                author_name: NAME.to_string(),
                author_icon: DEFAULT_AVATAR.to_string(),
                description: "\u{2b50} 3".to_string(),
            }
        }
    );
}

#[test]
fn an_entry_is_made_of_author_and_summary() {
    let author = Author {
        display_name: "a".to_string(),
        avatar_url: Some("b".to_string()),
        default_avatar_url: "c".to_string(),
    };
    let made = author.into_entry("d".to_string());
    let expected = BoardEntry {
        author_name: "a".to_string(),
        author_icon: "b".to_string(),
        description: "d".to_string(),
    };
    assert_eq!(made, expected);
    assert_eq!(made.duplicate(), expected);
}
