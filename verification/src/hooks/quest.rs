//! Quests and the end of battles.

use vstd::prelude::*;

use crate::hooks::ffi::QuestState;
use crate::hooks::{half_lookup, pointer_at, Lookup, Outbox, ProcessReads, ReadsModel};
use crate::protocol::{Message, QuestCompleteEvent};

verus! {

pub const QUEST_ID_OFFSET: usize = 0x238;

pub const QUEST_ELAPSED_SECONDS_OFFSET: usize = 0xAC8;

pub const QUEST_TIME_LIMIT_SECONDS_OFFSET: usize = 0xAD0;

/// Where the object that is loaded with a quest keeps the state of the quest.
pub const QUEST_STATE_OFFSET: usize = 0x1D8;

/// A week: longer than any quest.
pub const MAX_REASONABLE_QUEST_SECONDS: u32 = 604_800;

/// The largest quest id.
pub const MAX_QUEST_ID: u32 = 0x00FF_FFFF;

/// The quest in progress, and for how long.
#[derive(Clone, Copy, Debug, PartialEq, Eq, Structural)]
pub struct QuestSnapshot {
    pub quest_id: u32,
    pub elapsed_time_in_secs: u32,
}

/// The quest that three words tell, if they can be right: there is an id, and the time is
/// less than a week and within the limit, if there is one.
pub open spec fn snapshot_of(quest_id: u32, elapsed: u32, limit: u32) -> Option<QuestSnapshot> {
    if 0 < quest_id <= MAX_QUEST_ID && elapsed <= MAX_REASONABLE_QUEST_SECONDS && (limit == 0 || elapsed
        <= limit) {
        Some(QuestSnapshot { quest_id, elapsed_time_in_secs: elapsed })
    } else {
        None
    }
}

/// The quest that three words tell, if they can be right.
pub fn validate_quest_snapshot(
    quest_id: u32,
    elapsed_time_in_secs: u32,
    time_limit_in_secs: u32,
) -> (snapshot: Option<QuestSnapshot>)
    ensures
        snapshot == snapshot_of(quest_id, elapsed_time_in_secs, time_limit_in_secs),
{
    if quest_id == 0 || quest_id > MAX_QUEST_ID || elapsed_time_in_secs
        > MAX_REASONABLE_QUEST_SECONDS || (time_limit_in_secs != 0 && elapsed_time_in_secs
        > time_limit_in_secs) {
        return None;
    }
    Some(QuestSnapshot { quest_id, elapsed_time_in_secs })
}

/// The 32-bit word that stands `offset` behind `base`, if there is one.
pub open spec fn half_at(reads: ReadsModel, base: usize, offset: usize) -> Lookup<Option<u32>> {
    if base + offset > usize::MAX {
        Lookup::Done(None)
    } else {
        half_lookup(reads, (base + offset) as usize)
    }
}

fn read_half_at(reads: &ProcessReads, base: usize, offset: usize) -> (half: Lookup<Option<u32>>)
    ensures
        half == half_at(reads@, base, offset),
{
    match base.checked_add(offset) {
        Some(address) => reads.half(address),
        None => Lookup::Done(None),
    }
}

/// The quest in progress, found through the place that points to the quest singleton.
pub open spec fn quest_in(reads: ReadsModel, singleton_slot: usize) -> Lookup<Option<QuestSnapshot>> {
    if singleton_slot == 0 {
        Lookup::Done(None)
    } else {
        match pointer_at(reads, singleton_slot, 0) {
            Lookup::Needs(query) => Lookup::Needs(query),
            Lookup::Done(None) => Lookup::Done(None),
            Lookup::Done(Some(singleton)) => match half_at(reads, singleton, QUEST_ID_OFFSET) {
                Lookup::Needs(query) => Lookup::Needs(query),
                Lookup::Done(None) => Lookup::Done(None),
                Lookup::Done(Some(quest_id)) => match half_at(
                    reads,
                    singleton,
                    QUEST_ELAPSED_SECONDS_OFFSET,
                ) {
                    Lookup::Needs(query) => Lookup::Needs(query),
                    Lookup::Done(None) => Lookup::Done(None),
                    Lookup::Done(Some(elapsed)) => match half_at(
                        reads,
                        singleton,
                        QUEST_TIME_LIMIT_SECONDS_OFFSET,
                    ) {
                        Lookup::Needs(query) => Lookup::Needs(query),
                        Lookup::Done(None) => Lookup::Done(None),
                        Lookup::Done(Some(limit)) => Lookup::Done(
                            snapshot_of(quest_id, elapsed, limit),
                        ),
                    },
                },
            },
        }
    }
}

/// The quest in progress, if it can be read and can be right.
pub fn read_quest_snapshot(reads: &ProcessReads, singleton_slot: usize) -> (quest: Lookup<
    Option<QuestSnapshot>,
>)
    ensures
        quest == quest_in(reads@, singleton_slot),
{
    if singleton_slot == 0 {
        return Lookup::Done(None);
    }
    let singleton: usize = match reads.pointer(singleton_slot, 0) {
        Lookup::Needs(query) => {
            return Lookup::Needs(query);
        },
        Lookup::Done(None) => {
            return Lookup::Done(None);
        },
        Lookup::Done(Some(singleton)) => singleton,
    };
    let quest_id: u32 = match read_half_at(reads, singleton, QUEST_ID_OFFSET) {
        Lookup::Needs(query) => {
            return Lookup::Needs(query);
        },
        Lookup::Done(None) => {
            return Lookup::Done(None);
        },
        Lookup::Done(Some(quest_id)) => quest_id,
    };
    let elapsed: u32 = match read_half_at(reads, singleton, QUEST_ELAPSED_SECONDS_OFFSET) {
        Lookup::Needs(query) => {
            return Lookup::Needs(query);
        },
        Lookup::Done(None) => {
            return Lookup::Done(None);
        },
        Lookup::Done(Some(elapsed)) => elapsed,
    };
    match read_half_at(reads, singleton, QUEST_TIME_LIMIT_SECONDS_OFFSET) {
        Lookup::Needs(query) => Lookup::Needs(query),
        Lookup::Done(None) => Lookup::Done(None),
        Lookup::Done(Some(limit)) => Lookup::Done(validate_quest_snapshot(quest_id, elapsed, limit)),
    }
}

/// What is sent at the end of a battle: that the quest was completed, if it is known.
pub open spec fn battle_end_message(quest: Option<QuestSnapshot>) -> Message {
    match quest {
        Some(quest) => Message::OnQuestComplete(
            QuestCompleteEvent {
                quest_id: quest.quest_id,
                elapsed_time_in_secs: quest.elapsed_time_in_secs,
            },
        ),
        None => Message::OnBattleEnd,
    }
}

/// Called at the end of a battle.
#[derive(Debug)]
pub struct OnBattleEndHook {
    pub tx: Outbox,
}

impl OnBattleEndHook {
    /// A hook that sends its messages through `tx`.
    pub fn new(tx: Outbox) -> (hook: Self)
        ensures
            hook.tx == tx,
    {
        OnBattleEndHook { tx }
    }

    /// Reports the end of a battle, given the quest that was in progress before it.
    pub fn run(&mut self, quest: Option<QuestSnapshot>)
        ensures
            final(self).tx@ == old(self).tx@.push(battle_end_message(quest)),
    {
        let message = match quest {
            Some(quest) => Message::OnQuestComplete(
                QuestCompleteEvent {
                    quest_id: quest.quest_id,
                    elapsed_time_in_secs: quest.elapsed_time_in_secs,
                },
            ),
            None => Message::OnBattleEnd,
        };
        self.tx.send(message);
    }
}

/// Where the object that is loaded with a quest keeps the state of the quest, if there is such
/// a place.
pub open spec fn quest_state_place(object: usize) -> Option<usize> {
    if object + QUEST_STATE_OFFSET > usize::MAX {
        None
    } else {
        Some((object + QUEST_STATE_OFFSET) as usize)
    }
}

/// What is sent when the result screen of a quest is shown.
pub open spec fn completion_message(state: QuestState) -> Message {
    Message::OnQuestComplete(
        QuestCompleteEvent { quest_id: state.quest_id, elapsed_time_in_secs: state.elapsed_time },
    )
}

/// Called while loading into a quest.
#[derive(Clone, Copy, Debug, PartialEq, Eq, Structural)]
pub struct OnLoadQuestHook {}

impl OnLoadQuestHook {
    pub fn new() -> (hook: Self)
        ensures
            hook == (OnLoadQuestHook {  }),
    {
        OnLoadQuestHook {  }
    }

    /// Where the state of the quest is kept, if the object that was loaded with the quest
    /// stands at `object`.
    pub fn run(&self, object: usize) -> (quest_state: Option<usize>)
        ensures
            quest_state == quest_state_place(object),
    {
        object.checked_add(QUEST_STATE_OFFSET)
    }
}

/// Called whenever the result screen of a quest is shown.
#[derive(Debug)]
pub struct OnQuestCompleteHook {
    pub tx: Outbox,
}

impl OnQuestCompleteHook {
    /// A hook that sends its messages through `tx`.
    pub fn new(tx: Outbox) -> (hook: Self)
        ensures
            hook.tx == tx,
    {
        OnQuestCompleteHook { tx }
    }

    /// Reports that a quest was completed, if its state is known.
    pub fn run(&mut self, quest_state: Option<QuestState>)
        ensures
            final(self).tx@ == match quest_state {
                Some(state) => old(self).tx@.push(completion_message(state)),
                None => old(self).tx@,
            },
    {
        if let Some(state) = quest_state {
            self.tx.send(
                Message::OnQuestComplete(
                    QuestCompleteEvent {
                        quest_id: state.quest_id,
                        elapsed_time_in_secs: state.elapsed_time,
                    },
                ),
            );
        }
    }
}

} // verus!
