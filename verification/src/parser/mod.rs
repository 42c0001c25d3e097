//! The parser: from reports to an encounter and its derived state.

pub mod accounts;
pub mod attribution;
pub mod caps;
pub mod credit;
pub mod gauges;
pub mod laws;
pub mod live;
pub mod order;
pub mod party;
pub mod replay;
pub mod reports;
pub mod roster;
pub mod save;
pub mod saved;
pub mod sba;
pub mod stun;
pub mod tally;
pub mod times;
pub mod totals;
pub mod uses;

use std::collections::HashMap;
use vstd::prelude::*;

use crate::derived::{
    empty_derived, DerivedEncounterState, DerivedModel, ParserStatus,
};
use crate::encounter::{empty_encounter, Encounter, EncounterModel};
use crate::protocol::Message;

verus! {

/// The parser of one encounter after another.
#[derive(Debug)]
pub struct Parser {
    /// The encounter, with all that is needed to parse it again.
    pub encounter: Encounter,
    /// What has been worked out of the encounter, for display.
    pub derived_state: DerivedEncounterState,
    /// What the parser is doing.
    pub status: ParserStatus,
    /// The known owners of transformations of Id.
    pub id_transformation_parents: HashMap<u32, u32>,
    /// Deaths by actor, whether or not the actor is in the party yet.
    pub death_counts: HashMap<u32, u32>,
    /// When the last update was sent to the window; zero before the first.
    pub last_encounter_emit_at: i64,
    /// Whether there is something to send to the window.
    pub encounter_update_pending: bool,
}

/// What a `Parser` says.
#[verifier::ext_equal]
pub struct ParserModel {
    pub encounter: EncounterModel,
    pub derived_state: DerivedModel,
    pub status: ParserStatus,
    pub id_transformation_parents: Map<u32, u32>,
    pub death_counts: Map<u32, u32>,
    pub last_encounter_emit_at: i64,
    pub encounter_update_pending: bool,
}

impl View for Parser {
    type V = ParserModel;

    open spec fn view(&self) -> ParserModel {
        ParserModel {
            encounter: self.encounter@,
            derived_state: self.derived_state@,
            status: self.status,
            id_transformation_parents: self.id_transformation_parents@,
            death_counts: self.death_counts@,
            last_encounter_emit_at: self.last_encounter_emit_at,
            encounter_update_pending: self.encounter_update_pending,
        }
    }
}

/// A parser that has seen nothing.
pub open spec fn empty_parser() -> ParserModel {
    ParserModel {
        encounter: empty_encounter(),
        derived_state: empty_derived(),
        status: ParserStatus::Waiting,
        id_transformation_parents: Map::empty(),
        death_counts: Map::empty(),
        last_encounter_emit_at: 0,
        encounter_update_pending: false,
    }
}

/// The time of the first hit of a log, if there is one.
pub open spec fn first_hit_time(log: Seq<(i64, Message)>) -> Option<i64>
    decreases log.len(),
{
    if log.len() == 0 {
        None
    } else {
        match first_hit_time(log.drop_last()) {
            Some(time) => Some(time),
            None => if log.last().1 is DamageEvent {
                Some(log.last().0)
            } else {
                None
            },
        }
    }
}

/// When the encounter of a log starts: at its first hit. Where there is none, it is the time
/// of the first report, or one if there is no report either.
pub open spec fn first_time(log: Seq<(i64, Message)>) -> i64 {
    match first_hit_time(log) {
        Some(time) => time,
        None => if log.len() > 0 {
            log[0].0
        } else {
            1
        },
    }
}

/// The time of the first hit is that of a hit with none before it.
pub proof fn lemma_first_hit_time(log: Seq<(i64, Message)>, at: int)
    requires
        0 <= at <= log.len(),
        forall|k: int| 0 <= k < at ==> !((#[trigger] log[k]).1 is DamageEvent),
        at < log.len() ==> log[at].1 is DamageEvent,
    ensures
        first_hit_time(log) == (if at < log.len() {
            Some(log[at].0)
        } else {
            None
        }),
    decreases log.len(),
{
    if log.len() > 0 {
        let rest = log.drop_last();
        if at < log.len() {
            lemma_first_hit_time(rest, at);
        } else {
            lemma_first_hit_time(rest, at - 1);
        }
    }
}

/// The start of an encounter is the time of one of its reports.
pub proof fn lemma_first_time_is_reported(log: Seq<(i64, Message)>) -> (at: int)
    requires
        log.len() > 0,
    ensures
        0 <= at < log.len(),
        log[at].0 == first_time(log),
    decreases log.len(),
{
    let rest = log.drop_last();
    if first_hit_time(log) is None {
        0
    } else if first_hit_time(rest) is Some {
        lemma_first_time_is_reported(rest)
    } else {
        log.len() - 1
    }
}

/// When the encounter of a log starts.
pub(crate) fn start_of(log: &[(i64, Message)]) -> (time: i64)
    ensures
        time == first_time(log@),
{
    let mut i: usize = 0;
    while i < log.len()
        invariant
            i <= log.len(),
            forall|k: int| 0 <= k < i ==> !((#[trigger] log@[k]).1 is DamageEvent),
        decreases log.len() - i,
    {
        if let Message::DamageEvent(_) = &log[i].1 {
            proof {
                lemma_first_hit_time(log@, i as int);
            }
            return log[i].0;
        }
        i = i + 1;
    }
    proof {
        lemma_first_hit_time(log@, i as int);
    }
    if log.len() > 0 {
        log[0].0
    } else {
        1
    }
}

impl Default for Parser {
    fn default() -> (parser: Self)
        ensures
            parser@ == empty_parser(),
    {
        Parser {
            encounter: Encounter::default(),
            derived_state: DerivedEncounterState::default(),
            status: ParserStatus::Waiting,
            id_transformation_parents: HashMap::new(),
            death_counts: HashMap::new(),
            last_encounter_emit_at: 0,
            encounter_update_pending: false,
        }
    }
}

impl Parser {
    /// The time of the first hit, which is when the encounter starts.
    pub fn start_time(&self) -> (time: i64)
        ensures
            time == first_time(self@.encounter.raw_event_log),
    {
        start_of(self.encounter.event_log())
    }
}

} // verus!
