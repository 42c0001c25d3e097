//! Taking in reports as they come.
//!
//! Every report is taken in at a point in time. The handlers named after a report read
//! the clock; those that end in `_at` are told the time.

use vstd::prelude::*;

use crate::clock;
use crate::clock::MAX_UTC_MILLIS;
use crate::constants::{character_of, CharacterType};
use crate::derived::{
    after_damage, comparable, empty_derived, lemma_derived_bounded, lemma_derived_bounded_more,
    lemma_setters_bounded, with_deaths, with_sba, DerivedEncounterState, DerivedModel, ParserStatus,
};
use crate::encounter::EncounterModel;
use crate::float32::{Float32, ONE_THOUSAND_BITS};
use crate::parser::attribution::{
    adjust, adjusted, apply_death_count, deaths_after, find_player,
    observed_id_transformation_parent, observed_parent, owner_of, parents_with,
};
use crate::parser::replay::{entry_ok, log_ok, reparsed, restore_deaths, sums_ok};
use crate::parser::{first_time, lemma_first_time_is_reported, Parser, ParserModel};
use crate::player_state::{hit_of, AdjustedDamageInstance, LOG_LIMIT};
use crate::protocol::{
    DamageEvent, Message, OnAttemptSBAEvent, OnContinueSBAChainEvent, OnDeathEvent,
    OnPerformSBAEvent, OnUpdateSBAEvent,
};

verus! {

/// The least time between two updates of the window, in milliseconds.
pub const ENCOUNTER_EMIT_INTERVAL_MS: i64 = 100;

/// The actor type of Eugen's grenade.
pub const EUGEN_GRENADE_ACTOR_TYPE: u32 = 0x022A_350F;

/// A parser with another status.
pub open spec fn with_status(parser: ParserModel, status: ParserStatus) -> ParserModel {
    ParserModel {
        status,
        derived_state: DerivedModel { status, ..parser.derived_state },
        ..parser
    }
}

/// A parser that has forgotten what it had worked out, but not who takes part.
pub open spec fn forgotten(parser: ParserModel) -> ParserModel {
    ParserModel {
        encounter: EncounterModel { raw_event_log: Seq::empty(), ..parser.encounter },
        derived_state: empty_derived(),
        status: parser.status,
        id_transformation_parents: Map::empty(),
        death_counts: Map::empty(),
        last_encounter_emit_at: 0,
        encounter_update_pending: false,
    }
}

/// A parser that is taking in an encounter at time `now`: the one that is in progress,
/// or else a new one that starts now.
pub open spec fn running(parser: ParserModel, now: i64) -> ParserModel {
    if parser.status == ParserStatus::InProgress {
        parser
    } else {
        let fresh = forgotten(parser);
        with_status(
            ParserModel {
                derived_state: DerivedModel {
                    start_time: now,
                    end_time: now,
                    ..fresh.derived_state
                },
                ..fresh
            },
            ParserStatus::InProgress,
        )
    }
}

/// A parser that is taking in an encounter at time `now`, and about to take in a hit. The
/// encounter starts with its first hit.
pub open spec fn engaged(parser: ParserModel, now: i64) -> ParserModel {
    let running = running(parser, now);
    if running.derived_state.total_damage == 0 {
        ParserModel {
            derived_state: DerivedModel { start_time: now, end_time: now, ..running.derived_state },
            ..running
        }
    } else {
        running
    }
}

/// A parser with one more report in its log.
pub open spec fn logged(parser: ParserModel, now: i64, message: Message) -> ParserModel {
    ParserModel {
        encounter: EncounterModel {
            raw_event_log: parser.encounter.raw_event_log.push((now, message)),
            ..parser.encounter
        },
        ..parser
    }
}

/// Whether an update of the window is due at time `now`: there is something to send,
/// and the last one is long enough ago.
pub open spec fn update_due(parser: ParserModel, now: i64) -> bool {
    parser.encounter_update_pending && (parser.last_encounter_emit_at == 0 || now
        - parser.last_encounter_emit_at >= ENCOUNTER_EMIT_INTERVAL_MS)
}

/// A parser that has sent the update that was due, if one was.
pub open spec fn flushed(parser: ParserModel, now: i64) -> ParserModel {
    if update_due(parser, now) {
        ParserModel { last_encounter_emit_at: now, encounter_update_pending: false, ..parser }
    } else {
        parser
    }
}

/// A parser that has something to send.
pub open spec fn pending(parser: ParserModel) -> ParserModel {
    ParserModel { encounter_update_pending: true, ..parser }
}

/// Whether the parser can tell how long ago it sent its last update.
pub open spec fn can_flush(parser: ParserModel, now: i64) -> bool {
    parser.last_encounter_emit_at != 0 ==> comparable(parser.last_encounter_emit_at, now)
}

/// Whether a hit is none of a player's: no damage, Eugen's grenade as the target, or
/// nobody known as its owner.
pub open spec fn ignored(event: DamageEvent) -> bool {
    ||| event.damage <= 0
    ||| event.target.actor_type == EUGEN_GRENADE_ACTOR_TYPE
    ||| character_of(event.source.parent_actor_type) is Unknown
}

/// A parser that can take in one more report at time `now`.
pub open spec fn has_room(parser: ParserModel, now: i64) -> bool {
    &&& sums_ok(parser)
    &&& parser.encounter.raw_event_log.len() < LOG_LIMIT
    &&& within_reach(parser.encounter.raw_event_log, now)
}

/// Whether it can be told how long before or after a report `now` is.
pub open spec fn near(entry: (i64, Message), now: i64) -> bool {
    comparable(entry.0, now) && comparable(now, entry.0)
}

/// Whether it can be told how long before or after each report of a log `now` is.
pub open spec fn within_reach(log: Seq<(i64, Message)>, now: i64) -> bool {
    forall|i: int| 0 <= i < log.len() ==> #[trigger] near(log[i], now)
}

/// A parser that can take in one more report whatever the clock says.
pub open spec fn always_has_room(parser: ParserModel) -> bool {
    forall|now: i64| 0 <= now <= MAX_UTC_MILLIS ==> #[trigger] has_room(parser, now)
}

/// What a hit at time `now` asks of the parser it goes to.
pub open spec fn can_take_damage(parser: ParserModel, now: i64) -> bool {
    parser.status == ParserStatus::InProgress ==> {
        &&& has_room(parser, now)
        &&& parser.derived_state.total_damage > 0 ==> comparable(
            parser.derived_state.start_time,
            now,
        )
        &&& can_flush(parser, now)
    }
}

/// The state after a hit that needs no second look at the log.
pub open spec fn damage_added(parser: ParserModel, now: i64, hit: DamageEvent) -> ParserModel {
    let actor = hit.source.parent_index;
    let derived = after_damage(parser.derived_state, now, hit_of(hit, Seq::empty()));
    ParserModel {
        derived_state: if parser.death_counts.contains_key(actor) {
            with_deaths(derived, actor, parser.death_counts[actor])
        } else {
            derived
        },
        ..parser
    }
}

/// A parser after a hit at time `now`, before it is sent to the window.
///
/// A hit that shows for the first time whom a transformation belongs to, after hits of
/// that transformation were put to its own account, has the whole log parsed again.
pub open spec fn damage_taken(parser: ParserModel, now: i64, event: DamageEvent) -> ParserModel {
    let observed = observed_parent(event);
    let (transformation, _) = observed->0;
    let new_owner = observed is Some && !parser.id_transformation_parents.contains_key(
        transformation,
    );
    let parents = parents_with(parser.id_transformation_parents, observed);
    let hit = adjusted(event, parser.encounter.player_data, parents);
    let next = logged(
        ParserModel { id_transformation_parents: parents, ..parser },
        now,
        Message::DamageEvent(hit),
    );
    if new_owner && next.derived_state.party.contains_key(transformation) {
        reparsed(next, true, Seq::empty())
    } else {
        damage_added(next, now, hit)
    }
}

/// A parser after a hit was reported at time `now`.
pub open spec fn after_damage_event(parser: ParserModel, now: i64, event: DamageEvent) -> ParserModel {
    if ignored(event) {
        parser
    } else {
        flushed(pending(damage_taken(engaged(parser, now), now, event)), now)
    }
}

/// A parser after a gauge was reported at time `now`.
pub open spec fn after_gauge_event(
    parser: ParserModel,
    now: i64,
    message: Message,
    actor_index: u32,
    sba: Float32,
) -> ParserModel {
    let next = logged(parser, now, message);
    flushed(
        pending(
            ParserModel {
                derived_state: with_sba(next.derived_state, actor_index, sba),
                ..next
            },
        ),
        now,
    )
}

/// A parser after a report of a skybound art at time `now`: of the level of a gauge; of an art
/// that is requested, whose gauge is full; or of one that was used or continued, whose gauge is
/// empty.
pub open spec fn after_sba_report(parser: ParserModel, now: i64, message: Message) -> ParserModel {
    match message {
        Message::OnUpdateSBA(event) => after_gauge_event(
            parser,
            now,
            message,
            event.actor_index,
            event.sba_value,
        ),
        Message::OnAttemptSBA(event) => after_gauge_event(
            parser,
            now,
            message,
            event.actor_index,
            Float32 { bits: ONE_THOUSAND_BITS },
        ),
        Message::OnPerformSBA(event) => after_gauge_event(
            parser,
            now,
            message,
            event.actor_index,
            Float32 { bits: 0 },
        ),
        Message::OnContinueSBAChain(event) => after_gauge_event(
            parser,
            now,
            message,
            event.actor_index,
            Float32 { bits: 0 },
        ),
        _ => parser,
    }
}

/// A parser after a death was reported at time `now`.
pub open spec fn after_death_event(parser: ParserModel, now: i64, event: OnDeathEvent) -> ParserModel {
    let next = logged(running(parser, now), now, Message::OnDeathEvent(event));
    let actor = owner_of(next.id_transformation_parents, event.actor_index);
    let deaths = deaths_after(next.death_counts, actor, event.death_counter, event.is_delta);
    flushed(
        pending(
            ParserModel {
                death_counts: deaths,
                derived_state: with_deaths(next.derived_state, actor, deaths[actor]),
                ..next
            },
        ),
        now,
    )
}

/// One more report keeps the log in order.
pub proof fn lemma_log_grows(log: Seq<(i64, Message)>, now: i64, message: Message)
    requires
        log_ok(log),
        log.len() < LOG_LIMIT,
        within_reach(log, now),
        message matches Message::DamageEvent(event) ==> event.damage >= 0,
    ensures
        log_ok(log.push((now, message))),
{
    let longer = log.push((now, message));
    assert forall|i: int| 0 <= i < longer.len() implies #[trigger] entry_ok(
        longer[i],
        first_time(longer),
    ) by {
        assert(longer.drop_last() == log);
        if i < log.len() {
            assert(entry_ok(log[i], first_time(log)));
            assert(near(log[i], now));
        } else if log.len() > 0 {
            let at = lemma_first_time_is_reported(log);
            assert(near(log[at], now));
        }
    }
}

impl Parser {
    /// Forgets what was worked out, but not who takes part.
    pub fn reset(&mut self)
        ensures
            final(self)@ == forgotten(old(self)@),
    {
        broadcast use vstd::std_specs::hash::group_hash_axioms;

        self.encounter.raw_event_log.clear();
        self.derived_state = DerivedEncounterState::default();
        self.id_transformation_parents.clear();
        self.death_counts.clear();
        self.last_encounter_emit_at = 0;
        self.encounter_update_pending = false;
    }

    /// Notes that there is something to send to the window, and tells whether it is to
    /// be sent at once.
    pub fn queue_encounter_update(&mut self, now: i64) -> (send: bool)
        requires
            can_flush(old(self)@, now),
        ensures
            send == update_due(pending(old(self)@), now),
            final(self)@ == flushed(pending(old(self)@), now),
    {
        self.encounter_update_pending = true;
        self.flush_pending_encounter_update(now)
    }

    /// Tells whether what is waiting is to be sent to the window now, and notes that it
    /// was.
    pub fn flush_pending_encounter_update(&mut self, now: i64) -> (send: bool)
        requires
            can_flush(old(self)@, now),
        ensures
            send == update_due(old(self)@, now),
            final(self)@ == flushed(old(self)@, now),
    {
        if !self.encounter_update_pending || (self.last_encounter_emit_at != 0 && now
            - self.last_encounter_emit_at < ENCOUNTER_EMIT_INTERVAL_MS) {
            return false;
        }
        self.last_encounter_emit_at = now;
        self.encounter_update_pending = false;
        true
    }

    /// Sets the status.
    pub fn update_status(&mut self, new_status: ParserStatus)
        ensures
            final(self)@ == with_status(old(self)@, new_status),
    {
        self.status = new_status;
        self.derived_state.status = new_status;
    }

    /// Whether any damage was done.
    pub fn has_damage(&self) -> (answer: bool)
        ensures
            answer == (self@.derived_state.total_damage > 0),
    {
        self.derived_state.total_damage > 0
    }

    /// Whether a hit is none of a player's.
    pub fn should_ignore_damage_event(event: &DamageEvent) -> (answer: bool)
        ensures
            answer == ignored(*event),
    {
        let character_type: CharacterType = CharacterType::from_hash(
            event.source.parent_actor_type,
        );
        event.damage <= 0 || event.target.actor_type == EUGEN_GRENADE_ACTOR_TYPE
            || character_type.is_unknown()
    }

    /// Starts a new encounter unless one is in progress.
    fn keep_running(&mut self, now: i64)
        ensures
            final(self)@ == running(old(self)@, now),
    {
        if self.status != ParserStatus::InProgress {
            self.reset();
            self.derived_state.start(now);
            self.update_status(ParserStatus::InProgress);
        }
    }

    /// Takes in a hit at time `now`, and tells whether the window is to be updated.
    pub fn on_damage_event_at(&mut self, now: i64, event: DamageEvent) -> (send: bool)
        requires
            can_take_damage(old(self)@, now),
        ensures
            final(self)@ == after_damage_event(old(self)@, now, event),
            send == (!ignored(event) && update_due(
                pending(damage_taken(engaged(old(self)@, now), now, event)),
                now,
            )),
            !ignored(event) ==> sums_ok(final(self)@),
    {
        broadcast use vstd::std_specs::hash::group_hash_axioms;

        if Self::should_ignore_damage_event(&event) {
            return false;
        }
        self.keep_running(now);
        if !self.has_damage() {
            self.derived_state.start(now);
        }
        let ghost start = self@;
        assert(has_room(start, now));
        let observed = observed_id_transformation_parent(&event);
        let mut newly_learned: Option<u32> = None;
        if let Some((transformation_index, parent_index)) = observed {
            if !self.id_transformation_parents.contains_key(&transformation_index) {
                self.id_transformation_parents.insert(transformation_index, parent_index);
                newly_learned = Some(transformation_index);
            }
        }
        let hit: DamageEvent = adjust(
            &event,
            &self.encounter.player_data,
            &self.id_transformation_parents,
        );
        self.encounter.push_event(now, Message::DamageEvent(hit));
        proof {
            lemma_log_grows(start.encounter.raw_event_log, now, Message::DamageEvent(hit));
        }
        let ghost next = self@;
        let again: bool = match newly_learned {
            Some(index) => self.derived_state.party.contains_key(&index),
            None => false,
        };
        if again {
            self.reparse();
        } else {
            let player_data = match find_player(
                &self.encounter.player_data,
                hit.source.parent_index,
            ) {
                Some(slot) => self.encounter.player_data[slot].as_ref(),
                None => None,
            };
            let damage_instance = AdjustedDamageInstance::from_damage_event(&hit, player_data);
            let ghost n = start.encounter.raw_event_log.len();
            let ghost full = damage_instance.hit();
            proof {
                lemma_derived_bounded_more(self.derived_state@, n, (LOG_LIMIT - 1) as nat);
                lemma_derived_bounded(self.derived_state@, now, full, n);
            }
            let ghost added = after_damage(self.derived_state@, now, full);
            self.derived_state.process_damage_event(now, &damage_instance);
            restore_deaths(
                &self.death_counts,
                &mut self.derived_state,
                hit.source.parent_index,
            );
            proof {
                let actor = hit.source.parent_index;
                lemma_setters_bounded(
                    added,
                    actor,
                    Float32 { bits: 0 },
                    self.death_counts@[actor],
                    n + 1,
                );
            }
        }
        self.queue_encounter_update(now)
    }

    /// Takes in a hit now, and tells whether the window is to be updated.
    pub fn on_damage_event(&mut self, event: DamageEvent) -> (send: bool)
        requires
            forall|now: i64|
                0 <= now <= MAX_UTC_MILLIS ==> #[trigger] can_take_damage(old(self)@, now),
        ensures
            exists|now: i64|
                0 <= now <= MAX_UTC_MILLIS && final(self)@ == #[trigger] after_damage_event(
                    old(self)@,
                    now,
                    event,
                ),
            send == (!ignored(event) && !final(self)@.encounter_update_pending),
            !ignored(event) ==> sums_ok(final(self)@),
    {
        let now: i64 = clock::now_millis();
        assert(can_take_damage(self@, now));
        self.on_damage_event_at(now, event)
    }

    /// Takes in the level of a gauge, which a report gives at time `now`.
    fn gauge_reported(&mut self, now: i64, message: Message, actor_index: u32, sba: Float32) -> (send:
        bool)
        requires
            can_flush(old(self)@, now),
            !(message is DamageEvent),
        ensures
            final(self)@ == after_gauge_event(old(self)@, now, message, actor_index, sba),
            send == !final(self)@.encounter_update_pending,
            has_room(old(self)@, now) ==> sums_ok(final(self)@),
    {
        let ghost before = self@;
        self.encounter.push_event(now, message);
        self.derived_state.set_sba(actor_index, sba);
        proof {
            if has_room(before, now) {
                let n = before.encounter.raw_event_log.len();
                lemma_log_grows(before.encounter.raw_event_log, now, message);
                lemma_derived_bounded_more(before.derived_state, n, n + 1);
                lemma_setters_bounded(before.derived_state, actor_index, sba, 0, n + 1);
            }
        }
        self.queue_encounter_update(now)
    }

    /// Takes in the level of a gauge at time `now`, and tells whether the window is to be
    /// updated.
    pub fn on_sba_update_at(&mut self, now: i64, event: OnUpdateSBAEvent) -> (send: bool)
        requires
            can_flush(old(self)@, now),
        ensures
            final(self)@ == after_sba_report(old(self)@, now, Message::OnUpdateSBA(event)),
            send == !final(self)@.encounter_update_pending,
            has_room(old(self)@, now) ==> sums_ok(final(self)@),
    {
        self.gauge_reported(now, Message::OnUpdateSBA(event), event.actor_index, event.sba_value)
    }

    /// Takes in the level of a gauge now.
    pub fn on_sba_update(&mut self, event: OnUpdateSBAEvent) -> (send: bool)
        requires
            forall|now: i64| 0 <= now <= MAX_UTC_MILLIS ==> #[trigger] can_flush(old(self)@, now),
        ensures
            exists|now: i64|
                0 <= now <= MAX_UTC_MILLIS && final(self)@ == #[trigger] after_sba_report(
                    old(self)@,
                    now,
                    Message::OnUpdateSBA(event),
                ),
            send == !final(self)@.encounter_update_pending,
            always_has_room(old(self)@) ==> sums_ok(final(self)@),
    {
        let now: i64 = clock::now_millis();
        assert(always_has_room(old(self)@) ==> has_room(old(self)@, now));
        self.on_sba_update_at(now, event)
    }

    /// Takes in the request of a skybound art at time `now`: the gauge is full.
    pub fn on_sba_attempt_at(&mut self, now: i64, event: OnAttemptSBAEvent) -> (send: bool)
        requires
            can_flush(old(self)@, now),
        ensures
            final(self)@ == after_sba_report(old(self)@, now, Message::OnAttemptSBA(event)),
            send == !final(self)@.encounter_update_pending,
            has_room(old(self)@, now) ==> sums_ok(final(self)@),
    {
        self.gauge_reported(
            now,
            Message::OnAttemptSBA(event),
            event.actor_index,
            Float32::from_bits(ONE_THOUSAND_BITS),
        )
    }

    /// Takes in the request of a skybound art now: the gauge is full.
    pub fn on_sba_attempt(&mut self, event: OnAttemptSBAEvent) -> (send: bool)
        requires
            forall|now: i64| 0 <= now <= MAX_UTC_MILLIS ==> #[trigger] can_flush(old(self)@, now),
        ensures
            exists|now: i64|
                0 <= now <= MAX_UTC_MILLIS && final(self)@ == #[trigger] after_sba_report(
                    old(self)@,
                    now,
                    Message::OnAttemptSBA(event),
                ),
            send == !final(self)@.encounter_update_pending,
            always_has_room(old(self)@) ==> sums_ok(final(self)@),
    {
        let now: i64 = clock::now_millis();
        assert(always_has_room(old(self)@) ==> has_room(old(self)@, now));
        self.on_sba_attempt_at(now, event)
    }

    /// Takes in the use of a skybound art at time `now`: the gauge is empty.
    pub fn on_sba_perform_at(&mut self, now: i64, event: OnPerformSBAEvent) -> (send: bool)
        requires
            can_flush(old(self)@, now),
        ensures
            final(self)@ == after_sba_report(old(self)@, now, Message::OnPerformSBA(event)),
            send == !final(self)@.encounter_update_pending,
            has_room(old(self)@, now) ==> sums_ok(final(self)@),
    {
        self.gauge_reported(now, Message::OnPerformSBA(event), event.actor_index, Float32::zero())
    }

    /// Takes in the use of a skybound art now: the gauge is empty.
    pub fn on_sba_perform(&mut self, event: OnPerformSBAEvent) -> (send: bool)
        requires
            forall|now: i64| 0 <= now <= MAX_UTC_MILLIS ==> #[trigger] can_flush(old(self)@, now),
        ensures
            exists|now: i64|
                0 <= now <= MAX_UTC_MILLIS && final(self)@ == #[trigger] after_sba_report(
                    old(self)@,
                    now,
                    Message::OnPerformSBA(event),
                ),
            send == !final(self)@.encounter_update_pending,
            always_has_room(old(self)@) ==> sums_ok(final(self)@),
    {
        let now: i64 = clock::now_millis();
        assert(always_has_room(old(self)@) ==> has_room(old(self)@, now));
        self.on_sba_perform_at(now, event)
    }

    /// Takes in the continuation of a chain at time `now`: the gauge is empty. Only the local
    /// player is reported.
    pub fn on_continue_sba_chain_at(&mut self, now: i64, event: OnContinueSBAChainEvent) -> (send: bool)
        requires
            can_flush(old(self)@, now),
        ensures
            final(self)@ == after_sba_report(old(self)@, now, Message::OnContinueSBAChain(event)),
            send == !final(self)@.encounter_update_pending,
            has_room(old(self)@, now) ==> sums_ok(final(self)@),
    {
        self.gauge_reported(now, Message::OnContinueSBAChain(event), event.actor_index, Float32::zero())
    }

    /// Takes in the continuation of a chain now: the gauge is empty.
    pub fn on_continue_sba_chain(&mut self, event: OnContinueSBAChainEvent) -> (send: bool)
        requires
            forall|now: i64| 0 <= now <= MAX_UTC_MILLIS ==> #[trigger] can_flush(old(self)@, now),
        ensures
            exists|now: i64|
                0 <= now <= MAX_UTC_MILLIS && final(self)@ == #[trigger] after_sba_report(
                    old(self)@,
                    now,
                    Message::OnContinueSBAChain(event),
                ),
            send == !final(self)@.encounter_update_pending,
            always_has_room(old(self)@) ==> sums_ok(final(self)@),
    {
        let now: i64 = clock::now_millis();
        assert(always_has_room(old(self)@) ==> has_room(old(self)@, now));
        self.on_continue_sba_chain_at(now, event)
    }

    /// Takes in a death at time `now`, and tells whether the window is to be updated.
    pub fn on_death_event_at(&mut self, now: i64, event: OnDeathEvent) -> (send: bool)
        requires
            old(self)@.status == ParserStatus::InProgress ==> can_flush(old(self)@, now),
        ensures
            final(self)@ == after_death_event(old(self)@, now, event),
            send == !final(self)@.encounter_update_pending,
            has_room(running(old(self)@, now), now) ==> sums_ok(final(self)@),
    {
        self.keep_running(now);
        let ghost before = self@;
        self.encounter.push_event(now, Message::OnDeathEvent(event));
        apply_death_count(
            &mut self.death_counts,
            &mut self.derived_state,
            &self.id_transformation_parents,
            event.actor_index,
            event.death_counter,
            event.is_delta,
        );
        proof {
            if has_room(before, now) {
                let n = before.encounter.raw_event_log.len();
                let actor = owner_of(before.id_transformation_parents, event.actor_index);
                lemma_log_grows(
                    before.encounter.raw_event_log,
                    now,
                    Message::OnDeathEvent(event),
                );
                lemma_derived_bounded_more(before.derived_state, n, n + 1);
                lemma_setters_bounded(
                    before.derived_state,
                    actor,
                    Float32 { bits: 0 },
                    self.death_counts@[actor],
                    n + 1,
                );
            }
        }
        self.queue_encounter_update(now)
    }

    /// Takes in a death now, and tells whether the window is to be updated.
    pub fn on_death_event(&mut self, event: OnDeathEvent) -> (send: bool)
        requires
            forall|now: i64|
                0 <= now <= MAX_UTC_MILLIS && old(self)@.status == ParserStatus::InProgress
                    ==> #[trigger] can_flush(old(self)@, now),
        ensures
            exists|now: i64|
                0 <= now <= MAX_UTC_MILLIS && final(self)@ == #[trigger] after_death_event(
                    old(self)@,
                    now,
                    event,
                ),
            send == !final(self)@.encounter_update_pending,
            old(self)@.status != ParserStatus::InProgress || always_has_room(old(self)@)
                ==> sums_ok(final(self)@),
    {
        let now: i64 = clock::now_millis();
        assert(old(self)@.status == ParserStatus::InProgress ==> can_flush(old(self)@, now));
        assert(always_has_room(old(self)@) ==> has_room(old(self)@, now));
        self.on_death_event_at(now, event)
    }
}

} // verus!
