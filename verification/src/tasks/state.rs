//! The shared state and the tasks that keep it current.
//!
//! Each task owns one field of [`HydroponicState`]. A task is a function
//! from what happened to what to do next: it is woken, asks for a sample,
//! is handed the sample, stores what the sample means and asks to sleep.
//! Whoever runs the tasks performs the requests and guards the state.

use vstd::prelude::*;
use crate::buffers::{payload_as_bytes, payload_bytes};
use crate::hardware::ezo::{EzoBoardError, EzoCommand};
use crate::tasks::measurement::{
    fraction_part, numeral_digits, parse_reading, pow10, reading_compares_as_sent, Measurement,
};

verus! {

/// The latest classification of every metric.
#[derive(Debug, Clone, Copy, PartialEq, Eq, Structural)]
pub struct HydroponicState {
    pub ec: EcState,
    pub ph: PhState,
    pub water_level: WaterLevelState,
}

/// The electrical conductivity of the solution against its limits.
#[derive(Debug, Clone, Copy, PartialEq, Eq, Structural)]
pub enum EcState {
    Unknown,
    Good(Measurement),
    High(Measurement),
    Low(Measurement),
}

/// The acidity of the solution against its limits.
#[derive(Debug, Clone, Copy, PartialEq, Eq, Structural)]
pub enum PhState {
    Unknown,
    Good(Measurement),
    High(Measurement),
    Low(Measurement),
}

/// The level of the reservoir.
#[derive(Debug, Clone, Copy, PartialEq, Eq, Structural)]
pub enum WaterLevelState {
    Unknown,
    Good,
    Low,
}

/// The highest pH that is good: 7.4.
pub const UPPER_LIMIT_PH: i32 = 7_400;

/// The lowest pH that is good: 5.3.
pub const LOWER_LIMIT_PH: i32 = 5_300;

/// The highest conductivity that is good: 1200.0.
pub const UPPER_LIMIT_EC: i32 = 1_200_000;

/// The lowest conductivity that is good: 1000.0.
pub const LOWER_LIMIT_EC: i32 = 1_000_000;

/// The bus address of the conductivity board.
pub const EC_BOARD_ADDRESS: u8 = 0x20;

/// The bus address of the pH board.
pub const PH_BOARD_ADDRESS: u8 = 0x21;

/// The seconds that a sensor task sleeps after a cycle.
pub const SENSOR_PERIOD_SECS: u64 = 180;

/// The seconds that the water level task sleeps after a cycle.
pub const WATER_LEVEL_PERIOD_SECS: u64 = 600;

impl HydroponicState {
    /// The state before any task has run: nothing is known.
    pub open spec fn initial() -> HydroponicState {
        HydroponicState {
            ec: EcState::Unknown,
            ph: PhState::Unknown,
            water_level: WaterLevelState::Unknown,
        }
    }

    /// The state at startup.
    pub fn initial_state() -> (state: HydroponicState)
        ensures
            state == Self::initial(),
    {
        HydroponicState {
            ec: EcState::Unknown,
            ph: PhState::Unknown,
            water_level: WaterLevelState::Unknown,
        }
    }
}

impl Default for HydroponicState {
    fn default() -> (state: Self)
        ensures
            state == HydroponicState::initial(),
    {
        HydroponicState::initial_state()
    }
}

impl Default for EcState {
    fn default() -> (state: Self)
        ensures
            state == EcState::Unknown,
    {
        EcState::Unknown
    }
}

impl Default for PhState {
    fn default() -> (state: Self)
        ensures
            state == PhState::Unknown,
    {
        PhState::Unknown
    }
}

impl Default for WaterLevelState {
    fn default() -> (state: Self)
        ensures
            state == WaterLevelState::Unknown,
    {
        WaterLevelState::Unknown
    }
}

impl EcState {
    /// What a reading means: high above the upper limit, low below the lower
    /// limit, good from one limit to the other.
    pub open spec fn classified(reading: Measurement) -> EcState {
        if reading.is_above(UPPER_LIMIT_EC as int) {
            EcState::High(reading)
        } else if reading.is_below(LOWER_LIMIT_EC as int) {
            EcState::Low(reading)
        } else {
            EcState::Good(reading)
        }
    }

    /// The reading that was classified, if there was one.
    pub open spec fn reading(self) -> Option<Measurement> {
        match self {
            EcState::Unknown => None,
            EcState::Good(reading) | EcState::High(reading) | EcState::Low(reading) => Some(
                reading,
            ),
        }
    }

    /// Classifies a reading.
    pub fn classify(reading: Measurement) -> (state: EcState)
        ensures
            state == Self::classified(reading),
    {
        if reading.exceeds(UPPER_LIMIT_EC) {
            EcState::High(reading)
        } else if reading.falls_below(LOWER_LIMIT_EC) {
            EcState::Low(reading)
        } else {
            EcState::Good(reading)
        }
    }
}

impl PhState {
    /// What a reading means: high above the upper limit, low below the lower
    /// limit, good from one limit to the other.
    pub open spec fn classified(reading: Measurement) -> PhState {
        if reading.is_above(UPPER_LIMIT_PH as int) {
            PhState::High(reading)
        } else if reading.is_below(LOWER_LIMIT_PH as int) {
            PhState::Low(reading)
        } else {
            PhState::Good(reading)
        }
    }

    /// The reading that was classified, if there was one.
    pub open spec fn reading(self) -> Option<Measurement> {
        match self {
            PhState::Unknown => None,
            PhState::Good(reading) | PhState::High(reading) | PhState::Low(reading) => Some(
                reading,
            ),
        }
    }

    /// Classifies a reading.
    pub fn classify(reading: Measurement) -> (state: PhState)
        ensures
            state == Self::classified(reading),
    {
        if reading.exceeds(UPPER_LIMIT_PH) {
            PhState::High(reading)
        } else if reading.falls_below(LOWER_LIMIT_PH) {
            PhState::Low(reading)
        } else {
            PhState::Good(reading)
        }
    }
}

impl WaterLevelState {
    /// What the level input means: the reservoir is full enough while the
    /// input is high.
    pub open spec fn classified(high: bool) -> WaterLevelState {
        if high {
            WaterLevelState::Good
        } else {
            WaterLevelState::Low
        }
    }

    /// Classifies a sample of the level input.
    pub fn classify(high: bool) -> (state: WaterLevelState)
        ensures
            state == Self::classified(high),
    {
        if high {
            WaterLevelState::Good
        } else {
            WaterLevelState::Low
        }
    }
}

/// A reading is classified by its value alone, keeps its value, and is
/// classified the same when what was stored is classified again.
pub proof fn classification_is_stable(first: Measurement, second: Measurement)
    requires
        first == second,
    ensures
        EcState::classified(first) == EcState::classified(second),
        EcState::classified(first).reading() == Some(first),
        EcState::classified(EcState::classified(first).reading().unwrap()) == EcState::classified(
            first,
        ),
        PhState::classified(first) == PhState::classified(second),
        PhState::classified(first).reading() == Some(first),
        PhState::classified(PhState::classified(first).reading().unwrap()) == PhState::classified(
            first,
        ),
{
}

/// Both limits belong to the good range: a reading is high only above the
/// upper limit and low only below the lower one, and good from one limit to
/// the other.
pub proof fn limits_are_good(reading: Measurement)
    ensures
        EcState::classified(reading) is High <==> reading.is_above(UPPER_LIMIT_EC as int),
        EcState::classified(reading) is Low <==> reading.is_below(LOWER_LIMIT_EC as int),
        EcState::classified(reading) is Good <==> !reading.is_above(UPPER_LIMIT_EC as int)
            && !reading.is_below(LOWER_LIMIT_EC as int),
        PhState::classified(reading) is High <==> reading.is_above(UPPER_LIMIT_PH as int),
        PhState::classified(reading) is Low <==> reading.is_below(LOWER_LIMIT_PH as int),
        PhState::classified(reading) is Good <==> !reading.is_above(UPPER_LIMIT_PH as int)
            && !reading.is_below(LOWER_LIMIT_PH as int),
        !reading.excess && (reading.thousandths == UPPER_LIMIT_EC || reading.thousandths
            == LOWER_LIMIT_EC) ==> EcState::classified(reading) is Good,
        !reading.excess && (reading.thousandths == UPPER_LIMIT_PH || reading.thousandths
            == LOWER_LIMIT_PH) ==> PhState::classified(reading) is Good,
{
}

/// A payload is classified by the value it denotes. With that value written
/// as `numeral_digits` over `pow10` of the length of the fraction part, the
/// reading is high exactly where the value is greater than the upper limit,
/// and low exactly where it is less than the lower limit.
pub proof fn classification_follows_the_payload(text: Seq<u8>)
    requires
        parse_reading(text) is Some,
    ensures
        ({
            let reading = parse_reading(text).unwrap();
            let scale = pow10(fraction_part(text).len());
            let sent = 1000 * numeral_digits(text);
            &&& EcState::classified(reading) is High <==> sent > UPPER_LIMIT_EC * scale
            &&& EcState::classified(reading) is Low <==> sent < LOWER_LIMIT_EC * scale
            &&& PhState::classified(reading) is High <==> sent > UPPER_LIMIT_PH * scale
            &&& PhState::classified(reading) is Low <==> sent < LOWER_LIMIT_PH * scale
        }),
{
    reading_compares_as_sent(text, UPPER_LIMIT_EC as int);
    reading_compares_as_sent(text, LOWER_LIMIT_EC as int);
    reading_compares_as_sent(text, UPPER_LIMIT_PH as int);
    reading_compares_as_sent(text, LOWER_LIMIT_PH as int);
}

/// What a task is told.
#[derive(Debug, PartialEq, Eq)]
pub enum PollEvent<T> {
    /// The task starts, or its sleep is over.
    Wake,
    /// The sample that the task asked for.
    Sampled(T),
}

/// What a task asks for.
#[derive(Debug, Clone, Copy, PartialEq, Eq, Structural)]
pub enum PollAction {
    /// Send `command` to the board at `address` and hand back its reply.
    Query { address: u8, command: EzoCommand },
    /// Hand back the level input: `true` while it is high.
    ReadLevel,
    /// Wake the task once `seconds` seconds have passed.
    Sleep { seconds: u64 },
}

/// The reading in a board's reply: none where the exchange failed or the
/// payload is not a numeral.
pub open spec fn reading_of(reply: Result<heapless::String<40>, EzoBoardError>) -> Option<
    Measurement,
> {
    match reply {
        Ok(payload) => parse_reading(payload_bytes(payload)),
        Err(_) => None,
    }
}

/// The state after a conductivity cycle: a reading replaces the conductivity,
/// and a cycle without one changes nothing.
pub open spec fn after_ec_cycle(
    state: HydroponicState,
    reading: Option<Measurement>,
) -> HydroponicState {
    match reading {
        Some(reading) => HydroponicState {
            ec: EcState::classified(reading),
            ph: state.ph,
            water_level: state.water_level,
        },
        None => state,
    }
}

/// The state after a pH cycle: a reading replaces the pH, and a cycle
/// without one changes nothing.
pub open spec fn after_ph_cycle(
    state: HydroponicState,
    reading: Option<Measurement>,
) -> HydroponicState {
    match reading {
        Some(reading) => HydroponicState {
            ec: state.ec,
            ph: PhState::classified(reading),
            water_level: state.water_level,
        },
        None => state,
    }
}

/// The state after a water level cycle.
pub open spec fn after_water_lvl_cycle(state: HydroponicState, high: bool) -> HydroponicState {
    HydroponicState {
        ec: state.ec,
        ph: state.ph,
        water_level: WaterLevelState::classified(high),
    }
}

/// Reads the reply of a board as a reading.
fn reading_in(reply: &Result<heapless::String<40>, EzoBoardError>) -> (reading: Option<
    Measurement,
>)
    ensures
        reading == reading_of(*reply),
{
    match reply {
        Ok(payload) => Measurement::parse(payload_as_bytes(payload)),
        Err(_) => None,
    }
}

/// The conductivity task. Woken, it asks the conductivity board for a
/// reading. Handed the reply, it stores what the reading means, or leaves
/// the state as it is where there is no reading, and asks to sleep.
pub fn update_ec_state_task(
    state: &mut HydroponicState,
    event: PollEvent<Result<heapless::String<40>, EzoBoardError>>,
) -> (action: PollAction)
    ensures
        match event {
            PollEvent::Wake => {
                &&& *final(state) == *old(state)
                &&& action == (PollAction::Query {
                    address: EC_BOARD_ADDRESS,
                    command: EzoCommand::Read,
                })
            },
            PollEvent::Sampled(reply) => {
                &&& *final(state) == after_ec_cycle(*old(state), reading_of(reply))
                &&& action == (PollAction::Sleep { seconds: SENSOR_PERIOD_SECS })
            },
        },
{
    match event {
        PollEvent::Wake => PollAction::Query {
            address: EC_BOARD_ADDRESS,
            command: EzoCommand::Read,
        },
        PollEvent::Sampled(reply) => {
            if let Some(reading) = reading_in(&reply) {
                state.ec = EcState::classify(reading);
            }
            PollAction::Sleep { seconds: SENSOR_PERIOD_SECS }
        },
    }
}

/// The pH task. Woken, it asks the pH board for a reading. Handed the reply,
/// it stores what the reading means, or leaves the state as it is where
/// there is no reading, and asks to sleep.
pub fn update_ph_state_task(
    state: &mut HydroponicState,
    event: PollEvent<Result<heapless::String<40>, EzoBoardError>>,
) -> (action: PollAction)
    ensures
        match event {
            PollEvent::Wake => {
                &&& *final(state) == *old(state)
                &&& action == (PollAction::Query {
                    address: PH_BOARD_ADDRESS,
                    command: EzoCommand::Read,
                })
            },
            PollEvent::Sampled(reply) => {
                &&& *final(state) == after_ph_cycle(*old(state), reading_of(reply))
                &&& action == (PollAction::Sleep { seconds: SENSOR_PERIOD_SECS })
            },
        },
{
    match event {
        PollEvent::Wake => PollAction::Query {
            address: PH_BOARD_ADDRESS,
            command: EzoCommand::Read,
        },
        PollEvent::Sampled(reply) => {
            if let Some(reading) = reading_in(&reply) {
                state.ph = PhState::classify(reading);
            }
            PollAction::Sleep { seconds: SENSOR_PERIOD_SECS }
        },
    }
}

/// The water level task. Woken, it asks for the level input. Handed the
/// sample, it stores what the sample means and asks to sleep.
pub fn update_water_lvl_state_task(state: &mut HydroponicState, event: PollEvent<bool>) -> (action:
    PollAction)
    ensures
        match event {
            PollEvent::Wake => {
                &&& *final(state) == *old(state)
                &&& action == PollAction::ReadLevel
            },
            PollEvent::Sampled(high) => {
                &&& *final(state) == after_water_lvl_cycle(*old(state), high)
                &&& action == (PollAction::Sleep { seconds: WATER_LEVEL_PERIOD_SECS })
            },
        },
{
    match event {
        PollEvent::Wake => PollAction::ReadLevel,
        PollEvent::Sampled(high) => {
            state.water_level = WaterLevelState::classify(high);
            PollAction::Sleep { seconds: WATER_LEVEL_PERIOD_SECS }
        },
    }
}

/// The three metrics, each owned by one task.
#[derive(Debug, Clone, Copy, PartialEq, Eq, Structural)]
pub enum Metric {
    Ec,
    Ph,
    WaterLevel,
}

/// One finished cycle of one task, with the sample it was handed.
pub enum Cycle {
    Ec(Option<Measurement>),
    Ph(Option<Measurement>),
    WaterLevel(bool),
}

impl Cycle {
    /// The metric whose task ran the cycle.
    pub open spec fn metric(self) -> Metric {
        match self {
            Cycle::Ec(_) => Metric::Ec,
            Cycle::Ph(_) => Metric::Ph,
            Cycle::WaterLevel(_) => Metric::WaterLevel,
        }
    }
}

/// The state after one cycle.
pub open spec fn after_cycle(state: HydroponicState, cycle: Cycle) -> HydroponicState {
    match cycle {
        Cycle::Ec(reading) => after_ec_cycle(state, reading),
        Cycle::Ph(reading) => after_ph_cycle(state, reading),
        Cycle::WaterLevel(high) => after_water_lvl_cycle(state, high),
    }
}

/// The state after a run of cycles, in the order in which they finished.
pub open spec fn after_cycles(state: HydroponicState, cycles: Seq<Cycle>) -> HydroponicState
    decreases cycles.len(),
{
    if cycles.len() == 0 {
        state
    } else {
        after_cycle(after_cycles(state, cycles.drop_last()), cycles.last())
    }
}

/// The cycles of one task among `cycles`, in order.
pub open spec fn cycles_of(cycles: Seq<Cycle>, metric: Metric) -> Seq<Cycle>
    decreases cycles.len(),
{
    if cycles.len() == 0 {
        Seq::empty()
    } else if cycles.last().metric() == metric {
        cycles_of(cycles.drop_last(), metric).push(cycles.last())
    } else {
        cycles_of(cycles.drop_last(), metric)
    }
}

/// A cycle that brings no reading (the exchange failed, or the payload was
/// not a numeral) leaves the whole state as it was.
pub proof fn failed_cycle_keeps_state(
    state: HydroponicState,
    reply: Result<heapless::String<40>, EzoBoardError>,
)
    requires
        reply is Err || parse_reading(payload_bytes(reply->Ok_0)) is None,
    ensures
        after_ec_cycle(state, reading_of(reply)) == state,
        after_ph_cycle(state, reading_of(reply)) == state,
{
}

/// A cycle that brings a reading stores what the reading means, whatever was
/// stored before: the field is known afterwards, holds the reading as it was
/// parsed, and is the same from any two earlier states.
pub proof fn good_cycle_stores_the_reading(
    first: HydroponicState,
    second: HydroponicState,
    reading: Measurement,
)
    ensures
        after_ec_cycle(first, Some(reading)).ec == EcState::classified(reading),
        after_ec_cycle(first, Some(reading)).ec !is Unknown,
        after_ec_cycle(first, Some(reading)).ec.reading() == Some(reading),
        after_ec_cycle(first, Some(reading)).ec == after_ec_cycle(second, Some(reading)).ec,
        after_ph_cycle(first, Some(reading)).ph == PhState::classified(reading),
        after_ph_cycle(first, Some(reading)).ph !is Unknown,
        after_ph_cycle(first, Some(reading)).ph.reading() == Some(reading),
        after_ph_cycle(first, Some(reading)).ph == after_ph_cycle(second, Some(reading)).ph,
{
}

/// Once the level input was sampled, the water level is known.
pub proof fn sampled_level_is_known(state: HydroponicState, high: bool)
    ensures
        after_water_lvl_cycle(state, high).water_level != WaterLevelState::Unknown,
        after_water_lvl_cycle(state, high).water_level is Good <==> high,
{
}

/// A cycle changes no field but that of its own metric.
pub proof fn cycle_keeps_other_fields(state: HydroponicState, cycle: Cycle)
    ensures
        cycle.metric() != Metric::Ec ==> after_cycle(state, cycle).ec == state.ec,
        cycle.metric() != Metric::Ph ==> after_cycle(state, cycle).ph == state.ph,
        cycle.metric() != Metric::WaterLevel ==> after_cycle(state, cycle).water_level
            == state.water_level,
{
}

/// However the cycles of the three tasks interleave, each field ends up as
/// if the task that owns it had run alone.
pub proof fn interleaving_keeps_fields_apart(state: HydroponicState, cycles: Seq<Cycle>)
    ensures
        after_cycles(state, cycles).ec == after_cycles(state, cycles_of(cycles, Metric::Ec)).ec,
        after_cycles(state, cycles).ph == after_cycles(state, cycles_of(cycles, Metric::Ph)).ph,
        after_cycles(state, cycles).water_level == after_cycles(
            state,
            cycles_of(cycles, Metric::WaterLevel),
        ).water_level,
    decreases cycles.len(),
{
    if cycles.len() > 0 {
        let earlier = cycles.drop_last();
        let last = cycles.last();
        interleaving_keeps_fields_apart(state, earlier);
        let own = cycles_of(earlier, last.metric());
        assert(own.push(last).drop_last() =~= own);
        assert(own.push(last).last() == last);
    }
}

/// The reading of the latest conductivity cycle that brought one.
pub open spec fn last_ec_reading(cycles: Seq<Cycle>) -> Option<Measurement>
    decreases cycles.len(),
{
    if cycles.len() == 0 {
        None
    } else {
        match cycles.last() {
            Cycle::Ec(Some(reading)) => Some(reading),
            _ => last_ec_reading(cycles.drop_last()),
        }
    }
}

/// The reading of the latest pH cycle that brought one.
pub open spec fn last_ph_reading(cycles: Seq<Cycle>) -> Option<Measurement>
    decreases cycles.len(),
{
    if cycles.len() == 0 {
        None
    } else {
        match cycles.last() {
            Cycle::Ph(Some(reading)) => Some(reading),
            _ => last_ph_reading(cycles.drop_last()),
        }
    }
}

/// The sample of the latest water level cycle.
pub open spec fn last_level_sample(cycles: Seq<Cycle>) -> Option<bool>
    decreases cycles.len(),
{
    if cycles.len() == 0 {
        None
    } else {
        match cycles.last() {
            Cycle::WaterLevel(high) => Some(high),
            _ => last_level_sample(cycles.drop_last()),
        }
    }
}

/// Every field holds what the latest good sample of its metric means, and
/// what it held before the run where the run brought no such sample.
pub proof fn state_holds_last_good_samples(state: HydroponicState, cycles: Seq<Cycle>)
    ensures
        after_cycles(state, cycles).ec == match last_ec_reading(cycles) {
            Some(reading) => EcState::classified(reading),
            None => state.ec,
        },
        after_cycles(state, cycles).ph == match last_ph_reading(cycles) {
            Some(reading) => PhState::classified(reading),
            None => state.ph,
        },
        after_cycles(state, cycles).water_level == match last_level_sample(cycles) {
            Some(high) => WaterLevelState::classified(high),
            None => state.water_level,
        },
    decreases cycles.len(),
{
    if cycles.len() > 0 {
        state_holds_last_good_samples(state, cycles.drop_last());
    }
}

/// Two interleavings in which every task runs the same cycles in the same
/// order end in the same state.
pub proof fn interleavings_agree(state: HydroponicState, first: Seq<Cycle>, second: Seq<Cycle>)
    requires
        cycles_of(first, Metric::Ec) == cycles_of(second, Metric::Ec),
        cycles_of(first, Metric::Ph) == cycles_of(second, Metric::Ph),
        cycles_of(first, Metric::WaterLevel) == cycles_of(second, Metric::WaterLevel),
    ensures
        after_cycles(state, first) == after_cycles(state, second),
{
    interleaving_keeps_fields_apart(state, first);
    interleaving_keeps_fields_apart(state, second);
}

} // verus!
