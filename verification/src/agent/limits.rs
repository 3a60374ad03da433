//! The limits on one ask: how many model calls it may make, what they may
//! cost, and how long it may take.
use vstd::prelude::*;

use crate::json::{
    field, law_the_first_member_of_a_name_counts, no_fields, Data, Json, Members,
};
use crate::number::{decimal, to_decimal};
use crate::text::cat3;

verus! {

/// The limits that an agent declares. What is not set is not limited.
#[derive(Clone, Copy, Debug, PartialEq, Eq, Structural)]
pub struct AgentLimits {
    pub max_turns: Option<u32>,
    pub max_model_calls: Option<u32>,
    pub max_cost_micro_usd: Option<u64>,
    pub timeout_ms: Option<u64>,
}

impl AgentLimits {
    /// No limits.
    pub fn new() -> (r: AgentLimits)
        ensures
            r == (AgentLimits {
                max_turns: None,
                max_model_calls: None,
                max_cost_micro_usd: None,
                timeout_ms: None,
            }),
    {
        AgentLimits {
            max_turns: None,
            max_model_calls: None,
            max_cost_micro_usd: None,
            timeout_ms: None,
        }
    }

    pub fn with_max_turns(self, max_turns: u32) -> (r: AgentLimits)
        ensures
            r == (AgentLimits { max_turns: Some(max_turns), ..self }),
    {
        AgentLimits { max_turns: Some(max_turns), ..self }
    }

    pub fn with_max_model_calls(self, max_model_calls: u32) -> (r: AgentLimits)
        ensures
            r == (AgentLimits { max_model_calls: Some(max_model_calls), ..self }),
    {
        AgentLimits { max_model_calls: Some(max_model_calls), ..self }
    }

    pub fn with_max_cost_micro_usd(self, max_cost_micro_usd: u64) -> (r: AgentLimits)
        ensures
            r == (AgentLimits { max_cost_micro_usd: Some(max_cost_micro_usd), ..self }),
    {
        AgentLimits { max_cost_micro_usd: Some(max_cost_micro_usd), ..self }
    }

    pub fn with_timeout_ms(self, timeout_ms: u64) -> (r: AgentLimits)
        ensures
            r == (AgentLimits { timeout_ms: Some(timeout_ms), ..self }),
    {
        AgentLimits { timeout_ms: Some(timeout_ms), ..self }
    }
}

/// Which limit stopped an ask.
#[derive(Clone, Copy, Debug, PartialEq, Eq, Structural)]
pub enum LimitKind {
    /// All model calls of the ask.
    MaxModelCalls,
    /// The model's turns in the ask.
    MaxTurns,
    /// What model calls have cost.
    MaxCostMicroUsd,
    /// How long the ask has taken.
    Timeout,
}

/// The key that stands for a limit.
pub open spec fn kind_key(kind: LimitKind) -> Seq<char> {
    match kind {
        LimitKind::MaxModelCalls => "max_model_calls"@,
        LimitKind::MaxTurns => "max_turns"@,
        LimitKind::MaxCostMicroUsd => "max_cost_micro_usd"@,
        LimitKind::Timeout => "timeout_ms"@,
    }
}

impl LimitKind {
    pub fn as_str(self) -> (r: &'static str)
        ensures
            r@ == kind_key(self),
    {
        match self {
            LimitKind::MaxModelCalls => "max_model_calls",
            LimitKind::MaxTurns => "max_turns",
            LimitKind::MaxCostMicroUsd => "max_cost_micro_usd",
            LimitKind::Timeout => "timeout_ms",
        }
    }
}

/// A limit that was crossed, and what it was set to.
#[derive(Clone, Copy, Debug, PartialEq, Eq, Structural)]
pub struct LimitTrip {
    pub kind: LimitKind,
    pub limit: u64,
}

/// What the answer says of a crossed limit.
pub open spec fn trip_message(trip: LimitTrip) -> Seq<char> {
    let n = decimal(trip.limit as nat);
    match trip.kind {
        LimitKind::MaxModelCalls => "limit exceeded: max_model_calls ("@ + n + " model calls)"@,
        LimitKind::MaxTurns => "limit exceeded: max_turns ("@ + n + " turns)"@,
        LimitKind::MaxCostMicroUsd => "limit exceeded: max_cost_micro_usd ("@ + n
            + " micro-USD)"@,
        LimitKind::Timeout => "limit exceeded: timeout ("@ + n + " ms)"@,
    }
}

/// What the answer carries for programs.
pub open spec fn trip_extra(trip: LimitTrip) -> Json {
    Json::Object(
        no_fields().push(
            field(
                "limit_exceeded"@,
                Json::Object(
                    no_fields().push(field("limit"@, Json::Str(kind_key(trip.kind)))).push(
                        field("value"@, Json::Int(trip.limit as int)),
                    ),
                ),
            ),
        ),
    )
}

impl LimitTrip {
    pub fn message(&self) -> (r: String)
        ensures
            r@ == trip_message(*self),
    {
        let n = to_decimal(self.limit);
        match self.kind {
            LimitKind::MaxModelCalls => cat3(
                "limit exceeded: max_model_calls (",
                n.as_str(),
                " model calls)",
            ),
            LimitKind::MaxTurns => cat3("limit exceeded: max_turns (", n.as_str(), " turns)"),
            LimitKind::MaxCostMicroUsd => cat3(
                "limit exceeded: max_cost_micro_usd (",
                n.as_str(),
                " micro-USD)",
            ),
            LimitKind::Timeout => cat3("limit exceeded: timeout (", n.as_str(), " ms)"),
        }
    }

    pub fn extra(&self) -> (r: Data)
        ensures
            r@ == trip_extra(*self),
    {
        let inner = Members::new().with("limit", Data::string(self.kind.as_str())).with(
            "value",
            Data::number(self.limit),
        ).object();
        Members::new().with("limit_exceeded", inner).object()
    }
}

/// The limit, if any, that refuses the model call with number `call_no` when
/// the calls before it have cost `cost`.
pub open spec fn refused_by(limits: AgentLimits, call_no: int, cost: int) -> Option<LimitTrip> {
    if limits.max_model_calls matches Some(m) && call_no > m {
        Some(LimitTrip { kind: LimitKind::MaxModelCalls, limit: limits.max_model_calls->0 as u64 })
    } else if limits.max_turns matches Some(m) && call_no > m {
        Some(LimitTrip { kind: LimitKind::MaxTurns, limit: limits.max_turns->0 as u64 })
    } else if limits.max_cost_micro_usd matches Some(m) && cost >= m {
        Some(
            LimitTrip { kind: LimitKind::MaxCostMicroUsd, limit: limits.max_cost_micro_usd->0 },
        )
    } else {
        None
    }
}

/// Where one ask stands with its limits.
#[derive(Debug)]
pub struct LimitState {
    pub limits: AgentLimits,
    /// The model calls attempted so far, refused ones among them.
    pub model_calls: u64,
    /// What the completed calls have cost.
    pub cost_micro_usd: u64,
    /// The first limit that was crossed.
    pub trip: Option<LimitTrip>,
}

/// The trip on record after another one: the first stays.
pub open spec fn first_trip(on_record: Option<LimitTrip>, next: LimitTrip) -> Option<LimitTrip> {
    match on_record {
        Some(t) => Some(t),
        None => Some(next),
    }
}

/// A limit on calls or cost is set.
pub open spec fn calls_limited(limits: AgentLimits) -> bool {
    limits.max_model_calls is Some || limits.max_turns is Some || limits.max_cost_micro_usd is Some
}

impl LimitState {
    pub fn new(limits: AgentLimits) -> (r: LimitState)
        ensures
            r == (LimitState { limits, model_calls: 0, cost_micro_usd: 0, trip: None }),
    {
        LimitState { limits, model_calls: 0, cost_micro_usd: 0, trip: None }
    }

    /// Whether a limit on calls or cost is set, so that every model call has to
    /// be asked about.
    pub fn needs_adapter_wrap(&self) -> (r: bool)
        ensures
            r == calls_limited(self.limits),
    {
        self.limits.max_model_calls.is_some() || self.limits.max_turns.is_some()
            || self.limits.max_cost_micro_usd.is_some()
    }

    fn record_trip(&mut self, trip: LimitTrip)
        ensures
            *final(self) == (LimitState { trip: first_trip(old(self).trip, trip), ..*old(self) }),
    {
        if self.trip.is_none() {
            self.trip = Some(trip);
        }
    }

    /// Puts on record that the ask took too long.
    pub fn record_timeout(&mut self, timeout_ms: u64)
        ensures
            *final(self) == (LimitState {
                trip: first_trip(
                    old(self).trip,
                    LimitTrip { kind: LimitKind::Timeout, limit: timeout_ms },
                ),
                ..*old(self)
            }),
    {
        self.record_trip(LimitTrip { kind: LimitKind::Timeout, limit: timeout_ms });
    }

    /// Asked before each model call: counts the call, and where a limit refuses
    /// it, puts that on record and says so.
    pub fn check_before_call(&mut self) -> (r: Option<String>)
        requires
            old(self).model_calls < u64::MAX,
        ensures
            ({
                let call_no = old(self).model_calls + 1;
                let refusal = refused_by(
                    old(self).limits,
                    call_no,
                    old(self).cost_micro_usd as int,
                );
                &&& final(self).limits == old(self).limits
                &&& final(self).model_calls == call_no
                &&& final(self).cost_micro_usd == old(self).cost_micro_usd
                &&& match r {
                    Some(text) => refusal is Some && text@ == trip_message(refusal->0)
                        && final(self).trip == first_trip(old(self).trip, refusal->0),
                    None => refusal is None && final(self).trip == old(self).trip,
                }
            }),
    {
        self.model_calls = self.model_calls + 1;
        let call_no: u64 = self.model_calls;
        if let Some(max) = self.limits.max_model_calls {
            if call_no > max as u64 {
                let trip = LimitTrip { kind: LimitKind::MaxModelCalls, limit: max as u64 };
                self.record_trip(trip);
                return Some(trip.message());
            }
        }
        if let Some(max) = self.limits.max_turns {
            if call_no > max as u64 {
                let trip = LimitTrip { kind: LimitKind::MaxTurns, limit: max as u64 };
                self.record_trip(trip);
                return Some(trip.message());
            }
        }
        if let Some(max) = self.limits.max_cost_micro_usd {
            if self.cost_micro_usd >= max {
                let trip = LimitTrip { kind: LimitKind::MaxCostMicroUsd, limit: max };
                self.record_trip(trip);
                return Some(trip.message());
            }
        }
        None
    }

    /// Adds what a completed call cost. The sum wraps around at 64 bits.
    pub fn record_cost(&mut self, cost: u64)
        ensures
            *final(self) == (LimitState {
                cost_micro_usd: vstd::wrapping::u64_specs::wrapping_add(
                    old(self).cost_micro_usd,
                    cost,
                ),
                ..*old(self)
            }),
    {
        self.cost_micro_usd = self.cost_micro_usd.wrapping_add(cost);
    }
}

/// A call that is let through is within every limit on the number of calls, so
/// no ask makes more calls than it may.
pub proof fn law_calls_let_through_are_within_the_limits(
    limits: AgentLimits,
    call_no: int,
    cost: int,
)
    ensures
        refused_by(limits, call_no, cost) is None ==> {
            &&& limits.max_model_calls matches Some(m) ==> call_no <= m
            &&& limits.max_turns matches Some(m) ==> call_no <= m
            &&& limits.max_cost_micro_usd matches Some(m) ==> cost < m
        },
{
}

/// Once a call is refused, so is every later one.
pub proof fn law_refusals_last(
    limits: AgentLimits,
    call_no: int,
    cost: int,
    later_no: int,
    later_cost: int,
)
    requires
        call_no <= later_no,
        cost <= later_cost,
        refused_by(limits, call_no, cost) is Some,
    ensures
        refused_by(limits, later_no, later_cost) is Some,
{
}

/// Without limits nothing is refused.
pub proof fn law_nothing_is_refused_without_limits(limits: AgentLimits, call_no: int, cost: int)
    requires
        limits.max_model_calls is None,
        limits.max_turns is None,
        limits.max_cost_micro_usd is None,
    ensures
        refused_by(limits, call_no, cost) is None,
{
}

/// A refusal names a limit that is set and crossed, with its value, and a call that
/// crosses a limit is refused: the number of calls is looked at before the turns,
/// and the turns before the cost.
pub proof fn law_refusals_name_the_limit_crossed(limits: AgentLimits, call_no: int, cost: int)
    ensures
        ({
            let r = refused_by(limits, call_no, cost);
            let calls = limits.max_model_calls matches Some(m) && call_no > m;
            let turns = limits.max_turns matches Some(m) && call_no > m;
            let spent = limits.max_cost_micro_usd matches Some(m) && cost >= m;
            &&& r is Some <==> calls || turns || spent
            &&& r matches Some(t) ==> {
                &&& t.kind is MaxModelCalls <==> calls
                &&& t.kind is MaxTurns <==> turns && !calls
                &&& t.kind is MaxCostMicroUsd <==> spent && !calls && !turns
                &&& t.kind is MaxModelCalls ==> t.limit == limits.max_model_calls->0
                &&& t.kind is MaxTurns ==> t.limit == limits.max_turns->0
                &&& t.kind is MaxCostMicroUsd ==> t.limit == limits.max_cost_micro_usd->0
            }
        }),
{
}

/// The first limit crossed stays on record.
pub proof fn law_the_first_limit_crossed_is_told(a: LimitTrip, b: LimitTrip)
    ensures
        first_trip(None, a) == Some(a),
        first_trip(first_trip(None, a), b) == Some(a),
{
}

/// Programs read from a refusal which limit was crossed, under the name it is set
/// by, and what it was set to.
pub proof fn law_programs_read_the_limit(trip: LimitTrip)
    ensures
        trip_extra(trip).get("limit_exceeded"@) matches Some(e) && {
            &&& e.get("value"@) == Some(Json::Int(trip.limit as int))
            &&& e.get_str("limit"@) == Some(
                match trip.kind {
                    LimitKind::MaxModelCalls => "max_model_calls"@,
                    LimitKind::MaxTurns => "max_turns"@,
                    LimitKind::MaxCostMicroUsd => "max_cost_micro_usd"@,
                    LimitKind::Timeout => "timeout_ms"@,
                },
            )
        },
{
    let outer = trip_extra(trip)->Object_0;
    assert(outer[0].key == "limit_exceeded"@);
    law_the_first_member_of_a_name_counts(outer, 0);
    reveal_strlit("limit");
    reveal_strlit("value");
    assert("limit"@.len() == 5);
    assert("value"@.len() == 5);
    assert("limit"@[0] != "value"@[0]);
    let inner = outer[0].value->Object_0;
    assert(inner[0].key == "limit"@);
    assert(inner[1].key == "value"@);
    law_the_first_member_of_a_name_counts(inner, 0);
    law_the_first_member_of_a_name_counts(inner, 1);
}

/// What is said of a crossed limit holds its value, between words that tell which
/// one it was.
pub proof fn law_people_read_the_limit(trip: LimitTrip)
    ensures
        ({
            let said = trip_message(trip);
            let n = decimal(trip.limit as nat);
            let (lead, tail) = match trip.kind {
                LimitKind::MaxModelCalls => ("limit exceeded: max_model_calls ("@, " model calls)"@),
                LimitKind::MaxTurns => ("limit exceeded: max_turns ("@, " turns)"@),
                LimitKind::MaxCostMicroUsd => (
                    "limit exceeded: max_cost_micro_usd ("@,
                    " micro-USD)"@,
                ),
                LimitKind::Timeout => ("limit exceeded: timeout ("@, " ms)"@),
            };
            &&& lead.is_prefix_of(said)
            &&& said.skip(lead.len() as int).take(n.len() as int) == n
            &&& said.skip((lead.len() + n.len()) as int) == tail
        }),
{
}

} // verus!
