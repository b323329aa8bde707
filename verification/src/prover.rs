//! The collaborative prover: how a witness is shared out among the parties,
//! how each party's round proceeds, and how the parties' results become a
//! proof.

use crate::curve::{g1_add, g1_sum, g2_add, g2_sum, G1Point, G2Point, Proof};
use crate::dto::{CustomError, ErrorKind};
use crate::field::{values, Scalar};
use crate::groth16::{is_key_usable, key_usable};
use crate::keys::{
    alpha_g1_of, beta_g2_of, first_a_query, first_b_g2_query, read_alpha_g1, read_beta_g2,
    read_first_a_query, read_first_b_g2_query, verifying_key_framed,
};
use crate::pss::{pack_from_witness, table_values, PackedSharingParams};
use vstd::prelude::*;

verus! {

/// The packing factor that the service proves with.
pub const PACKING_FACTOR: usize = 2;

/// The parties' shares of a witness: of the assignment without its leading
/// constant, and of its auxiliary part.
#[derive(Debug)]
pub struct WitnessShares {
    pub a_shares: Vec<Vec<Scalar>>,
    pub ax_shares: Vec<Vec<Scalar>>,
}

/// The entries of `v` from `from` on.
fn tail(v: &Vec<Scalar>, from: usize) -> (r: Vec<Scalar>)
    requires
        from <= v.len(),
    ensures
        values(r@) == values(v@).skip(from as int),
{
    let mut out: Vec<Scalar> = Vec::new();
    let mut i: usize = from;
    while i < v.len()
        invariant
            from <= i <= v.len(),
            out.len() == i - from,
            forall|k: int| 0 <= k < out.len() ==> #[trigger] out[k] == v[from + k],
        decreases v.len() - i,
    {
        out.push(v[i]);
        i += 1;
    }
    proof {
        assert(values(out@) =~= values(v@).skip(from as int));
    }
    out
}

/// Shares a full assignment out among the parties. The assignment starts
/// with the constant one and the `num_inputs - 1` public inputs; what is
/// shared is the assignment without the constant, and its auxiliary part,
/// which starts at `num_inputs`. An assignment that is empty, or shorter
/// than its instance, is a `CircuitUnsatisfied`.
pub fn share_witness(pp: &PackedSharingParams, full_assignment: &Vec<Scalar>, num_inputs: usize) -> (r:
    Result<WitnessShares, CustomError>)
    ensures
        r is Ok <==> 1 <= full_assignment.len() && num_inputs <= full_assignment.len(),
        r matches Ok(s) ==> table_values(s.a_shares@) == pp.packed_witness(
            values(full_assignment@).skip(1),
        ) && table_values(s.ax_shares@) == pp.packed_witness(
            values(full_assignment@).skip(num_inputs as int),
        ),
        r matches Err(e) ==> e.spec_kind() == ErrorKind::CircuitUnsatisfied && e.spec_message()
            == "Witness is shorter than its instance"@,
{
    if full_assignment.len() < 1 || num_inputs > full_assignment.len() {
        return Err(
            CustomError::new(ErrorKind::CircuitUnsatisfied, "Witness is shorter than its instance"),
        );
    }
    let ax_shares = pack_from_witness(pp, tail(full_assignment, num_inputs));
    let a_shares = pack_from_witness(pp, tail(full_assignment, 1));
    Ok(WitnessShares { a_shares, ax_shares })
}

/// What one party hands back at the end of its round: its contributions to
/// the three elements of the proof.
#[derive(Debug)]
pub struct PartyOutput {
    pub a: G1Point,
    pub b: G2Point,
    pub c: G1Point,
}

/// The encodings of the finished proof's `A` and `B`: the witness's
/// contribution plus the two public offsets, which are added to each other
/// first. `None` where a point does not decode.
pub open spec fn with_offsets_g1(share: Seq<u8>, query: Seq<u8>, key: Seq<u8>) -> Option<Seq<u8>> {
    match g1_sum(query, key) {
        Some(offset) => g1_sum(share, offset),
        None => None,
    }
}

/// As `with_offsets_g1`, in the second group.
pub open spec fn with_offsets_g2(share: Seq<u8>, query: Seq<u8>, key: Seq<u8>) -> Option<Seq<u8>> {
    match g2_sum(query, key) {
        Some(offset) => g2_sum(share, offset),
        None => None,
    }
}

/// The public offsets of a proof, as the two keys encode them: the first
/// element of the proving key's `a_query`, the verifying key's `alpha_g1`,
/// the first element of the proving key's `b_g2_query`, and the verifying
/// key's `beta_g2`. `None` where the proving key cannot be proved with or
/// the verifying key is not framed.
pub open spec fn key_offsets(proving_key: Seq<u8>, verifying_key: Seq<u8>) -> Option<
    (Seq<u8>, Seq<u8>, Seq<u8>, Seq<u8>),
> {
    if key_usable(proving_key) && verifying_key_framed(verifying_key) {
        Some(
            (
                first_a_query(proving_key).unwrap(),
                alpha_g1_of(verifying_key).unwrap(),
                first_b_g2_query(proving_key).unwrap(),
                beta_g2_of(verifying_key).unwrap(),
            ),
        )
    } else {
        None
    }
}

/// Reads the public offsets of a proof out of the two keys.
pub fn proof_offsets(proving_key: &Vec<u8>, verifying_key: &Vec<u8>) -> (r: Option<
    (G1Point, G1Point, G2Point, G2Point),
>)
    ensures
        (match r {
            Some(o) => Some((o.0.bytes@, o.1.bytes@, o.2.bytes@, o.3.bytes@)),
            None => None,
        }) == key_offsets(proving_key@, verifying_key@),
{
    if !is_key_usable(proving_key) {
        return None;
    }
    let Some(a_query) = read_first_a_query(proving_key) else {
        return None;
    };
    let Some(b_g2_query) = read_first_b_g2_query(proving_key) else {
        return None;
    };
    let Some(alpha_g1) = read_alpha_g1(verifying_key) else {
        return None;
    };
    let Some(beta_g2) = read_beta_g2(verifying_key) else {
        return None;
    };
    Some(
        (
            G1Point { bytes: a_query },
            G1Point { bytes: alpha_g1 },
            G2Point { bytes: b_g2_query },
            G2Point { bytes: beta_g2 },
        ),
    )
}

/// Completes the proof from the witness's contributions: `A` gets the first
/// element of the proving key's `a_query` and the verifying key's `alpha_g1`
/// added, `B` the first element of `b_g2_query` and `beta_g2`, and `C` is
/// taken as it is. A point that does not decode is a
/// `DeserializationFailure`.
pub fn complete_proof(
    output: PartyOutput,
    a_query: &G1Point,
    alpha_g1: &G1Point,
    b_g2_query: &G2Point,
    beta_g2: &G2Point,
) -> (r: Result<Proof, CustomError>)
    ensures
        r is Ok <==> with_offsets_g1(output.a.bytes@, a_query.bytes@, alpha_g1.bytes@) is Some
            && with_offsets_g2(output.b.bytes@, b_g2_query.bytes@, beta_g2.bytes@) is Some,
        r matches Ok(p) ==> Some(p.a.bytes@) == with_offsets_g1(
            output.a.bytes@,
            a_query.bytes@,
            alpha_g1.bytes@,
        ) && Some(p.b.bytes@) == with_offsets_g2(
            output.b.bytes@,
            b_g2_query.bytes@,
            beta_g2.bytes@,
        ) && p.c == output.c,
        r matches Err(e) ==> e.spec_kind() == ErrorKind::DeserializationFailure && e.spec_message()
            == "Failed to decode a group element"@,
{
    let a = match g1_add(a_query, alpha_g1) {
        Some(offset) => g1_add(&output.a, &offset),
        None => None,
    };
    let b = match g2_add(b_g2_query, beta_g2) {
        Some(offset) => g2_add(&output.b, &offset),
        None => None,
    };
    match a {
        Some(a) => match b {
            Some(b) => Ok(Proof { a, b, c: output.c }),
            None => Err(
                CustomError::new(
                    ErrorKind::DeserializationFailure,
                    "Failed to decode a group element",
                ),
            ),
        },
        None => Err(
            CustomError::new(ErrorKind::DeserializationFailure, "Failed to decode a group element"),
        ),
    }
}

/// Where one party stands in its round.
#[derive(Debug)]
pub enum PartyState {
    /// Taking part in the witness extension.
    Extending,
    /// It holds its share `h` of the extension and waits until every party
    /// holds its own.
    AtBarrier { h: Vec<Scalar> },
    /// Every party is through the extension; it computes its part of `A`.
    ComputingA { h: Vec<Scalar> },
    /// It computes its part of `B`.
    ComputingB { h: Vec<Scalar>, a: G1Point },
    /// It computes its part of `C`, from `h` and its part of `A`.
    ComputingC { h: Vec<Scalar>, a: G1Point, b: G2Point },
    /// Its round is over.
    Finished(PartyOutput),
    /// Its round was given up.
    Aborted(ErrorKind),
}

/// What happened to a party.
#[derive(Debug)]
pub enum PartyEvent {
    /// The witness extension gave it the share `h`.
    Extended(Vec<Scalar>),
    /// It looks whether the other parties are through the extension.
    BarrierReached,
    ComputedA(G1Point),
    ComputedB(G2Point),
    ComputedC(G1Point),
    /// A peer did not answer in time.
    TimedOut,
    /// The party, or a peer, failed.
    Failed,
}

/// What a party is to do next.
#[derive(Clone, Copy, Debug, PartialEq, Eq, Structural)]
pub enum PartyAction {
    ExtendWitness,
    AwaitBarrier,
    ComputeA,
    ComputeB,
    ComputeC,
    Deliver,
    Abort,
}

/// The state that an event brings a party to, in a session of which
/// `passed` says whether every party is through the witness extension and
/// `aborted` why it was given up, if it was. A round runs through the
/// witness extension, the barrier, and the parts of `A`, `B` and `C`, in
/// this order. A party leaves the barrier only when all parties are through
/// the extension; until then it stays there, and in a session that was
/// given up it gives its round up for the same reason. A timeout or a
/// failure gives the round up, and so does a result that comes out of turn.
/// A round that is over, or given up, stays as it is.
pub open spec fn party_next(
    state: PartyState,
    event: PartyEvent,
    passed: bool,
    aborted: Option<ErrorKind>,
) -> PartyState {
    match state {
        PartyState::Finished(_) => state,
        PartyState::Aborted(_) => state,
        PartyState::Extending => match event {
            PartyEvent::Extended(h) => PartyState::AtBarrier { h },
            PartyEvent::TimedOut => PartyState::Aborted(ErrorKind::NetworkTimeout),
            _ => PartyState::Aborted(ErrorKind::PartyFailure),
        },
        PartyState::AtBarrier { h } => match event {
            PartyEvent::BarrierReached => match aborted {
                Some(kind) => PartyState::Aborted(kind),
                None => if passed {
                    PartyState::ComputingA { h }
                } else {
                    state
                },
            },
            PartyEvent::TimedOut => PartyState::Aborted(ErrorKind::NetworkTimeout),
            _ => PartyState::Aborted(ErrorKind::PartyFailure),
        },
        PartyState::ComputingA { h } => match event {
            PartyEvent::ComputedA(a) => PartyState::ComputingB { h, a },
            PartyEvent::TimedOut => PartyState::Aborted(ErrorKind::NetworkTimeout),
            _ => PartyState::Aborted(ErrorKind::PartyFailure),
        },
        PartyState::ComputingB { h, a } => match event {
            PartyEvent::ComputedB(b) => PartyState::ComputingC { h, a, b },
            PartyEvent::TimedOut => PartyState::Aborted(ErrorKind::NetworkTimeout),
            _ => PartyState::Aborted(ErrorKind::PartyFailure),
        },
        PartyState::ComputingC { h, a, b } => match event {
            PartyEvent::ComputedC(c) => PartyState::Finished(PartyOutput { a, b, c }),
            PartyEvent::TimedOut => PartyState::Aborted(ErrorKind::NetworkTimeout),
            _ => PartyState::Aborted(ErrorKind::PartyFailure),
        },
    }
}

/// What a party in `state` is to do.
pub open spec fn party_action(state: PartyState) -> PartyAction {
    match state {
        PartyState::Extending => PartyAction::ExtendWitness,
        PartyState::AtBarrier { .. } => PartyAction::AwaitBarrier,
        PartyState::ComputingA { .. } => PartyAction::ComputeA,
        PartyState::ComputingB { .. } => PartyAction::ComputeB,
        PartyState::ComputingC { .. } => PartyAction::ComputeC,
        PartyState::Finished(_) => PartyAction::Deliver,
        PartyState::Aborted(_) => PartyAction::Abort,
    }
}

impl PartyState {
    /// The state in which every party starts.
    pub fn start() -> (r: (PartyState, PartyAction))
        ensures
            r.0 == PartyState::Extending,
            r.1 == party_action(r.0),
    {
        (PartyState::Extending, PartyAction::ExtendWitness)
    }

    /// Takes an event in, in the session that the party belongs to: the
    /// party's next state, and what it is to do there.
    pub fn step(self, event: PartyEvent, session: &ProvingSession) -> (r: (PartyState, PartyAction))
        ensures
            r.0 == party_next(self, event, session.barrier_passed(), session.aborted()),
            r.1 == party_action(r.0),
    {
        let gave_up = match event {
            PartyEvent::TimedOut => ErrorKind::NetworkTimeout,
            _ => ErrorKind::PartyFailure,
        };
        match self {
            PartyState::Finished(out) => (PartyState::Finished(out), PartyAction::Deliver),
            PartyState::Aborted(kind) => (PartyState::Aborted(kind), PartyAction::Abort),
            PartyState::Extending => match event {
                PartyEvent::Extended(h) => (PartyState::AtBarrier { h }, PartyAction::AwaitBarrier),
                _ => (PartyState::Aborted(gave_up), PartyAction::Abort),
            },
            PartyState::AtBarrier { h } => match event {
                PartyEvent::BarrierReached => match session.reason() {
                    Some(kind) => (PartyState::Aborted(kind), PartyAction::Abort),
                    None => if session.is_barrier_passed() {
                        (PartyState::ComputingA { h }, PartyAction::ComputeA)
                    } else {
                        (PartyState::AtBarrier { h }, PartyAction::AwaitBarrier)
                    },
                },
                _ => (PartyState::Aborted(gave_up), PartyAction::Abort),
            },
            PartyState::ComputingA { h } => match event {
                PartyEvent::ComputedA(a) => (
                    PartyState::ComputingB { h, a },
                    PartyAction::ComputeB,
                ),
                _ => (PartyState::Aborted(gave_up), PartyAction::Abort),
            },
            PartyState::ComputingB { h, a } => match event {
                PartyEvent::ComputedB(b) => (
                    PartyState::ComputingC { h, a, b },
                    PartyAction::ComputeC,
                ),
                _ => (PartyState::Aborted(gave_up), PartyAction::Abort),
            },
            PartyState::ComputingC { h, a, b } => match event {
                PartyEvent::ComputedC(c) => (
                    PartyState::Finished(PartyOutput { a, b, c }),
                    PartyAction::Deliver,
                ),
                _ => (PartyState::Aborted(gave_up), PartyAction::Abort),
            },
        }
    }
}

/// No party starts on its part of `A` before every party is through the
/// witness extension: a step leads from the barrier into the second round
/// only in a session whose barrier is passed, and it leads there from
/// nowhere else.
pub proof fn lemma_round_two_waits(
    state: PartyState,
    event: PartyEvent,
    passed: bool,
    aborted: Option<ErrorKind>,
)
    requires
        party_next(state, event, passed, aborted) is ComputingA,
    ensures
        state is AtBarrier,
        event is BarrierReached,
        passed,
        aborted is None,
{
}

/// A round that was given up stays given up, and a round that is over
/// stays over, whatever happens next.
pub proof fn lemma_party_round_settles(
    state: PartyState,
    event: PartyEvent,
    passed: bool,
    aborted: Option<ErrorKind>,
)
    requires
        state is Finished || state is Aborted,
    ensures
        party_next(state, event, passed, aborted) == state,
{
}

/// A party's round ends with a result only by way of the four results in
/// their order: a state that is not yet in its last step never finishes in
/// one step.
pub proof fn lemma_party_finishes_last(
    state: PartyState,
    event: PartyEvent,
    passed: bool,
    aborted: Option<ErrorKind>,
)
    requires
        party_next(state, event, passed, aborted) is Finished,
    ensures
        state is Finished || (state is ComputingC && event is ComputedC),
{
}

/// One proving session: which parties are through the witness extension,
/// and what each has delivered since.
#[derive(Debug)]
pub struct ProvingSession {
    extended: Vec<bool>,
    outputs: Vec<Option<PartyOutput>>,
    aborted: Option<ErrorKind>,
}

impl ProvingSession {
    /// No party has delivered before all were through the witness extension.
    #[verifier::type_invariant]
    pub closed spec fn wf(self) -> bool {
        &&& self.extended.len() == self.outputs.len()
        &&& (exists|i: int| 0 <= i < self.outputs.len() && (#[trigger] self.outputs[i]) is Some)
            ==> (forall|j: int| 0 <= j < self.extended.len() ==> #[trigger] self.extended[j])
    }

    /// The number of parties.
    pub closed spec fn parties(self) -> nat {
        self.extended.len() as nat
    }

    /// Whether party `i` is through the witness extension.
    pub closed spec fn has_extended(self, i: int) -> bool {
        self.extended[i]
    }

    /// What party `i` has delivered.
    pub closed spec fn output_of(self, i: int) -> Option<PartyOutput> {
        self.outputs[i]
    }

    /// Why the session was given up, if it was.
    pub closed spec fn aborted(self) -> Option<ErrorKind> {
        self.aborted
    }

    /// Every party is through the witness extension.
    pub open spec fn barrier_passed(self) -> bool {
        forall|i: int| 0 <= i < self.parties() ==> #[trigger] self.has_extended(i)
    }

    /// Every party has delivered.
    pub open spec fn all_delivered(self) -> bool {
        forall|i: int| 0 <= i < self.parties() ==> (#[trigger] self.output_of(i)) is Some
    }

    /// The two sessions differ at most in what is recorded of `party`.
    pub open spec fn same_but(self, other: ProvingSession, party: int) -> bool {
        &&& self.parties() == other.parties()
        &&& self.aborted() == other.aborted()
        &&& forall|i: int|
            0 <= i < self.parties() && i != party ==> #[trigger] self.has_extended(i)
                == other.has_extended(i)
        &&& forall|i: int|
            0 <= i < self.parties() && i != party ==> #[trigger] self.output_of(i)
                == other.output_of(i)
    }

    /// The two sessions have recorded the same of every party.
    pub open spec fn same_records(self, other: ProvingSession) -> bool {
        &&& self.parties() == other.parties()
        &&& forall|i: int|
            0 <= i < self.parties() ==> #[trigger] self.has_extended(i) == other.has_extended(i)
        &&& forall|i: int|
            0 <= i < self.parties() ==> #[trigger] self.output_of(i) == other.output_of(i)
    }

    /// In every session, a party's delivery shows that all parties were
    /// through the witness extension.
    pub proof fn lemma_delivery_follows_barrier(self, party: int)
        requires
            self.wf(),
            0 <= party < self.parties(),
            self.output_of(party) is Some,
        ensures
            self.barrier_passed(),
    {
        assert(self.outputs[party] is Some);
    }

    /// A session of `parties` parties in which nothing has happened yet.
    pub fn new(parties: usize) -> (r: ProvingSession)
        ensures
            r.wf(),
            r.parties() == parties,
            r.aborted() is None,
            forall|i: int| 0 <= i < parties ==> !(#[trigger] r.has_extended(i)),
            forall|i: int| 0 <= i < parties ==> (#[trigger] r.output_of(i)) is None,
    {
        let mut extended: Vec<bool> = Vec::new();
        let mut outputs: Vec<Option<PartyOutput>> = Vec::new();
        let mut i: usize = 0;
        while i < parties
            invariant
                i <= parties,
                extended.len() == i,
                outputs.len() == i,
                forall|k: int| 0 <= k < i ==> !(#[trigger] extended[k]),
                forall|k: int| 0 <= k < i ==> (#[trigger] outputs[k]) is None,
            decreases parties - i,
        {
            extended.push(false);
            outputs.push(None);
            i += 1;
        }
        ProvingSession { extended, outputs, aborted: None }
    }

    /// Why the session was given up, if it was.
    pub fn reason(&self) -> (r: Option<ErrorKind>)
        ensures
            r == self.aborted(),
    {
        self.aborted
    }

    /// Whether every party is through the witness extension.
    pub fn is_barrier_passed(&self) -> (r: bool)
        ensures
            r == self.barrier_passed(),
    {
        let mut i: usize = 0;
        while i < self.extended.len()
            invariant
                i <= self.extended.len(),
                forall|k: int| 0 <= k < i ==> #[trigger] self.extended[k],
            decreases self.extended.len() - i,
        {
            if !self.extended[i] {
                assert(!self.has_extended(i as int));
                return false;
            }
            i += 1;
        }
        assert forall|k: int| 0 <= k < self.parties() implies #[trigger] self.has_extended(k) by {
            assert(self.extended[k]);
        }
        true
    }

    /// Records that `party` is through the witness extension, and says
    /// whether all parties are by now. In a session that was given up, and
    /// for a party that the session does not have, this is a `PartyFailure`
    /// and changes nothing.
    pub fn record_extension(self, party: usize) -> (r: (ProvingSession, Result<bool, CustomError>))
        ensures
            r.0.wf(),
            r.1 is Ok <==> self.aborted() is None && party < self.parties(),
            r.1 matches Ok(passed) ==> r.0.same_but(self, party as int) && r.0.has_extended(
                party as int,
            ) && r.0.output_of(party as int) == self.output_of(party as int) && passed
                == r.0.barrier_passed(),
            r.1 matches Err(e) ==> r.0 == self && e.spec_kind() == ErrorKind::PartyFailure
                && e.spec_message() == "Witness extension refused"@,
    {
        proof {
            use_type_invariant(&self);
        }
        if self.aborted.is_some() || party >= self.extended.len() {
            return (
                self,
                Err(CustomError::new(ErrorKind::PartyFailure, "Witness extension refused")),
            );
        }
        let ProvingSession { mut extended, outputs, aborted } = self;
        extended.set(party, true);
        let next = ProvingSession { extended, outputs, aborted };
        let passed = next.is_barrier_passed();
        (next, Ok(passed))
    }

    /// Records what `party` delivers. A party delivers once, and only after
    /// every party is through the witness extension: anything else, and
    /// anything in a session that was given up, is a `PartyFailure` and
    /// changes nothing.
    pub fn record_output(self, party: usize, output: PartyOutput) -> (r: (
        ProvingSession,
        Result<(), CustomError>,
    ))
        ensures
            r.0.wf(),
            r.1 is Ok <==> self.aborted() is None && party < self.parties()
                && self.barrier_passed() && self.output_of(party as int) is None,
            r.1 is Ok ==> r.0.same_but(self, party as int) && r.0.has_extended(party as int)
                && r.0.output_of(party as int) == Some(output),
            r.1 matches Err(e) ==> r.0 == self && e.spec_kind() == ErrorKind::PartyFailure
                && e.spec_message() == "Delivery refused"@,
    {
        proof {
            use_type_invariant(&self);
        }
        if self.aborted.is_some() || party >= self.outputs.len() || !self.is_barrier_passed()
            || self.outputs[party].is_some() {
            return (self, Err(CustomError::new(ErrorKind::PartyFailure, "Delivery refused")));
        }
        let ProvingSession { extended, mut outputs, aborted } = self;
        outputs.set(party, Some(output));
        proof {
            assert forall|j: int| 0 <= j < extended.len() implies #[trigger] extended[j] by {
                assert(self.has_extended(j));
            }
        }
        (ProvingSession { extended, outputs, aborted }, Ok(()))
    }

    /// Gives the session up for the reason `kind`, unless it was given up
    /// before: the first reason stays.
    pub fn abort(self, kind: ErrorKind) -> (r: ProvingSession)
        ensures
            r.wf(),
            r.same_records(self),
            r.aborted() == Some(
                match self.aborted() {
                    Some(first) => first,
                    None => kind,
                },
            ),
    {
        proof {
            use_type_invariant(&self);
        }
        let ProvingSession { extended, outputs, aborted } = self;
        let reason = match aborted {
            Some(first) => first,
            None => kind,
        };
        ProvingSession { extended, outputs, aborted: Some(reason) }
    }

    /// Whether every party has delivered.
    pub fn is_all_delivered(&self) -> (r: bool)
        ensures
            r == self.all_delivered(),
    {
        let mut i: usize = 0;
        while i < self.outputs.len()
            invariant
                i <= self.outputs.len(),
                forall|k: int| 0 <= k < i ==> (#[trigger] self.outputs[k]) is Some,
            decreases self.outputs.len() - i,
        {
            if self.outputs[i].is_none() {
                proof {
                    use_type_invariant(self);
                    assert(self.output_of(i as int) is None);
                }
                return false;
            }
            i += 1;
        }
        proof {
            use_type_invariant(self);
            assert forall|k: int| 0 <= k < self.parties() implies (#[trigger] self.output_of(
                k,
            )) is Some by {
                assert(self.outputs[k] is Some);
            }
        }
        true
    }

    /// Ends the session: what the first party delivered is the witness's
    /// contribution to the proof. A session that was given up ends with the
    /// reason for which it was; one in which a party has not delivered, or
    /// that has no party, ends with a `PartyFailure`: there is no proof from
    /// part of the parties.
    pub fn finish(self) -> (r: Result<PartyOutput, CustomError>)
        ensures
            match self.aborted() {
                Some(kind) => r matches Err(e) && e.spec_kind() == kind && e.spec_message()
                    == "Session aborted"@,
                None => if self.parties() >= 1 && self.all_delivered() {
                    r matches Ok(out) && Some(out) == self.output_of(0)
                } else {
                    r matches Err(e) && e.spec_kind() == ErrorKind::PartyFailure
                        && e.spec_message() == "A party did not deliver"@
                },
            },
    {
        proof {
            use_type_invariant(&self);
        }
        match self.aborted {
            Some(kind) => {
                return Err(CustomError::new(kind, "Session aborted"));
            },
            None => {},
        }
        if self.outputs.len() == 0 || !self.is_all_delivered() {
            return Err(CustomError::new(ErrorKind::PartyFailure, "A party did not deliver"));
        }
        assert(self.output_of(0) is Some);
        let ProvingSession { extended, mut outputs, aborted } = self;
        match outputs.swap_remove(0) {
            Some(out) => Ok(out),
            None => Err(CustomError::new(ErrorKind::PartyFailure, "A party did not deliver")),
        }
    }
}

} // verus!
