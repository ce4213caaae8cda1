//! Scoped owners of runtime generations, and the process-wide guard.

use crate::decimal::decimal;
use crate::device_handle::{shutdown_device_services, DeviceLease};
use crate::errors::{DeviceLeaseReleaseError, DeviceServicesShutdownError};
use crate::generation::DeviceLeaseRelease;
use crate::ids::DeviceGenerationId;
use crate::registry::DeviceRuntime;
use crate::services_shutdown::ServicesShutdown;
use std::collections::HashSet;
use vstd::prelude::*;
use vstd::string::StringExecFns;

verus! {

use crate::decimal::decimal_digits;
use crate::services_shutdown::ShutdownView;

broadcast use vstd::std_specs::hash::group_hash_axioms;

/// Summary of generation leases released by a [`RuntimeSession`].
#[derive(Clone, Copy, Debug, PartialEq, Eq, Structural)]
pub struct RuntimeSessionShutdown {
    closed_generations: usize,
    closing_generations: usize,
    shared_generations: usize,
    stateless_leases: usize,
}

/// What a summary counts.
pub struct SessionReport {
    /// Generations that the final lease release closed.
    pub closed: int,
    /// Generations whose join was delegated.
    pub closing: int,
    /// Generations that others own.
    pub shared: int,
    /// Leases without a generation.
    pub stateless: int,
}

impl View for RuntimeSessionShutdown {
    type V = SessionReport;

    closed spec fn view(&self) -> SessionReport {
        SessionReport {
            closed: self.closed_generations as int,
            closing: self.closing_generations as int,
            shared: self.shared_generations as int,
            stateless: self.stateless_leases as int,
        }
    }
}

impl Default for RuntimeSessionShutdown {
    fn default() -> (report: Self)
        ensures
            report@ == (SessionReport { closed: 0, closing: 0, shared: 0, stateless: 0 }),
    {
        RuntimeSessionShutdown {
            closed_generations: 0,
            closing_generations: 0,
            shared_generations: 0,
            stateless_leases: 0,
        }
    }
}

impl RuntimeSessionShutdown {
    /// Returns the number of generations closed by the session's final lease release.
    pub fn closed_generations(&self) -> (count: usize)
        ensures
            count == self@.closed,
    {
        self.closed_generations
    }

    /// Returns the number of generations whose on-runner join was delegated.
    pub fn closing_generations(&self) -> (count: usize)
        ensures
            count == self@.closing,
    {
        self.closing_generations
    }

    /// Returns the number of generations that remain owned by other external values.
    pub fn shared_generations(&self) -> (count: usize)
        ensures
            count == self@.shared,
    {
        self.shared_generations
    }

    /// Returns the number of released leases without a device-runner generation.
    pub fn stateless_leases(&self) -> (count: usize)
        ensures
            count == self@.stateless,
    {
        self.stateless_leases
    }
}

/// What releasing one lease came to.
pub type ReleaseOutcome = Result<DeviceLeaseRelease, DeviceLeaseReleaseError>;

/// Number of outcomes of one kind.
pub open spec fn count_outcomes(outcomes: Seq<ReleaseOutcome>, kind: DeviceLeaseRelease) -> int
    decreases outcomes.len(),
{
    if outcomes.len() == 0 {
        0
    } else {
        count_outcomes(outcomes.drop_last(), kind) + (if is_outcome(outcomes.last(), kind) {
            1int
        } else {
            0int
        })
    }
}

/// An outcome is of a kind; one that closed a panicked runner counts as closed.
pub open spec fn is_outcome(outcome: ReleaseOutcome, kind: DeviceLeaseRelease) -> bool {
    match outcome {
        Ok(release) => release == kind,
        Err(_) => kind is Closed,
    }
}

/// The generations that closed after their runner panicked, in the order of the releases.
pub open spec fn failed_in(outcomes: Seq<ReleaseOutcome>) -> Seq<DeviceGenerationId>
    decreases outcomes.len(),
{
    if outcomes.len() == 0 {
        Seq::empty()
    } else {
        match outcomes.last() {
            Ok(_) => failed_in(outcomes.drop_last()),
            Err(error) => failed_in(outcomes.drop_last()).push(error.generation()),
        }
    }
}

/// What the summary of a sequence of releases counts.
pub open spec fn report_of(outcomes: Seq<ReleaseOutcome>) -> SessionReport {
    SessionReport {
        closed: count_outcomes(outcomes, DeviceLeaseRelease::Closed),
        closing: count_outcomes(outcomes, DeviceLeaseRelease::Closing),
        shared: count_outcomes(outcomes, DeviceLeaseRelease::Shared),
        stateless: count_outcomes(outcomes, DeviceLeaseRelease::Stateless),
    }
}

/// Error returned after a runtime session closes one or more panicked runners.
#[derive(Debug)]
pub struct RuntimeSessionShutdownError {
    report: RuntimeSessionShutdown,
    failed_generations: Vec<DeviceGenerationId>,
}

impl RuntimeSessionShutdownError {
    /// What the release report counts.
    pub closed spec fn summary(&self) -> SessionReport {
        self.report@
    }

    /// The generations whose runner panicked.
    pub closed spec fn failed(&self) -> Seq<DeviceGenerationId> {
        self.failed_generations@
    }

    /// Returns the complete release report, including generations that closed with a panic.
    pub fn report(&self) -> (report: RuntimeSessionShutdown)
        ensures
            report@ == self.summary(),
    {
        self.report
    }

    /// Returns the generations that reached `Closed` after their runner panicked.
    pub fn failed_generations(&self) -> (failed: &[DeviceGenerationId])
        ensures
            failed@ == self.failed(),
    {
        self.failed_generations.as_slice()
    }

    /// Describes the error.
    pub fn message(&self) -> (text: String)
        ensures
            text@ == decimal_digits(self.failed().len())
                + " runtime generation(s) closed after a runner panic"@,
    {
        let mut text = decimal(self.failed_generations.len() as u64);
        text.append(" runtime generation(s) closed after a runner panic");
        text
    }
}

/// Sums up what releasing the leases of a session came to; an error when a runner had panicked.
pub fn summarize_releases(outcomes: Vec<ReleaseOutcome>) -> (result: Result<
    RuntimeSessionShutdown,
    RuntimeSessionShutdownError,
>)
    ensures
        result is Ok <==> failed_in(outcomes@).len() == 0,
        match result {
            Ok(report) => report@ == report_of(outcomes@),
            Err(error) => error.summary() == report_of(outcomes@) && error.failed() == failed_in(
                outcomes@,
            ),
        },
{
    let mut report = RuntimeSessionShutdown::default();
    let mut failed_generations: Vec<DeviceGenerationId> = Vec::new();
    let mut index: usize = 0;
    assert(outcomes@.take(0) =~= Seq::<ReleaseOutcome>::empty());
    while index < outcomes.len()
        invariant
            index <= outcomes.len(),
            report@ == report_of(outcomes@.take(index as int)),
            failed_generations@ == failed_in(outcomes@.take(index as int)),
            0 <= report@.closed <= index,
            0 <= report@.closing <= index,
            0 <= report@.shared <= index,
            0 <= report@.stateless <= index,
        decreases outcomes.len() - index,
    {
        proof {
            let next = outcomes@.take(index + 1);
            assert(next.drop_last() =~= outcomes@.take(index as int));
            assert(next.last() == outcomes@[index as int]);
        }
        match &outcomes[index] {
            Ok(DeviceLeaseRelease::Closed) => {
                report.closed_generations = report.closed_generations + 1;
            },
            Ok(DeviceLeaseRelease::Closing) => {
                report.closing_generations = report.closing_generations + 1;
            },
            Ok(DeviceLeaseRelease::Shared) => {
                report.shared_generations = report.shared_generations + 1;
            },
            Ok(DeviceLeaseRelease::Stateless) => {
                report.stateless_leases = report.stateless_leases + 1;
            },
            Err(error) => {
                report.closed_generations = report.closed_generations + 1;
                failed_generations.push(error.generation_id());
            },
        }
        index = index + 1;
    }
    assert(outcomes@.take(index as int) =~= outcomes@);
    if failed_generations.len() == 0 {
        Ok(report)
    } else {
        Err(RuntimeSessionShutdownError { report, failed_generations })
    }
}

/// Every released lease is counted once, and the report of a failed shutdown counts the failed
/// generations as closed.
pub proof fn law_report_is_complete(outcomes: Seq<ReleaseOutcome>)
    ensures
        ({
            let report = report_of(outcomes);
            &&& report.closed + report.closing + report.shared + report.stateless
                == outcomes.len()
            &&& 0 <= failed_in(outcomes).len() <= report.closed
            &&& 0 <= report.closing
            &&& 0 <= report.shared
            &&& 0 <= report.stateless
        }),
    decreases outcomes.len(),
{
    if outcomes.len() > 0 {
        law_report_is_complete(outcomes.drop_last());
    }
}

/// A report counts each release under what came of it, and one that closed a panicked runner as
/// closed; the reports of two sequences of releases add up.
pub proof fn law_report_counts_each_release(
    first: Seq<ReleaseOutcome>,
    second: Seq<ReleaseOutcome>,
    outcome: ReleaseOutcome,
)
    ensures
        ({
            let one = report_of(seq![outcome]);
            let (a, b, both) = (report_of(first), report_of(second), report_of(first + second));
            &&& one.closed == (if outcome is Err || outcome->Ok_0 is Closed {
                1int
            } else {
                0int
            })
            &&& one.closing == (if outcome is Ok && outcome->Ok_0 is Closing {
                1int
            } else {
                0int
            })
            &&& one.shared == (if outcome is Ok && outcome->Ok_0 is Shared {
                1int
            } else {
                0int
            })
            &&& one.stateless == (if outcome is Ok && outcome->Ok_0 is Stateless {
                1int
            } else {
                0int
            })
            &&& both.closed == a.closed + b.closed
            &&& both.closing == a.closing + b.closing
            &&& both.shared == a.shared + b.shared
            &&& both.stateless == a.stateless + b.stateless
            &&& failed_in(first + second) == failed_in(first) + failed_in(second)
            &&& failed_in(seq![outcome]) == (match outcome {
                Ok(_) => Seq::empty(),
                Err(error) => seq![error.generation()],
            })
        }),
    decreases second.len(),
{
    reveal_with_fuel(count_outcomes, 2);
    reveal_with_fuel(failed_in, 2);
    assert(seq![outcome].drop_last() =~= Seq::<ReleaseOutcome>::empty());
    assert(failed_in(seq![outcome]) =~= (match outcome {
        Ok(_) => Seq::empty(),
        Err(error) => seq![error.generation()],
    }));
    if second.len() == 0 {
        assert(first + second =~= first);
        assert(failed_in(first) + failed_in(second) =~= failed_in(first));
    } else {
        law_report_counts_each_release(first, second.drop_last(), outcome);
        assert((first + second).drop_last() =~= first + second.drop_last());
        assert((first + second).last() == second.last());
        assert(failed_in(first + second) =~= failed_in(first) + failed_in(second));
    }
}

/// Pinning a generation keeps what was pinned, in its order, and adds the generation at the end if
/// it was not pinned; pinning it again, and a client without a generation, change nothing.
pub proof fn law_pinning_adds_once(
    pins: Seq<DeviceGenerationId>,
    id: DeviceGenerationId,
    other: DeviceGenerationId,
)
    ensures
        ({
            let after = RuntimeSession::pinned(pins, Some(id));
            &&& after.contains(id)
            &&& after.take(pins.len() as int) == pins
            &&& after.len() == pins.len() + (if pins.contains(id) {
                0int
            } else {
                1int
            })
            &&& after.contains(other) <==> pins.contains(other) || other == id
            &&& pins.no_duplicates() ==> after.no_duplicates()
            &&& RuntimeSession::pinned(after, Some(id)) == after
            &&& RuntimeSession::pinned(pins, None) == pins
        }),
{
    let after = RuntimeSession::pinned(pins, Some(id));
    assert(after.take(pins.len() as int) =~= pins);
    if !pins.contains(id) {
        assert(after[pins.len() as int] == id);
        if pins.contains(other) {
            let n = choose|n: int| 0 <= n < pins.len() && pins[n] == other;
            assert(after[n] == other);
        }
        if after.contains(other) && other != id {
            let n = choose|n: int| 0 <= n < after.len() && after[n] == other;
            assert(pins[n] == other);
        }
        if pins.no_duplicates() {
            assert forall|i: int, j: int| 0 <= i < j < after.len() implies after[i] != after[j] by {
                if j == pins.len() {
                    assert(pins[i] == after[i]);
                    assert(pins.contains(pins[i]));
                } else {
                    assert(pins[i] != pins[j]);
                }
            }
        }
    }
}

/// The places among releases at which a runner had panicked.
pub open spec fn failed_places(outcomes: Seq<ReleaseOutcome>) -> Seq<int>
    decreases outcomes.len(),
{
    if outcomes.len() == 0 {
        Seq::empty()
    } else if outcomes.last() is Err {
        failed_places(outcomes.drop_last()).push(outcomes.len() - 1)
    } else {
        failed_places(outcomes.drop_last())
    }
}

/// What came of releasing the lease on each pinned generation.
pub open spec fn are_outcomes_of(
    pins: Seq<DeviceGenerationId>,
    outcomes: Seq<ReleaseOutcome>,
) -> bool {
    &&& outcomes.len() == pins.len()
    &&& forall|i: int|
        0 <= i < pins.len() && (#[trigger] outcomes[i]) is Err ==> outcomes[i]->Err_0.generation()
            == pins[i]
}

/// The failed generations of a session are the pinned ones whose release closed a panicked runner,
/// each once and in the order in which they were pinned; each of them is counted as closed.
pub proof fn law_failed_are_pinned(
    pins: Seq<DeviceGenerationId>,
    outcomes: Seq<ReleaseOutcome>,
)
    requires
        pins.no_duplicates(),
        are_outcomes_of(pins, outcomes),
    ensures
        ({
            let failed = failed_in(outcomes);
            let places = failed_places(outcomes);
            &&& failed.no_duplicates()
            &&& failed.len() == places.len()
            &&& forall|m: int|
                0 <= m < places.len() ==> 0 <= (#[trigger] places[m]) < pins.len() && failed[m]
                    == pins[places[m]]
            &&& forall|m: int, n: int|
                0 <= m < n < places.len() ==> (#[trigger] places[m]) < (#[trigger] places[n])
            &&& forall|i: int|
                0 <= i < pins.len() ==> (failed.contains(#[trigger] pins[i])
                    <==> outcomes[i] is Err)
            &&& failed.len() <= report_of(outcomes).closed
        }),
{
    let failed = failed_in(outcomes);
    let places = failed_places(outcomes);
    law_report_is_complete(outcomes);
    lemma_failed_places(pins, outcomes);
    assert forall|m: int, n: int| 0 <= m < n < failed.len() implies failed[m] != failed[n] by {
        assert(places[m] < places[n]);
        assert(pins[places[m]] != pins[places[n]]);
    }
    assert forall|i: int| 0 <= i < pins.len() implies (failed.contains(#[trigger] pins[i])
        <==> outcomes[i] is Err) by {
        if outcomes[i] is Err {
            assert(places.contains(i));
            let m = choose|m: int| 0 <= m < places.len() && places[m] == i;
            assert(failed[m] == pins[i]);
        }
        if failed.contains(pins[i]) {
            let m = choose|m: int| 0 <= m < failed.len() && failed[m] == pins[i];
            assert(pins[places[m]] == pins[i]);
            assert(places[m] == i);
            assert(places.contains(i));
        }
    }
}

proof fn lemma_failed_places(pins: Seq<DeviceGenerationId>, outcomes: Seq<ReleaseOutcome>)
    requires
        are_outcomes_of(pins, outcomes),
    ensures
        ({
            let failed = failed_in(outcomes);
            let places = failed_places(outcomes);
            &&& failed.len() == places.len()
            &&& forall|m: int|
                0 <= m < places.len() ==> 0 <= (#[trigger] places[m]) < pins.len() && failed[m]
                    == pins[places[m]]
            &&& forall|m: int, n: int|
                0 <= m < n < places.len() ==> (#[trigger] places[m]) < (#[trigger] places[n])
            &&& forall|i: int| #[trigger]
                places.contains(i) <==> 0 <= i < outcomes.len() && outcomes[i] is Err
        }),
    decreases outcomes.len(),
{
    let places = failed_places(outcomes);
    if outcomes.len() > 0 {
        let last = outcomes.len() - 1;
        assert forall|i: int|
            0 <= i < last && (#[trigger] outcomes.drop_last()[i]) is Err implies
            outcomes.drop_last()[i]->Err_0.generation() == pins.drop_last()[i] by {
            assert(outcomes[i] is Err);
        }
        lemma_failed_places(pins.drop_last(), outcomes.drop_last());
        let before = failed_places(outcomes.drop_last());
        assert forall|i: int| #[trigger]
            places.contains(i) <==> 0 <= i < outcomes.len() && outcomes[i] is Err by {
            assert(before.contains(i) <==> 0 <= i < last && outcomes[i] is Err);
            if before.contains(i) {
                let m = choose|m: int| 0 <= m < before.len() && before[m] == i;
                assert(places[m] == i);
            }
            if outcomes[last] is Err {
                assert(places[before.len() as int] == last);
                if places.contains(i) && i != last {
                    let m = choose|m: int| 0 <= m < places.len() && places[m] == i;
                    assert(before[m] == i);
                }
            }
        }
        assert forall|m: int| 0 <= m < places.len() implies 0 <= (#[trigger] places[m]) < pins.len()
            && failed_in(outcomes)[m] == pins[places[m]] by {
            if m < before.len() {
                assert(before[m] == places[m]);
            } else {
                assert(outcomes[last] is Err);
            }
        }
        assert forall|m: int, n: int| 0 <= m < n < places.len() implies (#[trigger] places[m]) < (
        #[trigger] places[n]) by {
            assert(before[m] == places[m]);
            if n < before.len() {
                assert(before[n] == places[n]);
            }
        }
    }
}

/// A client of a compute runtime, as far as its generation goes.
pub struct ComputeClient {
    lease: DeviceLease,
}

impl View for ComputeClient {
    type V = Option<DeviceGenerationId>;

    closed spec fn view(&self) -> Option<DeviceGenerationId> {
        self.lease@
    }
}

impl ComputeClient {
    /// A client that keeps the generation of a lease open.
    pub fn new(lease: DeviceLease) -> (client: Self)
        ensures
            client@ == lease@,
    {
        ComputeClient { lease }
    }

    /// Returns the generation that the client keeps open, if it has one.
    pub fn generation_id(&self) -> (id: Option<DeviceGenerationId>)
        ensures
            id == self@,
    {
        self.lease.generation_id()
    }

    /// Takes another lease on the generation of the client.
    pub fn clone_lease(&self, runtime: &mut DeviceRuntime) -> (lease: DeviceLease)
        requires
            old(runtime).wf(),
            self@ is Some ==> old(runtime)@.generations.contains_key((self@->0).0),
        ensures
            lease@ == self@,
            final(runtime)@ == (match self@ {
                Some(id) => old(runtime)@.with_generation(
                    old(runtime)@.generations[id.0].leased(),
                ),
                None => old(runtime)@,
            }),
            final(runtime).wf(),
    {
        self.lease.duplicate(runtime)
    }

    /// Lets go of the client; its lease is to be released.
    pub fn into_lease(self) -> (lease: DeviceLease)
        ensures
            lease@ == self@,
    {
        self.lease
    }
}

/// Optional scoped owner for selected runtime generations.
///
/// A session covers only generations explicitly pinned through [`RuntimeSession::client`] or
/// [`RuntimeSession::pin`]. Later clients for the same runtime and device reuse the pinned
/// generation and its caches. Other runtimes and devices are unaffected.
#[must_use]
pub struct RuntimeSession {
    leases: Vec<DeviceLease>,
    generations: HashSet<u64>,
}

impl View for RuntimeSession {
    type V = Seq<DeviceGenerationId>;

    /// The pinned generations, in the order in which they were pinned.
    closed spec fn view(&self) -> Seq<DeviceGenerationId> {
        Seq::new(self.leases@.len(), |i: int| self.leases@[i]@->0)
    }
}

impl RuntimeSession {
    /// Each pinned generation is pinned once, by a lease of its own.
    pub closed spec fn wf(&self) -> bool {
        &&& forall|i: int| 0 <= i < self.leases@.len() ==> (#[trigger] self.leases@[i])@ is Some
        &&& forall|i: int|
            0 <= i < self.leases@.len() ==> self.generations@.contains(
                ((#[trigger] self.leases@[i])@->0).0,
            )
        &&& forall|id: u64| #[trigger]
            self.generations@.contains(id) ==> exists|i: int|
                0 <= i < self.leases@.len() && ((#[trigger] self.leases@[i])@->0).0 == id
        &&& self@.no_duplicates()
    }

    /// A session pins each generation once.
    pub proof fn law_pins_are_distinct(&self)
        requires
            self.wf(),
        ensures
            self@.no_duplicates(),
    {
    }

    /// Creates an empty runtime session.
    pub fn new() -> (session: Self)
        ensures
            session.wf(),
            session@ == Seq::<DeviceGenerationId>::empty(),
    {
        let session = RuntimeSession { leases: Vec::new(), generations: HashSet::new() };
        assert(session@ =~= Seq::<DeviceGenerationId>::empty());
        session
    }

    /// The session once a generation is pinned, if it was not.
    pub open spec fn pinned(pins: Seq<DeviceGenerationId>, id: Option<DeviceGenerationId>) -> Seq<
        DeviceGenerationId,
    > {
        match id {
            Some(id) => if pins.contains(id) {
                pins
            } else {
                pins.push(id)
            },
            None => pins,
        }
    }

    /// Takes over a client that was just loaded, and pins its generation in this session.
    pub fn client(&mut self, client: ComputeClient, runtime: &mut DeviceRuntime) -> (loaded:
        ComputeClient)
        requires
            old(self).wf(),
            old(runtime).wf(),
            client@ is Some ==> old(runtime)@.generations.contains_key((client@->0).0),
        ensures
            loaded@ == client@,
            final(self).wf(),
            final(runtime).wf(),
            final(self)@ == RuntimeSession::pinned(old(self)@, client@),
            final(runtime)@ == (if client@ is Some && !old(self)@.contains(client@->0) {
                old(runtime)@.with_generation(
                    old(runtime)@.generations[(client@->0).0].leased(),
                )
            } else {
                old(runtime)@
            }),
    {
        self.pin(&client, runtime);
        client
    }

    /// Pins an existing client's generation.
    ///
    /// Returns `true` when this call adds a new generation and `false` when that generation was
    /// already covered or the client has no stateful device-runner generation.
    pub fn pin(&mut self, client: &ComputeClient, runtime: &mut DeviceRuntime) -> (added: bool)
        requires
            old(self).wf(),
            old(runtime).wf(),
            client@ is Some ==> old(runtime)@.generations.contains_key((client@->0).0),
        ensures
            added == (client@ is Some && !old(self)@.contains(client@->0)),
            final(self).wf(),
            final(runtime).wf(),
            final(self)@ == RuntimeSession::pinned(old(self)@, client@),
            final(runtime)@ == (if added {
                old(runtime)@.with_generation(
                    old(runtime)@.generations[(client@->0).0].leased(),
                )
            } else {
                old(runtime)@
            }),
    {
        let id = match client.generation_id() {
            Some(id) => id,
            None => {
                return false;
            },
        };
        proof {
            let pins = self@;
            if self.generations@.contains(id.0) {
                let i = choose|i: int|
                    0 <= i < self.leases@.len() && ((#[trigger] self.leases@[i])@->0).0 == id.0;
                assert(pins[i] == id);
            }
            if pins.contains(id) {
                let i = choose|i: int| 0 <= i < pins.len() && pins[i] == id;
                assert((self.leases@[i]@->0).0 == id.0);
            }
        }
        let ghost before = self.leases@;
        let ghost known = self.generations@;
        if !self.generations.insert(id.0) {
            assert(self.generations@ =~= known);
            return false;
        }
        self.leases.push(client.clone_lease(runtime));
        proof {
            assert(self@ =~= old(self)@.push(id));
            assert(!old(self)@.contains(id));
            assert forall|i: int| 0 <= i < self.leases@.len() implies self.generations@.contains(
                ((#[trigger] self.leases@[i])@->0).0,
            ) by {
                if i < before.len() {
                    assert(known.contains((before[i]@->0).0));
                }
            }
            assert forall|n: u64| #[trigger] self.generations@.contains(n) implies exists|i: int|
                0 <= i < self.leases@.len() && ((#[trigger] self.leases@[i])@->0).0 == n by {
                if n == id.0 {
                    assert((self.leases@[before.len() as int]@->0).0 == n);
                } else {
                    assert(known.contains(n));
                    let i = choose|i: int|
                        0 <= i < before.len() && ((#[trigger] before[i])@->0).0 == n;
                    assert((self.leases@[i]@->0).0 == n);
                }
            }
            assert forall|i: int| 0 <= i < self.leases@.len() implies (
            #[trigger] self.leases@[i])@ is Some by {
                if i < before.len() {
                    assert(before[i]@ is Some);
                }
            }
            assert forall|i: int, j: int| 0 <= i < j < self@.len() implies self@[i] != self@[j] by {
                if j == before.len() {
                    assert(old(self)@[i] == self@[i]);
                    assert(old(self)@.contains(self@[i]));
                } else {
                    assert(old(self)@[i] != old(self)@[j]);
                }
            }
        }
        true
    }

    /// Returns the number of distinct device-runner generations pinned by this session.
    pub fn num_pinned_generations(&self) -> (count: usize)
        ensures
            count == self@.len(),
    {
        self.leases.len()
    }

    /// Ends the session: hands out its leases, each to be released, in the order in which the
    /// generations were pinned. What that comes to is summed up by [`summarize_releases`].
    pub fn shutdown(self) -> (leases: Vec<DeviceLease>)
        requires
            self.wf(),
        ensures
            leases@.len() == self@.len(),
            forall|i: int|
                0 <= i < leases@.len() ==> (#[trigger] leases@[i])@ == Some(self@[i]),
    {
        self.leases
    }
}

/// Error returned when a process-wide runtime guard already exists.
#[derive(Clone, Copy, Debug, PartialEq, Eq, Structural)]
pub struct RuntimeGuardError;

impl RuntimeGuardError {
    /// Describes the error.
    pub fn message(&self) -> (text: String)
        ensures
            text@ == "a CubeCL runtime guard is already active"@,
    {
        String::from_str("a CubeCL runtime guard is already active")
    }
}

/// The one place for a guard in a process.
#[derive(Clone, Copy, Debug, PartialEq, Eq, Structural)]
pub struct GuardSlot {
    /// Whether a guard is active.
    pub acquired: bool,
}

impl GuardSlot {
    /// The place is free for a guard.
    pub open spec fn is_free(self) -> bool {
        !self.acquired
    }

    /// The place after a guard was asked for.
    pub open spec fn asked(self) -> Self {
        GuardSlot { acquired: true }
    }

    /// The place after a guard let go, whether it was active or not.
    pub open spec fn left(self, active: bool) -> Self {
        GuardSlot { acquired: self.acquired && !active }
    }
}

/// There is one guard at a time: who asks while there is one is refused, which changes nothing, and
/// the place is free again once the guard has let go; letting go again takes it from nobody.
pub proof fn law_one_guard_at_a_time(slot: GuardSlot)
    ensures
        !slot.asked().is_free(),
        !slot.is_free() ==> slot.asked() == slot,
        slot.asked().left(true).is_free(),
        slot.left(false) == slot,
{
}

/// Process-wide guard that shuts down device services when it is let go of.
///
/// Acquire this guard before creating runtime clients, and let go of it after them.
#[must_use]
pub struct RuntimeGuard {
    active: bool,
}

impl RuntimeGuard {
    /// The guard takes the place for a guard.
    pub closed spec fn is_active(&self) -> bool {
        self.active
    }

    /// Acquires the process-wide runtime guard; fails if another one is active.
    pub fn acquire(slot: &mut GuardSlot) -> (guard: Result<Self, RuntimeGuardError>)
        ensures
            guard is Ok <==> old(slot).is_free(),
            guard matches Ok(guard) ==> guard.is_active(),
            *final(slot) == old(slot).asked(),
    {
        if slot.acquired {
            return Err(RuntimeGuardError);
        }
        slot.acquired = true;
        Ok(RuntimeGuard { active: true })
    }

    /// Ends the guard, once all device services were shut down with `result`: makes place for
    /// another guard and passes the result on.
    pub fn shutdown(
        self,
        slot: &mut GuardSlot,
        result: Result<(), DeviceServicesShutdownError>,
    ) -> (outcome: Result<(), DeviceServicesShutdownError>)
        ensures
            outcome == result,
            *final(slot) == old(slot).left(self.is_active()),
    {
        let mut guard = self;
        guard.release(slot);
        result
    }

    /// Makes place for another guard, once.
    pub fn release(&mut self, slot: &mut GuardSlot)
        ensures
            !final(self).is_active(),
            *final(slot) == old(slot).left(old(self).is_active()),
    {
        if self.active {
            self.active = false;
            slot.acquired = false;
        }
    }
}

/// Starts to shut down and join every device service.
///
/// Callers must stop creating clients and submitting work before calling this function. A new
/// runtime generation may be initialized after the shutdown is over.
pub fn shutdown() -> (shutdown: ServicesShutdown)
    ensures
        shutdown@ == ShutdownView::init(None),
{
    shutdown_device_services()
}

} // verus!
