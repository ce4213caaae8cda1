//! The services that live on one runner thread.

use crate::initialization::ServiceOutcome;
use crate::key_map::KeyMap;
use vstd::prelude::*;

verus! {

/// Why a task cannot be run on a service.
#[derive(Clone, Copy, Debug, PartialEq, Eq, Structural)]
pub enum ActOnError {
    /// A service is being initialized, or all are being shut down, further up on the same thread.
    Busy,
    /// The service is not there.
    NotFound,
    /// A task already runs on the service, further up on the same thread.
    AlreadyBorrowed,
}

/// What is to be done to have a service on the thread.
#[derive(Clone, Copy, Debug, PartialEq, Eq, Structural)]
pub enum InitializeService {
    /// Nothing, and this is how it ends.
    Finished(ServiceOutcome),
    /// Make the service, unless the caller brought it; then report to
    /// [`ServiceStates::end_initialize`].
    Create,
}

/// The services that live on one runner thread, and who uses them.
pub struct ServiceStates {
    services: KeyMap,
    borrowed: KeyMap,
    busy: bool,
    acting: usize,
}

/// What is known of the services of a thread.
#[verifier::ext_equal]
pub struct StatesView {
    /// For each service, the number of its utilities.
    pub services: Map<u128, u64>,
    /// The services on which a task runs.
    pub borrowed: Set<u128>,
    /// Whether a service is being initialized, or all are being shut down.
    pub busy: bool,
    /// Number of tasks that run on services, one inside the other.
    pub acting: usize,
}

impl View for ServiceStates {
    type V = StatesView;

    closed spec fn view(&self) -> StatesView {
        StatesView {
            services: self.services@,
            borrowed: self.borrowed@.dom(),
            busy: self.busy,
            acting: self.acting,
        }
    }
}

impl StatesView {
    /// The service is there.
    pub open spec fn has(self, service: u64) -> bool {
        self.services.contains_key(service as u128)
    }

    /// A task runs on the service.
    pub open spec fn is_borrowed(self, service: u64) -> bool {
        self.borrowed.contains(service as u128)
    }

    /// Whether a task can be run on a service.
    pub open spec fn act_on_spec(self, service: u64) -> Result<(), ActOnError> {
        if self.busy {
            Err(ActOnError::Busy)
        } else if !self.has(service) {
            Err(ActOnError::NotFound)
        } else if self.is_borrowed(service) {
            Err(ActOnError::AlreadyBorrowed)
        } else {
            Ok(())
        }
    }

    /// The services while a task runs on one of them.
    pub open spec fn acted_on(self, service: u64) -> Self {
        StatesView {
            borrowed: self.borrowed.insert(service as u128),
            acting: (self.acting + 1) as usize,
            ..self
        }
    }

    /// The services once the task on one of them is over.
    pub open spec fn given_back(self, service: u64) -> Self {
        StatesView {
            borrowed: self.borrowed.remove(service as u128),
            acting: (self.acting - 1) as usize,
            ..self
        }
    }

    /// What is to be done to have a service on the thread; `given` when the caller brings it.
    pub open spec fn initialize_spec(self, service: u64, given: bool) -> InitializeService {
        if self.busy || self.acting > 0 {
            InitializeService::Finished(ServiceOutcome::Panicked)
        } else if !self.has(service) {
            InitializeService::Create
        } else if given {
            InitializeService::Finished(ServiceOutcome::AlreadyInitialized)
        } else {
            InitializeService::Finished(
                ServiceOutcome::Ready { utilities: self.services[service as u128] },
            )
        }
    }

    /// The services once one was made.
    pub open spec fn made(self, service: u64, utilities: u64) -> Self {
        StatesView {
            services: self.services.insert(service as u128, utilities),
            busy: false,
            ..self
        }
    }
}

impl ServiceStates {
    /// A thread without services.
    pub fn new() -> (states: Self)
        ensures
            states@ == (StatesView {
                services: Map::empty(),
                borrowed: Set::empty(),
                busy: false,
                acting: 0,
            }),
    {
        let states = ServiceStates {
            services: KeyMap::new(),
            borrowed: KeyMap::new(),
            busy: false,
            acting: 0,
        };
        assert(states@.borrowed =~= Set::<u128>::empty());
        states
    }

    /// Begins to run a task on a service. Where that is refused the task panics.
    pub fn act_on(&mut self, service: u64) -> (result: Result<(), ActOnError>)
        requires
            old(self)@.acting < usize::MAX,
        ensures
            result == old(self)@.act_on_spec(service),
            result is Ok <==> !old(self)@.busy && old(self)@.has(service) && !old(
                self,
            )@.is_borrowed(service),
            result is Ok ==> final(self)@.is_borrowed(service),
            final(self)@.services == old(self)@.services,
            final(self)@ == (if result is Ok {
                old(self)@.acted_on(service)
            } else {
                old(self)@
            }),
    {
        if self.busy {
            return Err(ActOnError::Busy);
        }
        if self.services.get(service as u128).is_none() {
            return Err(ActOnError::NotFound);
        }
        if self.borrowed.get(service as u128).is_some() {
            return Err(ActOnError::AlreadyBorrowed);
        }
        self.borrowed.insert(service as u128, 1);
        self.acting = self.acting + 1;
        assert(self@ =~= old(self)@.acted_on(service));
        Ok(())
    }

    /// The task that ran on a service is over, whether it panicked or not.
    pub fn end_act_on(&mut self, service: u64)
        requires
            old(self)@.acting > 0,
        ensures
            final(self)@ == old(self)@.given_back(service),
    {
        self.borrowed.remove(service as u128);
        self.acting = self.acting - 1;
        assert(self@ =~= old(self)@.given_back(service));
    }

    /// Begins to have a service on the thread; `given` when the caller brings it.
    pub fn initialize(&mut self, service: u64, given: bool) -> (next: InitializeService)
        ensures
            next == old(self)@.initialize_spec(service, given),
            next is Create <==> !old(self)@.busy && old(self)@.acting == 0 && !old(self)@.has(
                service,
            ),
            final(self)@.services == old(self)@.services,
            final(self)@ == (if next is Create {
                StatesView { busy: true, ..old(self)@ }
            } else {
                old(self)@
            }),
    {
        if self.busy || self.acting > 0 {
            return InitializeService::Finished(ServiceOutcome::Panicked);
        }
        match self.services.get(service as u128) {
            Some(utilities) => {
                if given {
                    InitializeService::Finished(ServiceOutcome::AlreadyInitialized)
                } else {
                    InitializeService::Finished(ServiceOutcome::Ready { utilities })
                }
            },
            None => {
                self.busy = true;
                InitializeService::Create
            },
        }
    }

    /// The service was made, with the number of its utilities, or making it panicked.
    pub fn end_initialize(&mut self, service: u64, utilities: Option<u64>) -> (outcome:
        ServiceOutcome)
        ensures
            match utilities {
                Some(utilities) => {
                    &&& outcome == (ServiceOutcome::Ready { utilities })
                    &&& final(self)@ == old(self)@.made(service, utilities)
                },
                None => {
                    &&& outcome == ServiceOutcome::Panicked
                    &&& final(self)@ == (StatesView { busy: false, ..old(self)@ })
                },
            },
    {
        self.busy = false;
        match utilities {
            Some(utilities) => {
                self.services.insert(service as u128, utilities);
                ServiceOutcome::Ready { utilities }
            },
            None => ServiceOutcome::Panicked,
        }
    }

    /// Lists the services, each of which is to be shut down, in no particular order; then report to
    /// [`ServiceStates::end_shutdown`]. Meanwhile no task can be run on a service.
    pub fn shutdown_service_states(&mut self) -> (services: Vec<u128>)
        requires
            !old(self)@.busy,
            old(self)@.acting == 0,
        ensures
            services@.no_duplicates(),
            services@.to_set() == old(self)@.services.dom(),
            final(self)@ == (StatesView { busy: true, ..old(self)@ }),
    {
        self.busy = true;
        self.services.keys()
    }

    /// The services were shut down, and are forgotten.
    pub fn end_shutdown(&mut self)
        ensures
            final(self)@ == (StatesView {
                services: Map::empty(),
                busy: false,
                ..old(self)@
            }),
    {
        self.services.clear();
        self.busy = false;
    }
}

/// A service that was made is there for every later task and is not made again: who asks for it
/// gets the utilities that it was made with. A task that is over gives the service back.
pub proof fn law_service_is_made_once(
    before: StatesView,
    service: u64,
    given: bool,
    utilities: u64,
)
    requires
        before.initialize_spec(service, given) is Create,
        !before.is_borrowed(service),
    ensures
        ({
            let after = before.made(service, utilities);
            let acting = after.acted_on(service);
            &&& after.has(service)
            &&& after.initialize_spec(service, false) == InitializeService::Finished(
                ServiceOutcome::Ready { utilities },
            )
            &&& after.initialize_spec(service, true) == InitializeService::Finished(
                ServiceOutcome::AlreadyInitialized,
            )
            &&& after.act_on_spec(service) is Ok
            &&& acting.act_on_spec(service) == Err::<(), ActOnError>(ActOnError::AlreadyBorrowed)
            &&& acting.given_back(service) == after
        }),
{
    let after = before.made(service, utilities);
    assert(after.acted_on(service).given_back(service) =~= after);
}

/// A task is run on a service exactly if the service is there, no task runs on it, and nothing is
/// being initialized or shut down. Each refusal says which of these it was.
pub proof fn law_task_needs_a_free_service(view: StatesView, service: u64)
    ensures
        view.act_on_spec(service) is Ok <==> !view.busy && view.services.contains_key(
            service as u128,
        ) && !view.borrowed.contains(service as u128),
        view.act_on_spec(service) == Err::<(), ActOnError>(ActOnError::Busy) <==> view.busy,
        view.act_on_spec(service) == Err::<(), ActOnError>(ActOnError::NotFound) <==> !view.busy
            && !view.services.contains_key(service as u128),
        view.act_on_spec(service) == Err::<(), ActOnError>(ActOnError::AlreadyBorrowed)
            <==> !view.busy && view.services.contains_key(service as u128)
            && view.borrowed.contains(service as u128),
{
}

/// A service is made exactly if it is not there and the thread does nothing else; a thread that
/// does something else panics. A service that is there is handed out with its utilities, unless the
/// caller brings one of its own.
pub proof fn law_service_is_made_on_an_idle_thread(view: StatesView, service: u64, given: bool)
    ensures
        ({
            let next = view.initialize_spec(service, given);
            let idle = !view.busy && view.acting == 0;
            let there = view.services.contains_key(service as u128);
            &&& next is Create <==> idle && !there
            &&& next == InitializeService::Finished(ServiceOutcome::Panicked) <==> !idle
            &&& next == InitializeService::Finished(ServiceOutcome::AlreadyInitialized) <==> idle
                && there && given
            &&& idle && there && !given ==> next == InitializeService::Finished(
                ServiceOutcome::Ready { utilities: view.services[service as u128] },
            )
        }),
{
}

/// A task on a service, and the making of one, leave every other service as it is.
pub proof fn law_services_are_apart(
    view: StatesView,
    service: u64,
    other: u64,
    utilities: u64,
)
    requires
        service != other,
        view.acting < usize::MAX,
    ensures
        ({
            let acting = view.acted_on(service);
            let made = view.made(service, utilities);
            &&& acting.is_borrowed(service)
            &&& acting.is_borrowed(other) <==> view.is_borrowed(other)
            &&& acting.services == view.services
            &&& acting.acting == view.acting + 1
            &&& acting.busy == view.busy
            &&& made.has(other) <==> view.has(other)
            &&& view.has(other) ==> made.services[other as u128] == view.services[other as u128]
            &&& made.services[service as u128] == utilities
            &&& made.borrowed == view.borrowed
            &&& !made.busy
        }),
{
}

} // verus!
