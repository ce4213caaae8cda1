//! Errors of device runners and of the services that they host.

use crate::decimal::decimal;
use crate::ids::DeviceGenerationId;
use vstd::prelude::*;
use vstd::string::StringExecFns;

verus! {

use crate::decimal::{decimal_digits, lemma_cut_first_number};

/// An error happened while executing a call.
#[derive(Clone, Copy, Debug, PartialEq, Eq, Structural)]
pub struct CallError;

/// Error returned when one or more device runners fail during shutdown.
#[derive(Debug, PartialEq, Eq, Structural)]
pub struct DeviceServicesShutdownError {
    runner_panics: usize,
}

impl DeviceServicesShutdownError {
    /// The number of runner threads that panicked.
    pub closed spec fn panics(&self) -> usize {
        self.runner_panics
    }

    /// Creates a shutdown error for the number of runner threads that panicked.
    pub fn new(runner_panics: usize) -> (error: Self)
        ensures
            error.panics() == runner_panics,
    {
        DeviceServicesShutdownError { runner_panics }
    }

    /// Returns the number of runner threads that panicked.
    pub fn runner_panics(&self) -> (panics: usize)
        ensures
            panics == self.panics(),
    {
        self.runner_panics
    }

    /// Describes the error.
    pub fn message(&self) -> (text: String)
        ensures
            text@ == decimal_digits(self.panics() as nat)
                + " device runner thread(s) failed during shutdown"@,
    {
        let mut text = decimal(self.runner_panics as u64);
        text.append(" device runner thread(s) failed during shutdown");
        text
    }
}

/// Error when creating a service.
#[derive(Debug)]
pub struct ServiceCreationError {
    reason: String,
}

impl Clone for ServiceCreationError {
    fn clone(&self) -> (error: Self)
        ensures
            error@ == self@,
    {
        ServiceCreationError { reason: self.reason.clone() }
    }
}

impl View for ServiceCreationError {
    type V = Seq<char>;

    closed spec fn view(&self) -> Seq<char> {
        self.reason@
    }
}

impl ServiceCreationError {
    /// Creates an error with a reason.
    pub fn new(reason: String) -> (error: Self)
        ensures
            error@ == reason@,
    {
        ServiceCreationError { reason }
    }

    /// Returns why the service was not created.
    pub fn reason(&self) -> (reason: &str)
        ensures
            reason@ == self@,
    {
        self.reason.as_str()
    }
}

/// Error returned when a released lease closes a panicked runner.
#[derive(Debug, PartialEq, Eq, Structural)]
pub struct DeviceLeaseReleaseError {
    generation_id: DeviceGenerationId,
}

impl DeviceLeaseReleaseError {
    /// The affected generation.
    pub closed spec fn generation(&self) -> DeviceGenerationId {
        self.generation_id
    }

    /// The runner of the generation panicked before it was closed.
    pub fn closed_with_runner_panic(generation_id: DeviceGenerationId) -> (error: Self)
        ensures
            error.generation() == generation_id,
    {
        DeviceLeaseReleaseError { generation_id }
    }

    /// Returns the affected generation.
    pub fn generation_id(&self) -> (id: DeviceGenerationId)
        ensures
            id == self.generation(),
    {
        self.generation_id
    }

    /// Describes the error.
    pub fn message(&self) -> (text: String)
        ensures
            text@ == "device runner generation DeviceGenerationId("@ + decimal_digits(
                self.generation().0 as nat,
            ) + ") panicked during shutdown"@,
    {
        let mut text = String::from_str("device runner generation DeviceGenerationId(");
        text.append(decimal(self.generation_id.0).as_str());
        text.append(") panicked during shutdown");
        text
    }
}

/// The message of a failed shutdown begins with the number of runners that panicked, and tells it.
pub proof fn law_message_tells_panics(
    a: &DeviceServicesShutdownError,
    b: &DeviceServicesShutdownError,
    first: String,
    second: String,
)
    requires
        call_ensures(DeviceServicesShutdownError::message, (a,), first),
        call_ensures(DeviceServicesShutdownError::message, (b,), second),
    ensures
        decimal_digits(a.panics() as nat).is_prefix_of(first@),
        first@ == second@ <==> a.panics() == b.panics(),
{
    let tail = " device runner thread(s) failed during shutdown"@;
    reveal_strlit(" device runner thread(s) failed during shutdown");
    let digits = decimal_digits(a.panics() as nat);
    assert(digits =~= first@.take(digits.len() as int));
    if first@ == second@ {
        lemma_cut_first_number(a.panics() as nat, b.panics() as nat, tail, tail);
    }
}

/// The message of a release that closed a panicked runner tells the generation.
pub proof fn law_message_tells_generation(
    a: &DeviceLeaseReleaseError,
    b: &DeviceLeaseReleaseError,
    first: String,
    second: String,
)
    requires
        call_ensures(DeviceLeaseReleaseError::message, (a,), first),
        call_ensures(DeviceLeaseReleaseError::message, (b,), second),
    ensures
        first@ == second@ <==> a.generation() == b.generation(),
{
    let head = "device runner generation DeviceGenerationId("@;
    let tail = ") panicked during shutdown"@;
    reveal_strlit(") panicked during shutdown");
    if first@ == second@ {
        let (x, y) = (
            decimal_digits(a.generation().0 as nat) + tail,
            decimal_digits(b.generation().0 as nat) + tail,
        );
        assert(first@ =~= head + x);
        assert(second@ =~= head + y);
        assert(x =~= first@.skip(head.len() as int));
        assert(y =~= second@.skip(head.len() as int));
        lemma_cut_first_number(
            a.generation().0 as nat,
            b.generation().0 as nat,
            tail,
            tail,
        );
    }
}

} // verus!
