//! An operator that passes a number around a ring of namespaces.

use crate::clock::{now_millis, now_nanos, LAST_NANO};
use crate::crd::Metadata;
use crate::examples::simple_controller::{numbers, numbers_from, timecode};
use crate::text::{parse_uint, uint_of};
use vstd::prelude::*;
use vstd::string::*;

verus! {

/// What a `RingTestResource` is to be.  The time is in nanoseconds since the
/// start of 1970.
#[derive(Clone, Copy, Debug, PartialEq, Eq, Structural)]
pub struct RingTestResourceSpec {
    pub nonce: i64,
    pub updated_at: Option<i128>,
    pub reconcile_count: Option<i64>,
}

/// When a resource is looked at next.
#[derive(Clone, Copy, Debug, PartialEq, Eq, Structural)]
pub enum Action {
    /// When it changes.
    AwaitChange,
    /// After so many seconds.
    Requeue(u64),
}

/// Why a reconcile failed.
#[derive(Debug)]
pub enum Error {
    KubeError(String),
}

impl Error {
    /// Says why a reconcile failed.
    pub fn text(&self) -> (s: String)
        ensures
            s@ == (match self {
                Error::KubeError(words) => "Kubernetes API error: "@ + words@,
            }),
    {
        match self {
            Error::KubeError(words) => "Kubernetes API error: ".to_owned().concat(words.as_str()),
        }
    }
}

/// How a reconcile begins.
#[derive(Debug)]
pub enum FirstStep {
    /// It is done.
    Done(Action),
    /// Fetch the resource of this name in this namespace.
    Fetch(String, String),
}

/// How a reconcile goes on once the next resource was fetched.
#[derive(Debug)]
pub enum NextStep {
    /// It is done.
    Done(Action),
    /// Write this to the next resource.
    Patch(ApplyPatch),
}

/// A patch that applies to a resource, in the name of a field manager and, where
/// it is forced, over what others manage.
#[derive(Debug)]
pub struct ApplyPatch {
    pub name: String,
    pub namespace: String,
    pub manager: String,
    pub force: bool,
    pub spec: RingTestResourceSpec,
}

/// The operator, with what it keeps.
pub struct Data {
    out_namespace: String,
    counter: i64,
    huge_mem_alloc: Vec<u32>,
}

/// A number and the one after it; after the largest comes the smallest.
pub open spec fn following(nonce: i64) -> i64 {
    vstd::wrapping::i64_specs::wrapping_add(nonce, 1)
}

/// How many numbers a setting asks for that says how many mebibytes to keep in
/// memory; none where it does not say.
pub open spec fn heap_numbers(setting: Seq<char>) -> nat {
    match uint_of(setting, usize::MAX as nat) {
        Ok(mib) => (mib / 4) * 1_048_576,
        Err(_) => 0,
    }
}

/// Reads how many numbers to keep in memory; `None` where they are too many to
/// be counted in 32 bits.
pub fn heap_size(setting: &str) -> (r: Option<usize>)
    ensures
        match r {
            Some(n) => n == heap_numbers(setting@) && n <= u32::MAX,
            None => heap_numbers(setting@) > u32::MAX,
        },
{
    match parse_uint(setting, usize::MAX as u64) {
        Ok(mib) => {
            if mib / 4 > 4095 {
                None
            } else {
                Some(((mib / 4) * 1_048_576) as usize)
            }
        },
        Err(_) => Some(0),
    }
}

impl Data {
    /// The namespace that the number is passed on to.
    pub closed spec fn out(self) -> Seq<char> {
        self.out_namespace@
    }

    /// How often the number was passed on.
    pub closed spec fn count(self) -> i64 {
        self.counter
    }

    /// What is kept in memory.
    pub closed spec fn memory(self) -> Seq<u32> {
        self.huge_mem_alloc@
    }

    /// Sets the operator up, now.
    pub fn new(out_namespace: String, heap: usize) -> (r: Data)
        requires
            heap <= u32::MAX,
        ensures
            r.out() == out_namespace@,
            r.count() == 0,
            exists|now_ms: i64|
                now_ms >= 0 && r.memory() == numbers_from(#[trigger] timecode(now_ms), heap as nat),
    {
        let now: i64 = now_millis();
        Data::new_at(out_namespace, heap, now)
    }

    /// Sets the operator up, with so many numbers in memory.
    pub fn new_at(out_namespace: String, heap: usize, now_ms: i64) -> (r: Data)
        requires
            heap <= u32::MAX,
            now_ms >= 0,
        ensures
            r.out() == out_namespace@,
            r.count() == 0,
            r.memory() == numbers_from(timecode(now_ms), heap as nat),
    {
        let first: u32 = (now_ms % 0x1_0000_0000) as u32;
        Data { out_namespace, counter: 0, huge_mem_alloc: numbers(first, heap) }
    }

    /// The namespace that the number is passed on to.
    pub fn out_namespace(&self) -> (s: String)
        ensures
            s@ == self.out(),
    {
        self.out_namespace.clone()
    }

    /// Begins a reconcile: a number of 0 is not passed on.
    pub fn reconcile(&self, metadata: &Metadata, spec: &RingTestResourceSpec) -> (r: FirstStep)
        ensures
            begun(*metadata, *spec, self.out(), r),
    {
        if spec.nonce == 0 {
            FirstStep::Done(Action::AwaitChange)
        } else {
            FirstStep::Fetch(metadata.name_any(), self.out_namespace.clone())
        }
    }

    /// Goes on with a reconcile, now, once the next resource was fetched or could
    /// not be.
    pub fn fetched(
        &mut self,
        metadata: &Metadata,
        spec: &RingTestResourceSpec,
        out: Result<RingTestResourceSpec, String>,
    ) -> (r: Result<NextStep, Error>)
        ensures
            exists|now_ns: i128|
                0 <= now_ns <= LAST_NANO && #[trigger] gone_on(
                    *metadata,
                    *spec,
                    out,
                    now_ns,
                    *old(self),
                    *final(self),
                    r,
                ),
    {
        let now: i128 = now_nanos();
        self.fetched_at(metadata, spec, out, now)
    }

    /// Goes on with a reconcile, once the next resource was fetched or could not
    /// be.
    pub fn fetched_at(
        &mut self,
        metadata: &Metadata,
        spec: &RingTestResourceSpec,
        out: Result<RingTestResourceSpec, String>,
        now_ns: i128,
    ) -> (r: Result<NextStep, Error>)
        ensures
            gone_on(*metadata, *spec, out, now_ns, *old(self), *final(self), r),
    {
        match out {
            Err(words) => Err(Error::KubeError(words)),
            Ok(out) => match self.pass_on_at(spec, &out, now_ns) {
                None => Ok(NextStep::Done(Action::AwaitChange)),
                Some(next) => Ok(
                    NextStep::Patch(
                        ApplyPatch {
                            name: metadata.name_any(),
                            namespace: self.out_namespace.clone(),
                            manager: "RingTestResource".to_owned(),
                            force: true,
                            spec: next,
                        },
                    ),
                ),
            },
        }
    }

    /// Passes the number on: tells what the next resource is to be, unless it is
    /// that already.
    pub fn pass_on_at(
        &mut self,
        spec: &RingTestResourceSpec,
        out: &RingTestResourceSpec,
        now_ns: i128,
    ) -> (r: Option<RingTestResourceSpec>)
        ensures
            passed_on(*spec, *out, now_ns, *old(self), *final(self), r),
    {
        let next: i64 = spec.nonce.wrapping_add(1);
        if out.nonce == next {
            return None;
        }
        self.counter = self.counter.wrapping_add(1);
        Some(
            RingTestResourceSpec {
                nonce: next,
                updated_at: Some(now_ns),
                reconcile_count: Some(self.counter),
            },
        )
    }
}

/// What passing a number on leads to.
pub open spec fn passed_on(
    spec: RingTestResourceSpec,
    out: RingTestResourceSpec,
    now_ns: i128,
    before: Data,
    after: Data,
    r: Option<RingTestResourceSpec>,
) -> bool {
    &&& after.out() == before.out()
    &&& after.memory() == before.memory()
    &&& if out.nonce == following(spec.nonce) {
        r is None && after.count() == before.count()
    } else {
        &&& after.count() == following(before.count())
        &&& r == Some(
            RingTestResourceSpec {
                nonce: following(spec.nonce),
                updated_at: Some(now_ns),
                reconcile_count: Some(after.count()),
            },
        )
    }
}

/// How a reconcile begins, by the namespace that the number is passed on to.
pub open spec fn begun(
    metadata: Metadata,
    spec: RingTestResourceSpec,
    out_namespace: Seq<char>,
    r: FirstStep,
) -> bool {
    if spec.nonce == 0 {
        r == FirstStep::Done(Action::AwaitChange)
    } else {
        r matches FirstStep::Fetch(name, namespace) && name@ == metadata.any_name() && namespace@
            == out_namespace
    }
}

/// How a reconcile goes on.  Where the next resource could not be fetched, that
/// is the error; where it has the number, nothing is left to do.
pub open spec fn gone_on(
    metadata: Metadata,
    spec: RingTestResourceSpec,
    out: Result<RingTestResourceSpec, String>,
    now_ns: i128,
    before: Data,
    after: Data,
    r: Result<NextStep, Error>,
) -> bool {
    match out {
        Err(words) => r == Err::<NextStep, Error>(Error::KubeError(words)) && after == before,
        Ok(out) => match r {
            Err(_) => false,
            Ok(NextStep::Done(action)) => action == Action::AwaitChange && passed_on(
                spec,
                out,
                now_ns,
                before,
                after,
                None,
            ),
            Ok(NextStep::Patch(patch)) => {
                &&& passed_on(spec, out, now_ns, before, after, Some(patch.spec))
                &&& patch.name@ == metadata.any_name()
                &&& patch.namespace@ == before.out()
                &&& patch.manager@ == "RingTestResource"@
                &&& patch.force
            },
        },
    }
}

/// How a reconcile ends whose patch was to be written: well, whether or not it
/// was.
pub open spec fn ended(outcome: Result<(), String>) -> Result<Action, Error> {
    Ok(Action::AwaitChange)
}

/// Ends a reconcile whose patch was to be written.
pub fn patched(outcome: Result<(), String>) -> (r: Result<Action, Error>)
    ensures
        r == ended(outcome),
{
    Ok(Action::AwaitChange)
}

/// When a resource is looked at again whose reconcile failed.
pub fn error_policy() -> (r: Action)
    ensures
        r == Action::Requeue(1),
{
    Action::Requeue(1)
}

/// A number that was passed on is not passed on again.
pub proof fn numbers_are_passed_on_once(
    spec: RingTestResourceSpec,
    out: RingTestResourceSpec,
    now_ns: i128,
    again_ns: i128,
    first: Data,
    second: Data,
    third: Data,
    r: Option<RingTestResourceSpec>,
    s: Option<RingTestResourceSpec>,
)
    requires
        passed_on(spec, out, now_ns, first, second, r),
        r is Some,
        passed_on(spec, r->0, again_ns, second, third, s),
    ensures
        s is None,
        third.count() == second.count(),
{
}

/// A number is passed on as it should be.  One of 0 is not, nor one that the next
/// resource has already: nothing is written or counted, and the reconcile ends
/// well.  A resource that could not be fetched is the error, and nothing is
/// counted.  Any other number is counted and written by one forced patch, and the
/// reconcile ends well even if that fails.
pub proof fn numbers_are_passed_on_in_turn(
    metadata: Metadata,
    spec: RingTestResourceSpec,
    first: FirstStep,
    out: Result<RingTestResourceSpec, String>,
    now_ns: i128,
    before: Data,
    after: Data,
    r: Result<NextStep, Error>,
    outcome: Result<(), String>,
)
    requires
        begun(metadata, spec, before.out(), first),
        gone_on(metadata, spec, out, now_ns, before, after, r),
        spec.nonce < i64::MAX,
        before.count() < i64::MAX,
    ensures
        spec.nonce == 0 <==> first == FirstStep::Done(Action::AwaitChange),
        out matches Err(words) ==> r == Err::<NextStep, Error>(Error::KubeError(words))
            && after.count() == before.count(),
        out matches Ok(o) && o.nonce == spec.nonce + 1 ==> r == Ok::<NextStep, Error>(
            NextStep::Done(Action::AwaitChange),
        ) && after.count() == before.count(),
        out matches Ok(o) && o.nonce != spec.nonce + 1 ==> {
            &&& r matches Ok(NextStep::Patch(patch))
            &&& patch.force
            &&& patch.spec.nonce == spec.nonce + 1
            &&& patch.spec.reconcile_count == Some((before.count() + 1) as i64)
            &&& after.count() == before.count() + 1
        },
        ended(outcome) == Ok::<Action, Error>(Action::AwaitChange),
{
}

/// The number after another is one more, and the one after the largest is the
/// smallest; no two numbers come before the same one.
pub proof fn numbers_go_round(nonce: i64, other: i64)
    ensures
        nonce < i64::MAX ==> following(nonce) == nonce + 1,
        following(i64::MAX) == i64::MIN,
        following(nonce) == following(other) ==> nonce == other,
{
}

/// A setting in digits asks for as many numbers of four bytes as fill the mebibytes
/// that it says, in steps of four; any other asks for none.
pub proof fn settings_ask_for_memory(mib: nat, text: Seq<char>)
    ensures
        mib <= usize::MAX ==> heap_numbers(crate::text::dec_text(mib)) * 4 <= mib * 1_048_576 < (
        heap_numbers(crate::text::dec_text(mib)) + 1_048_576) * 4,
        uint_of(text, usize::MAX as nat) is Err ==> heap_numbers(text) == 0,
{
    if mib <= usize::MAX {
        crate::text::numbers_are_read_back(mib, usize::MAX as nat);
    }
}

/// A number is written with the time and with how often numbers were passed on, to
/// the resource of the same name in the namespace that it is passed on to; what the
/// operator keeps in memory and where it passes numbers to does not change.
pub proof fn passed_numbers_say_where_and_when(
    metadata: Metadata,
    spec: RingTestResourceSpec,
    out: Result<RingTestResourceSpec, String>,
    now_ns: i128,
    before: Data,
    after: Data,
    r: Result<NextStep, Error>,
)
    requires
        gone_on(metadata, spec, out, now_ns, before, after, r),
    ensures
        after.out() == before.out(),
        after.memory() == before.memory(),
        r matches Ok(NextStep::Patch(patch)) ==> {
            &&& out is Ok
            &&& patch.spec.updated_at == Some(now_ns)
            &&& patch.spec.reconcile_count == Some(after.count())
            &&& patch.spec.nonce != out->Ok_0.nonce
            &&& patch.name@ == metadata.any_name()
            &&& patch.namespace@ == before.out()
            &&& patch.manager@ == "RingTestResource"@
            &&& patch.force
        },
        r is Err <==> out is Err,
{
}

/// The number that is looked at first is that of the resource of the same name in
/// the next namespace, whatever else is known of it.
pub proof fn the_next_resource_is_looked_at(
    metadata: Metadata,
    spec: RingTestResourceSpec,
    out_namespace: Seq<char>,
    r: FirstStep,
)
    requires
        begun(metadata, spec, out_namespace, r),
    ensures
        spec.nonce == 0 <==> r is Done,
        r matches FirstStep::Done(action) ==> action is AwaitChange,
        r matches FirstStep::Fetch(name, namespace) ==> name@ == metadata.any_name() && namespace@
            == out_namespace,
{
}

} // verus!
