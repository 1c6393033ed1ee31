//! An operator that numbers `TestResource` objects, and keeps a large amount of
//! memory to be saved and restored.

use crate::clock::{now_millis, now_rfc3339};
use crate::outside::{
    is_list, list_bytes, listed_len, listed_number, number_bytes, read_list, rfc3339_full_text,
    write_list, LAST_SECOND,
};
use vstd::prelude::*;
use vstd::string::*;

verus! {

/// What a `TestResource` is to be.
#[derive(Debug)]
pub struct TestResourceSpec {
    pub nonce: i64,
    pub updated_at: Option<String>,
}

/// What the API server keeps of a `TestResource`.
#[derive(Debug)]
pub struct ObjectMeta {
    pub name: String,
    pub namespace: Option<String>,
    pub resource_version: Option<String>,
}

/// A `TestResource`.
#[derive(Debug)]
pub struct TestResource {
    pub api_version: String,
    pub kind: String,
    pub metadata: ObjectMeta,
    pub spec: TestResourceSpec,
}

/// What an operator wants to watch.
#[derive(Debug)]
pub struct WatchRequest {
    pub kind: String,
    pub namespace: String,
}

/// How a reconcile ended.
#[derive(Debug)]
pub enum ReconcileResult {
    Done,
    Error(String),
}

/// What a reconcile does next.
#[derive(Debug)]
pub enum ReconcileStep {
    /// There is nothing to change.
    Done,
    /// List the resources of this kind in this namespace, then write the
    /// resource anew.
    List(String, String),
}

/// What the host is handed to write a resource, besides the resource.
#[derive(Debug)]
pub struct UpdateRequest {
    pub kind: String,
    pub name: String,
    pub namespace: String,
    /// The last argument of the call.
    pub flag: bool,
}

/// How the attempt to write a resource ended.
#[derive(Debug)]
pub enum UpdateOutcome {
    Updated,
    /// The resource could not be written down.
    NotSerialized,
    /// The API server refused it.
    Refused(String),
}

/// How many numbers the operator keeps in memory.
pub const HEAP_MEM_SIZE: usize = 10_485_760;

/// Numbers from a first one on; after the largest comes 0.
pub open spec fn numbers_from(first: u32, n: nat) -> Seq<u32> {
    Seq::new(n, |i: int| vstd::wrapping::u32_specs::wrapping_add(first, i as u32))
}

/// The lower 32 bits of a time.
pub open spec fn timecode(now_ms: i64) -> u32 {
    (now_ms as int % 0x1_0000_0000) as u32
}

/// Writes numbers from a first one on.
pub fn numbers(first: u32, n: usize) -> (r: Vec<u32>)
    requires
        n <= u32::MAX,
    ensures
        r@ == numbers_from(first, n as nat),
{
    let mut r: Vec<u32> = Vec::with_capacity(n);
    let mut i: usize = 0;
    while i < n
        invariant
            i <= n <= u32::MAX,
            r@ == numbers_from(first, i as nat),
        decreases n - i,
    {
        r.push(first.wrapping_add(i as u32));
        i = i + 1;
        assert(r@ =~= numbers_from(first, i as nat));
    }
    r
}

/// The largest of some nonces; 0 where there are none.
pub open spec fn max_nonce(nonces: Seq<i64>) -> i64
    decreases nonces.len(),
{
    if nonces.len() == 0 {
        0
    } else if nonces.len() == 1 || nonces.last() > max_nonce(nonces.drop_last()) {
        nonces.last()
    } else {
        max_nonce(nonces.drop_last())
    }
}

/// The nonce after those that there are: one more than the largest, and the
/// smallest number where there is none larger.
pub open spec fn next_nonce(nonces: Seq<i64>) -> i64 {
    vstd::wrapping::i64_specs::wrapping_add(max_nonce(nonces), 1)
}

/// The nonces of those resources that could be read, in order.
pub open spec fn readable_nonces(items: Seq<Option<TestResource>>) -> Seq<i64>
    decreases items.len(),
{
    if items.len() == 0 {
        Seq::empty()
    } else {
        let before = readable_nonces(items.drop_last());
        match items.last() {
            Some(item) => before.push(item.spec.nonce),
            None => before,
        }
    }
}

/// The namespace of a resource; `default` where it has none.
pub open spec fn namespace_of(resource: TestResource) -> Seq<char> {
    match resource.metadata.namespace {
        Some(namespace) => namespace@,
        None => "default"@,
    }
}

fn namespace_text(resource: &TestResource) -> (s: String)
    ensures
        s@ == namespace_of(*resource),
{
    match &resource.metadata.namespace {
        Some(namespace) => namespace.clone(),
        None => "default".to_owned(),
    }
}

/// Whether a resource has still to be numbered.
pub open spec fn needs_change(resource: TestResource) -> bool {
    resource.spec.nonce == 0 || resource.spec.updated_at is None
}

/// How a reconcile begins: a resource that has still to be numbered is, by
/// those in its namespace.
pub open spec fn first_step(resource: TestResource, r: ReconcileStep) -> bool {
    match r {
        ReconcileStep::Done => !needs_change(resource),
        ReconcileStep::List(kind, namespace) => needs_change(resource) && kind@ == "TestResource"@
            && namespace@ == namespace_of(resource),
    }
}

/// Whether a request is to write a resource, under its own name and in its own
/// namespace.
pub open spec fn asks_to_write(resource: TestResource, r: UpdateRequest) -> bool {
    &&& "TestResource"@ == r.kind@
    &&& resource.metadata.name@ == r.name@
    &&& namespace_of(resource) == r.namespace@
    &&& r.flag
}

/// The operator, with the numbers that it keeps in memory.
pub struct SimpleOperator {
    data: Vec<u32>,
}

impl View for SimpleOperator {
    type V = Seq<u32>;

    closed spec fn view(&self) -> Seq<u32> {
        self.data@
    }
}

/// The numbers in memory after a reconcile: new ones where there were none, or
/// the first was 0.
pub open spec fn refreshed(data: Seq<u32>, now_ms: i64) -> Seq<u32> {
    if data.len() == 0 || data[0] == 0 {
        numbers_from(timecode(now_ms), HEAP_MEM_SIZE as nat)
    } else {
        data
    }
}

impl SimpleOperator {
    /// An operator with nothing in memory.
    pub fn new() -> (r: SimpleOperator)
        ensures
            r@ == Seq::<u32>::empty(),
    {
        SimpleOperator { data: Vec::new() }
    }

    /// What the operator wants to watch.
    pub fn get_watch_requests() -> (r: Vec<WatchRequest>)
        ensures
            r@.len() == 1,
            r@[0].kind@ == "TestResource"@,
            r@[0].namespace@ == "default"@,
    {
        let mut r: Vec<WatchRequest> = Vec::new();
        r.push(
            WatchRequest { kind: "TestResource".to_owned(), namespace: "default".to_owned() },
        );
        r
    }

    /// Writes the memory down.
    pub fn serialize(&self) -> (bytes: Vec<u8>)
        ensures
            bytes@ == list_bytes(self@),
    {
        write_list(&self.data)
    }

    /// Reads the memory back.  Where that fails it stays as it is.
    pub fn deserialize(&mut self, bytes: Vec<u8>) -> (read: bool)
        ensures
            read == is_list(bytes@),
            final(self)@ == (if is_list(bytes@) {
                Seq::new(listed_len(bytes@) as nat, |i: int| listed_number(bytes@, i))
            } else {
                old(self)@
            }),
    {
        match read_list(&bytes) {
            Some(numbers) => {
                self.data = numbers;
                true
            },
            None => false,
        }
    }

    /// Begins a reconcile of a resource, now.
    pub fn reconcile(&mut self, resource: &TestResource) -> (r: ReconcileStep)
        ensures
            exists|now_ms: i64| now_ms >= 0 && final(self)@ == #[trigger] refreshed(
                old(self)@,
                now_ms,
            ),
            first_step(*resource, r),
    {
        let now: i64 = now_millis();
        self.reconcile_at(resource, now)
    }

    /// Begins a reconcile of a resource.  The memory is filled with numbers by
    /// the time, if that has still to be done.
    pub fn reconcile_at(&mut self, resource: &TestResource, now_ms: i64) -> (r: ReconcileStep)
        requires
            now_ms >= 0,
        ensures
            final(self)@ == refreshed(old(self)@, now_ms),
            first_step(*resource, r),
    {
        if self.data.len() == 0 || self.data[0] == 0 {
            let first: u32 = (now_ms % 0x1_0000_0000) as u32;
            self.data = numbers(first, HEAP_MEM_SIZE);
        }
        if resource.spec.nonce == 0 || resource.spec.updated_at.is_none() {
            ReconcileStep::List("TestResource".to_owned(), namespace_text(resource))
        } else {
            ReconcileStep::Done
        }
    }

    /// The nonces of the resources that were listed.  A list that could not be
    /// had counts as empty, and a resource that could not be read is passed over.
    pub fn listed_nonces(listed: Result<Vec<Option<TestResource>>, String>) -> (r: Vec<i64>)
        ensures
            r@ == (match listed {
                Ok(items) => readable_nonces(items@),
                Err(_) => Seq::empty(),
            }),
            listed is Err ==> r@.len() == 0,
    {
        let mut r: Vec<i64> = Vec::new();
        match listed {
            Ok(items) => {
                let mut i: usize = 0;
                while i < items.len()
                    invariant
                        i <= items@.len(),
                        r@ == readable_nonces(items@.take(i as int)),
                    decreases items@.len() - i,
                {
                    assert(items@.take(i + 1).drop_last() =~= items@.take(i as int));
                    match &items[i] {
                        Some(item) => {
                            r.push(item.spec.nonce);
                        },
                        None => {},
                    }
                    i = i + 1;
                }
                assert(items@.take(i as int) =~= items@);
            },
            Err(_) => {},
        }
        r
    }

    /// The resource as it is to be written, now, by the nonces of those that
    /// there are.
    pub fn numbered(resource: TestResource, nonces: &Vec<i64>) -> (r: TestResource)
        ensures
            r.api_version == resource.api_version,
            r.kind == resource.kind,
            r.metadata == resource.metadata,
            r.spec.nonce == vstd::wrapping::i64_specs::wrapping_add(max_nonce(nonces@), 1),
            r.spec.nonce == next_nonce(nonces@),
            exists|secs: i64, nanos: u32|
                0 <= secs <= LAST_SECOND && nanos < 1_000_000_000 && (r.spec.updated_at matches Some(
                    text,
                ) && text@ == #[trigger] rfc3339_full_text(secs, nanos)),
    {
        let now = now_rfc3339();
        SimpleOperator::numbered_at(resource, nonces, now)
    }

    /// The resource as it is to be written: its nonce is one more than the
    /// largest that there is.
    pub fn numbered_at(resource: TestResource, nonces: &Vec<i64>, now: String) -> (r: TestResource)
        ensures
            r.api_version == resource.api_version,
            r.kind == resource.kind,
            r.metadata == resource.metadata,
            r.spec.nonce == vstd::wrapping::i64_specs::wrapping_add(max_nonce(nonces@), 1),
            r.spec.nonce == next_nonce(nonces@),
            r.spec.updated_at == Some(now),
    {
        let mut max: i64 = 0;
        let mut i: usize = 0;
        while i < nonces.len()
            invariant
                i <= nonces@.len(),
                max == max_nonce(nonces@.take(i as int)),
            decreases nonces@.len() - i,
        {
            assert(nonces@.take(i + 1).drop_last() =~= nonces@.take(i as int));
            if i == 0 || nonces[i] > max {
                max = nonces[i];
            }
            i = i + 1;
        }
        assert(nonces@.take(i as int) =~= nonces@);
        TestResource {
            api_version: resource.api_version,
            kind: resource.kind,
            metadata: resource.metadata,
            spec: TestResourceSpec { nonce: max.wrapping_add(1), updated_at: Some(now) },
        }
    }

    /// What the host is handed to write a resource.
    pub fn update_request(resource: &TestResource) -> (r: UpdateRequest)
        ensures
            r.kind@ == "TestResource"@,
            r.name@ == resource.metadata.name@,
            r.namespace@ == namespace_of(*resource),
            r.flag,
            asks_to_write(*resource, r),
    {
        UpdateRequest {
            kind: "TestResource".to_owned(),
            name: resource.metadata.name.clone(),
            namespace: namespace_text(resource),
            flag: true,
        }
    }

    /// How a reconcile ended whose resource could not be read.
    pub fn not_parsed(words: &str) -> (r: ReconcileResult)
        ensures
            r matches ReconcileResult::Error(text) && text@ == "Failed to parse resource: "@ + words@,
    {
        ReconcileResult::Error("Failed to parse resource: ".to_owned().concat(words))
    }

    /// How a reconcile ended whose resource was to be written.
    pub fn updated(name: &str, outcome: UpdateOutcome) -> (r: ReconcileResult)
        ensures
            match outcome {
                UpdateOutcome::Updated => r is Done,
                UpdateOutcome::NotSerialized => r matches ReconcileResult::Error(text) && text@
                    == "Failed to serialize updated resource: "@ + name@,
                UpdateOutcome::Refused(words) => r matches ReconcileResult::Error(text) && text@
                    == "Failed to update resource "@ + name@ + ": "@ + words@,
            },
    {
        match outcome {
            UpdateOutcome::Updated => ReconcileResult::Done,
            UpdateOutcome::NotSerialized => ReconcileResult::Error(
                "Failed to serialize updated resource: ".to_owned().concat(name),
            ),
            UpdateOutcome::Refused(words) => ReconcileResult::Error(
                "Failed to update resource ".to_owned().concat(name).concat(": ").concat(
                    words.as_str(),
                ),
            ),
        }
    }
}

proof fn lemma_number_bytes(numbers: Seq<u32>, i: int)
    ensures
        number_bytes(numbers).len() == 4 * numbers.len(),
        0 <= i < numbers.len() ==> number_bytes(numbers).subrange(4 * i, 4 * i + 4)
            == vstd::bytes::spec_u32_to_le_bytes(numbers[i]),
    decreases numbers.len(),
{
    vstd::bytes::lemma_auto_spec_u32_to_from_le_bytes();
    if numbers.len() > 0 {
        let before = numbers.drop_last();
        let last = vstd::bytes::spec_u32_to_le_bytes(numbers.last());
        assert(last.len() == 4);
        lemma_number_bytes(before, i);
        if 0 <= i < before.len() {
            assert(number_bytes(numbers).subrange(4 * i, 4 * i + 4) =~= number_bytes(
                before,
            ).subrange(4 * i, 4 * i + 4));
        } else if i == before.len() {
            assert(number_bytes(numbers).subrange(4 * i, 4 * i + 4) =~= last);
        }
    }
}

/// What an operator has written down of its memory, it reads back.
pub proof fn memory_survives(numbers: Seq<u32>, more: Seq<u8>)
    requires
        numbers.len() <= u64::MAX,
    ensures
        is_list(list_bytes(numbers) + more),
        Seq::new(
            listed_len(list_bytes(numbers) + more) as nat,
            |i: int| listed_number(list_bytes(numbers) + more, i),
        ) == numbers,
{
    let bytes = list_bytes(numbers) + more;
    vstd::bytes::lemma_auto_spec_u64_to_from_le_bytes();
    vstd::bytes::lemma_auto_spec_u32_to_from_le_bytes();
    let len = numbers.len() as u64;
    assert(vstd::bytes::spec_u64_to_le_bytes(len).len() == 8);
    assert(bytes.take(8) =~= vstd::bytes::spec_u64_to_le_bytes(len));
    lemma_number_bytes(numbers, 0);
    assert(listed_len(bytes) == len);
    let read = Seq::new(listed_len(bytes) as nat, |i: int| listed_number(bytes, i));
    assert forall|i: int| 0 <= i < numbers.len() implies read[i] == numbers[i] by {
        lemma_number_bytes(numbers, i);
        assert(bytes.subrange(8 + 4 * i, 12 + 4 * i) =~= number_bytes(numbers).subrange(
            4 * i,
            4 * i + 4,
        ));
    }
    assert(read =~= numbers);
}

/// A resource that is numbered gets a larger nonce than any that there is, as
/// long as there is a larger one.
pub proof fn new_nonces_are_the_largest(nonces: Seq<i64>, i: int)
    requires
        max_nonce(nonces) < i64::MAX,
        0 <= i < nonces.len(),
    ensures
        vstd::wrapping::i64_specs::wrapping_add(max_nonce(nonces), 1) > nonces[i],
{
    lemma_max_nonce(nonces, i);
}

proof fn lemma_max_nonce(nonces: Seq<i64>, i: int)
    requires
        0 <= i < nonces.len(),
    ensures
        max_nonce(nonces) >= nonces[i],
    decreases nonces.len(),
{
    if i < nonces.len() - 1 {
        lemma_max_nonce(nonces.drop_last(), i);
    }
}

/// Numbers in memory follow each other one by one from the first, and after the
/// largest comes 0.
pub proof fn numbers_follow_each_other(first: u32, n: nat, i: int)
    requires
        n <= 0x1_0000_0000,
    ensures
        numbers_from(first, n).len() == n,
        n > 0 ==> numbers_from(first, n)[0] == first,
        0 < i < n && numbers_from(first, n)[i - 1] < u32::MAX ==> numbers_from(first, n)[i]
            == numbers_from(first, n)[i - 1] + 1,
        0 < i < n && numbers_from(first, n)[i - 1] == u32::MAX ==> numbers_from(first, n)[i] == 0,
        0 <= i < n && first + i <= u32::MAX ==> numbers_from(first, n)[i] == first + i,
{
}

/// A time is cut down to 32 bits: two times have the same code exactly where they
/// differ by a multiple of what 32 bits can count, and one that fits is its code.
pub proof fn times_are_cut_down(now_ms: i64, other_ms: i64)
    requires
        now_ms >= 0,
        other_ms >= 0,
    ensures
        now_ms <= u32::MAX ==> timecode(now_ms) == now_ms,
        timecode(now_ms) == timecode(other_ms) <==> (now_ms - other_ms) % 0x1_0000_0000 == 0,
        timecode(now_ms) <= now_ms,
{
}

/// The largest nonce is one of those that there are, and none is larger.
pub proof fn the_largest_nonce_is_there(nonces: Seq<i64>, i: int)
    ensures
        nonces.len() == 0 ==> max_nonce(nonces) == 0,
        nonces.len() > 0 ==> nonces.contains(max_nonce(nonces)),
        0 <= i < nonces.len() ==> nonces[i] <= max_nonce(nonces),
    decreases nonces.len(),
{
    if nonces.len() > 0 {
        let before = nonces.drop_last();
        the_largest_nonce_is_there(before, 0);
        assert(nonces.last() == nonces[nonces.len() - 1]);
        if before.len() > 0 {
            let at = choose|at: int| 0 <= at < before.len() && before[at] == max_nonce(before);
            assert(nonces[at] == max_nonce(before));
        }
        if 0 <= i < nonces.len() {
            lemma_max_nonce(nonces, i);
        }
    }
}

/// A new nonce is exactly one more than the largest, and so is none that there is,
/// as long as there is a larger number; the first one is 1.
pub proof fn new_nonces_are_next(nonces: Seq<i64>)
    ensures
        nonces.len() == 0 ==> next_nonce(nonces) == 1,
        max_nonce(nonces) < i64::MAX ==> next_nonce(nonces) == max_nonce(nonces) + 1,
        max_nonce(nonces) < i64::MAX ==> !nonces.contains(next_nonce(nonces)),
{
    if max_nonce(nonces) < i64::MAX && nonces.contains(next_nonce(nonces)) {
        let at = choose|at: int| 0 <= at < nonces.len() && nonces[at] == next_nonce(nonces);
        lemma_max_nonce(nonces, at);
    }
}

/// Nonces are read in order and each for itself: a resource that can be read tells
/// its own, and one that cannot tells none.
pub proof fn nonces_are_read_in_order(
    a: Seq<Option<TestResource>>,
    b: Seq<Option<TestResource>>,
    item: TestResource,
)
    ensures
        readable_nonces(a + b) == readable_nonces(a) + readable_nonces(b),
        readable_nonces(seq![Some(item)]) == seq![item.spec.nonce],
        readable_nonces(seq![None]).len() == 0,
        readable_nonces(Seq::empty()).len() == 0,
    decreases b.len(),
{
    let none = Seq::<Option<TestResource>>::empty();
    assert(readable_nonces(none) =~= Seq::empty());
    assert(seq![Some(item)].drop_last() =~= none);
    assert(seq![None::<TestResource>].drop_last() =~= none);
    assert(readable_nonces(seq![Some(item)]) =~= seq![item.spec.nonce]);
    if b.len() == 0 {
        assert(a + b =~= a);
        assert(readable_nonces(a) + readable_nonces(b) =~= readable_nonces(a));
    } else {
        nonces_are_read_in_order(a, b.drop_last(), item);
        assert((a + b).drop_last() =~= a + b.drop_last());
        assert(readable_nonces(a + b) =~= readable_nonces(a) + readable_nonces(b));
    }
}

/// A resource is numbered where it has no nonce or was never written, by those of
/// its own namespace, and is left alone otherwise.
pub proof fn resources_are_numbered_once(resource: TestResource, r: ReconcileStep)
    requires
        first_step(resource, r),
    ensures
        r is Done <==> resource.spec.nonce != 0 && resource.spec.updated_at is Some,
        r matches ReconcileStep::List(kind, namespace) ==> kind@ == "TestResource"@ && (
        resource.metadata.namespace matches Some(own) ==> namespace@ == own@),
        r matches ReconcileStep::List(kind, namespace) ==> (resource.metadata.namespace is None
            ==> namespace@ == "default"@),
{
}

/// Memory that was filled is kept as it is; it is filled, by the time, where there
/// is nothing in it or it begins with 0.
pub proof fn memory_is_filled_once(data: Seq<u32>, now_ms: i64, later_ms: i64)
    ensures
        data.len() > 0 && data[0] != 0 ==> refreshed(data, now_ms) == data,
        data.len() == 0 || data[0] == 0 ==> refreshed(data, now_ms).len() == 10_485_760
            && refreshed(data, now_ms)[0] == timecode(now_ms),
        timecode(now_ms) != 0 ==> refreshed(refreshed(data, now_ms), later_ms) == refreshed(
            data,
            now_ms,
        ),
{
}

/// What the host is asked to write is the resource itself.
pub proof fn requests_name_the_resource(resource: TestResource, r: UpdateRequest)
    requires
        asks_to_write(resource, r),
    ensures
        r.name@ == resource.metadata.name@,
        resource.metadata.namespace matches Some(own) ==> r.namespace@ == own@,
        resource.metadata.namespace is None ==> r.namespace@ == "default"@,
        r.kind@ == "TestResource"@,
        r.flag,
{
}

} // verus!
