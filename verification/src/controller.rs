//! The main controller: which operators run, as the cluster declares them.
//!
//! The controller decides; watching the cluster and sending commands to
//! operators is left to the caller, which reports back how it went.

use crate::crd::Metadata;
use crate::outside::{
    generations, generations_get, generations_insert, generations_keys, generations_new,
    generations_remove, new_uuid,
};
use crate::text::{str_eq, texts};
use dashmap::DashMap;
use vstd::prelude::*;
use vstd::string::*;

verus! {

/// Starts and stops operators as the cluster declares them.
pub struct MainController {
    /// Of each operator that runs, the generation.
    operators: DashMap<String, Option<i64>>,
    /// Of each operator that crashed, the generation that did.
    crashed_operators: DashMap<String, Option<i64>>,
    /// The operators that were listed since the watch was restarted.
    control_restarted: Vec<String>,
    uuid: String,
}

/// What the controller knows.
#[verifier::ext_equal]
pub struct ControllerView {
    pub operators: Map<Seq<char>, Option<i64>>,
    pub crashed: Map<Seq<char>, Option<i64>>,
    pub listed: Seq<Seq<char>>,
    pub uuid: Seq<char>,
}

/// What a declared operator leads to.
#[derive(Clone, Copy, Debug, PartialEq, Eq, Structural)]
pub enum ApplyStep {
    /// This generation has crashed, and is not started again.
    Skipped,
    /// It runs already.
    Unchanged,
    /// Shut the older generation down and start this one, then report how that
    /// went.
    Replace,
    /// Find out what the cluster knows by now, and start the operator, then
    /// report how that went.
    Start,
}

/// What the watch on the cluster brings.
#[derive(Debug)]
pub enum WatcherEvent {
    /// The program is to end.
    Shutdown,
    /// An operator was declared, or its declaration changed.
    Apply(Metadata),
    /// An operator is no longer declared.
    Delete(Metadata),
    /// The watch is (re)started: all declared operators are listed.
    Init,
    /// A declared operator, while they are listed.
    InitApply(Metadata),
    /// All declared operators have been listed.
    InitDone,
    /// The watch failed.
    Failed,
    /// The watch ended.
    Ended,
}

/// What an event of the watch leads to.
#[derive(Debug)]
pub enum WatchStep {
    /// Nothing more.
    Continue,
    /// An operator is declared.
    Applied(ApplyStep),
    /// Shut these operators down.
    Stop(Vec<String>),
    /// Pause these operators, and end.
    PauseAll(Vec<String>),
    /// End the program.
    Cancel,
}

/// Whether one generation is not after another; none at all comes first.
pub open spec fn not_after(a: Option<i64>, b: Option<i64>) -> bool {
    match (a, b) {
        (None, _) => true,
        (Some(_), None) => false,
        (Some(x), Some(y)) => x <= y,
    }
}

fn is_not_after(a: Option<i64>, b: Option<i64>) -> (r: bool)
    ensures
        r == not_after(a, b),
{
    match (a, b) {
        (None, _) => true,
        (Some(_), None) => false,
        (Some(x), Some(y)) => x <= y,
    }
}

impl ControllerView {
    /// The generation of an operator that crashed; none where it did not.
    pub open spec fn crash_generation(self, uid: Seq<char>) -> Option<i64> {
        if self.crashed.dom().contains(uid) {
            self.crashed[uid]
        } else {
            None
        }
    }

    /// What a declared operator leads to.
    pub open spec fn apply_step(self, uid: Seq<char>, generation: Option<i64>) -> ApplyStep {
        if not_after(generation, self.crash_generation(uid)) {
            ApplyStep::Skipped
        } else if !self.operators.dom().contains(uid) {
            ApplyStep::Start
        } else if not_after(generation, self.operators[uid]) {
            ApplyStep::Unchanged
        } else {
            ApplyStep::Replace
        }
    }

    /// After an operator was declared, before it is started.
    pub open spec fn applied(self, uid: Seq<char>, generation: Option<i64>) -> ControllerView {
        if self.apply_step(uid, generation) is Replace {
            self.deleted(uid)
        } else {
            self
        }
    }

    /// After an operator was started, or could not be.
    pub open spec fn started(
        self,
        uid: Seq<char>,
        generation: Option<i64>,
        sent: bool,
    ) -> ControllerView {
        if sent {
            ControllerView { operators: self.operators.insert(uid, generation), ..self }
        } else {
            ControllerView { crashed: self.crashed.insert(uid, generation), ..self }
        }
    }

    /// After an operator was given up.
    pub open spec fn deleted(self, uid: Seq<char>) -> ControllerView {
        ControllerView { operators: self.operators.remove(uid), ..self }
    }

    /// After an operator crashed.
    pub open spec fn crash(self, uid: Seq<char>) -> ControllerView {
        if self.operators.dom().contains(uid) {
            ControllerView {
                crashed: self.crashed.insert(uid, self.operators[uid]),
                ..self.deleted(uid)
            }
        } else {
            self
        }
    }

    /// After all declared operators were listed: others are given up.
    pub open spec fn settled(self) -> ControllerView {
        ControllerView {
            operators: self.operators.restrict(
                Set::new(|uid: Seq<char>| self.listed.contains(uid)),
            ),
            listed: Seq::empty(),
            ..self
        }
    }

    /// After an event of the watch.
    pub open spec fn watched(self, event: WatcherEvent) -> ControllerView {
        match event {
            WatcherEvent::Apply(meta) => match meta.uid {
                Some(uid) => self.applied(uid@, meta.generation),
                None => self,
            },
            WatcherEvent::Delete(meta) => self.deleted(meta.uid->0@),
            WatcherEvent::Init => ControllerView { listed: Seq::empty(), ..self },
            WatcherEvent::InitApply(meta) => ControllerView {
                listed: self.listed.push(meta.uid->0@),
                ..self
            }.applied(meta.uid->0@, meta.generation),
            WatcherEvent::InitDone => self.settled(),
            _ => self,
        }
    }
}

impl ControllerView {
    /// Whether an event of the watch on declared operators leads to a step.
    pub open spec fn leads_to(self, event: WatcherEvent, r: Result<WatchStep, String>) -> bool {
        match event {
            WatcherEvent::Shutdown => r matches Ok(WatchStep::PauseAll(list)) && lists(
                list@,
                self.operators.dom(),
            ),
            WatcherEvent::Apply(meta) => match meta.uid {
                Some(uid) => r == Ok::<WatchStep, String>(
                    WatchStep::Applied(self.apply_step(uid@, meta.generation)),
                ),
                None => r is Err,
            },
            WatcherEvent::Delete(meta) => r matches Ok(WatchStep::Stop(list)) && lists(
                list@,
                self.operators.dom().intersect(set![meta.uid->0@]),
            ),
            WatcherEvent::Init => r == Ok::<WatchStep, String>(WatchStep::Continue),
            WatcherEvent::InitApply(meta) => r == Ok::<WatchStep, String>(
                WatchStep::Applied(self.apply_step(meta.uid->0@, meta.generation)),
            ),
            WatcherEvent::InitDone => r matches Ok(WatchStep::Stop(list)) && lists(
                list@,
                self.operators.dom().difference(self.settled().operators.dom()),
            ),
            WatcherEvent::Failed => r == Ok::<WatchStep, String>(WatchStep::Cancel),
            WatcherEvent::Ended => r is Err,
        }
    }
}

/// Whether a list has each of some operators once, and no others.
pub open spec fn lists(list: Seq<String>, which: Set<Seq<char>>) -> bool {
    &&& texts(list).no_duplicates()
    &&& forall|uid: Seq<char>| texts(list).contains(uid) <==> which.contains(uid)
}

impl View for MainController {
    type V = ControllerView;

    closed spec fn view(&self) -> ControllerView {
        ControllerView {
            operators: generations(self.operators),
            crashed: generations(self.crashed_operators),
            listed: texts(self.control_restarted@),
            uuid: self.uuid@,
        }
    }
}

fn has_text(list: &Vec<String>, text: &str) -> (r: bool)
    ensures
        r == texts(list@).contains(text@),
{
    let mut i: usize = 0;
    while i < list.len()
        invariant
            i <= list@.len(),
            forall|j: int| 0 <= j < i ==> texts(list@)[j] != text@,
        decreases list@.len() - i,
    {
        if str_eq(list[i].as_str(), text) {
            assert(texts(list@)[i as int] == text@);
            return true;
        }
        i = i + 1;
    }
    false
}

impl MainController {
    /// Sets up a controller, under a name that no other has.
    pub fn new() -> (r: MainController)
        ensures
            r@.operators.dom() == Set::<Seq<char>>::empty(),
            r@.crashed.dom() == Set::<Seq<char>>::empty(),
            r@.listed.len() == 0,
            r@.uuid.len() == 36,
            r@.uuid[8] == '-' && r@.uuid[13] == '-' && r@.uuid[18] == '-' && r@.uuid[23] == '-',
    {
        MainController {
            operators: generations_new(),
            crashed_operators: generations_new(),
            control_restarted: Vec::new(),
            uuid: new_uuid(),
        }
    }

    /// The name of this controller.
    pub fn uuid(&self) -> (s: String)
        ensures
            s@ == self@.uuid,
    {
        self.uuid.clone()
    }

    /// The generation of an operator that runs.
    pub fn running(&self, uid: &str) -> (r: Option<Option<i64>>)
        ensures
            r == (if self@.operators.dom().contains(uid@) {
                Some(self@.operators[uid@])
            } else {
                None
            }),
    {
        generations_get(&self.operators, uid)
    }

    /// The operators that run, in any order.
    pub fn active(&self) -> (r: Vec<String>)
        ensures
            lists(r@, self@.operators.dom()),
    {
        generations_keys(&self.operators)
    }

    /// Decides on a declared operator.
    pub fn apply_operator(&mut self, meta: &Metadata) -> (r: Result<ApplyStep, String>)
        ensures
            match (meta.uid, r) {
                (Some(uid), Ok(step)) => step == old(self)@.apply_step(uid@, meta.generation)
                    && final(self)@ == old(self)@.applied(uid@, meta.generation),
                (None, Err(words)) => words@ == "Kubernetes object is missing a UID"@
                    && final(self)@ == old(self)@,
                _ => false,
            },
            meta.uid matches Some(uid) ==> (meta.generation matches Some(x) ==> (
            old(self)@.operators.dom().contains(uid@) ==> (old(self)@.operators[uid@] matches Some(y)
                ==> (r->Ok_0 is Replace ==> x > y) && (r->Ok_0 is Unchanged ==> x <= y) && !(r->Ok_0
                is Start)))),
    {
        let uid = match &meta.uid {
            Some(uid) => uid,
            None => {
                return Err("Kubernetes object is missing a UID".to_owned());
            },
        };
        let crash_gen: Option<i64> = match generations_get(&self.crashed_operators, uid.as_str()) {
            Some(generation) => generation,
            None => None,
        };
        if is_not_after(meta.generation, crash_gen) {
            return Ok(ApplyStep::Skipped);
        }
        match generations_get(&self.operators, uid.as_str()) {
            Some(running) => {
                if is_not_after(meta.generation, running) {
                    return Ok(ApplyStep::Unchanged);
                }
                let _there = self.delete_operator(uid.as_str());
                Ok(ApplyStep::Replace)
            },
            None => Ok(ApplyStep::Start),
        }
    }

    /// Notes that an operator was started, or that the command to start it could
    /// not be sent.
    pub fn operator_started(&mut self, uid: &str, generation: Option<i64>, sent: bool)
        ensures
            final(self)@ == old(self)@.started(uid@, generation, sent),
    {
        if sent {
            generations_insert(&mut self.operators, uid.to_owned(), generation);
        } else {
            generations_insert(&mut self.crashed_operators, uid.to_owned(), generation);
        }
    }

    /// Gives an operator up; tells whether there is one to shut down.
    pub fn delete_operator(&mut self, uid: &str) -> (there: bool)
        ensures
            there == old(self)@.operators.dom().contains(uid@),
            final(self)@ == old(self)@.deleted(uid@),
    {
        match generations_remove(&mut self.operators, uid) {
            Some(_) => true,
            None => false,
        }
    }

    /// Gives an operator up that has crashed; tells whether there is one to shut
    /// down.
    pub fn handle_operator_shutdown(&mut self, uid: &str) -> (there: bool)
        ensures
            there == old(self)@.operators.dom().contains(uid@),
            final(self)@ == old(self)@.crash(uid@),
    {
        match generations_get(&self.operators, uid) {
            Some(generation) => {
                generations_insert(&mut self.crashed_operators, uid.to_owned(), generation);
                self.delete_operator(uid)
            },
            None => false,
        }
    }

    /// Takes an event of the watch on declared operators.
    pub fn handle_event(&mut self, event: WatcherEvent) -> (r: Result<WatchStep, String>)
        requires
            event matches WatcherEvent::Delete(meta) ==> meta.uid is Some,
            event matches WatcherEvent::InitApply(meta) ==> meta.uid is Some,
        ensures
            final(self)@ == old(self)@.watched(event),
            match event {
                WatcherEvent::Shutdown => r matches Ok(WatchStep::PauseAll(list)) && lists(
                    list@,
                    old(self)@.operators.dom(),
                ),
                WatcherEvent::Apply(meta) => match meta.uid {
                    Some(uid) => r == Ok::<_, String>(
                        WatchStep::Applied(old(self)@.apply_step(uid@, meta.generation)),
                    ),
                    None => r is Err && r->Err_0@ == "Kubernetes object is missing a UID"@,
                },
                WatcherEvent::Delete(meta) => r matches Ok(WatchStep::Stop(list)) && lists(
                    list@,
                    old(self)@.operators.dom().intersect(set![meta.uid->0@]),
                ),
                WatcherEvent::Init => r == Ok::<_, String>(WatchStep::Continue),
                WatcherEvent::InitApply(meta) => r == Ok::<_, String>(
                    WatchStep::Applied(
                        old(self)@.apply_step(meta.uid->0@, meta.generation),
                    ),
                ),
                WatcherEvent::InitDone => r matches Ok(WatchStep::Stop(list)) && lists(
                    list@,
                    old(self)@.operators.dom().difference(final(self)@.operators.dom()),
                ),
                WatcherEvent::Failed => r == Ok::<_, String>(WatchStep::Cancel),
                WatcherEvent::Ended => r is Err && r->Err_0@
                    == "WasmOperator watcher stream ended unexpectedly."@,
            },
            old(self)@.leads_to(event, r),
    {
        match event {
            WatcherEvent::Shutdown => Ok(WatchStep::PauseAll(self.active())),
            WatcherEvent::Apply(meta) => match self.apply_operator(&meta) {
                Ok(step) => Ok(WatchStep::Applied(step)),
                Err(words) => Err(words),
            },
            WatcherEvent::Delete(meta) => {
                let uid = meta.uid.unwrap();
                let mut stop: Vec<String> = Vec::new();
                if self.delete_operator(uid.as_str()) {
                    stop.push(uid);
                    assert(texts(stop@)[0] == uid@);
                }
                assert(texts(stop@).len() == stop@.len());
                Ok(WatchStep::Stop(stop))
            },
            WatcherEvent::Init => {
                self.control_restarted.clear();
                assert(self@ =~= old(self)@.watched(event));
                Ok(WatchStep::Continue)
            },
            WatcherEvent::InitApply(meta) => {
                let uid = meta.uid.as_ref().unwrap().clone();
                self.control_restarted.push(uid);
                assert(self@ =~= (ControllerView {
                    listed: old(self)@.listed.push(meta.uid->0@),
                    ..old(self)@
                }));
                match self.apply_operator(&meta) {
                    Ok(step) => Ok(WatchStep::Applied(step)),
                    Err(words) => Err(words),
                }
            },
            WatcherEvent::InitDone => Ok(WatchStep::Stop(self.settle())),
            WatcherEvent::Failed => Ok(WatchStep::Cancel),
            WatcherEvent::Ended => Err(
                "WasmOperator watcher stream ended unexpectedly.".to_owned(),
            ),
        }
    }

    fn settle(&mut self) -> (stop: Vec<String>)
        ensures
            final(self)@ == old(self)@.settled(),
            lists(
                stop@,
                old(self)@.operators.dom().difference(final(self)@.operators.dom()),
            ),
    {
        let active = self.active();
        let ghost before = self@;
        let mut stop: Vec<String> = Vec::new();
        let mut i: usize = 0;
        while i < active.len()
            invariant
                i <= active@.len(),
                lists(active@, before.operators.dom()),
                self@.listed == before.listed,
                self@.crashed == before.crashed,
                self@.uuid == before.uuid,
                forall|uid: Seq<char>|
                    #[trigger] texts(stop@).contains(uid) <==> texts(active@).take(
                        i as int,
                    ).contains(uid) && !before.listed.contains(uid),
                texts(stop@).no_duplicates(),
                self@.operators == before.operators.remove_keys(
                    Set::new(|uid: Seq<char>| texts(stop@).contains(uid)),
                ),
            decreases active@.len() - i,
        {
            let ghost uid = active@[i as int]@;
            let ghost stopped = texts(stop@);
            let ghost seen = texts(active@).take(i as int);
            proof {
                assert(texts(active@)[i as int] == uid);
                assert(texts(active@).take(i + 1) =~= seen.push(uid));
                assert(!seen.contains(uid)) by {
                    if seen.contains(uid) {
                        let j = choose|j: int| 0 <= j < seen.len() && seen[j] == uid;
                        assert(texts(active@)[j] == uid);
                    }
                }
                lemma_push_contains(seen, uid);
                lemma_push_contains(stopped, uid);
            }
            if !has_text(&self.control_restarted, active[i].as_str()) {
                let _there = self.delete_operator(active[i].as_str());
                stop.push(active[i].clone());
                assert(texts(stop@) =~= stopped.push(uid));
                assert(self@.operators =~= before.operators.remove_keys(
                    Set::new(|uid: Seq<char>| texts(stop@).contains(uid)),
                ));
            }
            i = i + 1;
        }
        self.control_restarted.clear();
        proof {
            assert(texts(active@).take(i as int) =~= texts(active@));
            assert(self@ =~= before.settled());
        }
        stop
    }
}

proof fn lemma_push_contains<A>(s: Seq<A>, x: A)
    ensures
        forall|y: A| #[trigger] s.push(x).contains(y) <==> s.contains(y) || y == x,
{
    assert forall|y: A| #[trigger] s.push(x).contains(y) <==> s.contains(y) || y == x by {
        if s.contains(y) {
            let j = choose|j: int| 0 <= j < s.len() && s[j] == y;
            assert(s.push(x)[j] == y);
        }
        if y == x {
            assert(s.push(x)[s.len() as int] == y);
        }
    }
}

/// What the controller finds out about an operator that may be idle.
#[derive(Clone, Copy, Debug, PartialEq, Eq, Structural)]
pub enum IdleEvent {
    /// Whether it is idle.
    Checked(bool),
    /// Whether the command to unload was sent.
    UnloadSent(bool),
    /// When it is expected to be needed next, if that could be told.
    Predicted(Option<i128>),
}

/// What the controller does about an operator that may be idle.
#[derive(Clone, Copy, Debug, PartialEq, Eq, Structural)]
pub enum IdleStep {
    /// Goes on to the next operator.
    Next,
    /// Sends the command to unload.
    SendUnload,
    /// Asks when the operator will be needed next.
    Predict,
    /// Sends the command to load at this time.
    SendLoadAt(i128),
}

/// Decides on an operator that may be idle.
pub fn idle_step(event: IdleEvent, use_prediction: bool) -> (r: IdleStep)
    ensures
        r == (match event {
            IdleEvent::Checked(true) => IdleStep::SendUnload,
            IdleEvent::UnloadSent(true) => if use_prediction {
                IdleStep::Predict
            } else {
                IdleStep::Next
            },
            IdleEvent::Predicted(Some(at)) => IdleStep::SendLoadAt(at),
            _ => IdleStep::Next,
        }),
        r is SendUnload <==> event == IdleEvent::Checked(true),
        r is Predict <==> event == IdleEvent::UnloadSent(true) && use_prediction,
        event matches IdleEvent::Predicted(Some(at)) ==> r == IdleStep::SendLoadAt(at),
        r matches IdleStep::SendLoadAt(at) ==> event == IdleEvent::Predicted(Some(at)),
        r == idle_step_of(event, use_prediction),
{
    match event {
        IdleEvent::Checked(true) => IdleStep::SendUnload,
        IdleEvent::UnloadSent(true) => {
            if use_prediction {
                IdleStep::Predict
            } else {
                IdleStep::Next
            }
        },
        IdleEvent::Predicted(Some(at)) => IdleStep::SendLoadAt(at),
        _ => IdleStep::Next,
    }
}

/// How many nanoseconds go by between two looks for idle operators: half the
/// time after which one counts as idle.
pub fn idle_check_period(idle_ms: u64) -> (nanos: u128)
    ensures
        nanos == idle_ms * 500_000,
        2 * nanos == idle_ms * 1_000_000,
        nanos == idle_period(idle_ms),
{
    idle_ms as u128 * 500_000
}

/// What can happen to the operators.
pub enum Happening {
    Watched(WatcherEvent),
    Started(Seq<char>, Option<i64>, bool),
    Crashed(Seq<char>),
}

impl ControllerView {
    /// No operator runs a generation that has crashed, or an older one.
    pub open spec fn no_crashed_runs(self) -> bool {
        forall|uid: Seq<char>| #[trigger]
            self.operators.dom().contains(uid) ==> !not_after(
                self.operators[uid],
                self.crash_generation(uid),
            )
    }

    /// Whether something can happen.  An operator is started only where that was
    /// decided on.
    pub open spec fn possible(self, what: Happening) -> bool {
        match what {
            Happening::Started(uid, generation, _) => self.apply_step(uid, generation) is Start,
            _ => true,
        }
    }

    /// After something has happened.
    pub open spec fn following(self, what: Happening) -> ControllerView {
        match what {
            Happening::Watched(event) => self.watched(event),
            Happening::Started(uid, generation, sent) => self.started(uid, generation, sent),
            Happening::Crashed(uid) => self.crash(uid),
        }
    }

    /// After some things have happened, one after the other.
    pub open spec fn after(self, all: Seq<Happening>) -> ControllerView
        decreases all.len(),
    {
        if all.len() == 0 {
            self
        } else {
            self.after(all.drop_last()).following(all.last())
        }
    }
}

/// Once an operator is decided to be started, it stays so until it is: what is
/// left of an older generation is gone.
pub proof fn decided_operators_can_be_started(
    m: ControllerView,
    uid: Seq<char>,
    generation: Option<i64>,
)
    requires
        m.apply_step(uid, generation) is Start || m.apply_step(uid, generation) is Replace,
    ensures
        m.applied(uid, generation).possible(Happening::Started(uid, generation, true)),
{
}

/// Whatever happens, no operator runs a generation that has crashed, or an older
/// one.
pub proof fn crashed_generations_stay_down(m: ControllerView, what: Happening)
    requires
        m.no_crashed_runs(),
        m.possible(what),
    ensures
        m.following(what).no_crashed_runs(),
{
    let next = m.following(what);
    assert forall|uid: Seq<char>| #[trigger] next.operators.dom().contains(uid) implies !not_after(
        next.operators[uid],
        next.crash_generation(uid),
    ) by {
        assert(m.operators.dom().contains(uid) || what is Started);
    }
}

/// An operator that crashed is not started again before it is declared with a
/// later generation, and then it is.
pub proof fn crashed_operators_wait_for_a_change(
    m: ControllerView,
    uid: Seq<char>,
    generation: Option<i64>,
)
    requires
        m.operators.dom().contains(uid),
    ensures
        not_after(generation, m.operators[uid]) ==> m.crash(uid).apply_step(uid, generation)
            is Skipped && m.crash(uid).applied(uid, generation) == m.crash(uid),
        !not_after(generation, m.operators[uid]) ==> m.crash(uid).apply_step(uid, generation)
            is Start,
{
}

/// Declaring an operator once more, just as it is, changes nothing.
pub proof fn declaring_again_changes_nothing(
    m: ControllerView,
    uid: Seq<char>,
    generation: Option<i64>,
    sent: bool,
)
    requires
        m.apply_step(uid, generation) is Start || m.apply_step(uid, generation) is Replace,
    ensures
        ({
            let next = m.applied(uid, generation).started(uid, generation, sent);
            &&& next.apply_step(uid, generation) is Unchanged || next.apply_step(uid, generation)
                is Skipped
            &&& next.applied(uid, generation) == next
        }),
{
}

/// What is done about one operator leaves the others alone.
pub proof fn others_are_left_alone(
    m: ControllerView,
    uid: Seq<char>,
    generation: Option<i64>,
    sent: bool,
    other: Seq<char>,
)
    requires
        other != uid,
    ensures
        ({
            let next = m.applied(uid, generation).started(uid, generation, sent);
            &&& next.operators.dom().contains(other) == m.operators.dom().contains(other)
            &&& m.operators.dom().contains(other) ==> next.operators[other] == m.operators[other]
            &&& next.crash_generation(other) == m.crash_generation(other)
        }),
{
}

/// Of a list of happenings, the one that lists an operator.
pub open spec fn lists_operator(what: Happening, uid: Seq<char>) -> bool {
    what matches Happening::Watched(WatcherEvent::InitApply(meta)) && meta.uid->0@ == uid
}

/// After the watch was restarted and all declared operators were listed, only
/// those run that were listed, with the generation that they had.
pub proof fn only_listed_operators_remain(m: ControllerView, all: Seq<Happening>)
    requires
        forall|i: int|
            0 <= i < all.len() ==> !(#[trigger] all[i] matches Happening::Watched(
                WatcherEvent::Init,
            )) && !(all[i] matches Happening::Watched(WatcherEvent::InitDone)),
    ensures
        ({
            let listed = m.watched(WatcherEvent::Init).after(all);
            let done = listed.watched(WatcherEvent::InitDone);
            &&& done.listed.len() == 0
            &&& forall|uid: Seq<char>| #[trigger]
                done.operators.dom().contains(uid) <==> listed.operators.dom().contains(uid)
                    && exists|i: int| 0 <= i < all.len() && #[trigger] lists_operator(all[i], uid)
            &&& forall|uid: Seq<char>| #[trigger]
                done.operators.dom().contains(uid) ==> done.operators[uid]
                    == listed.operators[uid]
        }),
{
    let listed = m.watched(WatcherEvent::Init).after(all);
    assert forall|uid: Seq<char>| #[trigger] listed.listed.contains(uid) <==> exists|i: int|
        0 <= i < all.len() && #[trigger] lists_operator(all[i], uid) by {
        lemma_listed(m, all, uid);
    }
}

proof fn lemma_listed(m: ControllerView, all: Seq<Happening>, uid: Seq<char>)
    requires
        forall|i: int|
            0 <= i < all.len() ==> !(#[trigger] all[i] matches Happening::Watched(
                WatcherEvent::Init,
            )) && !(all[i] matches Happening::Watched(WatcherEvent::InitDone)),
    ensures
        m.watched(WatcherEvent::Init).after(all).listed.contains(uid) <==> exists|i: int|
            0 <= i < all.len() && #[trigger] lists_operator(all[i], uid),
    decreases all.len(),
{
    if all.len() > 0 {
        let before = all.drop_last();
        lemma_listed(m, before, uid);
        let was = m.watched(WatcherEvent::Init).after(before).listed;
        let n = all.len() - 1;
        assert(all[n] == all.last());
        if exists|i: int| 0 <= i < before.len() && #[trigger] lists_operator(before[i], uid) {
            let i = choose|i: int|
                0 <= i < before.len() && #[trigger] lists_operator(before[i], uid);
            assert(lists_operator(all[i], uid));
        }
        if exists|i: int| 0 <= i < all.len() && #[trigger] lists_operator(all[i], uid) {
            let i = choose|i: int| 0 <= i < all.len() && #[trigger] lists_operator(all[i], uid);
            if i < n {
                assert(lists_operator(before[i], uid));
            }
        }
        match all.last() {
            Happening::Watched(WatcherEvent::InitApply(meta)) => {
                lemma_push_contains(was, meta.uid->0@);
                assert(lists_operator(all[n], meta.uid->0@));
                assert(m.watched(WatcherEvent::Init).after(all).listed == was.push(meta.uid->0@));
            },
            _ => {
                assert(m.watched(WatcherEvent::Init).after(all).listed == was);
            },
        }
    }
}

/// An operator that runs one generation is replaced exactly by a later one,
/// however much later, and left alone by the same or an earlier one, as long as
/// none from the declared one on has crashed.
pub proof fn later_generations_replace_earlier_ones(m: ControllerView, uid: Seq<char>, x: i64, y: i64)
    requires
        m.operators.dom().contains(uid),
        m.operators[uid] == Some(y),
        m.crash_generation(uid) matches Some(c) ==> x > c,
    ensures
        m.apply_step(uid, Some(x)) is Replace <==> x > y,
        m.apply_step(uid, Some(x)) is Unchanged <==> x <= y,
        x > y ==> !m.applied(uid, Some(x)).operators.dom().contains(uid),
        x <= y ==> m.applied(uid, Some(x)) == m,
{
}

/// An operator that does not run is started exactly where it is declared with a
/// generation after the one that crashed, and skipped otherwise; so is one that
/// runs skipped whose generation has crashed.
pub proof fn generations_after_a_crash_are_started(m: ControllerView, uid: Seq<char>, x: i64)
    ensures
        m.apply_step(uid, Some(x)) is Skipped <==> m.crashed.dom().contains(uid) && m.crashed[uid]
            is Some && x <= m.crashed[uid]->0,
        m.apply_step(uid, Some(x)) is Start <==> !(m.crashed.dom().contains(uid)
            && m.crashed[uid] is Some && x <= m.crashed[uid]->0)
            && !m.operators.dom().contains(uid),
        m.apply_step(uid, None) is Skipped,
        m.operators.dom().contains(uid) && m.operators[uid] is None && !(m.apply_step(uid, Some(x))
            is Skipped) ==> m.apply_step(uid, Some(x)) is Replace,
        !(m.apply_step(uid, Some(x)) is Replace) ==> m.applied(uid, Some(x)) == m,
{
}

/// What is decided on a generation is not undone by a later one: where one is
/// started or replaces another, so does or is every later one.
pub proof fn later_generations_are_no_less_wanted(m: ControllerView, uid: Seq<char>, x: i64, z: i64)
    requires
        x <= z,
    ensures
        m.apply_step(uid, Some(x)) is Start ==> m.apply_step(uid, Some(z)) is Start,
        m.apply_step(uid, Some(x)) is Replace ==> m.apply_step(uid, Some(z)) is Replace,
        m.apply_step(uid, Some(z)) is Skipped ==> m.apply_step(uid, Some(x)) is Skipped,
{
}

/// An operator that was started runs the generation that was; one that could not
/// be counts as crashed in it.  Nothing else changes.
pub proof fn started_operators_run(
    m: ControllerView,
    uid: Seq<char>,
    generation: Option<i64>,
    other: Seq<char>,
)
    ensures
        ({
            let sent = m.started(uid, generation, true);
            let not = m.started(uid, generation, false);
            &&& sent.operators.dom().contains(uid) && sent.operators[uid] == generation
            &&& sent.crashed == m.crashed && sent.listed == m.listed && sent.uuid == m.uuid
            &&& not.crashed.dom().contains(uid) && not.crashed[uid] == generation
            &&& not.operators == m.operators && not.listed == m.listed && not.uuid == m.uuid
            &&& other != uid ==> sent.operators.dom().contains(other)
                == m.operators.dom().contains(other)
            &&& other != uid ==> not.crashed.dom().contains(other)
                == m.crashed.dom().contains(other)
        }),
{
}

/// An operator that is given up or has crashed no longer runs, and all others do;
/// the generation that crashed is remembered, and only that.
pub proof fn given_up_operators_do_not_run(m: ControllerView, uid: Seq<char>, other: Seq<char>)
    ensures
        !m.deleted(uid).operators.dom().contains(uid),
        !m.crash(uid).operators.dom().contains(uid),
        other != uid ==> m.deleted(uid).operators.dom().contains(other)
            == m.operators.dom().contains(other),
        other != uid ==> m.crash(uid).operators.dom().contains(other)
            == m.operators.dom().contains(other),
        other != uid && m.operators.dom().contains(other) ==> m.deleted(uid).operators[other]
            == m.operators[other] && m.crash(uid).operators[other] == m.operators[other],
        m.deleted(uid).crashed == m.crashed,
        m.operators.dom().contains(uid) ==> m.crash(uid).crash_generation(uid) == m.operators[uid],
        !m.operators.dom().contains(uid) ==> m.crash(uid) == m,
        other != uid ==> m.crash(uid).crash_generation(other) == m.crash_generation(other),
        m.deleted(uid).listed == m.listed,
        m.crash(uid).listed == m.listed,
{
}

/// Once all operators were listed, exactly those that run and were listed go on,
/// each with its generation, and the list is empty.
pub proof fn unlisted_operators_are_given_up(m: ControllerView, uid: Seq<char>)
    ensures
        ({
            let next = m.watched(WatcherEvent::InitDone);
            &&& next.operators.dom().contains(uid) <==> m.operators.dom().contains(uid)
                && m.listed.contains(uid)
            &&& next.operators.dom().contains(uid) ==> next.operators[uid] == m.operators[uid]
            &&& next.listed.len() == 0
            &&& next.crashed == m.crashed
            &&& next.uuid == m.uuid
        }),
{
}

/// What the watch brings concerns one operator at most, but for the end of a
/// list: the others run on, and what has crashed stays known.
pub proof fn events_concern_their_operator(m: ControllerView, meta: Metadata, uid: Seq<char>)
    requires
        meta.uid is Some,
        uid != meta.uid->0@,
    ensures
        ({
            let apply = m.watched(WatcherEvent::Apply(meta));
            let delete = m.watched(WatcherEvent::Delete(meta));
            let listed = m.watched(WatcherEvent::InitApply(meta));
            &&& apply.operators.dom().contains(uid) == m.operators.dom().contains(uid)
            &&& delete.operators.dom().contains(uid) == m.operators.dom().contains(uid)
            &&& listed.operators.dom().contains(uid) == m.operators.dom().contains(uid)
            &&& !delete.operators.dom().contains(meta.uid->0@)
            &&& apply.crashed == m.crashed && delete.crashed == m.crashed && listed.crashed
                == m.crashed
            &&& apply.listed == m.listed && delete.listed == m.listed
            &&& listed.listed == m.listed.push(meta.uid->0@)
            &&& listed.operators == apply.operators
        }),
{
}

/// A list of declared operators begins empty; the end of the program, and a watch
/// that fails or ends, change nothing.
pub proof fn other_events_change_nothing(m: ControllerView)
    ensures
        m.watched(WatcherEvent::Init).listed.len() == 0,
        m.watched(WatcherEvent::Init).operators == m.operators,
        m.watched(WatcherEvent::Init).crashed == m.crashed,
        m.watched(WatcherEvent::Shutdown) == m,
        m.watched(WatcherEvent::Failed) == m,
        m.watched(WatcherEvent::Ended) == m,
{
}

/// Of any two generations one is not after the other; each is not after itself;
/// and what is not after one that is not after a third is not after that.
pub proof fn generations_are_in_order(a: Option<i64>, b: Option<i64>, c: Option<i64>, x: i64, y: i64)
    ensures
        not_after(a, a),
        not_after(a, b) || not_after(b, a),
        not_after(a, b) && not_after(b, a) ==> a == b,
        not_after(a, b) && not_after(b, c) ==> not_after(a, c),
        not_after(Some(x), Some(y)) <==> x <= y,
        not_after(None, a),
{
}

/// A list of operators holds as many as there are, each of them and no other.
pub proof fn lists_hold_each_once(list: Seq<String>, which: Set<Seq<char>>, i: int, j: int)
    requires
        lists(list, which),
    ensures
        texts(list).to_set() == which,
        list.len() == which.len(),
        0 <= i < list.len() ==> which.contains(list[i]@),
        0 <= i < j < list.len() ==> list[i]@ != list[j]@,
{
    assert(texts(list).to_set() =~= which);
    texts(list).unique_seq_to_set();
    assert(texts(list).len() == list.len());
    if 0 <= i < list.len() {
        assert(texts(list)[i] == list[i]@);
        assert(texts(list).contains(list[i]@));
    }
    if 0 <= i < j < list.len() {
        assert(texts(list)[i] == list[i]@);
        assert(texts(list)[j] == list[j]@);
    }
}

/// An object without an identity is no operator: that it was declared changes
/// nothing.
pub proof fn nameless_objects_change_nothing(m: ControllerView, meta: Metadata)
    requires
        meta.uid is None,
    ensures
        m.watched(WatcherEvent::Apply(meta)) == m,
{
}

/// What is done next about an operator that may be idle.
pub open spec fn idle_step_of(event: IdleEvent, use_prediction: bool) -> IdleStep {
    match event {
        IdleEvent::Checked(true) => IdleStep::SendUnload,
        IdleEvent::UnloadSent(true) => if use_prediction {
            IdleStep::Predict
        } else {
            IdleStep::Next
        },
        IdleEvent::Predicted(Some(at)) => IdleStep::SendLoadAt(at),
        _ => IdleStep::Next,
    }
}

/// How long to wait from one look for idle operators to the next, in nanoseconds.
pub open spec fn idle_period(idle_ms: u64) -> int {
    idle_ms * 500_000
}

/// An operator is unloaded exactly where it says that it is idle; when it is needed
/// next is asked only where that is wanted and the unload was sent; and it is loaded
/// again at the time that is predicted and no other.
pub proof fn idle_operators_are_unloaded(event: IdleEvent, use_prediction: bool, at: i128)
    ensures
        idle_step_of(event, use_prediction) is SendUnload <==> event == IdleEvent::Checked(true),
        idle_step_of(event, use_prediction) is Predict <==> use_prediction && event
            == IdleEvent::UnloadSent(true),
        idle_step_of(event, use_prediction) == IdleStep::SendLoadAt(at) <==> event
            == IdleEvent::Predicted(Some(at)),
        !use_prediction && event is UnloadSent ==> idle_step_of(event, use_prediction) is Next,
        event == IdleEvent::Predicted(None) ==> idle_step_of(event, use_prediction) is Next,
{
}

/// Operators are looked at twice in the time after which they count as idle.
pub proof fn operators_are_looked_at_in_time(idle_ms: u64)
    ensures
        idle_period(idle_ms) + idle_period(idle_ms) == idle_ms * 1_000_000,
{
}

/// Each event leads to what it asks for: every operator that runs is paused at the
/// end; an operator that is given up is stopped where it runs, and no other is;
/// those that were not listed are stopped once all were; a watch that fails ends the
/// program, and one that ends is an error.
pub proof fn events_lead_to_steps(
    m: ControllerView,
    event: WatcherEvent,
    r: Result<WatchStep, String>,
    uid: Seq<char>,
)
    requires
        m.leads_to(event, r),
    ensures
        event is Shutdown ==> (r matches Ok(WatchStep::PauseAll(list)) && (texts(list@).contains(uid)
            <==> m.operators.dom().contains(uid))),
        event matches WatcherEvent::Delete(meta) ==> (r matches Ok(WatchStep::Stop(list)) && (texts(
            list@,
        ).contains(uid) <==> m.operators.dom().contains(uid) && uid == meta.uid->0@)),
        event is InitDone ==> (r matches Ok(WatchStep::Stop(list)) && (texts(list@).contains(uid)
            <==> m.operators.dom().contains(uid) && !m.listed.contains(uid))),
        event is Init ==> r == Ok::<WatchStep, String>(WatchStep::Continue),
        event is Failed ==> r == Ok::<WatchStep, String>(WatchStep::Cancel),
        event is Ended ==> r is Err,
        event matches WatcherEvent::Apply(meta) ==> (r is Err <==> meta.uid is None),
        event is InitApply ==> (r matches Ok(WatchStep::Applied(_))),
{
    unlisted_operators_are_given_up(m, uid);
    match event {
        WatcherEvent::Delete(meta) => {
            let which = m.operators.dom().intersect(set![meta.uid->0@]);
            assert(which.contains(uid) <==> m.operators.dom().contains(uid) && uid == meta.uid->0@);
        },
        WatcherEvent::InitDone => {
            let which = m.operators.dom().difference(m.settled().operators.dom());
            assert(which.contains(uid) <==> m.operators.dom().contains(uid) && !m.listed.contains(
                uid,
            ));
        },
        _ => {},
    }
}

} // verus!
