//! The watch stream handler: one worker that shares the streams to the API
//! server among the operators.
//!
//! The handler decides; opening a stream and sending to an operator is left to
//! the caller, which reports back how it went.

use crate::api::{Error, EventView, HttpError, KubeError, WatchEvent, WatchId};
use crate::outside::{
    listeners_get, listeners_insert, listeners_new, listeners_remove, versions_get,
    versions_insert, versions_new, versions_remove,
};
use crate::text::{dec_text, opt_text, parse_u64, uint_of};
use crate::watch::{SignatureView, WatchStreamSignature};
use dashmap::DashMap;
use std::collections::HashSet;
use vstd::prelude::*;
use vstd::string::*;

verus! {

/// An operator that listens to a stream, and whether it takes bookmarks.
pub type Listener = (u64, bool);

/// Manages Kubernetes watch streams and distributes events to operators.
pub struct WatchStreamHandler {
    /// By stream, the resource version of the last event that was not a
    /// bookmark.
    last_event_versions: DashMap<u64, String>,
    next_temp_id: u64,
    streams: Vec<WatchStreamSignature>,
    operators: DashMap<u64, Vec<(u64, bool)>>,
    /// By stream, the resource version to go on from.
    cluster_resource_versions: DashMap<u64, String>,
    /// Streams that the API server gave up on.
    gone_streams: HashSet<u64>,
}

/// What the handler knows.
#[verifier::ext_equal]
pub struct HandlerView {
    pub last_event: Map<WatchId, Seq<char>>,
    pub next_temp_id: u64,
    pub streams: Set<SignatureView>,
    pub listeners: Map<WatchId, Seq<Listener>>,
    pub versions: Map<WatchId, Seq<char>>,
    pub gone: Set<WatchId>,
}

/// A request to listen to a stream, on its way to the worker.
#[derive(Debug)]
pub struct RegisterCmd {
    pub signature: WatchStreamSignature,
    pub cluster_version: String,
    pub bookmarks: bool,
    pub operator: u64,
}

/// A watch event on its way to an operator.
#[derive(Debug)]
pub struct Delivery {
    pub operator: u64,
    pub watch_id: WatchId,
    pub event: WatchEvent,
}

/// A watch event on its way to an operator.
pub struct DeliveryView {
    pub operator: u64,
    pub watch_id: WatchId,
    pub event: EventView,
}

impl View for Delivery {
    type V = DeliveryView;

    open spec fn view(&self) -> DeliveryView {
        DeliveryView { operator: self.operator, watch_id: self.watch_id, event: self.event@ }
    }
}

/// What the worker does with a request to listen.
#[derive(Debug, PartialEq, Eq, Structural)]
pub enum RegisterStep {
    /// Open the stream, then report how it went.
    Open,
    /// The stream was open: the operator listens to it now.
    Joined,
    /// The operator is behind: its stream is one that only says so, with an
    /// error of code 410, and ends.
    ServeGone,
}

/// A change to an object.
#[derive(Clone, Copy, Debug, PartialEq, Eq, Structural)]
pub enum Change {
    Added,
    Modified,
    Deleted,
}

/// The shared stream to open in place of a temporary one, and those who are to
/// listen to it.
#[derive(Debug)]
pub struct Upgrade {
    pub signature: WatchStreamSignature,
    pub cluster_version: String,
    pub listeners: Vec<(u64, bool)>,
}

/// What a bookmark leads to.
#[derive(Debug)]
pub enum BookmarkStep {
    /// Tell the listeners.
    Deliver(Vec<Delivery>),
    /// The temporary stream has done its work and is closed.  Tell its
    /// listeners; then, where there is a stream to open, open it and report how
    /// it went.
    Upgraded(Vec<Delivery>, Option<Upgrade>),
}

/// What the end of a stream leads to.
#[derive(Debug)]
pub enum EndStep {
    /// The stream is gone for good.
    Dropped,
    /// Open it again from this resource version, then report how it went.
    Reopen(String),
}

/// Whether a listener is told of an event: all are, except of a bookmark.
pub open spec fn is_told(listener: Listener, event: EventView) -> bool {
    event is Bookmark ==> listener.1
}

/// Whether a listener is another than the given operator.
pub open spec fn is_other(operator: u64) -> spec_fn(Listener) -> bool {
    |l: Listener| l.0 != operator
}

/// An event of a stream for each of its listeners that is told of it.
pub open spec fn deliveries(listeners: Seq<Listener>, id: WatchId, event: EventView) -> Seq<
    DeliveryView,
> {
    listeners.filter(|l: Listener| is_told(l, event)).map_values(
        |l: Listener| DeliveryView { operator: l.0, watch_id: id, event },
    )
}

/// The views of the deliveries in a list.
pub open spec fn sent(list: Seq<Delivery>) -> Seq<DeliveryView> {
    list.map_values(|d: Delivery| d@)
}

/// The event that a change to an object is told as, `json` being the object, or
/// why it could not be written down.
pub open spec fn change_event(change: Change, json: Result<Seq<char>, Seq<char>>) -> EventView {
    match json {
        Ok(text) => match change {
            Change::Added => EventView::Added(text),
            Change::Modified => EventView::Modified(text),
            Change::Deleted => EventView::Deleted(text),
        },
        Err(words) => EventView::Error(crate::api::ErrorView::Other(words)),
    }
}

/// What is said of a bookmark that could not be written down.
pub open spec fn bookmark_fault(words: Seq<char>) -> Seq<char> {
    "Bookmark serialization error: "@ + words
}

/// The event that a bookmark of a shared stream is told as.
pub open spec fn bookmark_event(json: Result<Seq<char>, Seq<char>>) -> EventView {
    match json {
        Ok(text) => EventView::Bookmark(text),
        Err(words) => EventView::Error(crate::api::ErrorView::Other(bookmark_fault(words))),
    }
}

/// The event that the last bookmark of a temporary stream is told as.
pub open spec fn upgrade_event(next: WatchId, json: Result<Seq<char>, Seq<char>>) -> EventView {
    EventView::UpgradeBookmark(
        next,
        match json {
            Ok(text) => text,
            Err(words) => bookmark_fault(words),
        },
    )
}

/// The text of a result, whichever it is.
pub open spec fn result_text(r: Result<String, String>) -> Result<Seq<char>, Seq<char>> {
    match r {
        Ok(text) => Ok(text@),
        Err(words) => Err(words@),
    }
}

impl HandlerView {
    /// Those who listen to a stream.
    pub open spec fn listeners_of(self, id: WatchId) -> Seq<Listener> {
        if self.listeners.dom().contains(id) {
            self.listeners[id]
        } else {
            Seq::empty()
        }
    }

    /// More listeners, after those that there are.
    pub open spec fn listening(self, id: WatchId, more: Seq<Listener>) -> HandlerView {
        HandlerView {
            listeners: self.listeners.insert(id, self.listeners_of(id) + more),
            ..self
        }
    }

    /// The stream is open from a resource version on, with more listeners.
    pub open spec fn opened(
        self,
        sig: SignatureView,
        version: Seq<char>,
        more: Seq<Listener>,
    ) -> HandlerView {
        HandlerView {
            streams: self.streams.insert(sig),
            versions: self.versions.insert(sig.id(), version),
            ..self.listening(sig.id(), more)
        }
    }

    /// Nothing is left of the stream.
    pub open spec fn closed(self, sig: SignatureView) -> HandlerView {
        HandlerView {
            streams: self.streams.remove(sig),
            listeners: self.listeners.remove(sig.id()),
            versions: self.versions.remove(sig.id()),
            ..self
        }
    }

    /// Whether a request is served by a stream of its own: where it asks for the
    /// objects that there are, or its version is behind.
    pub open spec fn served_alone(self, sig: SignatureView, version: Seq<char>) -> bool {
        sig.send_initial_events || self.behind(sig.id(), version) == Ok::<bool, Seq<char>>(true)
    }

    /// The stream that a request is served by.
    pub open spec fn served_by(self, sig: SignatureView, version: Seq<char>) -> SignatureView {
        if self.served_alone(sig, version) {
            sig.with_temporary(self.next_temp_id)
        } else {
            sig
        }
    }

    /// After a request: the number of a stream of its own is used up.
    pub open spec fn requested(self, sig: SignatureView, version: Seq<char>) -> HandlerView {
        if self.served_alone(sig, version) {
            HandlerView {
                next_temp_id: vstd::wrapping::u64_specs::wrapping_add(self.next_temp_id, 1),
                ..self
            }
        } else {
            self
        }
    }

    /// A temporary stream has sent the objects that there were: those who listened
    /// to it listen to the shared stream that takes over, where that is open.
    pub open spec fn upgraded(self, sig: SignatureView) -> HandlerView {
        let rest = self.closed(sig);
        if self.listeners.dom().contains(sig.id()) && rest.streams.contains(sig.settled()) {
            rest.listening(sig.settled().id(), self.listeners_of(sig.id()))
        } else {
            rest
        }
    }

    /// Whether the shared stream that takes over from a temporary one has still to
    /// be opened.
    pub open spec fn must_open(self, sig: SignatureView) -> bool {
        self.listeners.dom().contains(sig.id()) && !self.closed(sig).streams.contains(sig.settled())
    }

    /// An event of the stream has come, of a resource version.
    pub open spec fn changed(self, id: WatchId, version: Seq<char>) -> HandlerView {
        HandlerView {
            versions: self.versions.insert(id, version),
            last_event: self.last_event.insert(id, version),
            ..self
        }
    }

    /// A bookmark of the stream has come, of a resource version.
    pub open spec fn bookmarked(self, id: WatchId, version: Seq<char>) -> HandlerView {
        HandlerView { versions: self.versions.insert(id, version), ..self }
    }

    /// The API server has refused the stream with a code.
    pub open spec fn refused(self, id: WatchId, code: u16) -> HandlerView {
        HandlerView {
            gone: if code == 410 {
                self.gone.insert(id)
            } else {
                self.gone
            },
            ..self
        }
    }

    /// The stream has ended.
    pub open spec fn ended(self, sig: SignatureView) -> HandlerView {
        if self.gone.contains(sig.id()) {
            HandlerView { gone: self.gone.remove(sig.id()), ..self.closed(sig) }
        } else {
            self
        }
    }

    /// No one listens to the stream any more.
    pub open spec fn deserted(self, id: WatchId) -> HandlerView {
        HandlerView { listeners: self.listeners.remove(id), ..self }
    }

    /// The stream is no longer there.
    pub open spec fn left(self, sig: SignatureView) -> HandlerView {
        HandlerView { streams: self.streams.remove(sig), ..self }
    }

    /// Whether a listener that has seen all up to a resource version has missed
    /// events of the stream; in words, why that cannot be told.  An empty
    /// version stands for the latest.
    pub open spec fn behind(self, id: WatchId, version: Seq<char>) -> Result<bool, Seq<char>> {
        if !self.last_event.dom().contains(id) || version.len() == 0 {
            Ok(false)
        } else {
            match uint_of(self.last_event[id], u64::MAX as nat) {
                Err(e) => Err("Failed to parse last event version: "@ + e.words()),
                Ok(last) => match uint_of(version, u64::MAX as nat) {
                    Err(e) => Err("Failed to parse cluster version: "@ + e.words()),
                    Ok(seen) => Ok(last > seen),
                },
            }
        }
    }

    /// Whether a stream that is still to be opened is served from the start or
    /// refused, and not shared.
    pub open spec fn register_step(self, sig: SignatureView) -> RegisterStep {
        if sig.temporary > 0 {
            if sig.send_initial_events {
                RegisterStep::Open
            } else {
                RegisterStep::ServeGone
            }
        } else if self.streams.contains(sig) {
            RegisterStep::Joined
        } else {
            RegisterStep::Open
        }
    }

    /// A listener that is no longer there is taken off a stream, and the stream
    /// is closed where it was the last.
    pub open spec fn without(self, sig: SignatureView, operator: u64) -> HandlerView {
        let left = self.listeners_of(sig.id()).filter(is_other(operator));
        if left.len() == 0 {
            self.closed(sig)
        } else {
            HandlerView { listeners: self.listeners.insert(sig.id(), left), ..self }
        }
    }

    /// Every open stream has a resource version to go on from.
    pub open spec fn versions_known(self) -> bool {
        forall|sig: SignatureView|
            #[trigger] self.streams.contains(sig) ==> self.versions.dom().contains(sig.id())
    }

    /// No two open streams have the same hash.
    pub open spec fn ids_differ(self) -> bool {
        forall|a: SignatureView, b: SignatureView|
            self.streams.contains(a) && self.streams.contains(b) && #[trigger] a.id()
                == #[trigger] b.id() ==> a == b
    }
}

/// Writes the same event for each listener that is told of it.
fn deliver(list: &Vec<(u64, bool)>, id: WatchId, event: &WatchEvent) -> (r: Vec<Delivery>)
    ensures
        sent(r@) == deliveries(list@, id, event@),
{
    let ghost told = |l: Listener| is_told(l, event@);
    let bookmark = match event {
        WatchEvent::Bookmark(_) => true,
        _ => false,
    };
    let mut r: Vec<Delivery> = Vec::new();
    let mut i: usize = 0;
    assert(list@.take(0).filter(told) =~= Seq::<Listener>::empty()) by {
        reveal(Seq::filter);
    }
    assert(sent(r@) =~= deliveries(list@.take(0), id, event@));
    while i < list.len()
        invariant
            i <= list@.len(),
            bookmark == (event@ is Bookmark),
            told == (|l: Listener| is_told(l, event@)),
            sent(r@) == deliveries(list@.take(i as int), id, event@),
        decreases list@.len() - i,
    {
        let (operator, takes_bookmarks) = list[i];
        let ghost before = sent(r@);
        proof {
            reveal(Seq::filter);
            assert(list@.take(i + 1).drop_last() =~= list@.take(i as int));
            assert(list@.take(i + 1).last() == list@[i as int]);
        }
        if !bookmark || takes_bookmarks {
            r.push(Delivery { operator, watch_id: id, event: event.clone() });
            assert(sent(r@) =~= before.push(
                DeliveryView { operator, watch_id: id, event: event@ },
            ));
            assert(told(list@[i as int]));
            assert(deliveries(list@.take(i + 1), id, event@) =~= before.push(
                DeliveryView { operator, watch_id: id, event: event@ },
            ));
        } else {
            assert(!told(list@[i as int]));
            assert(deliveries(list@.take(i + 1), id, event@) =~= before);
        }
        i = i + 1;
    }
    assert(list@.take(list@.len() as int) =~= list@);
    r
}

/// The views of the signatures in a list.
spec fn views(list: Seq<WatchStreamSignature>) -> Seq<SignatureView> {
    list.map_values(|s: WatchStreamSignature| s@)
}

proof fn lemma_views_push(list: Seq<WatchStreamSignature>, sig: WatchStreamSignature)
    ensures
        views(list.push(sig)).to_set() == views(list).to_set().insert(sig@),
{
    assert(views(list.push(sig)) =~= views(list).push(sig@));
    assert forall|v: SignatureView|
        views(list).push(sig@).to_set().contains(v) <==> views(list).to_set().insert(
            sig@,
        ).contains(v) by {
        let pushed = views(list).push(sig@);
        if views(list).contains(v) {
            let k = choose|k: int| 0 <= k < views(list).len() && views(list)[k] == v;
            assert(pushed[k] == v);
        }
        if v == sig@ {
            assert(pushed[list.len() as int] == v);
        }
    }
    assert(views(list).push(sig@).to_set() =~= views(list).to_set().insert(sig@));
}

proof fn lemma_views_remove(list: Seq<WatchStreamSignature>, at: int)
    requires
        0 <= at < list.len(),
        views(list).no_duplicates(),
    ensures
        views(list.remove(at)).to_set() == views(list).to_set().remove(list[at]@),
        views(list.remove(at)).no_duplicates(),
{
    let before = views(list);
    let after = views(list.remove(at));
    assert(after =~= before.remove(at));
    assert forall|v: SignatureView|
        after.to_set().contains(v) <==> before.to_set().remove(list[at]@).contains(v) by {
        if after.contains(v) {
            let k = choose|k: int| 0 <= k < after.len() && after[k] == v;
            let j = if k < at {
                k
            } else {
                k + 1
            };
            assert(before[j] == v);
            assert(before[at] == list[at]@);
        }
        if before.contains(v) && v != list[at]@ {
            let k = choose|k: int| 0 <= k < before.len() && before[k] == v;
            let j = if k < at {
                k
            } else {
                k - 1
            };
            assert(after[j] == v);
        }
    }
    assert(after.to_set() =~= before.to_set().remove(list[at]@));
}

/// What a stream says that only tells an operator that it is behind.
pub fn behind_error() -> (r: KubeError)
    ensures
        r matches KubeError::Api(status) && status.code == 410 && status.reason@ == "Gone"@
            && status.message@ == "Requested watch stream is behind the current streams"@,
{
    KubeError::Api(
        HttpError {
            code: 410,
            reason: "Gone".to_owned(),
            message: "Requested watch stream is behind the current streams".to_owned(),
        },
    )
}

impl View for WatchStreamHandler {
    type V = HandlerView;

    closed spec fn view(&self) -> HandlerView {
        HandlerView {
            last_event: crate::outside::versions(self.last_event_versions),
            next_temp_id: self.next_temp_id,
            streams: views(self.streams@).to_set(),
            listeners: crate::outside::listeners(self.operators),
            versions: crate::outside::versions(self.cluster_resource_versions),
            gone: self.gone_streams@,
        }
    }
}

impl WatchStreamHandler {
    /// The handler's own books are in order.
    pub closed spec fn wf(self) -> bool {
        &&& views(self.streams@).no_duplicates()
        &&& forall|i: int| 0 <= i < self.streams@.len() ==> (#[trigger] self.streams@[i]).wf()
    }

    /// A handler without streams.
    pub fn new() -> (r: WatchStreamHandler)
        ensures
            r.wf(),
            r@.last_event.dom() == Set::<WatchId>::empty(),
            r@.next_temp_id == 1,
            r@.streams == Set::<SignatureView>::empty(),
            r@.listeners.dom() == Set::<WatchId>::empty(),
            r@.versions.dom() == Set::<WatchId>::empty(),
            r@.gone == Set::<WatchId>::empty(),
    {
        let r = WatchStreamHandler {
            last_event_versions: versions_new(),
            next_temp_id: 1,
            streams: Vec::new(),
            operators: listeners_new(),
            cluster_resource_versions: versions_new(),
            gone_streams: HashSet::new(),
        };
        assert(views(r.streams@).to_set() =~= Set::<SignatureView>::empty());
        r
    }

    fn find_stream(&self, sig: &WatchStreamSignature) -> (r: Option<usize>)
        requires
            self.wf(),
            sig.wf(),
        ensures
            match r {
                Some(i) => i < self.streams@.len() && self.streams@[i as int]@ == sig@,
                None => !self@.streams.contains(sig@),
            },
            r is Some ==> self@.streams.contains(sig@),
    {
        let mut i: usize = 0;
        while i < self.streams.len()
            invariant
                self.wf(),
                sig.wf(),
                i <= self.streams@.len(),
                forall|j: int| 0 <= j < i ==> (#[trigger] self.streams@[j])@ != sig@,
            decreases self.streams@.len() - i,
        {
            if self.streams[i] == *sig {
                assert(views(self.streams@)[i as int] == sig@);
                return Some(i);
            }
            i = i + 1;
        }
        assert forall|k: int| 0 <= k < views(self.streams@).len() implies #[trigger] views(
            self.streams@,
        )[k] != sig@ by {
            assert(self.streams@[k]@ != sig@);
        }
        None
    }

    /// Whether a stream is open.
    pub fn is_open(&self, sig: &WatchStreamSignature) -> (r: bool)
        requires
            self.wf(),
            sig.wf(),
        ensures
            r == self@.streams.contains(sig@),
    {
        self.find_stream(sig).is_some()
    }

    fn put_stream(&mut self, sig: WatchStreamSignature)
        requires
            old(self).wf(),
            sig.wf(),
        ensures
            final(self).wf(),
            final(self)@ == (HandlerView {
                streams: old(self)@.streams.insert(sig@),
                ..old(self)@
            }),
    {
        let known = self.find_stream(&sig);
        if known.is_none() {
            let ghost before = self.streams@;
            proof {
                lemma_views_push(before, sig);
                assert(views(before.push(sig)) =~= views(before).push(sig@));
                assert forall|i: int, j: int|
                    0 <= i < views(before).push(sig@).len() && 0 <= j < views(before).push(
                        sig@,
                    ).len() && i != j implies views(before).push(sig@)[i] != views(before).push(
                    sig@,
                )[j] by {
                    if i == before.len() {
                        assert(views(before).to_set().contains(views(before)[j]));
                    } else if j == before.len() {
                        assert(views(before).to_set().contains(views(before)[i]));
                    }
                }
            }
            self.streams.push(sig);
        }
        assert(self@ =~= (HandlerView { streams: old(self)@.streams.insert(sig@), ..old(self)@ }));
    }

    fn take_stream(&mut self, sig: &WatchStreamSignature)
        requires
            old(self).wf(),
            sig.wf(),
        ensures
            final(self).wf(),
            final(self)@ == (HandlerView {
                streams: old(self)@.streams.remove(sig@),
                ..old(self)@
            }),
    {
        match self.find_stream(sig) {
            Some(i) => {
                proof {
                    lemma_views_remove(self.streams@, i as int);
                }
                let _gone = self.streams.remove(i);
            },
            None => {},
        }
        assert(self@ =~= (HandlerView { streams: old(self)@.streams.remove(sig@), ..old(self)@ }));
    }

    fn add_listeners(&mut self, id: WatchId, more: &Vec<(u64, bool)>)
        requires
            old(self).wf(),
        ensures
            final(self).wf(),
            final(self)@ == old(self)@.listening(id, more@),
    {
        let mut list: Vec<(u64, bool)> = match listeners_get(&self.operators, id) {
            Some(list) => list,
            None => Vec::new(),
        };
        let mut i: usize = 0;
        assert(list@ =~= old(self)@.listeners_of(id) + more@.take(0));
        while i < more.len()
            invariant
                i <= more@.len(),
                *self == *old(self),
                list@ == old(self)@.listeners_of(id) + more@.take(i as int),
            decreases more@.len() - i,
        {
            list.push(more[i]);
            i = i + 1;
            assert(list@ =~= old(self)@.listeners_of(id) + more@.take(i as int));
        }
        assert(more@.take(more@.len() as int) =~= more@);
        listeners_insert(&mut self.operators, id, list);
        assert(self@ =~= old(self)@.listening(id, more@));
    }

    fn close_stream(&mut self, sig: &WatchStreamSignature) -> (r: Option<Vec<(u64, bool)>>)
        requires
            old(self).wf(),
            sig.wf(),
        ensures
            final(self).wf(),
            final(self)@ == old(self)@.closed(sig@),
            match r {
                Some(list) => old(self)@.listeners.dom().contains(sig@.id()) && list@
                    == old(self)@.listeners[sig@.id()],
                None => !old(self)@.listeners.dom().contains(sig@.id()),
            },
    {
        self.take_stream(sig);
        let list = listeners_remove(&mut self.operators, sig.get_hash());
        versions_remove(&mut self.cluster_resource_versions, sig.get_hash());
        assert(self@ =~= old(self)@.closed(sig@));
        list
    }

    fn open_stream(
        &mut self,
        sig: WatchStreamSignature,
        version: String,
        more: &Vec<(u64, bool)>,
    )
        requires
            old(self).wf(),
            sig.wf(),
        ensures
            final(self).wf(),
            final(self)@ == old(self)@.opened(sig@, version@, more@),
    {
        let id = sig.get_hash();
        versions_insert(&mut self.cluster_resource_versions, id, version);
        self.add_listeners(id, more);
        self.put_stream(sig);
        assert(self@ =~= old(self)@.opened(sig@, version@, more@));
    }

    fn is_behind(&self, id: WatchId, version: &String) -> (r: Result<bool, Error>)
        ensures
            match r {
                Ok(b) => self@.behind(id, version@) == Ok::<bool, Seq<char>>(b),
                Err(Error::Other(words)) => self@.behind(id, version@) == Err::<bool, Seq<char>>(
                    words@,
                ),
                Err(_) => false,
            },
    {
        match versions_get(&self.last_event_versions, id) {
            Some(last) => {
                if version.as_str().is_empty() {
                    return Ok(false);
                }
                match parse_u64(last.as_str()) {
                    Err(e) => Err(
                        Error::Other(
                            "Failed to parse last event version: ".to_owned().concat(
                                e.text().as_str(),
                            ),
                        ),
                    ),
                    Ok(last_event) => match parse_u64(version.as_str()) {
                        Err(e) => Err(
                            Error::Other(
                                "Failed to parse cluster version: ".to_owned().concat(
                                    e.text().as_str(),
                                ),
                            ),
                        ),
                        Ok(seen) => Ok(last_event > seen),
                    },
                }
            },
            None => Ok(false),
        }
    }

    /// Registers an operator to a watch stream: the request to hand to the
    /// worker.  An operator that wants the objects that there are, or that has
    /// missed events of the stream, gets a temporary stream of its own.  The
    /// operator knows its stream by the hash of the signature in the request.
    pub fn register_watch_stream(
        &mut self,
        operator: u64,
        signature: WatchStreamSignature,
        cluster_version: String,
        bookmarks: bool,
    ) -> (r: Result<RegisterCmd, Error>)
        requires
            old(self).wf(),
            signature.wf(),
        ensures
            final(self).wf(),
            match r {
                Ok(cmd) => {
                    let sig = signature@;
                    let behind = old(self)@.behind(sig.id(), cluster_version@);
                    let alone = sig.send_initial_events || behind == Ok::<bool, Seq<char>>(true);
                    &&& behind is Ok
                    &&& cmd.operator == operator
                    &&& cmd.cluster_version == cluster_version
                    &&& cmd.bookmarks == bookmarks
                    &&& cmd.signature.wf()
                    &&& cmd.signature@ == (if alone {
                        sig.with_temporary(old(self)@.next_temp_id)
                    } else {
                        sig
                    })
                    &&& final(self)@ == (HandlerView {
                        next_temp_id: if alone {
                            vstd::wrapping::u64_specs::wrapping_add(old(self)@.next_temp_id, 1)
                        } else {
                            old(self)@.next_temp_id
                        },
                        ..old(self)@
                    })
                },
                Err(Error::Other(words)) => {
                    &&& old(self)@.behind(signature@.id(), cluster_version@) == Err::<
                        bool,
                        Seq<char>,
                    >(words@)
                    &&& final(self)@ == old(self)@
                },
                Err(_) => false,
            },
            forall|last: u64, seen: u64|
                old(self)@.last_event.dom().contains(signature@.id())
                    && old(self)@.last_event[signature@.id()] == #[trigger] dec_text(last as nat)
                    && cluster_version@ == #[trigger] dec_text(seen as nat) ==> {
                    &&& r is Ok
                    &&& r->Ok_0.signature@.temporary != signature@.temporary ==> last > seen
                        || signature@.send_initial_events
                    &&& last > seen || signature@.send_initial_events
                        ==> r->Ok_0.signature@.temporary == old(self)@.next_temp_id
                    &&& last <= seen && !signature@.send_initial_events
                        ==> r->Ok_0.signature@ == signature@
                },
            r matches Ok(cmd) ==> cmd.signature@.with_temporary(0) == signature@.with_temporary(0),
            r matches Ok(cmd) ==> cmd.signature@ == old(self)@.served_by(
                signature@,
                cluster_version@,
            ) && final(self)@ == old(self)@.requested(signature@, cluster_version@),
    {
        proof {
            assert forall|last: u64, seen: u64|
                old(self)@.last_event.dom().contains(signature@.id())
                    && old(self)@.last_event[signature@.id()] == #[trigger] dec_text(last as nat)
                    && cluster_version@ == #[trigger] dec_text(
                    seen as nat,
                ) implies old(self)@.behind(signature@.id(), cluster_version@) == Ok::<
                bool,
                Seq<char>,
            >(last > seen) by {
                operators_are_behind_at_any_distance(old(self)@, signature@.id(), last, seen);
            }
        }
        let mut signature = signature;
        let behind = match self.is_behind(signature.get_hash(), &cluster_version) {
            Ok(behind) => behind,
            Err(e) => {
                return Err(e);
            },
        };
        if signature.send_initial_events() || behind {
            let temp_id: u64 = self.next_temp_id;
            self.next_temp_id = temp_id.wrapping_add(1);
            signature.set_temporary(temp_id);
        }
        Ok(RegisterCmd { signature, cluster_version, bookmarks, operator })
    }

    /// Takes up a request to listen to a stream.
    pub fn begin_register(&mut self, cmd: &RegisterCmd) -> (step: RegisterStep)
        requires
            old(self).wf(),
            cmd.signature.wf(),
        ensures
            final(self).wf(),
            step == old(self)@.register_step(cmd.signature@),
            final(self)@ == (match step {
                RegisterStep::Open => old(self)@,
                RegisterStep::Joined => old(self)@.listening(
                    cmd.signature@.id(),
                    seq![(cmd.operator, cmd.bookmarks)],
                ),
                RegisterStep::ServeGone => old(self)@.opened(
                    cmd.signature@,
                    cmd.cluster_version@,
                    seq![(cmd.operator, cmd.bookmarks)],
                ),
            }),
    {
        let mut list: Vec<(u64, bool)> = Vec::new();
        list.push((cmd.operator, cmd.bookmarks));
        assert(list@ =~= seq![(cmd.operator, cmd.bookmarks)]);
        if cmd.signature.temporary() > 0 {
            if cmd.signature.send_initial_events() {
                RegisterStep::Open
            } else {
                self.open_stream(cmd.signature.clone(), cmd.cluster_version.clone(), &list);
                RegisterStep::ServeGone
            }
        } else if self.is_open(&cmd.signature) {
            self.add_listeners(cmd.signature.get_hash(), &list);
            RegisterStep::Joined
        } else {
            RegisterStep::Open
        }
    }

    /// The stream of a request is open.
    pub fn register_opened(&mut self, cmd: RegisterCmd)
        requires
            old(self).wf(),
            cmd.signature.wf(),
        ensures
            final(self).wf(),
            final(self)@ == old(self)@.opened(
                cmd.signature@,
                cmd.cluster_version@,
                seq![(cmd.operator, cmd.bookmarks)],
            ),
    {
        let mut list: Vec<(u64, bool)> = Vec::new();
        list.push((cmd.operator, cmd.bookmarks));
        assert(list@ =~= seq![(cmd.operator, cmd.bookmarks)]);
        self.open_stream(cmd.signature, cmd.cluster_version, &list);
    }

    /// The stream of a request could not be opened: the operator is told why.
    pub fn register_refused(cmd: &RegisterCmd, error: Error) -> (d: Delivery)
        ensures
            d@ == (DeliveryView {
                operator: cmd.operator,
                watch_id: cmd.signature.id(),
                event: EventView::Error(error@),
            }),
            d.operator == cmd.operator,
            d.watch_id == cmd.signature.id(),
            d.event@ == EventView::Error(error@),
    {
        Delivery {
            operator: cmd.operator,
            watch_id: cmd.signature.get_hash(),
            event: WatchEvent::Error(error),
        }
    }

    fn deliver_to_listeners(&self, id: WatchId, event: &WatchEvent) -> (r: Vec<Delivery>)
        ensures
            sent(r@) == deliveries(self@.listeners_of(id), id, event@),
    {
        let list = match listeners_get(&self.operators, id) {
            Some(list) => list,
            None => Vec::new(),
        };
        assert(list@ =~= self@.listeners_of(id));
        deliver(&list, id, event)
    }

    /// An object of a stream has changed.  `json` is the object, or why it
    /// could not be written down.
    pub fn object_changed(
        &mut self,
        sig: &WatchStreamSignature,
        change: Change,
        resource_version: Option<String>,
        json: Result<String, String>,
    ) -> (r: Vec<Delivery>)
        requires
            old(self).wf(),
            sig.wf(),
        ensures
            final(self).wf(),
            ({
                let id = sig@.id();
                let version = match opt_text(resource_version) {
                    Some(text) => text,
                    None => Seq::<char>::empty(),
                };
                &&& final(self)@ == (HandlerView {
                    versions: old(self)@.versions.insert(id, version),
                    last_event: old(self)@.last_event.insert(id, version),
                    ..old(self)@
                })
                &&& sent(r@) == deliveries(
                    old(self)@.listeners_of(id),
                    id,
                    change_event(change, result_text(json)),
                )
            }),
            final(self)@ == old(self)@.changed(
                sig@.id(),
                match opt_text(resource_version) {
                    Some(text) => text,
                    None => Seq::<char>::empty(),
                },
            ),
            r@.len() == old(self)@.listeners_of(sig@.id()).len(),
            forall|i: int|
                0 <= i < r@.len() ==> {
                    &&& (#[trigger] r@[i]).operator == old(self)@.listeners_of(sig@.id())[i].0
                    &&& r@[i].watch_id == sig@.id()
                    &&& json matches Ok(text) ==> match change {
                        Change::Added => r@[i].event@ == EventView::Added(text@),
                        Change::Modified => r@[i].event@ == EventView::Modified(text@),
                        Change::Deleted => r@[i].event@ == EventView::Deleted(text@),
                    }
                    &&& json matches Err(words) ==> r@[i].event@ == EventView::Error(
                        crate::api::ErrorView::Other(words@),
                    )
                },
    {
        let id = sig.get_hash();
        let version = match resource_version {
            Some(version) => version,
            None => String::new(),
        };
        versions_insert(&mut self.cluster_resource_versions, id, version.clone());
        versions_insert(&mut self.last_event_versions, id, version);
        let event = match json {
            Ok(text) => match change {
                Change::Added => WatchEvent::Added(text),
                Change::Modified => WatchEvent::Modified(text),
                Change::Deleted => WatchEvent::Deleted(text),
            },
            Err(words) => WatchEvent::Error(Error::Other(words)),
        };
        assert(self@.listeners == old(self)@.listeners);
        assert(self@ =~= old(self)@.changed(id, version@));
        let r = self.deliver_to_listeners(id, &event);
        proof {
            let list = old(self)@.listeners_of(id);
            everyone_is_told(list, id, event@);
            assert(sent(r@).len() == r@.len());
            assert forall|i: int| 0 <= i < r@.len() implies (#[trigger] r@[i])@ == (DeliveryView {
                operator: list[i].0,
                watch_id: id,
                event: event@,
            }) by {
                assert(sent(r@)[i] == r@[i]@);
                assert(deliveries(list, id, event@)[i] == r@[i]@);
            }
        }
        r
    }

    /// A stream has sent a bookmark.  On a shared stream it moves the resource
    /// version to go on from.  On a temporary stream it says that the objects
    /// that there were have all been sent: the stream is closed and those who
    /// listened to it pass to the shared stream.
    pub fn bookmark_received(
        &mut self,
        sig: &WatchStreamSignature,
        resource_version: String,
        json: Result<String, String>,
    ) -> (step: BookmarkStep)
        requires
            old(self).wf(),
            sig.wf(),
        ensures
            final(self).wf(),
            sig@.temporary == 0 ==> {
                &&& step matches BookmarkStep::Deliver(list)
                &&& sent(list@) == deliveries(
                    old(self)@.listeners_of(sig@.id()),
                    sig@.id(),
                    bookmark_event(result_text(json)),
                )
                &&& final(self)@ == (HandlerView {
                    versions: old(self)@.versions.insert(sig@.id(), resource_version@),
                    ..old(self)@
                })
                &&& final(self)@ == old(self)@.bookmarked(sig@.id(), resource_version@)
            },
            sig@.temporary > 0 ==> {
                let next = sig@.settled();
                let known = old(self)@.listeners.dom().contains(sig@.id());
                let list = old(self)@.listeners_of(sig@.id());
                let rest = old(self)@.closed(sig@);
                let shared = rest.streams.contains(next);
                &&& step matches BookmarkStep::Upgraded(told, upgrade)
                &&& sent(told@) == deliveries(
                    list,
                    sig@.id(),
                    upgrade_event(next.id(), result_text(json)),
                )
                &&& final(self)@ == (if known && shared {
                    rest.listening(next.id(), list)
                } else {
                    rest
                })
                &&& upgrade is Some <==> known && !shared
                &&& upgrade matches Some(u) ==> {
                    &&& u.signature@ == next
                    &&& u.signature.wf()
                    &&& u.cluster_version == resource_version
                    &&& u.listeners@ == list
                }
                &&& final(self)@ == old(self)@.upgraded(sig@)
                &&& upgrade is Some <==> old(self)@.must_open(sig@)
            },
    {
        let id = sig.get_hash();
        if sig.temporary() > 0 {
            let next = sig.settled();
            match self.close_stream(sig) {
                Some(list) => {
                    let words = match json {
                        Ok(text) => text,
                        Err(words) => "Bookmark serialization error: ".to_owned().concat(
                            words.as_str(),
                        ),
                    };
                    let event = WatchEvent::UpgradeBookmark((next.get_hash(), words));
                    let told = deliver(&list, id, &event);
                    if self.is_open(&next) {
                        self.add_listeners(next.get_hash(), &list);
                        BookmarkStep::Upgraded(told, None)
                    } else {
                        BookmarkStep::Upgraded(
                            told,
                            Some(
                                Upgrade {
                                    signature: next,
                                    cluster_version: resource_version,
                                    listeners: list,
                                },
                            ),
                        )
                    }
                },
                None => {
                    let told: Vec<Delivery> = Vec::new();
                    proof {
                        let ev = upgrade_event(sig@.settled().id(), result_text(json));
                        reveal(Seq::filter);
                        assert(Seq::<Listener>::empty().filter(|l: Listener| is_told(l, ev))
                            =~= Seq::<Listener>::empty());
                        assert(sent(told@) =~= deliveries(Seq::empty(), sig@.id(), ev));
                    }
                    BookmarkStep::Upgraded(told, None)
                },
            }
        } else {
            versions_insert(&mut self.cluster_resource_versions, id, resource_version);
            let event = match json {
                Ok(text) => WatchEvent::Bookmark(text),
                Err(words) => WatchEvent::Error(
                    Error::Other(
                        "Bookmark serialization error: ".to_owned().concat(words.as_str()),
                    ),
                ),
            };
            assert(self@.listeners == old(self)@.listeners);
            assert(self@ =~= (HandlerView {
                versions: old(self)@.versions.insert(sig@.id(), resource_version@),
                ..old(self)@
            }));
            BookmarkStep::Deliver(self.deliver_to_listeners(id, &event))
        }
    }

    /// The shared stream in place of a temporary one is open.
    pub fn upgrade_opened(&mut self, upgrade: Upgrade)
        requires
            old(self).wf(),
            upgrade.signature.wf(),
        ensures
            final(self).wf(),
            final(self)@ == old(self)@.opened(
                upgrade.signature@,
                upgrade.cluster_version@,
                upgrade.listeners@,
            ),
    {
        self.open_stream(upgrade.signature, upgrade.cluster_version, &upgrade.listeners);
    }

    fn note_gone(&mut self, id: WatchId, code: u16)
        requires
            old(self).wf(),
        ensures
            final(self).wf(),
            final(self)@ == (HandlerView {
                gone: if code == 410 {
                    old(self)@.gone.insert(id)
                } else {
                    old(self)@.gone
                },
                ..old(self)@
            }),
    {
        if code == 410 {
            self.gone_streams.insert(id);
        }
    }

    /// The API server has sent an error on a stream.  With code 410 it has given
    /// up on the stream.
    pub fn error_received(&mut self, sig: &WatchStreamSignature, status: HttpError) -> (r: Vec<
        Delivery,
    >)
        requires
            old(self).wf(),
            sig.wf(),
        ensures
            final(self).wf(),
            final(self)@ == (HandlerView {
                gone: if status.code == 410 {
                    old(self)@.gone.insert(sig@.id())
                } else {
                    old(self)@.gone
                },
                ..old(self)@
            }),
            sent(r@) == deliveries(
                old(self)@.listeners_of(sig@.id()),
                sig@.id(),
                EventView::Error(Error::Http(status)@),
            ),
            final(self)@ == old(self)@.refused(sig@.id(), status.code),
    {
        let id = sig.get_hash();
        self.note_gone(id, status.code);
        let event = WatchEvent::Error(Error::Http(status));
        self.deliver_to_listeners(id, &event)
    }

    /// Reading a stream has failed.
    pub fn transport_failed(&mut self, sig: &WatchStreamSignature, failure: KubeError) -> (r: Vec<
        Delivery,
    >)
        requires
            old(self).wf(),
            sig.wf(),
        ensures
            final(self).wf(),
            final(self)@ == (HandlerView {
                gone: match failure {
                    KubeError::Api(status) => if status.code == 410 {
                        old(self)@.gone.insert(sig@.id())
                    } else {
                        old(self)@.gone
                    },
                    KubeError::Other(_) => old(self)@.gone,
                },
                ..old(self)@
            }),
            sent(r@) == deliveries(
                old(self)@.listeners_of(sig@.id()),
                sig@.id(),
                EventView::Error(
                    (match failure {
                        KubeError::Api(status) => if status.code == 404 {
                            Error::NotFound
                        } else {
                            Error::Http(status)
                        },
                        KubeError::Other(words) => Error::Other(words),
                    })@,
                ),
            ),
            failure matches KubeError::Api(status) ==> final(self)@ == old(self)@.refused(
                sig@.id(),
                status.code,
            ),
            failure is Other ==> final(self)@ == old(self)@,
            sent(r@) == deliveries(
                old(self)@.listeners_of(sig@.id()),
                sig@.id(),
                EventView::Error(failure_told(failure)),
            ),
    {
        let id = sig.get_hash();
        let error = Error::from(failure);
        match &error {
            Error::Http(status) => self.note_gone(id, status.code),
            _ => {},
        }
        let event = WatchEvent::Error(error);
        self.deliver_to_listeners(id, &event)
    }

    /// A stream has ended.  One that the API server has given up on is dropped,
    /// so that the operators can start anew; any other is opened again from
    /// where it was.
    pub fn stream_ended(&mut self, sig: &WatchStreamSignature) -> (step: EndStep)
        requires
            old(self).wf(),
            sig.wf(),
            old(self)@.gone.contains(sig@.id()) || old(self)@.versions.dom().contains(sig@.id()),
        ensures
            final(self).wf(),
            if old(self)@.gone.contains(sig@.id()) {
                &&& step is Dropped
                &&& final(self)@ == (HandlerView {
                    gone: old(self)@.gone.remove(sig@.id()),
                    ..old(self)@.closed(sig@)
                })
            } else {
                &&& step matches EndStep::Reopen(version)
                &&& version@ == old(self)@.versions[sig@.id()]
                &&& final(self)@ == old(self)@
            },
            final(self)@ == old(self)@.ended(sig@),
            step is Dropped <==> old(self)@.gone.contains(sig@.id()),
    {
        let id = sig.get_hash();
        if self.gone_streams.remove(&id) {
            let _listeners = self.close_stream(sig);
            return EndStep::Dropped;
        }
        assert(self@ =~= old(self)@);
        match versions_get(&self.cluster_resource_versions, id) {
            Some(version) => EndStep::Reopen(version),
            None => EndStep::Dropped,
        }
    }

    /// Whether the resource version to open a stream from again is known.
    pub fn version_known(&self, sig: &WatchStreamSignature) -> (r: bool)
        requires
            sig.wf(),
        ensures
            r == (self@.gone.contains(sig@.id()) || self@.versions.dom().contains(sig@.id())),
    {
        self.gone_streams.contains(&sig.get_hash()) || versions_get(
            &self.cluster_resource_versions,
            sig.get_hash(),
        ).is_some()
    }

    /// A stream that had ended is open again.
    pub fn reopened(&mut self, sig: &WatchStreamSignature)
        requires
            old(self).wf(),
            sig.wf(),
        ensures
            final(self).wf(),
            final(self)@ == (HandlerView {
                streams: old(self)@.streams.insert(sig@),
                ..old(self)@
            }),
            final(self)@.streams == old(self)@.streams.insert(sig@),
            final(self)@.listeners == old(self)@.listeners,
            final(self)@.versions == old(self)@.versions,
            final(self)@.gone == old(self)@.gone,
            final(self)@.last_event == old(self)@.last_event,
    {
        self.put_stream(sig.clone());
    }

    /// A stream that had ended could not be opened again: those who listened to
    /// it are told why and listen no more.  It counts as open until it is let go
    /// of.
    pub fn reopen_failed(&mut self, sig: &WatchStreamSignature, error: Error) -> (r: Vec<Delivery>)
        requires
            old(self).wf(),
            sig.wf(),
        ensures
            final(self).wf(),
            final(self)@ == old(self)@.deserted(sig@.id()),
            sent(r@) == deliveries(
                old(self)@.listeners_of(sig@.id()),
                sig@.id(),
                EventView::Error(error@),
            ),
    {
        let id = sig.get_hash();
        let event = WatchEvent::Error(error);
        let r = self.deliver_to_listeners(id, &event);
        let _listeners = listeners_remove(&mut self.operators, id);
        assert(self@ =~= old(self)@.deserted(sig@.id()));
        r
    }

    /// A stream that had ended and was not opened again is let go of.
    pub fn let_go(&mut self, sig: &WatchStreamSignature)
        requires
            old(self).wf(),
            sig.wf(),
        ensures
            final(self).wf(),
            final(self)@ == old(self)@.left(sig@),
    {
        self.take_stream(sig);
    }

    /// An operator could not be sent an event of a stream: it listens no more,
    /// and a stream to which no one listens is closed.
    pub fn listener_lost(&mut self, sig: &WatchStreamSignature, operator: u64)
        requires
            old(self).wf(),
            sig.wf(),
        ensures
            final(self).wf(),
            final(self)@ == old(self)@.without(sig@, operator),
    {
        let id = sig.get_hash();
        let list = match listeners_get(&self.operators, id) {
            Some(list) => list,
            None => Vec::new(),
        };
        assert(list@ =~= self@.listeners_of(id));
        let ghost stays = is_other(operator);
        let mut left: Vec<(u64, bool)> = Vec::new();
        let mut i: usize = 0;
        assert(list@.take(0).filter(stays) =~= left@) by {
            reveal(Seq::filter);
        }
        while i < list.len()
            invariant
                i <= list@.len(),
                *self == *old(self),
                stays == is_other(operator),
                left@ == list@.take(i as int).filter(stays),
            decreases list@.len() - i,
        {
            let listener = list[i];
            proof {
                reveal(Seq::filter);
                assert(list@.take(i + 1).drop_last() =~= list@.take(i as int));
            }
            if listener.0 != operator {
                left.push(listener);
            }
            i = i + 1;
        }
        assert(list@.take(list@.len() as int) =~= list@);
        if left.len() == 0 {
            let _listeners = self.close_stream(sig);
        } else {
            listeners_insert(&mut self.operators, id, left);
            assert(self@ =~= old(self)@.without(sig@, operator));
        }
    }
}

proof fn lemma_filter_keeps_all(list: Seq<Listener>, keep: spec_fn(Listener) -> bool)
    requires
        forall|i: int| 0 <= i < list.len() ==> keep(#[trigger] list[i]),
    ensures
        list.filter(keep) == list,
    decreases list.len(),
{
    reveal(Seq::filter);
    if list.len() > 0 {
        assert forall|i: int| 0 <= i < list.drop_last().len() implies keep(
            #[trigger] list.drop_last()[i],
        ) by {
            assert(list.drop_last()[i] == list[i]);
        }
        lemma_filter_keeps_all(list.drop_last(), keep);
        assert(keep(list[list.len() - 1]));
        assert(list.drop_last().push(list.last()) =~= list);
    } else {
        assert(list.filter(keep) =~= list);
    }
}

/// Of everything but a bookmark, each listener of a stream is told, once for
/// each time that it listens and in the order in which the listeners came.
pub proof fn everyone_is_told(list: Seq<Listener>, id: WatchId, event: EventView)
    requires
        !(event is Bookmark),
    ensures
        deliveries(list, id, event).len() == list.len(),
        forall|i: int|
            0 <= i < list.len() ==> #[trigger] deliveries(list, id, event)[i] == (DeliveryView {
                operator: list[i].0,
                watch_id: id,
                event,
            }),
{
    lemma_filter_keeps_all(list, |l: Listener| is_told(l, event));
}

/// Of a bookmark, no listener is told that does not take them.
pub proof fn bookmarks_reach_takers_only(list: Seq<Listener>, id: WatchId, json: Seq<char>, i: int)
    requires
        0 <= i < deliveries(list, id, EventView::Bookmark(json)).len(),
    ensures
        list.contains((deliveries(list, id, EventView::Bookmark(json))[i].operator, true)),
{
    let event = EventView::Bookmark(json);
    let told = |l: Listener| is_told(l, event);
    let kept = list.filter(told);
    list.lemma_filter_pred(told, i);
    assert(kept.contains(kept[i]));
    list.lemma_filter_contains_rev(told, kept[i]);
    let k = choose|k: int| 0 <= k < list.len() && list[k] == kept[i];
    assert(list[k] == (kept[i].0, true));
}

/// As long as no two streams have the same hash, every open stream has a
/// resource version to go on from, whatever the handler does to a stream.
pub proof fn open_streams_have_versions(
    m: HandlerView,
    sig: SignatureView,
    version: Seq<char>,
    more: Seq<Listener>,
    operator: u64,
)
    requires
        m.versions_known(),
        m.ids_differ(),
        forall|other: SignatureView|
            m.streams.contains(other) && #[trigger] other.id() == sig.id() ==> other == sig,
    ensures
        m.listening(sig.id(), more).versions_known(),
        m.opened(sig, version, more).versions_known(),
        m.closed(sig).versions_known(),
        m.without(sig, operator).versions_known(),
        (HandlerView { versions: m.versions.insert(sig.id(), version), ..m }).versions_known(),
        m.deserted(sig.id()).versions_known(),
        m.left(sig).versions_known(),
        m.versions.dom().contains(sig.id()) ==> (HandlerView {
            streams: m.streams.insert(sig),
            ..m
        }).versions_known(),
        m.closed(sig).ids_differ(),
        m.without(sig, operator).ids_differ(),
        m.listening(sig.id(), more).ids_differ(),
        m.opened(sig, version, more).ids_differ(),
{
    let closed = m.closed(sig);
    assert forall|s: SignatureView| #[trigger] closed.streams.contains(s) implies closed.versions.dom().contains(
        s.id(),
    ) by {
        assert(m.streams.contains(s));
        assert(s.id() == sig.id() ==> s == sig);
    }
}

/// A stream that the API server gave up on is forgotten when it ends: it is not
/// open, no one listens to it, and it can be asked for anew.
pub proof fn given_up_streams_are_forgotten(m: HandlerView, sig: SignatureView)
    ensures
        ({
            let end = HandlerView {
                gone: m.gone.insert(sig.id()).remove(sig.id()),
                ..m.closed(sig)
            };
            &&& !end.streams.contains(sig)
            &&& !end.gone.contains(sig.id())
            &&& end.listeners_of(sig.id()).len() == 0
            &&& !end.versions.dom().contains(sig.id())
            &&& sig.temporary == 0 ==> end.register_step(sig) is Open
        }),
{
}

/// A stream that could not be opened again is forgotten once it is let go of:
/// those who ask for it until then join it, and whoever asks later has it opened
/// anew.
pub proof fn spent_streams_are_opened_anew(m: HandlerView, sig: SignatureView)
    requires
        m.streams.contains(sig),
        sig.temporary == 0,
    ensures
        m.deserted(sig.id()).listeners_of(sig.id()).len() == 0,
        m.deserted(sig.id()).register_step(sig) is Joined,
        m.deserted(sig.id()).left(sig).register_step(sig) is Open,
{
}

/// Those who listened to a temporary stream all listen to the shared stream
/// that takes over, whether it was open or is opened for them; those who
/// listened to it before go on listening.
pub proof fn listeners_pass_to_the_shared_stream(
    m: HandlerView,
    sig: SignatureView,
    version: Seq<char>,
)
    requires
        sig.settled().id() != sig.id(),
    ensures
        ({
            let next = sig.settled();
            let moved = m.listeners_of(sig.id());
            let joined = m.closed(sig).listening(next.id(), moved);
            let opened = m.closed(sig).opened(next, version, moved);
            &&& joined.listeners_of(next.id()) == m.listeners_of(next.id()) + moved
            &&& opened.listeners_of(next.id()) == m.listeners_of(next.id()) + moved
            &&& opened.streams.contains(next)
            &&& opened.versions[next.id()] == version
            &&& joined.listeners_of(sig.id()).len() == 0
            &&& opened.listeners_of(sig.id()).len() == 0
        }),
{
}

/// An operator that wants the objects that there are, or that has missed
/// events, never shares a stream from the start: it gets one of its own, which
/// sends the objects or refuses it with code 410.
pub proof fn late_operators_never_join(m: HandlerView, sig: SignatureView, temporary: u64)
    requires
        temporary > 0,
    ensures
        m.register_step(sig.with_temporary(temporary)) == (if sig.send_initial_events {
            RegisterStep::Open
        } else {
            RegisterStep::ServeGone
        }),
{
}

/// An operator that has seen all up to one resource version is behind a stream
/// exactly where the last event of the stream is of a later one, however far
/// apart the two are.
pub proof fn operators_are_behind_at_any_distance(
    m: HandlerView,
    id: WatchId,
    last: u64,
    seen: u64,
)
    requires
        m.last_event.dom().contains(id),
        m.last_event[id] == dec_text(last as nat),
    ensures
        m.behind(id, dec_text(seen as nat)) == Ok::<bool, Seq<char>>(true) <==> last > seen,
        m.behind(id, dec_text(seen as nat)) == Ok::<bool, Seq<char>>(false) <==> last <= seen,
        m.behind(id, Seq::empty()) == Ok::<bool, Seq<char>>(false),
{
    crate::text::numbers_are_read_back(last as nat, u64::MAX as nat);
    crate::text::numbers_are_read_back(seen as nat, u64::MAX as nat);
    crate::text::decimals_say_their_number(seen as nat);
}

/// Who is behind at a resource version is behind at every earlier one; who is not
/// behind at one is not at any later one; and a stream leaves behind all whom it
/// left behind before, whenever another event comes that is not of an earlier
/// version.  Versions may be written in any way that reads as a number.
pub proof fn being_behind_is_monotone(
    m: HandlerView,
    id: WatchId,
    a: Seq<char>,
    b: Seq<char>,
    x: nat,
    y: nat,
    next: Seq<char>,
    z: nat,
)
    requires
        a.len() > 0,
        b.len() > 0,
        uint_of(a, u64::MAX as nat) == Ok::<nat, crate::text::IntError>(x),
        uint_of(b, u64::MAX as nat) == Ok::<nat, crate::text::IntError>(y),
        x <= y,
        m.last_event.dom().contains(id),
        uint_of(next, u64::MAX as nat) == Ok::<nat, crate::text::IntError>(z),
        uint_of(m.last_event[id], u64::MAX as nat) matches Ok(last) ==> last <= z,
    ensures
        m.behind(id, b) == Ok::<bool, Seq<char>>(true) ==> m.behind(id, a) == Ok::<
            bool,
            Seq<char>,
        >(true),
        m.behind(id, a) == Ok::<bool, Seq<char>>(false) ==> m.behind(id, b) == Ok::<
            bool,
            Seq<char>,
        >(false),
        m.behind(id, a) == Ok::<bool, Seq<char>>(true) ==> m.changed(id, next).behind(id, a)
            == Ok::<bool, Seq<char>>(true),
        m.changed(id, next).behind(id, a) == Ok::<bool, Seq<char>>(true) <==> z > x,
{
}

/// No one is behind a stream that has had no event, and bookmarks leave no one
/// behind.
pub proof fn quiet_streams_leave_no_one_behind(
    m: HandlerView,
    id: WatchId,
    version: Seq<char>,
    bookmark: Seq<char>,
)
    ensures
        !m.last_event.dom().contains(id) ==> m.behind(id, version) == Ok::<bool, Seq<char>>(false),
        m.bookmarked(id, bookmark).behind(id, version) == m.behind(id, version),
        m.bookmarked(id, bookmark).versions[id] == bookmark,
{
}

/// A resource version that is no number is refused in words, the last event's
/// before the operator's.
pub proof fn versions_must_be_numbers(m: HandlerView, id: WatchId, version: Seq<char>)
    requires
        m.last_event.dom().contains(id),
        version.len() > 0,
    ensures
        m.behind(id, version) is Err <==> uint_of(m.last_event[id], u64::MAX as nat) is Err
            || uint_of(version, u64::MAX as nat) is Err,
        uint_of(m.last_event[id], u64::MAX as nat) matches Err(e) ==> m.behind(id, version) == Err::<
            bool,
            Seq<char>,
        >("Failed to parse last event version: "@ + e.words()),
        uint_of(m.last_event[id], u64::MAX as nat) is Ok ==> (uint_of(
            version,
            u64::MAX as nat,
        ) matches Err(e) ==> m.behind(id, version) == Err::<bool, Seq<char>>(
            "Failed to parse cluster version: "@ + e.words(),
        )),
{
}

/// Each change to an object is told as that change, with the object as it was
/// written down; one that could not be written down is told as an error.
/// Different changes are told differently.
pub proof fn changes_are_told_as_what_they_are(
    change: Change,
    other: Change,
    text: Seq<char>,
    words: Seq<char>,
)
    ensures
        change is Added <==> change_event(change, Ok(text)) == EventView::Added(text),
        change is Modified <==> change_event(change, Ok(text)) == EventView::Modified(text),
        change is Deleted <==> change_event(change, Ok(text)) == EventView::Deleted(text),
        change_event(change, Ok(text)) == change_event(other, Ok(text)) ==> change == other,
        change_event(change, Err(words)) == EventView::Error(crate::api::ErrorView::Other(words)),
{
}

/// A bookmark is told as one, with what it says; the last one of a temporary
/// stream also names the stream that takes over.
pub proof fn bookmarks_are_told_as_bookmarks(next: WatchId, text: Seq<char>, words: Seq<char>)
    ensures
        bookmark_event(Ok(text)) == EventView::Bookmark(text),
        bookmark_event(Err(words)) == EventView::Error(
            crate::api::ErrorView::Other("Bookmark serialization error: "@ + words),
        ),
        upgrade_event(next, Ok(text)) == EventView::UpgradeBookmark(next, text),
        upgrade_event(next, Err(words)) == EventView::UpgradeBookmark(
            next,
            "Bookmark serialization error: "@ + words,
        ),
{
}

/// Whoever comes to listen last is told last, of everything or of everything but
/// bookmarks, and nothing else changes; with no one there, no one is told.
pub proof fn one_more_listener_is_told_last(
    list: Seq<Listener>,
    operator: u64,
    takes_bookmarks: bool,
    id: WatchId,
    event: EventView,
)
    ensures
        deliveries(Seq::empty(), id, event).len() == 0,
        deliveries(list.push((operator, takes_bookmarks)), id, event) == (if takes_bookmarks || !(
        event is Bookmark) {
            deliveries(list, id, event).push(DeliveryView { operator, watch_id: id, event })
        } else {
            deliveries(list, id, event)
        }),
{
    reveal(Seq::filter);
    let told = |l: Listener| is_told(l, event);
    let more = list.push((operator, takes_bookmarks));
    assert(more.drop_last() =~= list);
    assert(more.filter(told) == (if told(more.last()) {
        list.filter(told).push(more.last())
    } else {
        list.filter(told)
    }));
    assert(Seq::<Listener>::empty().filter(told) =~= Seq::<Listener>::empty());
    if takes_bookmarks || !(event is Bookmark) {
        assert(told(more.last()));
        assert(deliveries(more, id, event) =~= deliveries(list, id, event).push(
            DeliveryView { operator, watch_id: id, event },
        ));
    } else {
        assert(!told(more.last()));
    }
}

/// A stream that was opened is there, goes on from the version that was asked
/// for, and has its listeners after those that it had; nothing else changes.
pub proof fn opened_streams_are_there(
    m: HandlerView,
    sig: SignatureView,
    version: Seq<char>,
    more: Seq<Listener>,
    other: SignatureView,
    id: WatchId,
)
    ensures
        ({
            let next = m.opened(sig, version, more);
            &&& next.streams.contains(other) <==> m.streams.contains(other) || other == sig
            &&& next.versions.dom().contains(sig.id()) && next.versions[sig.id()] == version
            &&& next.listeners_of(sig.id()) == m.listeners_of(sig.id()) + more
            &&& id != sig.id() ==> next.listeners_of(id) == m.listeners_of(id)
            &&& id != sig.id() ==> next.versions.dom().contains(id) == m.versions.dom().contains(id)
            &&& id != sig.id() && m.versions.dom().contains(id) ==> next.versions[id]
                == m.versions[id]
            &&& next.last_event == m.last_event
            &&& next.gone == m.gone
            &&& next.next_temp_id == m.next_temp_id
        }),
{
}

/// Whoever joins a stream listens after those who did; nothing else changes.
pub proof fn joining_is_listening(m: HandlerView, id: WatchId, more: Seq<Listener>, other: WatchId)
    ensures
        ({
            let next = m.listening(id, more);
            &&& next.listeners_of(id) == m.listeners_of(id) + more
            &&& other != id ==> next.listeners_of(other) == m.listeners_of(other)
            &&& next.streams == m.streams
            &&& next.versions == m.versions
            &&& next.last_event == m.last_event
            &&& next.gone == m.gone
            &&& next.next_temp_id == m.next_temp_id
        }),
{
}

/// Of a stream that was closed nothing is left, but for when its last event was;
/// other streams go on as they did.
pub proof fn closed_streams_are_gone(
    m: HandlerView,
    sig: SignatureView,
    other: SignatureView,
    id: WatchId,
)
    ensures
        ({
            let next = m.closed(sig);
            &&& next.streams.contains(other) <==> m.streams.contains(other) && other != sig
            &&& next.listeners_of(sig.id()).len() == 0
            &&& !next.versions.dom().contains(sig.id())
            &&& id != sig.id() ==> next.listeners_of(id) == m.listeners_of(id)
            &&& id != sig.id() ==> next.versions.dom().contains(id) == m.versions.dom().contains(id)
            &&& id != sig.id() && m.versions.dom().contains(id) ==> next.versions[id]
                == m.versions[id]
            &&& next.last_event == m.last_event
            &&& next.gone == m.gone
            &&& next.next_temp_id == m.next_temp_id
        }),
{
}

proof fn lemma_without(list: Seq<Listener>, operator: u64, l: Listener)
    ensures
        list.filter(is_other(operator)).contains(l) <==> list.contains(l) && l.0 != operator,
    decreases list.len(),
{
    let stays = is_other(operator);
    if list.filter(stays).contains(l) {
        let i = choose|i: int| 0 <= i < list.filter(stays).len() && list.filter(stays)[i] == l;
        list.lemma_filter_pred(stays, i);
        list.lemma_filter_contains_rev(stays, l);
    }
    if list.contains(l) && l.0 != operator {
        let i = choose|i: int| 0 <= i < list.len() && list[i] == l;
        list.lemma_filter_contains(stays, i);
    }
}

/// A listener that is lost no longer listens, all others do, and the stream stays
/// open exactly while there are others.
pub proof fn lost_listeners_are_taken_off(
    m: HandlerView,
    sig: SignatureView,
    operator: u64,
    l: Listener,
)
    requires
        m.streams.contains(sig),
    ensures
        m.without(sig, operator).listeners_of(sig.id()).contains(l) <==> m.listeners_of(
            sig.id(),
        ).contains(l) && l.0 != operator,
        m.listeners_of(sig.id()).contains(l) && l.0 != operator ==> m.without(
            sig,
            operator,
        ).streams.contains(sig),
        !m.without(sig, operator).streams.contains(sig) <==> m.without(
            sig,
            operator,
        ).listeners_of(sig.id()).len() == 0,
        m.without(sig, operator).last_event == m.last_event,
        m.without(sig, operator).gone == m.gone,
{
    let left = m.listeners_of(sig.id()).filter(is_other(operator));
    lemma_without(m.listeners_of(sig.id()), operator, l);
    if left.len() > 0 {
        assert(left.contains(left[0]));
    }
}

/// A shared stream is joined where it is open, and opened where it is not.
pub proof fn shared_streams_are_joined_or_opened(m: HandlerView, sig: SignatureView)
    requires
        sig.temporary == 0,
    ensures
        m.register_step(sig) is Joined <==> m.streams.contains(sig),
        m.register_step(sig) is Open <==> !m.streams.contains(sig),
{
}

/// The API server gives up on a stream with code 410 and with no other; such a
/// stream is dropped when it ends, and any other is left as it is, to be opened
/// again.
pub proof fn streams_are_given_up_with_410_alone(
    m: HandlerView,
    sig: SignatureView,
    code: u16,
    id: WatchId,
)
    ensures
        ({
            let next = m.refused(sig.id(), code);
            &&& next.gone.contains(id) <==> m.gone.contains(id) || (id == sig.id() && code == 410)
            &&& next.streams == m.streams && next.listeners == m.listeners && next.versions
                == m.versions && next.last_event == m.last_event
            &&& code == 410 ==> {
                &&& !next.ended(sig).streams.contains(sig)
                &&& next.ended(sig).listeners_of(sig.id()).len() == 0
                &&& !next.ended(sig).gone.contains(sig.id())
                &&& next.ended(sig).last_event == m.last_event
            }
            &&& code != 410 && !m.gone.contains(sig.id()) ==> next.ended(sig) == m
        }),
{
}

/// An event of a stream moves both the version to go on from and that of its last
/// event, and no other stream's.
pub proof fn events_move_their_stream(m: HandlerView, id: WatchId, version: Seq<char>, other: WatchId)
    ensures
        ({
            let next = m.changed(id, version);
            &&& next.versions.dom().contains(id) && next.versions[id] == version
            &&& next.last_event.dom().contains(id) && next.last_event[id] == version
            &&& other != id && m.versions.dom().contains(other) ==> next.versions[other]
                == m.versions[other]
            &&& other != id && m.last_event.dom().contains(other) ==> next.last_event[other]
                == m.last_event[other]
            &&& next.streams == m.streams && next.listeners == m.listeners && next.gone == m.gone
        }),
{
}

/// A stream that no one listens to any more has no listeners, and one that is let
/// go of is no longer open; nothing else changes.
pub proof fn spent_streams_lose_only_what_they_had(
    m: HandlerView,
    sig: SignatureView,
    other: SignatureView,
    id: WatchId,
)
    ensures
        m.deserted(sig.id()).listeners_of(sig.id()).len() == 0,
        id != sig.id() ==> m.deserted(sig.id()).listeners_of(id) == m.listeners_of(id),
        m.deserted(sig.id()).streams == m.streams,
        m.deserted(sig.id()).versions == m.versions,
        m.left(sig).streams.contains(other) <==> m.streams.contains(other) && other != sig,
        m.left(sig).listeners == m.listeners,
        m.left(sig).versions == m.versions,
{
}

/// What listeners are told of a stream that failed on the way: that there is no such
/// thing, the status that was sent, or the words.
pub open spec fn failure_told(failure: KubeError) -> crate::api::ErrorView {
    match failure {
        KubeError::Api(status) => if status.code == 404 {
            crate::api::ErrorView::NotFound
        } else {
            Error::Http(status)@
        },
        KubeError::Other(words) => crate::api::ErrorView::Other(words@),
    }
}

/// A failure is told as what it is: a status with its code and words, but for the
/// one that says that there is no such thing.
pub proof fn failures_on_the_way_are_told(status: HttpError, words: String)
    ensures
        failure_told(KubeError::Api(status)) is NotFound <==> status.code == 404,
        status.code != 404 ==> failure_told(KubeError::Api(status)) == (
        crate::api::ErrorView::Http {
            code: status.code,
            reason: status.reason@,
            message: status.message@,
        }),
        failure_told(KubeError::Other(words)) == crate::api::ErrorView::Other(words@),
{
}

/// A request is served by a stream of its own exactly where it asks for the objects
/// that there are or its version is behind, whatever streams are open; otherwise by
/// the one that it asks for.  Either way it is about the objects that it asks for.
pub proof fn requests_are_served_alone_or_shared(m: HandlerView, sig: SignatureView, version: Seq<char>)
    requires
        m.next_temp_id > 0,
        sig.temporary == 0,
    ensures
        sig.send_initial_events ==> m.served_by(sig, version).temporary == m.next_temp_id,
        m.behind(sig.id(), version) == Ok::<bool, Seq<char>>(true) ==> m.served_by(
            sig,
            version,
        ).temporary == m.next_temp_id,
        !sig.send_initial_events && m.behind(sig.id(), version) != Ok::<bool, Seq<char>>(true)
            ==> m.served_by(sig, version) == sig && m.requested(sig, version) == m,
        m.served_by(sig, version).same_objects(sig),
        m.served_by(sig, version).send_initial_events == sig.send_initial_events,
{
}

/// Two requests that are served by streams of their own have different ones, and a
/// request opens or changes no stream by itself.
pub proof fn streams_of_their_own_are_apart(
    m: HandlerView,
    sig: SignatureView,
    version: Seq<char>,
    other: SignatureView,
    other_version: Seq<char>,
)
    requires
        m.next_temp_id < u64::MAX,
    ensures
        ({
            let next = m.requested(sig, version);
            &&& sig.send_initial_events ==> next.next_temp_id == m.next_temp_id + 1
            &&& sig.send_initial_events && other.send_initial_events ==> m.served_by(
                sig,
                version,
            ).temporary != next.served_by(other, other_version).temporary
            &&& next.streams == m.streams
            &&& next.listeners == m.listeners
            &&& next.versions == m.versions
            &&& next.last_event == m.last_event
            &&& next.gone == m.gone
        }),
{
}

/// Where a shared stream takes over from a temporary one that is open, no one is
/// lost: those who listened to the temporary one listen to the other, after those
/// who do already, or it has still to be opened.  Of the temporary stream nothing is
/// left.
pub proof fn listeners_move_to_the_shared_stream(m: HandlerView, sig: SignatureView)
    requires
        sig.temporary > 0,
        sig.id() != sig.settled().id(),
    ensures
        ({
            let next = m.upgraded(sig);
            let shared = sig.settled();
            &&& !next.streams.contains(sig)
            &&& !next.listeners.dom().contains(sig.id())
            &&& !next.versions.dom().contains(sig.id())
            &&& next.streams.contains(shared) == m.streams.contains(shared)
            &&& m.listeners.dom().contains(sig.id()) && m.streams.contains(shared)
                ==> next.listeners_of(shared.id()) == m.listeners_of(shared.id()) + m.listeners_of(
                sig.id(),
            )
            &&& !m.streams.contains(shared) ==> next.listeners_of(shared.id()) == m.listeners_of(
                shared.id(),
            )
            &&& m.must_open(sig) <==> m.listeners.dom().contains(sig.id()) && !m.streams.contains(
                shared,
            )
            &&& next.last_event == m.last_event
            &&& next.next_temp_id == m.next_temp_id
            &&& next.gone == m.gone
        }),
{
    assert(sig != sig.settled());
    assert(m.closed(sig).listeners_of(sig.settled().id()) == m.listeners_of(sig.settled().id()));
}

} // verus!
