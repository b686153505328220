//! Watching keys.

use crate::xline::channel::{
    close_watch, is_watch_closed, send_failure, try_send_watch, watches_sent, watches_shut,
};
use crate::xline::error::XlineClientError;
use crate::xline::range_end::RangeOption;
use futures::channel::mpsc::Sender;
use vstd::prelude::*;

verus! {

/// A request to create a watch.
#[derive(Debug, Clone, PartialEq, Eq)]
pub struct WatchCreateRequest {
    pub key: Vec<u8>,
    pub range_end: Vec<u8>,
    pub start_revision: i64,
    pub progress_notify: bool,
    pub filters: Vec<i32>,
    pub prev_kv: bool,
    pub watch_id: i64,
    pub fragment: bool,
}

/// A request to create a watch, with its texts as sequences.
#[verifier::ext_equal]
pub struct WatchCreateView {
    pub key: Seq<u8>,
    pub range_end: Seq<u8>,
    pub start_revision: i64,
    pub progress_notify: bool,
    pub filters: Seq<i32>,
    pub prev_kv: bool,
    pub watch_id: i64,
    pub fragment: bool,
}

impl View for WatchCreateRequest {
    type V = WatchCreateView;

    open spec fn view(&self) -> WatchCreateView {
        WatchCreateView {
            key: self.key@,
            range_end: self.range_end@,
            start_revision: self.start_revision,
            progress_notify: self.progress_notify,
            filters: self.filters@,
            prev_kv: self.prev_kv,
            watch_id: self.watch_id,
            fragment: self.fragment,
        }
    }
}

/// The request that asks for nothing.
pub open spec fn no_watch() -> WatchCreateView {
    WatchCreateView {
        key: Seq::empty(),
        range_end: Seq::empty(),
        start_revision: 0,
        progress_notify: false,
        filters: Seq::empty(),
        prev_kv: false,
        watch_id: 0,
        fragment: false,
    }
}

impl Default for WatchCreateRequest {
    fn default() -> (r: WatchCreateRequest)
        ensures
            r@ == no_watch(),
            r.key@.len() == 0 && r.range_end@.len() == 0 && r.filters@.len() == 0,
            r.start_revision == 0 && r.watch_id == 0,
            !r.progress_notify && !r.prev_kv && !r.fragment,
    {
        WatchCreateRequest {
            key: Vec::new(),
            range_end: Vec::new(),
            start_revision: 0,
            progress_notify: false,
            filters: Vec::new(),
            prev_kv: false,
            watch_id: 0,
            fragment: false,
        }
    }
}

/// A request on the watch stream.
#[derive(Debug, Clone, PartialEq, Eq)]
pub enum WatchRequest {
    Create(WatchCreateRequest),
    Cancel { watch_id: i64 },
    Progress,
}

/// A request on the watch stream, with its texts as sequences.
#[verifier::ext_equal]
pub enum WatchRequestView {
    Create(WatchCreateView),
    Cancel { watch_id: i64 },
    Progress,
}

impl View for WatchRequest {
    type V = WatchRequestView;

    open spec fn view(&self) -> WatchRequestView {
        match *self {
            WatchRequest::Create(request) => WatchRequestView::Create(request@),
            WatchRequest::Cancel { watch_id } => WatchRequestView::Cancel { watch_id },
            WatchRequest::Progress => WatchRequestView::Progress,
        }
    }
}

/// What is kept from a watcher.
#[derive(Clone, Copy, Debug, PartialEq, Eq, Hash, PartialOrd, Ord, Structural)]
#[non_exhaustive]
pub enum WatchFilterType {
    /// Filter out put events.
    NoPut,
    /// Filter out delete events.
    NoDelete,
}

/// The number of a filter.
pub open spec fn filter_number(f: WatchFilterType) -> i32 {
    match f {
        WatchFilterType::NoPut => 0,
        WatchFilterType::NoDelete => 1,
    }
}

impl From<WatchFilterType> for i32 {
    fn from(value: WatchFilterType) -> (r: i32) {
        match value {
            WatchFilterType::NoPut => 0,
            WatchFilterType::NoDelete => 1,
        }
    }
}

impl vstd::std_specs::convert::FromSpecImpl<WatchFilterType> for i32 {
    open spec fn obeys_from_spec() -> bool {
        true
    }

    open spec fn from_spec(value: WatchFilterType) -> i32 {
        filter_number(value)
    }
}

/// What is to be watched.
#[derive(Clone, Debug, PartialEq, Eq)]
pub struct WatchOptions {
    inner: WatchCreateRequest,
    range_end_options: RangeOption,
}

impl WatchOptions {
    /// The request, but for the end of its range.
    pub closed spec fn asked(self) -> WatchCreateView {
        self.inner@
    }

    /// The keys besides the key of the request.
    pub closed spec fn keys(self) -> RangeOption {
        self.range_end_options
    }

    /// The whole request.
    pub open spec fn request(self) -> WatchCreateView {
        let range = self.keys().range(self.asked().key);
        WatchCreateView { key: range.0, range_end: range.1, ..self.asked() }
    }

    /// Watches a key.
    pub fn with_key(self, key: Vec<u8>) -> (r: WatchOptions)
        ensures
            r.keys() == self.keys(),
            r.asked() == (WatchCreateView { key: key@, ..self.asked() }),
    {
        let mut options = self;
        options.inner.key = key;
        options
    }

    /// Watches all keys that begin with the key.
    pub fn with_prefix(self) -> (r: WatchOptions)
        ensures
            r.keys() == RangeOption::Prefix,
            r.asked() == self.asked(),
    {
        let mut options = self;
        options.range_end_options = RangeOption::Prefix;
        options
    }

    /// Watches all keys that are not before the key.
    pub fn with_from_key(self) -> (r: WatchOptions)
        ensures
            r.keys() == RangeOption::FromKey,
            r.asked() == self.asked(),
    {
        let mut options = self;
        options.range_end_options = RangeOption::FromKey;
        options
    }

    /// Watches the keys from the key up to, and without, another.
    pub fn with_range_end(self, range_end: Vec<u8>) -> (r: WatchOptions)
        ensures
            r.keys() == RangeOption::RangeEnd(range_end),
            r.asked() == self.asked(),
    {
        let mut options = self;
        options.range_end_options = RangeOption::RangeEnd(range_end);
        options
    }

    /// Watches from a revision on.
    pub fn with_start_revision(self, revision: i64) -> (r: WatchOptions)
        ensures
            r.keys() == self.keys(),
            r.asked() == (WatchCreateView { start_revision: revision, ..self.asked() }),
    {
        let mut options = self;
        options.inner.start_revision = revision;
        options
    }

    /// Asks for a sign of life where nothing happens.
    pub fn with_progress_notify(self) -> (r: WatchOptions)
        ensures
            r.keys() == self.keys(),
            r.asked() == (WatchCreateView { progress_notify: true, ..self.asked() }),
    {
        let mut options = self;
        options.inner.progress_notify = true;
        options
    }

    /// Keeps some events from the watcher.
    pub fn with_filters(self, filters: Vec<WatchFilterType>) -> (r: WatchOptions)
        ensures
            r.keys() == self.keys(),
            r.asked() == (WatchCreateView {
                filters: filters@.map_values(|f: WatchFilterType| filter_number(f)),
                ..self.asked()
            }),
            r.asked().filters.len() == filters@.len(),
            forall|i: int|
                0 <= i < filters@.len() ==> #[trigger] r.asked().filters[i] == (
                if filters@[i] is NoPut {
                    0i32
                } else {
                    1i32
                }),
    {
        let mut numbers: Vec<i32> = Vec::new();
        let mut i: usize = 0;
        while i < filters.len()
            invariant
                i <= filters.len(),
                numbers@ == filters@.take(i as int).map_values(
                    |f: WatchFilterType| filter_number(f),
                ),
            decreases filters.len() - i,
        {
            numbers.push(i32::from(filters[i]));
            i = i + 1;
            assert(numbers@ =~= filters@.take(i as int).map_values(
                |f: WatchFilterType| filter_number(f),
            ));
        }
        assert(filters@.take(i as int) =~= filters@);
        let mut options = self;
        options.inner.filters = numbers;
        options
    }

    /// Asks for what a key held before an event.
    pub fn with_prev_kv(self) -> (r: WatchOptions)
        ensures
            r.keys() == self.keys(),
            r.asked() == (WatchCreateView { prev_kv: true, ..self.asked() }),
    {
        let mut options = self;
        options.inner.prev_kv = true;
        options
    }

    /// Gives the watcher a number.
    pub fn with_watch_id(self, watch_id: i64) -> (r: WatchOptions)
        ensures
            r.keys() == self.keys(),
            r.asked() == (WatchCreateView { watch_id, ..self.asked() }),
    {
        let mut options = self;
        options.inner.watch_id = watch_id;
        options
    }

    /// Lets large revisions come in parts.
    pub fn with_fragment(self) -> (r: WatchOptions)
        ensures
            r.keys() == self.keys(),
            r.asked() == (WatchCreateView { fragment: true, ..self.asked() }),
    {
        let mut options = self;
        options.inner.fragment = true;
        options
    }
}

impl Default for WatchOptions {
    fn default() -> (r: WatchOptions)
        ensures
            r.asked() == no_watch(),
            r.keys() == RangeOption::SingleKey,
    {
        WatchOptions {
            inner: WatchCreateRequest::default(),
            range_end_options: RangeOption::SingleKey,
        }
    }
}

impl From<WatchOptions> for WatchCreateRequest {
    fn from(request: WatchOptions) -> (r: WatchCreateRequest)
        ensures
            r@ == request.request(),
    {
        let mut inner = request.inner;
        let end = request.range_end_options.get_range_end(&mut inner.key);
        inner.range_end = end;
        inner
    }
}

impl vstd::std_specs::convert::FromSpecImpl<WatchOptions> for WatchCreateRequest {
    open spec fn obeys_from_spec() -> bool {
        false
    }

    open spec fn from_spec(request: WatchOptions) -> WatchCreateRequest {
        arbitrary()
    }
}

/// The sender of the watch requests.
#[derive(Debug)]
pub struct Watcher {
    watch_id: i64,
    sender: Sender<WatchRequest>,
}

impl Watcher {
    /// The number of the watcher.
    pub closed spec fn number(self) -> i64 {
        self.watch_id
    }

    /// The requests that were put into the channel.
    pub closed spec fn sent(self) -> Seq<WatchRequest> {
        watches_sent(self.sender)
    }

    /// Whether this watcher has closed the channel.
    pub closed spec fn shut(self) -> bool {
        watches_shut(self.sender)
    }

    /// What becomes of a watcher that sends a request.
    pub open spec fn sends(
        self,
        request: WatchRequestView,
        after: Watcher,
        r: Result<(), XlineClientError>,
    ) -> bool {
        &&& after.number() == self.number()
        &&& after.shut() == self.shut()
        &&& self.shut() ==> r is Err
        &&& match r {
            Ok(_) => after.sent().len() == self.sent().len() + 1 && after.sent().drop_last()
                == self.sent() && after.sent().last()@ == request,
            Err(e) => after.sent() == self.sent() && (e matches XlineClientError::WatchError(text)
                && send_failure(text@)),
        }
    }

    /// A watcher with a number that sends into a channel.
    pub fn new(watch_id: i64, sender: Sender<WatchRequest>) -> (r: Watcher)
        ensures
            r.number() == watch_id,
            r.sent() == watches_sent(sender),
            r.shut() == watches_shut(sender),
    {
        Watcher { watch_id, sender }
    }

    /// The number of the watcher.
    pub fn watch_id(&self) -> (r: i64)
        ensures
            r == self.number(),
    {
        self.watch_id
    }

    /// Sends a request.
    fn send(&mut self, request: WatchRequest) -> (r: Result<(), XlineClientError>)
        ensures
            old(self).sends(request@, *final(self), r),
    {
        match try_send_watch(&mut self.sender, request) {
            Ok(()) => {
                assert(self.sent().drop_last() =~= old(self).sent());
                Ok(())
            },
            Err(text) => Err(XlineClientError::WatchError(text)),
        }
    }

    /// Asks for the events of the keys that the options name.
    pub fn watch(&mut self, request: WatchOptions) -> (r: Result<(), XlineClientError>)
        ensures
            old(self).sends(WatchRequestView::Create(request.request()), *final(self), r),
    {
        self.send(WatchRequest::Create(WatchCreateRequest::from(request)))
    }

    /// Asks for the end of this watch.
    pub fn cancel(&mut self) -> (r: Result<(), XlineClientError>)
        ensures
            old(self).sends(
                WatchRequestView::Cancel { watch_id: old(self).number() },
                *final(self),
                r,
            ),
    {
        self.send(WatchRequest::Cancel { watch_id: self.watch_id })
    }

    /// Asks for the end of a watch.
    pub fn cancel_by_id(&mut self, watch_id: i64) -> (r: Result<(), XlineClientError>)
        ensures
            old(self).sends(WatchRequestView::Cancel { watch_id }, *final(self), r),
    {
        self.send(WatchRequest::Cancel { watch_id })
    }

    /// Asks for a sign of life.
    pub fn request_progress(&mut self) -> (r: Result<(), XlineClientError>)
        ensures
            old(self).sends(WatchRequestView::Progress, *final(self), r),
    {
        self.send(WatchRequest::Progress)
    }

    /// Closes the channel for all that send into it.
    pub fn close(&mut self)
        ensures
            final(self).number() == old(self).number(),
            final(self).sent() == old(self).sent(),
            final(self).shut(),
    {
        close_watch(&mut self.sender);
    }

    /// Whether the channel is closed. It is where this watcher has closed it; another end of it
    /// may have closed it too.
    pub fn is_closed(&self) -> (r: bool)
        ensures
            self.shut() ==> r,
    {
        is_watch_closed(&self.sender)
    }
}

/// The events of a watch. It holds an end of the request channel, so that the channel stays open
/// when the watcher is gone.
#[derive(Debug)]
pub struct WatchStreaming<S> {
    pub inner: S,
    sender: Sender<WatchRequest>,
}

impl<S> WatchStreaming<S> {
    /// The stream.
    pub closed spec fn stream(self) -> S {
        self.inner
    }

    /// Whether the channel was closed from here.
    pub closed spec fn shut(self) -> bool {
        watches_shut(self.sender)
    }

    /// The events of a stream.
    pub fn new(inner: S, sender: Sender<WatchRequest>) -> (r: WatchStreaming<S>)
        ensures
            r.stream() == inner,
            r.shut() == watches_shut(sender),
    {
        WatchStreaming { inner, sender }
    }

    /// Closes the channel for all that send into it.
    pub fn close(&mut self)
        ensures
            final(self).stream() == old(self).stream(),
            final(self).shut(),
    {
        close_watch(&mut self.sender);
    }

    /// Whether the channel is closed. It is where it was closed from here; another end of it may
    /// have closed it too.
    pub fn is_closed(&self) -> (r: bool)
        ensures
            self.shut() ==> r,
    {
        is_watch_closed(&self.sender)
    }
}

/// A watcher that has closed its channel sends nothing any more, whatever it is asked to send, and
/// stays closed.
pub proof fn law_closed_watcher_sends_nothing(
    watcher: Watcher,
    request: WatchRequestView,
    after: Watcher,
    r: Result<(), XlineClientError>,
)
    requires
        watcher.shut(),
        watcher.sends(request, after, r),
    ensures
        r is Err,
        after.shut(),
        after.sent() == watcher.sent(),
{
}

/// The request of options asks for the keys that the options name, and for everything else as the
/// options have it.
pub proof fn law_options_are_asked_for(options: WatchOptions)
    ensures
        options.keys() is SingleKey ==> options.request().key == options.asked().key
            && options.request().range_end.len() == 0,
        options.keys() matches RangeOption::RangeEnd(end) ==> options.request().key
            == options.asked().key && options.request().range_end == end@,
        options.asked().key.len() > 0 ==> options.request().key == options.asked().key,
        options.keys() is FromKey ==> options.request().range_end == seq![0u8],
        options.request().start_revision == options.asked().start_revision,
        options.request().progress_notify == options.asked().progress_notify,
        options.request().filters == options.asked().filters,
        options.request().prev_kv == options.asked().prev_kv,
        options.request().watch_id == options.asked().watch_id,
        options.request().fragment == options.asked().fragment,
{
}

} // verus!
