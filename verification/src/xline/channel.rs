//! The sending ends of the request channels.
//!
//! The channels are those of the `futures` crate. A sending end is shown by the requests that it
//! has put into its channel and by whether the channel was closed through it. A channel has
//! several ends: what another end does to it does not show here.

use crate::xline::lease::LeaseKeepAliveRequest;
use crate::xline::watch::WatchRequest;
use futures::channel::mpsc::Sender;
use vstd::prelude::*;

verus! {

/// The sending end of a channel of the `futures` crate.
#[verifier::external_type_specification]
#[verifier::external_body]
#[verifier::reject_recursive_types(T)]
pub struct ExSender<T>(futures::channel::mpsc::Sender<T>);

/// The watch requests that an end has put into its channel, in their order.
pub uninterp spec fn watches_sent(s: Sender<WatchRequest>) -> Seq<WatchRequest>;

/// Whether an end has closed its channel of watch requests.
pub uninterp spec fn watches_shut(s: Sender<WatchRequest>) -> bool;

/// The keep-alive requests that an end has put into its channel, in their order.
pub uninterp spec fn keep_alives_sent(s: Sender<LeaseKeepAliveRequest>) -> Seq<
    LeaseKeepAliveRequest,
>;

/// What is told of a request that could not be sent.
pub open spec fn send_failure(text: Seq<char>) -> bool {
    text == "send failed because channel is full"@ || text
        == "send failed because receiver is gone"@
}

/// `Sender::try_send` on a channel of watch requests. On success the request is the next that this
/// end has put into the channel; on failure nothing was put in, and the error, as text, names a
/// full channel or one without receiver. It fails once this end has closed the channel. Whether it
/// succeeds otherwise depends on the other ends and on the receiver, and is left open.
#[verifier::external_body]
pub(crate) fn try_send_watch(sender: &mut Sender<WatchRequest>, request: WatchRequest) -> (r: Result<
    (),
    String,
>)
    ensures
        watches_shut(*final(sender)) == watches_shut(*old(sender)),
        watches_shut(*old(sender)) ==> r is Err,
        match r {
            Ok(_) => watches_sent(*final(sender)) == watches_sent(*old(sender)).push(request),
            Err(text) => watches_sent(*final(sender)) == watches_sent(*old(sender))
                && send_failure(text@),
        },
{
    match sender.try_send(request) {
        Ok(()) => Ok(()),
        Err(e) => Err(e.to_string()),
    }
}

/// `Sender::close_channel` on a channel of watch requests: the channel is closed, and what was put
/// in stays there.
#[verifier::external_body]
pub(crate) fn close_watch(sender: &mut Sender<WatchRequest>)
    ensures
        watches_shut(*final(sender)),
        watches_sent(*final(sender)) == watches_sent(*old(sender)),
{
    sender.close_channel();
}

/// `Sender::is_closed` on a channel of watch requests: true once this end has closed it, since a
/// closed channel never opens again. Another end or the receiver may have closed it, so that
/// nothing is said of the other case.
#[verifier::external_body]
pub(crate) fn is_watch_closed(sender: &Sender<WatchRequest>) -> (r: bool)
    ensures
        watches_shut(*sender) ==> r,
{
    sender.is_closed()
}

/// `Sender::try_send` on a channel of keep-alive requests. On success the request is the next that
/// this end has put into the channel; on failure nothing was put in, and the error, as text, names
/// a full channel or one without receiver. Whether it succeeds depends on the other ends and on the
/// receiver, and is left open.
#[verifier::external_body]
pub(crate) fn try_send_keep_alive(
    sender: &mut Sender<LeaseKeepAliveRequest>,
    request: LeaseKeepAliveRequest,
) -> (r: Result<(), String>)
    ensures
        match r {
            Ok(_) => keep_alives_sent(*final(sender)) == keep_alives_sent(*old(sender)).push(
                request,
            ),
            Err(text) => keep_alives_sent(*final(sender)) == keep_alives_sent(*old(sender))
                && send_failure(text@),
        },
{
    match sender.try_send(request) {
        Ok(()) => Ok(()),
        Err(e) => Err(e.to_string()),
    }
}

} // verus!
