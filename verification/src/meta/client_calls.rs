//! Calls that a caching client serves: what it answers without asking, what it asks the store for,
//! and in which order it takes the replies into its caches.

use crate::meta::cache::CacheView;
use crate::meta::client::{
    create_taken, known, looked_up, lookup_taken, put_entries, rename_taken, rmdir_taken,
    unlink_taken, MetaClient,
};
use crate::meta::store::{result_view, ErrorView, FileAttr};
use crate::meta::types::Inode;
use crate::vfs::op::{fs_fits, FsReply, FsRequest, FsRequestView};
use vstd::prelude::*;

verus! {

/// What a client does to its caches with a reply of the store. A removal also drops the attributes
/// of `child`, which the name stood for.
pub open spec fn taken(
    c: CacheView,
    now: u64,
    req: FsRequestView,
    reply: FsReply,
    child: Inode,
) -> CacheView {
    match (req, reply) {
        (FsRequestView::Lookup { parent, name }, FsReply::Child(r)) => lookup_taken(
            c,
            now,
            parent,
            name,
            result_view(r),
        ),
        (FsRequestView::Getattr(ino), FsReply::Attr(Ok(attr))) => c.put_attr(now, ino, attr),
        (FsRequestView::Setattr(ino, _), FsReply::Attr(Ok(attr))) => c.put_attr(now, ino, attr),
        (FsRequestView::Readdir(ino), FsReply::Entries(Ok(list))) => put_entries(
            c,
            now,
            ino,
            list@,
        ),
        (FsRequestView::Create(p), FsReply::Created(Ok(made))) => create_taken(
            c,
            now,
            p.parent,
            p.name,
            made.0,
            made.1,
        ),
        (FsRequestView::Unlink { parent, name }, FsReply::Done(Ok(_))) => unlink_taken(
            c,
            now,
            parent,
            name,
            child,
        ),
        (FsRequestView::Rmdir { parent, name }, FsReply::Done(Ok(_))) => rmdir_taken(
            c,
            now,
            parent,
            name,
            child,
        ),
        (
            FsRequestView::Rename { old_parent, old_name, new_parent, new_name },
            FsReply::Done(Ok(_)),
        ) => rename_taken(c, old_parent, old_name, new_parent, new_name),
        _ => c,
    }
}

/// Whether a request is one to the store. Paths are walked name by name.
pub open spec fn is_store_request(req: FsRequestView) -> bool {
    req !is Resolve && req !is MakeDirs
}

/// A call that waits for the store.
pub struct ClientCall {
    pub request: FsRequest,
    /// Whether the name of a removal is still being looked up.
    pub looking: bool,
    /// What the name of a removal stands for.
    pub child: Option<Inode>,
}

/// A call over views.
pub struct CallState {
    pub req: FsRequestView,
    pub looking: bool,
    pub child: Option<Inode>,
}

/// What a client does next with a call.
pub enum ClientStep {
    /// The store is to be asked.
    Ask(ClientCall),
    /// The call is answered.
    Answer(FsReply),
}

/// How a call is answered, over views.
pub enum AnswerView {
    /// A name is known.
    Child(Result<Inode, ErrorView>),
    /// Attributes are at hand.
    Attr(FileAttr),
    /// A name that is to be removed does not exist, or could not be looked up.
    Refused(ErrorView),
    /// As the store answered.
    Same(FsReply),
}

/// What a client does next with a call, over views.
pub enum CallStepView {
    Ask(CallState),
    Answer(AnswerView),
}

/// Whether a reply is what an answer says.
pub open spec fn stands_for(a: AnswerView, reply: FsReply) -> bool {
    match a {
        AnswerView::Child(r) => reply matches FsReply::Child(given) && result_view(given) == r,
        AnswerView::Attr(attr) => reply matches FsReply::Attr(Ok(given)) && given == attr,
        AnswerView::Refused(e) => reply matches FsReply::Done(Err(given)) && given@ == e,
        AnswerView::Same(given) => reply == given,
    }
}

impl CallState {
    /// The call without a look at a name.
    pub open spec fn of(req: FsRequestView) -> CallState {
        CallState { req, looking: false, child: None }
    }

    /// The request that the store is asked.
    pub open spec fn asks(self) -> FsRequestView {
        if self.looking {
            match self.req {
                FsRequestView::Unlink { parent, name } => FsRequestView::Lookup { parent, name },
                FsRequestView::Rmdir { parent, name } => FsRequestView::Lookup { parent, name },
                other => other,
            }
        } else {
            self.req
        }
    }

    /// What a removal waits for is known of its name.
    pub open spec fn wf(self) -> bool {
        let removal = self.req is Unlink || self.req is Rmdir;
        is_store_request(self.req) && (removal && !self.looking ==> self.child is Some) && (
        self.looking ==> removal)
    }
}

/// How a client begins with a call: a name and attributes that are cached are told, a removal
/// needs what its name stands for, and everything else is asked.
pub open spec fn begun(c: CacheView, now: u64, req: FsRequestView) -> (CacheView, CallStepView) {
    match req {
        FsRequestView::Lookup { parent, name } => (
            looked_up(c, now, parent, name),
            match known(c, now, parent, name) {
                Some(answer) => CallStepView::Answer(AnswerView::Child(answer)),
                None => CallStepView::Ask(CallState::of(req)),
            },
        ),
        FsRequestView::Getattr(ino) => (
            c.attr_read(now, ino, None),
            match c.attr(now, ino, None) {
                Some(attr) => CallStepView::Answer(AnswerView::Attr(attr)),
                None => CallStepView::Ask(CallState::of(req)),
            },
        ),
        FsRequestView::Unlink { parent, name } => removal_begun(c, now, req, parent, name),
        FsRequestView::Rmdir { parent, name } => removal_begun(c, now, req, parent, name),
        _ => (c, CallStepView::Ask(CallState::of(req))),
    }
}

/// How a client begins with a removal.
pub open spec fn removal_begun(
    c: CacheView,
    now: u64,
    req: FsRequestView,
    parent: Inode,
    name: Seq<char>,
) -> (CacheView, CallStepView) {
    (
        looked_up(c, now, parent, name),
        match known(c, now, parent, name) {
            Some(Ok(child)) => CallStepView::Ask(
                CallState { req, looking: false, child: Some(child) },
            ),
            Some(Err(e)) => CallStepView::Answer(AnswerView::Refused(e)),
            None => CallStepView::Ask(CallState { req, looking: true, child: None }),
        },
    )
}

/// How a client goes on with a call after a reply of the store.
pub open spec fn went_on(c: CacheView, now: u64, s: CallState, reply: FsReply) -> (
    CacheView,
    CallStepView,
) {
    if s.looking {
        (
            taken(c, now, s.asks(), reply, Inode(0)),
            match reply {
                FsReply::Child(Ok(child)) => CallStepView::Ask(
                    CallState { looking: false, child: Some(child), ..s },
                ),
                FsReply::Child(Err(e)) => CallStepView::Answer(AnswerView::Refused(e@)),
                other => CallStepView::Answer(AnswerView::Same(other)),
            },
        )
    } else {
        (
            taken(
                c,
                now,
                s.req,
                reply,
                match s.child {
                    Some(child) => child,
                    None => Inode(0),
                },
            ),
            CallStepView::Answer(AnswerView::Same(reply)),
        )
    }
}

/// Whether a step is what its view says.
pub open spec fn shows(step: ClientStep, v: CallStepView) -> bool {
    match (step, v) {
        (ClientStep::Ask(call), CallStepView::Ask(s)) => call.state() == s && s.wf(),
        (ClientStep::Answer(reply), CallStepView::Answer(a)) => stands_for(a, reply),
        _ => false,
    }
}

impl ClientCall {
    /// The view of the call.
    pub open spec fn state(self) -> CallState {
        CallState { req: self.request@, looking: self.looking, child: self.child }
    }

    /// The request that the store is asked.
    pub fn request(&self) -> (r: FsRequest)
        requires
            self.state().wf(),
        ensures
            r@ == self.state().asks(),
    {
        match &self.request {
            FsRequest::Resolve(path) => FsRequest::Resolve(path.clone()),
            FsRequest::MakeDirs(path) => FsRequest::MakeDirs(path.clone()),
            FsRequest::Lookup { parent, name } => FsRequest::Lookup {
                parent: *parent,
                name: name.clone(),
            },
            FsRequest::Getattr(ino) => FsRequest::Getattr(*ino),
            FsRequest::Readdir(ino) => FsRequest::Readdir(*ino),
            FsRequest::Create(p) => FsRequest::Create(
                crate::meta::types::CreateParams {
                    parent: p.parent,
                    name: p.name.clone(),
                    kind: p.kind,
                    mode: p.mode,
                    uid: p.uid,
                    gid: p.gid,
                },
            ),
            FsRequest::Setattr(ino, mask) => FsRequest::Setattr(*ino, *mask),
            FsRequest::Unlink { parent, name } => if self.looking {
                FsRequest::Lookup { parent: *parent, name: name.clone() }
            } else {
                FsRequest::Unlink { parent: *parent, name: name.clone() }
            },
            FsRequest::Rmdir { parent, name } => if self.looking {
                FsRequest::Lookup { parent: *parent, name: name.clone() }
            } else {
                FsRequest::Rmdir { parent: *parent, name: name.clone() }
            },
            FsRequest::Rename { old_parent, old_name, new_parent, new_name } => FsRequest::Rename {
                old_parent: *old_parent,
                old_name: old_name.clone(),
                new_parent: *new_parent,
                new_name: new_name.clone(),
            },
            FsRequest::ReadData { ino, offset, len } => FsRequest::ReadData {
                ino: *ino,
                offset: *offset,
                len: *len,
            },
            FsRequest::WriteData { ino, offset, data } => {
                let copy = copy_bytes(data);
                FsRequest::WriteData { ino: *ino, offset: *offset, data: copy }
            },
        }
    }
}

/// A copy of bytes.
fn copy_bytes(data: &Vec<u8>) -> (r: Vec<u8>)
    ensures
        r@ == data@,
{
    let mut r: Vec<u8> = Vec::new();
    let mut i: usize = 0;
    while i < data.len()
        invariant
            i <= data.len(),
            r@ == data@.take(i as int),
        decreases data.len() - i,
    {
        r.push(data[i]);
        i = i + 1;
        assert(data@.take(i as int) =~= data@.take(i - 1).push(data@[i - 1]));
    }
    assert(data@.take(i as int) =~= data@);
    r
}

impl MetaClient {
    /// Begins with a call.
    pub fn begin(&mut self, now: u64, request: FsRequest) -> (r: ClientStep)
        requires
            old(self).wf(),
            is_store_request(request@),
        ensures
            final(self).wf(),
            final(self).root == old(self).root,
            final(self).cache@ == begun(old(self).cache@, now, request@).0,
            shows(r, begun(old(self).cache@, now, request@).1),
    {
        match &request {
            FsRequest::Lookup { parent, name } => {
                if let Some(answer) = self.lookup(now, *parent, name.as_str()) {
                    return ClientStep::Answer(FsReply::Child(answer));
                }
            },
            FsRequest::Getattr(ino) => {
                if let Some(attr) = self.getattr(now, *ino) {
                    return ClientStep::Answer(FsReply::Attr(Ok(attr)));
                }
            },
            FsRequest::Unlink { parent, name } | FsRequest::Rmdir { parent, name } => {
                match self.lookup(now, *parent, name.as_str()) {
                    Some(Ok(child)) => {
                        return ClientStep::Ask(
                            ClientCall { request, looking: false, child: Some(child) },
                        );
                    },
                    Some(Err(e)) => return ClientStep::Answer(FsReply::Done(Err(e))),
                    None => {
                        return ClientStep::Ask(ClientCall { request, looking: true, child: None });
                    },
                }
            },
            _ => {},
        }
        ClientStep::Ask(ClientCall { request, looking: false, child: None })
    }

    /// Goes on with a call after the reply of the store.
    pub fn go_on(&mut self, now: u64, call: ClientCall, reply: FsReply) -> (r: ClientStep)
        requires
            old(self).wf(),
            old(self).cache.config.in_time(now),
            call.state().wf(),
            fs_fits(call.state().asks(), reply),
        ensures
            final(self).wf(),
            final(self).root == old(self).root,
            final(self).cache@ == went_on(old(self).cache@, now, call.state(), reply).0,
            shows(r, went_on(old(self).cache@, now, call.state(), reply).1),
    {
        let ClientCall { request, looking, child } = call;
        if looking {
            match &request {
                FsRequest::Unlink { parent, name } | FsRequest::Rmdir { parent, name } => {
                    if let FsReply::Child(found) = reply {
                        return match self.lookup_reply(now, *parent, name.as_str(), found) {
                            Ok(child) => ClientStep::Ask(
                                ClientCall { request, looking: false, child: Some(child) },
                            ),
                            Err(e) => ClientStep::Answer(FsReply::Done(Err(e))),
                        };
                    }
                },
                _ => {},
            }
            return ClientStep::Answer(reply);
        }
        let gone = match child {
            Some(child) => child,
            None => Inode(0),
        };
        match &request {
            FsRequest::Lookup { parent, name } => {
                if let FsReply::Child(found) = reply {
                    let found = self.lookup_reply(now, *parent, name.as_str(), found);
                    return ClientStep::Answer(FsReply::Child(found));
                }
            },
            FsRequest::Getattr(ino) => {
                if let FsReply::Attr(attr) = reply {
                    let attr = self.getattr_reply(now, *ino, attr);
                    return ClientStep::Answer(FsReply::Attr(attr));
                }
            },
            FsRequest::Setattr(ino, _) => {
                if let FsReply::Attr(attr) = reply {
                    let attr = self.setattr_reply(now, *ino, attr);
                    return ClientStep::Answer(FsReply::Attr(attr));
                }
            },
            FsRequest::Readdir(ino) => {
                if let FsReply::Entries(list) = reply {
                    let list = self.readdir_reply(now, *ino, list);
                    return ClientStep::Answer(FsReply::Entries(list));
                }
            },
            FsRequest::Create(p) => {
                if let FsReply::Created(made) = reply {
                    let made = self.create_reply(now, p, made);
                    return ClientStep::Answer(FsReply::Created(made));
                }
            },
            FsRequest::Unlink { parent, name } => {
                if let FsReply::Done(done) = reply {
                    let done = self.unlink_reply(now, *parent, name.as_str(), gone, done);
                    return ClientStep::Answer(FsReply::Done(done));
                }
            },
            FsRequest::Rmdir { parent, name } => {
                if let FsReply::Done(done) = reply {
                    let done = self.rmdir_reply(now, *parent, name.as_str(), gone, done);
                    return ClientStep::Answer(FsReply::Done(done));
                }
            },
            FsRequest::Rename { old_parent, old_name, new_parent, new_name } => {
                if let FsReply::Done(done) = reply {
                    let done = self.rename_reply(
                        *old_parent,
                        old_name.as_str(),
                        *new_parent,
                        new_name.as_str(),
                        done,
                    );
                    return ClientStep::Answer(FsReply::Done(done));
                }
            },
            _ => {},
        }
        ClientStep::Answer(reply)
    }
}

} // verus!
