//! How a server comes to be known to the listeners and to the router.

use crate::meta::store::detailed;
use crate::server::port_router::{
    about_server, target, ConnectionTarget, PortRouter, RoutingView, ServerRoutingInfo,
};
use crate::text::same_text;
use vstd::prelude::*;

verus! {

/// A URL of a server: the host in it, if it has one, and the address to bind to, by the number
/// under which it is kept, or why it could not be read.
#[derive(Debug)]
pub struct ServerUrl {
    pub host: Option<String>,
    pub bind: Result<u64, String>,
}

/// A URL of a server whose address could be read.
#[derive(Debug, Clone)]
pub struct BindUrl {
    pub host: Option<String>,
    pub bind: u64,
}

/// The host in a URL.
pub open spec fn host_of(url: BindUrl) -> Option<Seq<char>> {
    match url.host {
        Some(host) => Some(host@),
        None => None,
    }
}

/// The addresses of URLs.
pub open spec fn binds(urls: Seq<BindUrl>) -> Seq<u64> {
    urls.map_values(|url: BindUrl| url.bind)
}

/// What the listeners are asked.
#[derive(Debug, Clone)]
pub enum ListenerCall {
    /// To add a server under a name, with addresses.
    AddServer { name: String, binds: Vec<u64> },
    /// Whether there is a server of a name.
    GetServer { name: String },
    /// How many interfaces a server is bound to.
    BindInterfaces { name: String },
}

/// What the listeners are asked, with names as sequences.
#[verifier::ext_equal]
pub enum CallView {
    AddServer { name: Seq<char>, binds: Seq<u64> },
    GetServer { name: Seq<char> },
    BindInterfaces { name: Seq<char> },
}

impl View for ListenerCall {
    type V = CallView;

    open spec fn view(&self) -> CallView {
        match *self {
            ListenerCall::AddServer { name, binds } => CallView::AddServer {
                name: name@,
                binds: binds@,
            },
            ListenerCall::GetServer { name } => CallView::GetServer { name: name@ },
            ListenerCall::BindInterfaces { name } => CallView::BindInterfaces { name: name@ },
        }
    }
}

/// What the listeners answer.
#[derive(Debug)]
pub enum ListenerReply {
    /// Whether the server was added, or why not.
    Added(Result<(), String>),
    /// Whether there is such a server.
    Known(bool),
    /// How many interfaces the server is bound to, if there is such a server.
    Bound(Option<usize>),
}

/// Where a registration is.
#[derive(Debug, Clone, Copy, PartialEq, Eq, Structural)]
pub enum Stage {
    /// The server is to be added with all its addresses.
    Add,
    /// Whether the server is known is to be asked.
    Ask,
    /// The server is to be added with its first address.
    AddAgain,
    /// The host of a URL is to be added as another name of the server.
    Alias(usize),
    /// The interfaces are to be asked for.
    Verify,
}

/// A registration of a server with the listeners.
#[derive(Debug, Clone)]
pub struct Registration {
    pub name: String,
    pub urls: Vec<BindUrl>,
    pub stage: Stage,
}

/// What follows in a registration.
#[derive(Debug)]
pub enum RegistrationStep {
    /// It goes on.
    Next(Registration),
    /// It ended.
    Done(Result<(), String>),
}

/// The first URL from a place on that has a host.
pub open spec fn next_alias(urls: Seq<BindUrl>, from: nat) -> Option<nat>
    decreases urls.len() - from,
{
    if from >= urls.len() {
        None
    } else if urls[from as int].host is Some {
        Some(from)
    } else {
        next_alias(urls, from + 1)
    }
}

/// Where the registration is once the names up to a place are added.
pub open spec fn alias_stage(urls: Seq<BindUrl>, from: nat) -> Stage {
    match next_alias(urls, from) {
        Some(i) => Stage::Alias(i as usize),
        None => Stage::Verify,
    }
}

/// The place of the first URL from a place on that has a host.
fn find_alias(urls: &Vec<BindUrl>, from: usize) -> (r: Stage)
    requires
        from <= urls.len(),
    ensures
        r == alias_stage(urls@, from as nat),
        r matches Stage::Alias(i) ==> i < urls.len() && urls@[i as int].host is Some && from <= i,
{
    let mut i: usize = from;
    let n: usize = urls.len();
    while i < n
        invariant
            i <= n == urls.len(),
            from <= i,
            next_alias(urls@, from as nat) == next_alias(urls@, i as nat),
        decreases n - i,
    {
        if urls[i].host.is_some() {
            return Stage::Alias(i);
        }
        i = i + 1;
    }
    Stage::Verify
}

/// What a registration with good URLs fails with before it asks anything.
pub open spec fn early_failure(
    name: Seq<char>,
    has_cert: bool,
    has_key: bool,
    urls: Seq<ServerUrl>,
) -> Option<Seq<char>> {
    if !has_cert {
        Some("server tls cert config is needed: "@ + name)
    } else if !has_key {
        Some("server tls key config is needed: "@ + name)
    } else {
        first_bad(urls)
    }
}

/// Why the first address that cannot be read could not be read.
pub open spec fn first_bad(urls: Seq<ServerUrl>) -> Option<Seq<char>>
    decreases urls.len(),
{
    if urls.len() == 0 {
        None
    } else {
        match urls[0].bind {
            Err(why) => Some(why@),
            Ok(_) => first_bad(urls.drop_first()),
        }
    }
}

/// Whether URLs are the same, now that all addresses are read.
pub open spec fn read(urls: Seq<ServerUrl>, good: Seq<BindUrl>) -> bool {
    &&& urls.len() == good.len()
    &&& forall|i: int|
        0 <= i < urls.len() ==> (#[trigger] good[i]).host == urls[i].host && urls[i].bind == Ok::<
            u64,
            String,
        >(good[i].bind)
}

impl Registration {
    /// Whether the stage is one of the URLs: an alias has a host, and what is added again has an
    /// address.
    pub open spec fn wf(&self) -> bool {
        &&& (self.stage matches Stage::Alias(i) ==> i < self.urls@.len()
            && self.urls@[i as int].host is Some)
        &&& (self.stage is AddAgain ==> self.urls@.len() > 0)
    }

    /// Begins to register a server, or says why it cannot be.
    pub fn new(name: String, has_cert: bool, has_key: bool, urls: Vec<ServerUrl>) -> (r: Result<
        Registration,
        String,
    >)
        ensures
            match early_failure(name@, has_cert, has_key, urls@) {
                Some(text) => r matches Err(e) && e@ == text,
                None => r matches Ok(reg) && reg.wf() && reg.name@ == name@ && read(
                    urls@,
                    reg.urls@,
                ) && reg.stage == Stage::Add,
            },
    {
        if !has_cert {
            return Err(detailed("server tls cert config is needed: ", name.as_str()));
        }
        if !has_key {
            return Err(detailed("server tls key config is needed: ", name.as_str()));
        }
        let mut good: Vec<BindUrl> = Vec::new();
        let mut i: usize = 0;
        assert(urls@.skip(0) =~= urls@);
        while i < urls.len()
            invariant
                has_cert,
                has_key,
                i <= urls.len(),
                read(urls@.take(i as int), good@),
                first_bad(urls@) == first_bad(urls@.skip(i as int)),
            decreases urls.len() - i,
        {
            assert(urls@.skip(i as int)[0] == urls@[i as int]);
            assert(urls@.skip(i as int).drop_first() =~= urls@.skip(i + 1));
            match &urls[i].bind {
                Ok(bind) => {
                    let host = match &urls[i].host {
                        Some(host) => Some(host.clone()),
                        None => None,
                    };
                    good.push(BindUrl { host, bind: *bind });
                    i = i + 1;
                    assert forall|j: int| 0 <= j < i implies (#[trigger] good@[j]).host
                        == urls@.take(i as int)[j].host && urls@.take(i as int)[j].bind == Ok::<
                        u64,
                        String,
                    >(good@[j].bind) by {
                        if j < i - 1 {
                            assert(urls@.take(i - 1)[j] == urls@[j]);
                        }
                    }
                },
                Err(why) => {
                    return Err(why.clone());
                },
            }
        }
        assert(urls@.take(i as int) =~= urls@);
        assert(urls@.skip(i as int).len() == 0);
        Ok(Registration { name, urls: good, stage: Stage::Add })
    }

    /// What is asked at a stage.
    pub open spec fn asks(&self) -> CallView {
        match self.stage {
            Stage::Add => CallView::AddServer { name: self.name@, binds: binds(self.urls@) },
            Stage::Ask => CallView::GetServer { name: self.name@ },
            Stage::AddAgain => CallView::AddServer {
                name: self.name@,
                binds: binds(self.urls@.take(1)),
            },
            Stage::Alias(i) => CallView::AddServer {
                name: host_of(self.urls@[i as int])->0,
                binds: seq![self.urls@[i as int].bind],
            },
            Stage::Verify => CallView::BindInterfaces { name: self.name@ },
        }
    }

    /// What the listeners are asked now.
    pub fn request(&self) -> (r: ListenerCall)
        requires
            self.wf(),
        ensures
            r@ == self.asks(),
    {
        match self.stage {
            Stage::Add => ListenerCall::AddServer {
                name: self.name.clone(),
                binds: read_binds(&self.urls, self.urls.len()),
            },
            Stage::Ask => ListenerCall::GetServer { name: self.name.clone() },
            Stage::AddAgain => ListenerCall::AddServer {
                name: self.name.clone(),
                binds: read_binds(&self.urls, 1),
            },
            Stage::Alias(i) => {
                let name = match &self.urls[i].host {
                    Some(host) => host.clone(),
                    None => self.name.clone(),
                };
                let mut one: Vec<u64> = Vec::new();
                one.push(self.urls[i].bind);
                assert(one@ =~= seq![self.urls@[i as int].bind]);
                ListenerCall::AddServer { name, binds: one }
            },
            Stage::Verify => ListenerCall::BindInterfaces { name: self.name.clone() },
        }
    }

    /// Whether a reply answers what is asked.
    pub open spec fn fits(&self, reply: ListenerReply) -> bool {
        match self.stage {
            Stage::Ask => reply is Known,
            Stage::Verify => reply is Bound,
            _ => reply is Added,
        }
    }

    /// What follows a reply: the stage that comes next, or the end with its failure.
    pub open spec fn follows(&self, reply: ListenerReply) -> Result<Stage, Option<Seq<char>>> {
        match (self.stage, reply) {
            (Stage::Add, ListenerReply::Added(Err(why))) => Err(Some(why@)),
            (Stage::Add, _) => Ok(Stage::Ask),
            (Stage::Ask, ListenerReply::Known(known)) => if !known && self.urls@.len() > 0 {
                Ok(Stage::AddAgain)
            } else {
                Ok(alias_stage(self.urls@, 0))
            },
            (Stage::AddAgain, _) => Ok(alias_stage(self.urls@, 0)),
            (Stage::Alias(i), _) => Ok(alias_stage(self.urls@, (i + 1) as nat)),
            (Stage::Verify, ListenerReply::Bound(None)) => Err(
                Some("server "@ + self.name@ + " not found after registration"@),
            ),
            (Stage::Verify, ListenerReply::Bound(Some(count))) => if count == 0 {
                Err(Some("server "@ + self.name@ + " has no bound interfaces"@))
            } else {
                Err(None)
            },
            _ => Ok(self.stage),
        }
    }

    /// Goes on with a reply. Only a server that cannot be added at first, is not there in the end
    /// or is bound to nothing makes the registration fail.
    pub fn resume(self, reply: ListenerReply) -> (r: RegistrationStep)
        requires
            self.wf(),
            self.fits(reply),
        ensures
            match self.follows(reply) {
                Ok(stage) => r matches RegistrationStep::Next(reg) && reg == (Registration {
                    name: self.name,
                    urls: self.urls,
                    stage,
                }) && reg.wf(),
                Err(Some(text)) => r matches RegistrationStep::Done(Err(e)) && e@ == text,
                Err(None) => r == RegistrationStep::Done(Ok::<(), String>(())),
            },
    {
        let Registration { name, urls, stage } = self;
        let next: Stage = match stage {
            Stage::Add => match reply {
                ListenerReply::Added(Err(why)) => {
                    return RegistrationStep::Done(Err(why));
                },
                _ => Stage::Ask,
            },
            Stage::Ask => match reply {
                ListenerReply::Known(known) => if !known && urls.len() > 0 {
                    Stage::AddAgain
                } else {
                    find_alias(&urls, 0)
                },
                _ => Stage::Ask,
            },
            Stage::AddAgain => find_alias(&urls, 0),
            Stage::Alias(i) => {
                let n: usize = urls.len();
                assert(i < n);
                find_alias(&urls, i + 1)
            },
            Stage::Verify => {
                match reply {
                    ListenerReply::Bound(None) => {
                        return RegistrationStep::Done(
                            Err(about_server(name.as_str(), " not found after registration")),
                        );
                    },
                    ListenerReply::Bound(Some(count)) => {
                        if count == 0 {
                            return RegistrationStep::Done(
                                Err(about_server(name.as_str(), " has no bound interfaces")),
                            );
                        }
                        return RegistrationStep::Done(Ok(()));
                    },
                    _ => Stage::Verify,
                }
            },
        };
        RegistrationStep::Next(Registration { name, urls, stage: next })
    }
}

/// The addresses of the first URLs.
fn read_binds(urls: &Vec<BindUrl>, n: usize) -> (r: Vec<u64>)
    requires
        n <= urls.len(),
    ensures
        r@ == binds(urls@.take(n as int)),
        n == urls.len() ==> r@ == binds(urls@),
{
    let mut r: Vec<u64> = Vec::new();
    let mut i: usize = 0;
    while i < n
        invariant
            i <= n <= urls.len(),
            r@ == binds(urls@.take(i as int)),
        decreases n - i,
    {
        r.push(urls[i].bind);
        i = i + 1;
        assert(r@ =~= binds(urls@.take(i as int)));
    }
    assert(n == urls.len() ==> urls@.take(n as int) =~= urls@);
    r
}

/// The known servers once a server is known under its hosts too, as far as these are not known
/// yet.
pub open spec fn with_aliases(
    routes: Map<Seq<char>, RoutingView>,
    name: Seq<char>,
    info: RoutingView,
    urls: Seq<BindUrl>,
) -> Map<Seq<char>, RoutingView>
    decreases urls.len(),
{
    if urls.len() == 0 {
        routes.insert(name, info)
    } else {
        let before = with_aliases(routes, name, info, urls.drop_last());
        match host_of(urls.last()) {
            Some(host) => if host != name && !before.dom().contains(host) {
                before.insert(host, info)
            } else {
                before
            },
            None => before,
        }
    }
}

impl PortRouter {
    /// Makes a server known under its name, and under the hosts of its URLs as far as these are
    /// not known yet. Tells whether the name was known before.
    pub fn add_routing_entries(
        &mut self,
        server_name: &str,
        routing_info: &ServerRoutingInfo,
        urls: &Vec<BindUrl>,
    ) -> (r: bool)
        requires
            old(self).wf(),
        ensures
            final(self).wf(),
            final(self)@ == with_aliases(old(self)@, server_name@, routing_info@, urls@),
            r == old(self)@.dom().contains(server_name@),
    {
        let existing = self.insert(server_name, routing_info.duplicate());
        let mut i: usize = 0;
        assert(urls@.take(0).len() == 0);
        while i < urls.len()
            invariant
                i <= urls.len(),
                self.wf(),
                self@ == with_aliases(
                    old(self)@,
                    server_name@,
                    routing_info@,
                    urls@.take(i as int),
                ),
            decreases urls.len() - i,
        {
            proof {
                let part = urls@.take(i + 1);
                assert(part.drop_last() =~= urls@.take(i as int));
                assert(part.last() == urls@[i as int]);
            }
            if let Some(host) = &urls[i].host {
                if !same_text(host.as_str(), server_name) && !self.knows(host.as_str()) {
                    let _ = self.insert(host.as_str(), routing_info.duplicate());
                }
            }
            i = i + 1;
        }
        assert(urls@.take(i as int) =~= urls@);
        existing
    }
}

/// A registered server is known under its name with its ports; every host of its URLs is known;
/// what was known under another name stays as it was.
pub proof fn law_registered_server_is_routed(
    routes: Map<Seq<char>, RoutingView>,
    name: Seq<char>,
    info: RoutingView,
    urls: Seq<BindUrl>,
)
    ensures
        ({
            let after = with_aliases(routes, name, info, urls);
            &&& after.dom().contains(name) && after[name] == info
            &&& forall|i: int|
                0 <= i < urls.len() && (#[trigger] urls[i]).host is Some ==> after.dom().contains(
                    host_of(urls[i])->0,
                )
            &&& forall|other: Seq<char>| #[trigger]
                routes.dom().contains(other) && other != name ==> after.dom().contains(other)
                    && after[other] == routes[other]
            &&& forall|other: Seq<char>| #[trigger]
                after.dom().contains(other) && !routes.dom().contains(other) ==> after[other]
                    == info
        }),
    decreases urls.len(),
{
    if urls.len() > 0 {
        let init = urls.drop_last();
        law_registered_server_is_routed(routes, name, info, init);
        let before = with_aliases(routes, name, info, init);
        let after = with_aliases(routes, name, info, urls);
        assert forall|i: int|
            0 <= i < urls.len() && (#[trigger] urls[i]).host is Some implies after.dom().contains(
            host_of(urls[i])->0,
        ) by {
            if i < urls.len() - 1 {
                assert(init[i] == urls[i]);
            } else {
                assert(urls.last() == urls[i]);
            }
        }
    }
}

/// A connection to a registered server goes to its peers' server on a peer port, to its clients'
/// router on another port of the clients, and nowhere on any other port.
pub proof fn law_registered_ports_are_served(
    routes: Map<Seq<char>, RoutingView>,
    name: Seq<char>,
    info: RoutingView,
    urls: Seq<BindUrl>,
    port: u16,
)
    ensures
        target(with_aliases(routes, name, info, urls), name, port)
            == if info.peer_ports.contains(port) {
            ConnectionTarget::PeerCurp
        } else if info.client_ports.contains(port) {
            ConnectionTarget::ClientH3
        } else {
            ConnectionTarget::Unknown
        },
{
    law_registered_server_is_routed(routes, name, info, urls);
}

/// The names that a registration adds from a place on, each with its address.
pub open spec fn alias_calls(urls: Seq<BindUrl>, from: nat) -> Seq<CallView>
    decreases urls.len() - from,
{
    if from >= urls.len() {
        Seq::empty()
    } else {
        let rest = alias_calls(urls, from + 1);
        match host_of(urls[from as int]) {
            Some(host) => seq![
                CallView::AddServer { name: host, binds: seq![urls[from as int].bind] },
            ] + rest,
            None => rest,
        }
    }
}

/// What is asked in a registration that meets with replies in turn.
pub open spec fn asked(reg: Registration, replies: Seq<ListenerReply>) -> Seq<CallView>
    decreases replies.len(),
{
    if replies.len() == 0 {
        seq![reg.asks()]
    } else {
        match reg.follows(replies[0]) {
            Ok(stage) => seq![reg.asks()] + asked(
                Registration { stage, ..reg },
                replies.drop_first(),
            ),
            Err(_) => seq![reg.asks()],
        }
    }
}

/// From the first alias on.
proof fn lemma_aliases_asked(reg: Registration, from: nat, replies: Seq<ListenerReply>)
    requires
        from <= reg.urls@.len(),
        reg.stage == alias_stage(reg.urls@, from),
        replies.len() == alias_calls(reg.urls@, from).len(),
        forall|i: int| 0 <= i < replies.len() ==> (#[trigger] replies[i]) is Added,
    ensures
        asked(reg, replies) == alias_calls(reg.urls@, from) + seq![
            CallView::BindInterfaces { name: reg.name@ },
        ],
    decreases reg.urls@.len() - from,
{
    let urls = reg.urls@;
    lemma_urls_fit(reg.urls);
    if from >= urls.len() {
        assert(asked(reg, replies) =~= alias_calls(urls, from) + seq![
            CallView::BindInterfaces { name: reg.name@ },
        ]);
    } else if urls[from as int].host is Some {
        let calls = alias_calls(urls, from);
        let rest = alias_calls(urls, from + 1);
        assert(calls.len() == rest.len() + 1);
        let next = Registration { stage: alias_stage(urls, from + 1), ..reg };
        let after = replies.drop_first();
        assert forall|i: int| 0 <= i < after.len() implies (#[trigger] after[i]) is Added by {
            assert(replies[i + 1] is Added);
        }
        assert(replies[0] is Added);
        lemma_aliases_asked(next, from + 1, after);
        assert(reg.follows(replies[0]) == Ok::<Stage, Option<Seq<char>>>(next.stage));
        assert(asked(reg, replies) =~= calls + seq![CallView::BindInterfaces { name: reg.name@ }]);
    } else {
        lemma_aliases_asked(reg, from + 1, replies);
    }
}

/// The length of a vector is a number.
proof fn lemma_urls_fit(urls: Vec<BindUrl>)
    ensures
        urls@.len() <= usize::MAX,
{
    assert(urls.len() == urls@.len());
}

/// A registration adds the server with all its addresses, asks whether it is there, adds it with
/// its first address alone if it is not, then adds every host of its URLs with the address of
/// that URL, in their order, whether or not the hosts before could be added, and asks for the
/// interfaces at the end.
pub proof fn law_registration_asks(
    reg: Registration,
    known: bool,
    again: ListenerReply,
    replies: Seq<ListenerReply>,
)
    requires
        reg.stage == Stage::Add,
        again is Added,
        replies.len() == alias_calls(reg.urls@, 0).len(),
        forall|i: int| 0 <= i < replies.len() ==> (#[trigger] replies[i]) is Added,
    ensures
        ({
            let start = seq![
                CallView::AddServer { name: reg.name@, binds: binds(reg.urls@) },
                CallView::GetServer { name: reg.name@ },
            ];
            let end = alias_calls(reg.urls@, 0) + seq![
                CallView::BindInterfaces { name: reg.name@ },
            ];
            let first = seq![ListenerReply::Added(Ok(())), ListenerReply::Known(known)];
            if known || reg.urls@.len() == 0 {
                asked(reg, first + replies) == start + end
            } else {
                asked(reg, first.push(again) + replies) == start.push(
                    CallView::AddServer { name: reg.name@, binds: binds(reg.urls@.take(1)) },
                ) + end
            }
        }),
{
    reveal_with_fuel(asked, 4);
    let first = seq![ListenerReply::Added(Ok(())), ListenerReply::Known(known)];
    let aliases = Registration { stage: alias_stage(reg.urls@, 0), ..reg };
    lemma_aliases_asked(aliases, 0, replies);
    if known || reg.urls@.len() == 0 {
        let all = first + replies;
        assert(all[0] == ListenerReply::Added(Ok(())));
        assert(all.drop_first()[0] == ListenerReply::Known(known));
        assert(all.drop_first().drop_first() =~= replies);
    } else {
        let all = first.push(again) + replies;
        assert(all[0] == ListenerReply::Added(Ok(())));
        assert(all.drop_first()[0] == ListenerReply::Known(known));
        assert(all.drop_first().drop_first()[0] == again);
        assert(all.drop_first().drop_first().drop_first() =~= replies);
    }
}

/// A registration fails before anything is asked exactly where the certificate or the key is
/// missing, or an address could not be read.
pub proof fn law_early_failures(
    name: Seq<char>,
    has_cert: bool,
    has_key: bool,
    urls: Seq<ServerUrl>,
    i: int,
)
    ensures
        early_failure(name, has_cert, has_key, urls) is None <==> has_cert && has_key && forall|
            j: int,
        |
            0 <= j < urls.len() ==> (#[trigger] urls[j]).bind is Ok,
        has_cert && has_key && 0 <= i < urls.len() && urls[i].bind is Err && (forall|j: int|
            0 <= j < i ==> (#[trigger] urls[j]).bind is Ok) ==> early_failure(
            name,
            has_cert,
            has_key,
            urls,
        ) == Some(urls[i].bind->Err_0@),
{
    lemma_first_bad(urls, i);
}

/// The first address that could not be read.
proof fn lemma_first_bad(urls: Seq<ServerUrl>, i: int)
    ensures
        first_bad(urls) is None <==> forall|j: int|
            0 <= j < urls.len() ==> (#[trigger] urls[j]).bind is Ok,
        0 <= i < urls.len() && urls[i].bind is Err && (forall|j: int|
            0 <= j < i ==> (#[trigger] urls[j]).bind is Ok) ==> first_bad(urls) == Some(
            urls[i].bind->Err_0@,
        ),
    decreases urls.len(),
{
    if urls.len() > 0 {
        let rest = urls.drop_first();
        lemma_first_bad(rest, i - 1);
        if urls[0].bind is Ok {
            assert forall|j: int| 0 <= j < rest.len() implies rest[j] == #[trigger] urls[j + 1] by {
            }
            if forall|j: int| 0 <= j < rest.len() ==> (#[trigger] rest[j]).bind is Ok {
                assert forall|j: int| 0 <= j < urls.len() implies (
                #[trigger] urls[j]).bind is Ok by {
                    if j > 0 {
                        assert(rest[j - 1].bind is Ok);
                    }
                }
            }
            if forall|j: int| 0 <= j < urls.len() ==> (#[trigger] urls[j]).bind is Ok {
                assert forall|j: int| 0 <= j < rest.len() implies (
                #[trigger] rest[j]).bind is Ok by {
                    assert(urls[j + 1].bind is Ok);
                }
            }
            if 0 < i < urls.len() && (forall|j: int| 0 <= j < i ==> (#[trigger] urls[j]).bind is Ok) {
                assert(rest[i - 1] == urls[i]);
                assert forall|j: int| 0 <= j < i - 1 implies (#[trigger] rest[j]).bind is Ok by {
                    assert(urls[j + 1].bind is Ok);
                }
            }
        }
    }
}

/// A registration ends well exactly where the server is bound to an interface at the end; it fails
/// where the server could not be added at first, is not there at the end, or is bound to nothing,
/// and goes on after every other reply.
pub proof fn law_registration_ends(reg: Registration, reply: ListenerReply)
    requires
        reg.fits(reply),
    ensures
        reg.follows(reply) == Err::<Stage, Option<Seq<char>>>(None) <==> reg.stage is Verify && (
        reply matches ListenerReply::Bound(Some(count)) && count > 0),
        (reg.follows(reply) matches Err(Some(_))) <==> (reg.stage is Add && (
        reply matches ListenerReply::Added(Err(_)))) || (reg.stage is Verify && (
        reply == ListenerReply::Bound(None) || reply == ListenerReply::Bound(Some(0)))),
        reg.stage is Add && (reply matches ListenerReply::Added(Ok(_))) ==> reg.follows(reply)
            == Ok::<Stage, Option<Seq<char>>>(Stage::Ask),
{
}

/// The names that a registration adds are the hosts of the URLs, one after the other, each with
/// the address of its URL alone; a URL without a host adds none.
pub proof fn law_hosts_are_added_with_their_addresses(urls: Seq<BindUrl>, from: nat)
    requires
        from < urls.len(),
    ensures
        urls[from as int].host matches Some(host) ==> alias_calls(urls, from).len() > 0 && (
        alias_calls(urls, from)[0] matches CallView::AddServer { name, binds } && name == host@
            && binds.len() == 1 && binds[0] == urls[from as int].bind) && alias_calls(urls, from)
            .drop_first() == alias_calls(urls, from + 1),
        urls[from as int].host is None ==> alias_calls(urls, from) == alias_calls(urls, from + 1),
{
    if urls[from as int].host is Some {
        assert(alias_calls(urls, from).drop_first() =~= alias_calls(urls, from + 1));
    }
}

} // verus!
