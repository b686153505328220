//! Which cached metadata a change of a key makes stale.

use crate::meta::etcd::keys::{children_key, forward_key, reverse_key};
use crate::text::{
    dec, law_decimal_reads_back, lemma_split_first, lemma_split_none, parse_i64, parse_signed,
    same_text, split, split_text,
};
use vstd::prelude::*;
use vstd::string::*;

verus! {

/// What is stale in a cache.
#[derive(Debug, Clone, PartialEq, Eq)]
pub enum CacheInvalidationEvent {
    /// The attributes of an inode.
    InvalidateInode(i64),
    /// The names in a directory.
    InvalidateParentChildren(i64),
    /// The paths with a prefix.
    InvalidatePathPrefix(String),
    /// Everything.
    InvalidateAll,
}

/// What is watched, and how.
#[derive(Debug, Clone)]
pub struct WatchConfig {
    /// The keys with this prefix are watched.
    pub key_prefix: String,
    /// How many events wait to be taken.
    pub event_buffer_size: usize,
    /// Whether events are logged.
    pub debug: bool,
}

impl Default for WatchConfig {
    fn default() -> (r: Self)
        ensures
            r.key_prefix@ == ""@,
            r.event_buffer_size == 1000,
            !r.debug,
    {
        WatchConfig {
            key_prefix: String::from_str(""),
            event_buffer_size: 1000,
            debug: false,
        }
    }
}

/// What a change of a key makes stale. The first part of a key, before a colon,
/// tells its kind, and the second names an inode.
pub open spec fn stale_after(key: Seq<char>) -> Seq<CacheInvalidationEvent> {
    let parts = split(key, ':');
    let ino = parse_signed(parts[1]);
    if parts[0] == "f"@ && parts.len() >= 3 && ino is Ok {
        seq![CacheInvalidationEvent::InvalidateParentChildren(ino->Ok_0 as i64)]
    } else if parts[0] == "r"@ && parts.len() >= 2 && ino is Ok {
        seq![CacheInvalidationEvent::InvalidateInode(ino->Ok_0 as i64)]
    } else if parts[0] == "c"@ && parts.len() >= 2 && ino is Ok {
        seq![CacheInvalidationEvent::InvalidateParentChildren(ino->Ok_0 as i64)]
    } else {
        Seq::empty()
    }
}

/// What a watch is told.
#[derive(Debug, Clone)]
pub enum WatchEvent {
    /// The stream of changes was opened.
    Opened,
    /// The stream cannot be opened.
    OpenFailed,
    /// Keys changed, or the watch was canceled.
    Response { canceled: bool, keys: Vec<String> },
    /// The stream failed.
    StreamFailed,
    /// The stream ended.
    StreamEnded,
    /// The wait is over.
    Waited,
}

/// What a watch does next.
#[derive(Debug, Clone, Copy, PartialEq, Eq, Structural)]
pub enum WatchAction {
    /// Open the stream of changes.
    Open,
    /// Take the next response from the stream.
    Read,
    /// Wait a second before the stream is opened again.
    Wait,
}

/// What changes of several keys make stale, in order.
pub open spec fn all_stale(keys: Seq<String>) -> Seq<CacheInvalidationEvent>
    decreases keys.len(),
{
    if keys.len() == 0 {
        Seq::empty()
    } else {
        all_stale(keys.drop_last()) + stale_after(keys.last()@)
    }
}

/// The watch of the key-value service.
pub struct EtcdWatchWorker;

impl EtcdWatchWorker {
    /// What a change of a key makes stale.
    pub fn parse_key_to_events(key: &str) -> (r: Vec<CacheInvalidationEvent>)
        ensures
            r@ == stale_after(key@),
    {
        let mut events: Vec<CacheInvalidationEvent> = Vec::new();
        let parts = split_text(key, ':');
        let ghost p = split(key@, ':');
        assert(p.len() == parts@.len());
        assert(p[0] == parts@[0]@);
        proof {
            reveal_strlit("f");
            reveal_strlit("r");
            reveal_strlit("c");
            assert("f"@[0] != "r"@[0]);
            assert("f"@[0] != "c"@[0]);
            assert("r"@[0] != "c"@[0]);
        }
        if parts.len() < 2 {
            return events;
        }
        assert(p[1] == parts@[1]@);
        let is_forward = same_text(parts[0].as_str(), "f") && parts.len() >= 3;
        let is_reverse = same_text(parts[0].as_str(), "r");
        let is_children = same_text(parts[0].as_str(), "c");
        if !is_forward && !is_reverse && !is_children {
            return events;
        }
        match parse_i64(parts[1].as_str()) {
            Ok(ino) => {
                if is_reverse {
                    events.push(CacheInvalidationEvent::InvalidateInode(ino));
                } else {
                    events.push(CacheInvalidationEvent::InvalidateParentChildren(ino));
                }
            },
            Err(_) => {},
        }
        assert(events@ =~= stale_after(key@));
        events
    }

    /// Takes an event of the watch: what to do next, and what became stale.
    pub fn watch_step(event: &WatchEvent) -> (r: (WatchAction, Vec<CacheInvalidationEvent>))
        ensures
            r.0 == (match *event {
                WatchEvent::Opened => WatchAction::Read,
                WatchEvent::Response { canceled: false, .. } => WatchAction::Read,
                WatchEvent::Waited => WatchAction::Open,
                _ => WatchAction::Wait,
            }),
            r.1@ == (match *event {
                WatchEvent::Response { canceled: false, keys } => all_stale(keys@),
                _ => Seq::empty(),
            }),
    {
        let none: Vec<CacheInvalidationEvent> = Vec::new();
        match event {
            WatchEvent::Opened => (WatchAction::Read, none),
            WatchEvent::OpenFailed => (WatchAction::Wait, none),
            WatchEvent::Response { canceled, keys } => {
                if *canceled {
                    return (WatchAction::Wait, none);
                }
                let mut stale: Vec<CacheInvalidationEvent> = Vec::new();
                let mut i: usize = 0;
                assert(all_stale(keys@.take(0)) =~= Seq::empty());
                while i < keys.len()
                    invariant
                        i <= keys.len(),
                        stale@ == all_stale(keys@.take(i as int)),
                    decreases keys.len() - i,
                {
                    let mut more = EtcdWatchWorker::parse_key_to_events(keys[i].as_str());
                    assert(keys@.take(i + 1).drop_last() =~= keys@.take(i as int));
                    stale.append(&mut more);
                    i = i + 1;
                }
                assert(keys@.take(i as int) =~= keys@);
                (WatchAction::Read, stale)
            },
            WatchEvent::StreamFailed => (WatchAction::Wait, none),
            WatchEvent::StreamEnded => (WatchAction::Wait, none),
            WatchEvent::Waited => (WatchAction::Open, none),
        }
    }
}

/// A change of any key that the store writes makes stale what the key is about:
/// a name or a list of names, the directory; metadata, the inode.
pub proof fn law_keys_tell_what_is_stale(ino: i64, name: Seq<char>)
    ensures
        stale_after(forward_key(ino as int, name)) == seq![
            CacheInvalidationEvent::InvalidateParentChildren(ino),
        ],
        stale_after(reverse_key(ino as int)) == seq![CacheInvalidationEvent::InvalidateInode(ino)],
        stale_after(children_key(ino as int)) == seq![
            CacheInvalidationEvent::InvalidateParentChildren(ino),
        ],
{
    reveal_strlit("f:");
    reveal_strlit("r:");
    reveal_strlit("c:");
    reveal_strlit(":");
    reveal_strlit("f");
    reveal_strlit("r");
    reveal_strlit("c");
    assert("f"@[0] != "r"@[0]);
    assert("f"@[0] != "c"@[0]);
    assert("r"@[0] != "c"@[0]);
    let d = dec(ino as int);
    law_decimal_reads_back(ino);
    assert forall|i: int| 0 <= i < d.len() implies d[i] != ':' by {
        crate::meta::etcd::keys::lemma_dec_has_no_colon(ino as int, i);
    }
    lemma_split_none(d, ':');
    assert(forward_key(ino as int, name) =~= "f"@ + seq![':'] + (d + seq![':'] + name));
    lemma_split_first("f"@, ':', d + seq![':'] + name);
    lemma_split_first(d, ':', name);
    crate::text::lemma_split_not_empty(name, ':');
    assert(reverse_key(ino as int) =~= "r"@ + seq![':'] + d);
    lemma_split_first("r"@, ':', d);
    assert(children_key(ino as int) =~= "c"@ + seq![':'] + d);
    lemma_split_first("c"@, ':', d);
}

/// A text of several parts begins with the first part and a separator.
proof fn lemma_first_part(s: Seq<char>, c: char)
    requires
        split(s, c).len() >= 2,
    ensures
        split(s, c)[0].push(c).is_prefix_of(s),
    decreases s.len(),
{
    let t = s.drop_last();
    crate::text::lemma_split_not_empty(t, c);
    let parts = split(t, c);
    if parts.len() >= 2 {
        lemma_first_part(t, c);
        assert(split(s, c)[0] == parts[0]);
        let p = parts[0].push(c);
        assert(p =~= s.subrange(0, p.len() as int)) by {
            assert(p =~= t.subrange(0, p.len() as int));
            assert(t.subrange(0, p.len() as int) =~= s.subrange(0, p.len() as int));
        }
    } else {
        crate::text::law_join_undoes_split(t, c);
        assert(parts =~= seq![parts[0]]);
        assert(parts[0] == t);
        assert(s.last() == c);
        assert(split(s, c)[0].push(c) =~= s);
    }
}

/// A change of a key that is of no name, no metadata and no list of names makes nothing stale; the
/// changes of several keys make stale what each of them does, in order.
pub proof fn law_other_keys_make_nothing_stale(
    key: Seq<char>,
    keys: Seq<String>,
    more: Seq<String>,
    one: String,
)
    ensures
        !"f:"@.is_prefix_of(key) && !"r:"@.is_prefix_of(key) && !"c:"@.is_prefix_of(key)
            ==> stale_after(key).len() == 0,
        stale_after(key).len() <= 1,
        all_stale(keys + more) == all_stale(keys) + all_stale(more),
        all_stale(seq![one]) == stale_after(one@),
    decreases more.len(),
{
    reveal_strlit("f:");
    reveal_strlit("r:");
    reveal_strlit("c:");
    reveal_strlit("f");
    reveal_strlit("r");
    reveal_strlit("c");
    if split(key, ':').len() >= 2 {
        lemma_first_part(key, ':');
        assert("f"@.push(':') =~= "f:"@);
        assert("r"@.push(':') =~= "r:"@);
        assert("c"@.push(':') =~= "c:"@);
    }
    reveal_with_fuel(all_stale, 2);
    assert(seq![one].drop_last() =~= Seq::empty());
    assert(all_stale(seq![one]) =~= stale_after(one@));
    if more.len() > 0 {
        law_other_keys_make_nothing_stale(key, keys, more.drop_last(), one);
        assert((keys + more).drop_last() =~= keys + more.drop_last());
    } else {
        assert(keys + more =~= keys);
    }
    assert(all_stale(keys + more) =~= all_stale(keys) + all_stale(more));
}

/// A key of a name without the name, and a key whose number is none, make nothing stale.
pub proof fn law_broken_keys_make_nothing_stale(ino: i64, word: Seq<char>)
    requires
        forall|i: int| 0 <= i < word.len() ==> word[i] != ':',
        parse_signed(word) is Err,
    ensures
        stale_after("f:"@ + dec(ino as int)).len() == 0,
        stale_after("r:"@ + word).len() == 0,
        stale_after("c:"@ + word).len() == 0,
{
    reveal_strlit("f:");
    reveal_strlit("r:");
    reveal_strlit("c:");
    reveal_strlit("f");
    reveal_strlit("r");
    reveal_strlit("c");
    let d = dec(ino as int);
    assert forall|i: int| 0 <= i < d.len() implies d[i] != ':' by {
        crate::meta::etcd::keys::lemma_dec_has_no_colon(ino as int, i);
    }
    lemma_split_none(d, ':');
    lemma_split_none(word, ':');
    assert("f:"@ + d =~= "f"@ + seq![':'] + d);
    assert("r:"@ + word =~= "r"@ + seq![':'] + word);
    assert("c:"@ + word =~= "c"@ + seq![':'] + word);
    lemma_split_first("f"@, ':', d);
    lemma_split_first("r"@, ':', word);
    lemma_split_first("c"@, ':', word);
    assert("f"@[0] != "r"@[0]);
    assert("f"@[0] != "c"@[0]);
    assert("r"@[0] != "c"@[0]);
}

} // verus!
