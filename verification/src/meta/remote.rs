//! The metadata service between a client and a server: messages, and what becomes of replies.

use crate::meta::config::{Config, MetadataBackend};
use crate::meta::store::{detailed, DirEntry, ErrorView, FileAttr, FileType, MetaError};
use crate::meta::types::{CreateParams, Inode, SetAttrMask};
use crate::text::{dec, i64_text};
use vstd::prelude::*;
use vstd::string::*;

verus! {

/// Attributes in a message.
#[derive(Debug, Clone, Copy, PartialEq, Eq, Structural)]
pub struct ProtoFileAttr {
    pub ino: i64,
    pub size: u64,
    pub blocks: u64,
    pub atime: i64,
    pub mtime: i64,
    pub ctime: i64,
    pub mode: u32,
    pub nlink: u32,
    pub uid: u32,
    pub gid: u32,
    pub rdev: u32,
    pub blksize: u32,
    pub kind: i32,
    pub version: u64,
}

/// An entry in a message.
#[derive(Debug, Clone)]
pub struct ProtoDirEntry {
    pub ino: i64,
    pub name: String,
    pub kind: i32,
}

/// The attributes of an inode in a message.
#[derive(Debug, Clone, Copy)]
pub struct AttrPair {
    pub ino: i64,
    pub attr: Option<ProtoFileAttr>,
}

/// An entry with its attributes in a message.
#[derive(Debug, Clone)]
pub struct DirEntryPlus {
    pub entry: Option<ProtoDirEntry>,
    pub attr: Option<ProtoFileAttr>,
}

/// A request to create.
#[derive(Debug, Clone)]
pub struct CreateRequest {
    pub parent: i64,
    pub name: String,
    pub mode: u32,
    pub uid: u32,
    pub gid: u32,
    pub rdev: u32,
    pub kind: i32,
}

/// A request to set attributes.
#[derive(Debug, Clone, Copy)]
pub struct SetAttrRequest {
    pub ino: i64,
    pub mode: Option<u32>,
    pub uid: Option<u32>,
    pub gid: Option<u32>,
    pub size: Option<u64>,
    pub atime: Option<i64>,
    pub mtime: Option<i64>,
}

/// The number of a kind in a message.
pub open spec fn kind_number(kind: FileType) -> i32 {
    match kind {
        FileType::File => 1,
        FileType::Dir => 2,
    }
}

/// The kind of a number in a message; an unknown number means a file.
pub open spec fn number_kind(n: i32) -> FileType {
    if n == 2 {
        FileType::Dir
    } else {
        FileType::File
    }
}

/// The number of a kind in a message.
pub fn convert_file_type_to_proto(kind: FileType) -> (r: i32)
    ensures
        r == kind_number(kind),
        kind is File ==> r == 1,
        kind is Dir ==> r == 2,
{
    match kind {
        FileType::File => 1,
        FileType::Dir => 2,
    }
}

/// The kind of a number in a message.
pub fn convert_file_type_from_proto(file_type: i32) -> (r: FileType)
    ensures
        r == number_kind(file_type),
        r is Dir <==> file_type == 2,
{
    match file_type {
        2 => FileType::Dir,
        _ => FileType::File,
    }
}

/// Attributes as they are sent.
pub open spec fn sent_attr(attr: FileAttr) -> ProtoFileAttr {
    ProtoFileAttr {
        ino: attr.ino,
        size: attr.size,
        blocks: attr.blocks,
        atime: attr.atime,
        mtime: attr.mtime,
        ctime: attr.ctime,
        mode: attr.mode,
        nlink: attr.nlink,
        uid: attr.uid,
        gid: attr.gid,
        rdev: attr.rdev,
        blksize: attr.blksize,
        kind: kind_number(attr.kind),
        version: attr.version,
    }
}

/// Attributes as they are received.
pub open spec fn received_attr(proto: ProtoFileAttr) -> FileAttr {
    FileAttr {
        ino: proto.ino,
        size: proto.size,
        blocks: proto.blocks,
        kind: number_kind(proto.kind),
        mode: proto.mode,
        uid: proto.uid,
        gid: proto.gid,
        atime: proto.atime,
        mtime: proto.mtime,
        ctime: proto.ctime,
        nlink: proto.nlink,
        blksize: proto.blksize,
        rdev: proto.rdev,
        version: proto.version,
    }
}

/// Attributes as they are sent.
pub fn convert_attr_to_proto(attr: &FileAttr) -> (r: ProtoFileAttr)
    ensures
        r == sent_attr(*attr),
        r.ino == attr.ino && r.size == attr.size && r.blocks == attr.blocks,
        r.mode == attr.mode && r.uid == attr.uid && r.gid == attr.gid,
        r.atime == attr.atime && r.mtime == attr.mtime && r.ctime == attr.ctime,
        r.nlink == attr.nlink && r.blksize == attr.blksize && r.rdev == attr.rdev,
        r.version == attr.version,
        attr.kind is File ==> r.kind == 1,
        attr.kind is Dir ==> r.kind == 2,
{
    ProtoFileAttr {
        ino: attr.ino,
        size: attr.size,
        blocks: attr.blocks,
        atime: attr.atime,
        mtime: attr.mtime,
        ctime: attr.ctime,
        mode: attr.mode,
        nlink: attr.nlink,
        uid: attr.uid,
        gid: attr.gid,
        rdev: attr.rdev,
        blksize: attr.blksize,
        kind: convert_file_type_to_proto(attr.kind),
        version: attr.version,
    }
}

/// Attributes as they are received.
pub fn convert_attr_from_proto(proto: &ProtoFileAttr) -> (r: FileAttr)
    ensures
        r == received_attr(*proto),
{
    FileAttr {
        ino: proto.ino,
        size: proto.size,
        blocks: proto.blocks,
        kind: convert_file_type_from_proto(proto.kind),
        mode: proto.mode,
        uid: proto.uid,
        gid: proto.gid,
        atime: proto.atime,
        mtime: proto.mtime,
        ctime: proto.ctime,
        nlink: proto.nlink,
        blksize: proto.blksize,
        rdev: proto.rdev,
        version: proto.version,
    }
}

/// An entry as it is sent.
pub open spec fn sent_entry(e: DirEntry) -> ProtoDirEntry {
    ProtoDirEntry { ino: e.ino, name: e.name, kind: kind_number(e.kind) }
}

/// An entry as it is received.
pub open spec fn received_entry(e: ProtoDirEntry) -> DirEntry {
    DirEntry { name: e.name, ino: e.ino, kind: number_kind(e.kind) }
}

/// An entry as it is sent.
pub fn convert_entry_to_proto(entry: &DirEntry) -> (r: ProtoDirEntry)
    ensures
        r == sent_entry(*entry),
        r.ino == entry.ino && r.name == entry.name,
        entry.kind is File ==> r.kind == 1,
        entry.kind is Dir ==> r.kind == 2,
{
    ProtoDirEntry {
        ino: entry.ino,
        name: entry.name.clone(),
        kind: convert_file_type_to_proto(entry.kind),
    }
}

/// An entry as it is received.
pub fn convert_entry_from_proto(proto: &ProtoDirEntry) -> (r: DirEntry)
    ensures
        r == received_entry(*proto),
        r.ino == proto.ino && r.name == proto.name,
        r.kind is Dir <==> proto.kind == 2,
{
    DirEntry {
        name: proto.name.clone(),
        ino: proto.ino,
        kind: convert_file_type_from_proto(proto.kind),
    }
}

/// The codes of a refusal.
#[derive(Debug, Clone, Copy, PartialEq, Eq, Structural)]
pub enum StatusCode {
    NotFound,
    Internal,
}

/// A refusal of the server.
#[derive(Debug, Clone)]
pub struct Status {
    pub code: StatusCode,
    pub message: String,
}

impl Status {
    /// Whether the refusal has a code and a message made of a label and an error.
    pub open spec fn says(self, code: StatusCode, label: Seq<char>, e: MetaError) -> bool {
        self.code == code && self.message@ == label + e.text()
    }
}

/// A refusal for an error.
fn refuse(code: StatusCode, label: &str, e: &MetaError) -> (r: Status)
    ensures
        r.says(code, label@, *e),
{
    Status { code, message: detailed(label, e.message().as_str()) }
}

/// The pairs of a batch as they are sent.
pub open spec fn sent_pairs(list: Seq<(Inode, FileAttr)>) -> Seq<AttrPair> {
    Seq::new(
        list.len(),
        |i: int| AttrPair { ino: list[i].0.0, attr: Some(sent_attr(list[i].1)) },
    )
}

/// The entries of a listing as they are sent.
pub open spec fn sent_entries(list: Seq<DirEntry>) -> Seq<ProtoDirEntry> {
    Seq::new(list.len(), |i: int| sent_entry(list[i]))
}

/// The entries of a listing with attributes as they are sent.
pub open spec fn sent_plus(list: Seq<(DirEntry, FileAttr)>) -> Seq<DirEntryPlus> {
    Seq::new(
        list.len(),
        |i: int|
            DirEntryPlus {
                entry: Some(sent_entry(list[i].0)),
                attr: Some(sent_attr(list[i].1)),
            },
    )
}

/// The server: what it asks its store, and what it answers given the reply of the store.
pub struct MetaServer;

impl MetaServer {
    /// Answers a request without a result.
    fn finish(label: &str, reply: Result<(), MetaError>) -> (r: Result<bool, Status>)
        ensures
            match reply {
                Ok(_) => r == Ok::<bool, Status>(true),
                Err(e) => r matches Err(s) && s.says(StatusCode::Internal, label@, e),
            },
    {
        match reply {
            Ok(_) => Ok(true),
            Err(e) => Err(refuse(StatusCode::Internal, label, &e)),
        }
    }

    /// Answers a request for the root directory.
    pub fn get_root_ino(root: Inode) -> (r: i64)
        ensures
            r == root.0,
    {
        root.0
    }

    /// Answers a request to initialize.
    pub fn initialize(reply: Result<(), MetaError>) -> (r: Result<bool, Status>)
        ensures
            match reply {
                Ok(_) => r == Ok::<bool, Status>(true),
                Err(e) => r matches Err(s) && s.says(
                    StatusCode::Internal,
                    "Initialize failed: "@,
                    e,
                ),
            },
    {
        MetaServer::finish("Initialize failed: ", reply)
    }

    /// Answers a request for attributes.
    pub fn get_attr(ino: i64, reply: Result<FileAttr, MetaError>) -> (r: Result<
        ProtoFileAttr,
        Status,
    >)
        ensures
            match reply {
                Ok(attr) => r == Ok::<ProtoFileAttr, Status>(sent_attr(attr)),
                Err(e) => r matches Err(s) && s.says(
                    StatusCode::NotFound,
                    "Inode "@ + dec(ino as int) + " not found: "@,
                    e,
                ),
            },
    {
        match reply {
            Ok(attr) => Ok(convert_attr_to_proto(&attr)),
            Err(e) => {
                let mut label = detailed("Inode ", i64_text(ino).as_str());
                label.append(" not found: ");
                Err(refuse(StatusCode::NotFound, label.as_str(), &e))
            },
        }
    }

    /// Answers a request for the attributes of several inodes.
    pub fn get_attr_batch(reply: Result<Vec<(Inode, FileAttr)>, MetaError>) -> (r: Result<
        Vec<AttrPair>,
        Status,
    >)
        ensures
            match reply {
                Ok(list) => r matches Ok(pairs) && pairs@ == sent_pairs(list@),
                Err(e) => r matches Err(s) && s.says(
                    StatusCode::Internal,
                    "Batch getattr failed: "@,
                    e,
                ),
            },
    {
        match reply {
            Ok(list) => {
                let mut pairs: Vec<AttrPair> = Vec::new();
                let mut i: usize = 0;
                while i < list.len()
                    invariant
                        i <= list.len(),
                        pairs@ == sent_pairs(list@.take(i as int)),
                    decreases list.len() - i,
                {
                    pairs.push(
                        AttrPair {
                            ino: list[i].0.0,
                            attr: Some(convert_attr_to_proto(&list[i].1)),
                        },
                    );
                    i = i + 1;
                    assert(pairs@ =~= sent_pairs(list@.take(i as int)));
                }
                assert(list@.take(i as int) =~= list@);
                Ok(pairs)
            },
            Err(e) => Err(refuse(StatusCode::Internal, "Batch getattr failed: ", &e)),
        }
    }

    /// Answers a request for a name.
    pub fn lookup(reply: Result<Inode, MetaError>) -> (r: Result<i64, Status>)
        ensures
            match reply {
                Ok(ino) => r == Ok::<i64, Status>(ino.0),
                Err(e) => r matches Err(s) && s.says(StatusCode::NotFound, "Lookup failed: "@, e),
            },
    {
        match reply {
            Ok(ino) => Ok(ino.0),
            Err(e) => Err(refuse(StatusCode::NotFound, "Lookup failed: ", &e)),
        }
    }

    /// Answers a request for a listing.
    pub fn readdir(reply: Result<Vec<DirEntry>, MetaError>) -> (r: Result<
        Vec<ProtoDirEntry>,
        Status,
    >)
        ensures
            match reply {
                Ok(list) => r matches Ok(sent) && sent@ == sent_entries(list@),
                Err(e) => r matches Err(s) && s.says(StatusCode::Internal, "Readdir failed: "@, e),
            },
    {
        match reply {
            Ok(list) => {
                let mut sent: Vec<ProtoDirEntry> = Vec::new();
                let mut i: usize = 0;
                while i < list.len()
                    invariant
                        i <= list.len(),
                        sent@ == sent_entries(list@.take(i as int)),
                    decreases list.len() - i,
                {
                    sent.push(convert_entry_to_proto(&list[i]));
                    i = i + 1;
                    assert(sent@ =~= sent_entries(list@.take(i as int)));
                }
                assert(list@.take(i as int) =~= list@);
                Ok(sent)
            },
            Err(e) => Err(refuse(StatusCode::Internal, "Readdir failed: ", &e)),
        }
    }

    /// Answers a request for a listing with attributes.
    pub fn readdir_plus(reply: Result<Vec<(DirEntry, FileAttr)>, MetaError>) -> (r: Result<
        Vec<DirEntryPlus>,
        Status,
    >)
        ensures
            match reply {
                Ok(list) => r matches Ok(sent) && sent@ == sent_plus(list@),
                Err(e) => r matches Err(s) && s.says(
                    StatusCode::Internal,
                    "ReaddirPlus failed: "@,
                    e,
                ),
            },
    {
        match reply {
            Ok(list) => {
                let mut sent: Vec<DirEntryPlus> = Vec::new();
                let mut i: usize = 0;
                while i < list.len()
                    invariant
                        i <= list.len(),
                        sent@ == sent_plus(list@.take(i as int)),
                    decreases list.len() - i,
                {
                    sent.push(
                        DirEntryPlus {
                            entry: Some(convert_entry_to_proto(&list[i].0)),
                            attr: Some(convert_attr_to_proto(&list[i].1)),
                        },
                    );
                    i = i + 1;
                    assert(sent@ =~= sent_plus(list@.take(i as int)));
                }
                assert(list@.take(i as int) =~= list@);
                Ok(sent)
            },
            Err(e) => Err(refuse(StatusCode::Internal, "ReaddirPlus failed: ", &e)),
        }
    }

    /// What a request to create asks of the store.
    pub fn create_params(req: CreateRequest) -> (r: CreateParams)
        ensures
            r == (CreateParams {
                parent: Inode(req.parent),
                name: req.name,
                kind: number_kind(req.kind),
                mode: req.mode,
                uid: req.uid,
                gid: req.gid,
            }),
    {
        CreateParams {
            parent: Inode(req.parent),
            name: req.name,
            kind: convert_file_type_from_proto(req.kind),
            mode: req.mode,
            uid: req.uid,
            gid: req.gid,
        }
    }

    /// Answers a request to create.
    pub fn create(reply: Result<(Inode, FileAttr), MetaError>) -> (r: Result<
        (i64, ProtoFileAttr),
        Status,
    >)
        ensures
            match reply {
                Ok(made) => r == Ok::<(i64, ProtoFileAttr), Status>(
                    (made.0.0, sent_attr(made.1)),
                ),
                Err(e) => r matches Err(s) && s.says(StatusCode::Internal, "Create failed: "@, e),
            },
    {
        match reply {
            Ok(made) => Ok((made.0.0, convert_attr_to_proto(&made.1))),
            Err(e) => Err(refuse(StatusCode::Internal, "Create failed: ", &e)),
        }
    }

    /// What a request to set attributes asks of the store.
    pub fn set_attr_mask(req: &SetAttrRequest) -> (r: SetAttrMask)
        ensures
            r == (SetAttrMask {
                size: req.size,
                mode: req.mode,
                uid: req.uid,
                gid: req.gid,
                atime: req.atime,
                mtime: req.mtime,
            }),
    {
        SetAttrMask {
            size: req.size,
            mode: req.mode,
            uid: req.uid,
            gid: req.gid,
            atime: req.atime,
            mtime: req.mtime,
        }
    }

    /// Answers a request to set attributes.
    pub fn set_attr(reply: Result<FileAttr, MetaError>) -> (r: Result<ProtoFileAttr, Status>)
        ensures
            match reply {
                Ok(attr) => r == Ok::<ProtoFileAttr, Status>(sent_attr(attr)),
                Err(e) => r matches Err(s) && s.says(StatusCode::Internal, "SetAttr failed: "@, e),
            },
    {
        match reply {
            Ok(attr) => Ok(convert_attr_to_proto(&attr)),
            Err(e) => Err(refuse(StatusCode::Internal, "SetAttr failed: ", &e)),
        }
    }

    /// Answers a request to move a name.
    pub fn rename(reply: Result<(), MetaError>) -> (r: Result<bool, Status>)
        ensures
            match reply {
                Ok(_) => r == Ok::<bool, Status>(true),
                Err(e) => r matches Err(s) && s.says(StatusCode::Internal, "Rename failed: "@, e),
            },
    {
        MetaServer::finish("Rename failed: ", reply)
    }

    /// Answers a request to remove a file.
    pub fn unlink(reply: Result<(), MetaError>) -> (r: Result<bool, Status>)
        ensures
            match reply {
                Ok(_) => r == Ok::<bool, Status>(true),
                Err(e) => r matches Err(s) && s.says(StatusCode::Internal, "Unlink failed: "@, e),
            },
    {
        MetaServer::finish("Unlink failed: ", reply)
    }

    /// Answers a request to remove a directory.
    pub fn rmdir(reply: Result<(), MetaError>) -> (r: Result<bool, Status>)
        ensures
            match reply {
                Ok(_) => r == Ok::<bool, Status>(true),
                Err(e) => r matches Err(s) && s.says(StatusCode::Internal, "Rmdir failed: "@, e),
            },
    {
        MetaServer::finish("Rmdir failed: ", reply)
    }
}

/// Why an operation on a remote store failed.
#[derive(Debug, Clone)]
pub enum RemoteError {
    /// The store said so.
    Meta(MetaError),
    /// The call failed.
    RpcError(String),
    /// The server could not be reached.
    ConnectionError(String),
    /// The configuration is not that of a remote store.
    InvalidConfig(String),
}

/// The client: what becomes of the replies of the server. A call that failed is known by the text
/// of its failure.
#[derive(Debug, Clone)]
pub struct RemoteMetaStore {
    pub endpoint: String,
}

/// A connection that is to be made.
#[derive(Debug, Clone)]
pub struct Connect {
    pub endpoint: String,
    /// How many seconds a call may take, if that is limited.
    pub timeout: Option<u64>,
}

/// Why a text is not a URI, in the words of the error; nothing where it is one.
pub uninterp spec fn uri_fault(text: Seq<char>) -> Option<Seq<char>>;

/// The parsing of a `http::Uri` from a text: the text of the `http::uri::InvalidUri`, or nothing
/// where the text is a URI. Both depend on the text alone.
#[verifier::external_body]
fn uri_error(text: &str) -> (r: Option<String>)
    ensures
        match r {
            Some(why) => uri_fault(text@) == Some(why@),
            None => uri_fault(text@) is None,
        },
{
    match text.parse::<http::Uri>() {
        Ok(_) => None,
        Err(e) => Some(e.to_string()),
    }
}

/// What becomes of an endpoint, given why it is not a URI, if it is none.
pub open spec fn begun(
    endpoint: Seq<char>,
    timeout: Option<u64>,
    fault: Option<Seq<char>>,
    r: Result<Connect, RemoteError>,
) -> bool {
    match fault {
        Some(why) => r matches Err(RemoteError::InvalidConfig(text)) && text@
            == "Invalid endpoint: "@ + why,
        None => r matches Ok(connect) && connect.endpoint@ == endpoint && connect.timeout
            == timeout,
    }
}

/// The error of a call that failed.
fn call_failed(label: &str, why: &String) -> (r: RemoteError)
    ensures
        r matches RemoteError::RpcError(text) && text@ == label@ + why@,
{
    RemoteError::RpcError(detailed(label, why.as_str()))
}

/// The pairs of a batch as they are received; one without attributes is left out.
pub open spec fn received_pairs(list: Seq<AttrPair>) -> Seq<(Inode, FileAttr)>
    decreases list.len(),
{
    if list.len() == 0 {
        Seq::empty()
    } else {
        let before = received_pairs(list.drop_last());
        match list.last().attr {
            Some(attr) => before.push((Inode(list.last().ino), received_attr(attr))),
            None => before,
        }
    }
}

/// The entries of a listing with attributes as they are received; one without its entry or its
/// attributes is left out.
pub open spec fn received_plus(list: Seq<DirEntryPlus>) -> Seq<(DirEntry, FileAttr)>
    decreases list.len(),
{
    if list.len() == 0 {
        Seq::empty()
    } else {
        let before = received_plus(list.drop_last());
        match (list.last().entry, list.last().attr) {
            (Some(entry), Some(attr)) => before.push((received_entry(entry), received_attr(attr))),
            _ => before,
        }
    }
}

/// The entries of a listing as they are received.
pub open spec fn received_entries(list: Seq<ProtoDirEntry>) -> Seq<DirEntry> {
    Seq::new(list.len(), |i: int| received_entry(list[i]))
}

impl RemoteMetaStore {
    /// What is connected to, given why the endpoint is not a URI, if it is none.
    pub fn begin(endpoint: &str, timeout: Option<u64>, fault: Option<String>) -> (r: Result<
        Connect,
        RemoteError,
    >)
        ensures
            begun(
                endpoint@,
                timeout,
                match fault {
                    Some(why) => Some(why@),
                    None => None,
                },
                r,
            ),
    {
        match fault {
            Some(why) => Err(
                RemoteError::InvalidConfig(detailed("Invalid endpoint: ", why.as_str())),
            ),
            None => Ok(Connect { endpoint: endpoint.to_owned(), timeout }),
        }
    }

    /// What is connected to for an endpoint, with the seconds that a call may take, if they are
    /// limited.
    pub fn new(endpoint: &str, timeout: Option<u64>) -> (r: Result<Connect, RemoteError>)
        ensures
            begun(endpoint@, timeout, uri_fault(endpoint@), r),
    {
        RemoteMetaStore::begin(endpoint, timeout, uri_error(endpoint))
    }

    /// The client, given whether the connection was made, or why not.
    pub fn connected(connect: Connect, reply: Result<(), String>) -> (r: Result<
        RemoteMetaStore,
        RemoteError,
    >)
        ensures
            match reply {
                Ok(_) => r matches Ok(store) && store.endpoint@ == connect.endpoint@,
                Err(why) => r matches Err(RemoteError::ConnectionError(text)) && text@
                    == "Failed to connect: "@ + why@,
            },
    {
        match reply {
            Ok(_) => Ok(RemoteMetaStore { endpoint: connect.endpoint }),
            Err(why) => Err(
                RemoteError::ConnectionError(detailed("Failed to connect: ", why.as_str())),
            ),
        }
    }

    /// What is connected to for a configuration. No seconds are no limit.
    pub fn from_config(config: &Config) -> (r: Result<Connect, RemoteError>)
        ensures
            match config.metadata.backend {
                MetadataBackend::Grpc { endpoint, timeout_secs, .. } => begun(
                    endpoint@,
                    if timeout_secs > 0 {
                        Some(timeout_secs)
                    } else {
                        None
                    },
                    uri_fault(endpoint@),
                    r,
                ),
                _ => r matches Err(RemoteError::InvalidConfig(text)) && text@
                    == "Expected gRPC backend configuration"@,
            },
    {
        match &config.metadata.backend {
            MetadataBackend::Grpc { endpoint, timeout_secs, .. } => {
                let timeout = if *timeout_secs > 0 {
                    Some(*timeout_secs)
                } else {
                    None
                };
                RemoteMetaStore::new(endpoint.as_str(), timeout)
            },
            _ => Err(
                RemoteError::InvalidConfig(String::from_str("Expected gRPC backend configuration")),
            ),
        }
    }

    /// The root directory.
    pub fn root_ino() -> (r: Inode)
        ensures
            r == Inode(1),
    {
        Inode(1)
    }

    /// Takes the reply to a request for attributes.
    pub fn getattr(ino: Inode, reply: Result<Option<ProtoFileAttr>, String>) -> (r: Result<
        FileAttr,
        RemoteError,
    >)
        ensures
            match reply {
                Ok(Some(attr)) => r == Ok::<FileAttr, RemoteError>(received_attr(attr)),
                Ok(None) => r == Err::<FileAttr, RemoteError>(
                    RemoteError::Meta(MetaError::NotFound(ino.0)),
                ),
                Err(why) => r matches Err(RemoteError::RpcError(text)) && text@
                    == "GetAttr failed: "@ + why@,
            },
    {
        match reply {
            Ok(Some(attr)) => Ok(convert_attr_from_proto(&attr)),
            Ok(None) => Err(RemoteError::Meta(MetaError::NotFound(ino.0))),
            Err(why) => Err(call_failed("GetAttr failed: ", &why)),
        }
    }

    /// Takes the reply to a request for the attributes of several inodes.
    pub fn getattr_batch(reply: Result<Vec<AttrPair>, String>) -> (r: Result<
        Vec<(Inode, FileAttr)>,
        RemoteError,
    >)
        ensures
            match reply {
                Ok(list) => r matches Ok(got) && got@ == received_pairs(list@),
                Err(why) => r matches Err(RemoteError::RpcError(text)) && text@
                    == "GetAttrBatch failed: "@ + why@,
            },
    {
        match reply {
            Ok(list) => {
                let mut got: Vec<(Inode, FileAttr)> = Vec::new();
                let mut i: usize = 0;
                while i < list.len()
                    invariant
                        i <= list.len(),
                        got@ == received_pairs(list@.take(i as int)),
                    decreases list.len() - i,
                {
                    if let Some(attr) = &list[i].attr {
                        got.push((Inode(list[i].ino), convert_attr_from_proto(attr)));
                    }
                    i = i + 1;
                    assert(list@.take(i as int).drop_last() =~= list@.take(i - 1));
                }
                assert(list@.take(i as int) =~= list@);
                Ok(got)
            },
            Err(why) => Err(call_failed("GetAttrBatch failed: ", &why)),
        }
    }

    /// Takes the reply to a request for a name.
    pub fn lookup(reply: Result<i64, String>) -> (r: Result<Inode, RemoteError>)
        ensures
            match reply {
                Ok(ino) => r == Ok::<Inode, RemoteError>(Inode(ino)),
                Err(why) => r matches Err(RemoteError::RpcError(text)) && text@
                    == "Lookup failed: "@ + why@,
            },
    {
        match reply {
            Ok(ino) => Ok(Inode(ino)),
            Err(why) => Err(call_failed("Lookup failed: ", &why)),
        }
    }

    /// Takes the reply to a request for a listing.
    pub fn readdir(reply: Result<Vec<ProtoDirEntry>, String>) -> (r: Result<
        Vec<DirEntry>,
        RemoteError,
    >)
        ensures
            match reply {
                Ok(list) => r matches Ok(got) && got@ == received_entries(list@),
                Err(why) => r matches Err(RemoteError::RpcError(text)) && text@
                    == "Readdir failed: "@ + why@,
            },
    {
        match reply {
            Ok(list) => {
                let mut got: Vec<DirEntry> = Vec::new();
                let mut i: usize = 0;
                while i < list.len()
                    invariant
                        i <= list.len(),
                        got@ == received_entries(list@.take(i as int)),
                    decreases list.len() - i,
                {
                    got.push(convert_entry_from_proto(&list[i]));
                    i = i + 1;
                    assert(got@ =~= received_entries(list@.take(i as int)));
                }
                assert(list@.take(i as int) =~= list@);
                Ok(got)
            },
            Err(why) => Err(call_failed("Readdir failed: ", &why)),
        }
    }

    /// Takes the reply to a request for a listing with attributes.
    pub fn readdirplus(reply: Result<Vec<DirEntryPlus>, String>) -> (r: Result<
        Vec<(DirEntry, FileAttr)>,
        RemoteError,
    >)
        ensures
            match reply {
                Ok(list) => r matches Ok(got) && got@ == received_plus(list@),
                Err(why) => r matches Err(RemoteError::RpcError(text)) && text@
                    == "ReaddirPlus failed: "@ + why@,
            },
    {
        match reply {
            Ok(list) => {
                let mut got: Vec<(DirEntry, FileAttr)> = Vec::new();
                let mut i: usize = 0;
                while i < list.len()
                    invariant
                        i <= list.len(),
                        got@ == received_plus(list@.take(i as int)),
                    decreases list.len() - i,
                {
                    if let Some(entry) = &list[i].entry {
                        if let Some(attr) = &list[i].attr {
                            got.push(
                                (convert_entry_from_proto(entry), convert_attr_from_proto(attr)),
                            );
                        }
                    }
                    i = i + 1;
                    assert(list@.take(i as int).drop_last() =~= list@.take(i - 1));
                }
                assert(list@.take(i as int) =~= list@);
                Ok(got)
            },
            Err(why) => Err(call_failed("ReaddirPlus failed: ", &why)),
        }
    }

    /// The request to create.
    pub fn create_request(params: CreateParams) -> (r: CreateRequest)
        ensures
            r == (CreateRequest {
                parent: params.parent.0,
                name: params.name,
                mode: params.mode,
                uid: params.uid,
                gid: params.gid,
                rdev: 0,
                kind: kind_number(params.kind),
            }),
    {
        CreateRequest {
            parent: params.parent.0,
            name: params.name,
            mode: params.mode,
            uid: params.uid,
            gid: params.gid,
            rdev: 0,
            kind: convert_file_type_to_proto(params.kind),
        }
    }

    /// Takes the reply to a request to create.
    pub fn create(reply: Result<(i64, Option<ProtoFileAttr>), String>) -> (r: Result<
        (Inode, FileAttr),
        RemoteError,
    >)
        ensures
            match reply {
                Ok((ino, Some(attr))) => r == Ok::<(Inode, FileAttr), RemoteError>(
                    (Inode(ino), received_attr(attr)),
                ),
                Ok((_, None)) => r matches Err(RemoteError::Meta(e)) && e@ == ErrorView::Internal(
                    "Create returned no attributes"@,
                ),
                Err(why) => r matches Err(RemoteError::RpcError(text)) && text@
                    == "Create failed: "@ + why@,
            },
    {
        match reply {
            Ok((ino, Some(attr))) => Ok((Inode(ino), convert_attr_from_proto(&attr))),
            Ok((_, None)) => Err(
                RemoteError::Meta(
                    MetaError::Internal(String::from_str("Create returned no attributes")),
                ),
            ),
            Err(why) => Err(call_failed("Create failed: ", &why)),
        }
    }

    /// The request to set attributes.
    pub fn set_attr_request(ino: Inode, mask: &SetAttrMask) -> (r: SetAttrRequest)
        ensures
            r == (SetAttrRequest {
                ino: ino.0,
                mode: mask.mode,
                uid: mask.uid,
                gid: mask.gid,
                size: mask.size,
                atime: mask.atime,
                mtime: mask.mtime,
            }),
    {
        SetAttrRequest {
            ino: ino.0,
            mode: mask.mode,
            uid: mask.uid,
            gid: mask.gid,
            size: mask.size,
            atime: mask.atime,
            mtime: mask.mtime,
        }
    }

    /// Takes the reply to a request to set attributes.
    pub fn setattr(reply: Result<Option<ProtoFileAttr>, String>) -> (r: Result<
        FileAttr,
        RemoteError,
    >)
        ensures
            match reply {
                Ok(Some(attr)) => r == Ok::<FileAttr, RemoteError>(received_attr(attr)),
                Ok(None) => r matches Err(RemoteError::Meta(e)) && e@ == ErrorView::Internal(
                    "SetAttr returned no attributes"@,
                ),
                Err(why) => r matches Err(RemoteError::RpcError(text)) && text@
                    == "SetAttr failed: "@ + why@,
            },
    {
        match reply {
            Ok(Some(attr)) => Ok(convert_attr_from_proto(&attr)),
            Ok(None) => Err(
                RemoteError::Meta(
                    MetaError::Internal(String::from_str("SetAttr returned no attributes")),
                ),
            ),
            Err(why) => Err(call_failed("SetAttr failed: ", &why)),
        }
    }

    /// Takes the reply to a request without a result.
    fn finish(label: &str, reply: Result<bool, String>) -> (r: Result<(), RemoteError>)
        ensures
            match reply {
                Ok(_) => r == Ok::<(), RemoteError>(()),
                Err(why) => r matches Err(RemoteError::RpcError(text)) && text@ == label@ + why@,
            },
    {
        match reply {
            Ok(_) => Ok(()),
            Err(why) => Err(call_failed(label, &why)),
        }
    }

    /// Takes the reply to a request to initialize.
    pub fn initialize(reply: Result<bool, String>) -> (r: Result<(), RemoteError>)
        ensures
            match reply {
                Ok(_) => r == Ok::<(), RemoteError>(()),
                Err(why) => r matches Err(RemoteError::RpcError(text)) && text@
                    == "Initialize failed: "@ + why@,
            },
    {
        RemoteMetaStore::finish("Initialize failed: ", reply)
    }

    /// Takes the reply to a request to move a name.
    pub fn rename(reply: Result<bool, String>) -> (r: Result<(), RemoteError>)
        ensures
            match reply {
                Ok(_) => r == Ok::<(), RemoteError>(()),
                Err(why) => r matches Err(RemoteError::RpcError(text)) && text@
                    == "Rename failed: "@ + why@,
            },
    {
        RemoteMetaStore::finish("Rename failed: ", reply)
    }

    /// Takes the reply to a request to remove a file.
    pub fn unlink(reply: Result<bool, String>) -> (r: Result<(), RemoteError>)
        ensures
            match reply {
                Ok(_) => r == Ok::<(), RemoteError>(()),
                Err(why) => r matches Err(RemoteError::RpcError(text)) && text@
                    == "Unlink failed: "@ + why@,
            },
    {
        RemoteMetaStore::finish("Unlink failed: ", reply)
    }

    /// Takes the reply to a request to remove a directory.
    pub fn rmdir(reply: Result<bool, String>) -> (r: Result<(), RemoteError>)
        ensures
            match reply {
                Ok(_) => r == Ok::<(), RemoteError>(()),
                Err(why) => r matches Err(RemoteError::RpcError(text)) && text@
                    == "Rmdir failed: "@ + why@,
            },
    {
        RemoteMetaStore::finish("Rmdir failed: ", reply)
    }
}

/// What is sent is received as it was: attributes, entries, listings and requests.
pub proof fn law_messages_carry_over(
    attr: FileAttr,
    entry: DirEntry,
    pairs: Seq<(Inode, FileAttr)>,
    entries: Seq<DirEntry>,
    plus: Seq<(DirEntry, FileAttr)>,
)
    ensures
        received_attr(sent_attr(attr)) == attr,
        received_entry(sent_entry(entry)) == entry,
        received_pairs(sent_pairs(pairs)) == pairs,
        received_entries(sent_entries(entries)) == entries,
        received_plus(sent_plus(plus)) == plus,
{
    lemma_pairs_carry_over(pairs);
    assert(received_entries(sent_entries(entries)) =~= entries);
    lemma_plus_carries_over(plus);
}

/// The pairs of a batch are received as they were.
proof fn lemma_pairs_carry_over(pairs: Seq<(Inode, FileAttr)>)
    ensures
        received_pairs(sent_pairs(pairs)) == pairs,
    decreases pairs.len(),
{
    if pairs.len() > 0 {
        lemma_pairs_carry_over(pairs.drop_last());
        assert(sent_pairs(pairs).drop_last() =~= sent_pairs(pairs.drop_last()));
        assert(received_attr(sent_attr(pairs.last().1)) == pairs.last().1);
    }
    assert(received_pairs(sent_pairs(pairs)) =~= pairs);
}

/// A listing with attributes is received as it was.
proof fn lemma_plus_carries_over(plus: Seq<(DirEntry, FileAttr)>)
    ensures
        received_plus(sent_plus(plus)) == plus,
    decreases plus.len(),
{
    if plus.len() > 0 {
        lemma_plus_carries_over(plus.drop_last());
        assert(sent_plus(plus).drop_last() =~= sent_plus(plus.drop_last()));
        assert(received_entry(sent_entry(plus.last().0)) == plus.last().0);
        assert(received_attr(sent_attr(plus.last().1)) == plus.last().1);
    }
    assert(received_plus(sent_plus(plus)) =~= plus);
}

/// A connection is begun to an endpoint exactly where it is a URI, with the endpoint and the time
/// limit that are given; otherwise it is said why it is none.
pub proof fn law_only_uris_are_connected_to(
    endpoint: Seq<char>,
    timeout: Option<u64>,
    fault: Option<Seq<char>>,
    r: Result<Connect, RemoteError>,
)
    requires
        begun(endpoint, timeout, fault, r),
    ensures
        r is Ok <==> fault is None,
        r matches Ok(connect) ==> connect.endpoint@ == endpoint && connect.timeout == timeout,
        r matches Err(e) ==> (e matches RemoteError::InvalidConfig(text) && text@
            == "Invalid endpoint: "@ + fault->0),
{
}

} // verus!
