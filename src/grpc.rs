use vstd::prelude::*;
use crate::data::{IpAddress, ServerInfo};
use crate::path::{
    file_name, file_name_of, get_valid_joined_path, is_within_root, join_child, joined,
    relative_to, strip_root, valid_name, validate_name, with_file_name, with_file_name_of,
    within_root, PathError,
};
use crate::upload::{plan_matches, plan_upload, ServiceError, UploadFileChunkRequest, UploadPlan};

verus! {

/// The status of a failed call of the management service.
#[derive(Debug, Clone, Copy, PartialEq, Eq, Structural)]
pub enum RpcError {
    /// The capability is switched off.
    PermissionDenied,
    /// Any other failure.
    Internal(ServiceError),
}

/// What the service lets a client do.
#[derive(Debug, Clone, Copy, PartialEq, Eq, Structural)]
pub struct Permission {
    pub create: bool,
    pub copy: bool,
    pub move_: bool,
    pub delete: bool,
    pub rename: bool,
    pub upload: bool,
    pub download: bool,
}

/// `allow_manage` drives the five management flags; upload and download have
/// switches of their own.
pub open spec fn permission_of(allow_manage: bool, allow_upload: bool, allow_download: bool) -> Permission {
    Permission {
        create: allow_manage,
        copy: allow_manage,
        move_: allow_manage,
        delete: allow_manage,
        rename: allow_manage,
        upload: allow_upload,
        download: allow_download,
    }
}

impl Permission {
    pub fn from_switches(allow_manage: bool, allow_upload: bool, allow_download: bool) -> (r: Permission)
        ensures
            r == permission_of(allow_manage, allow_upload, allow_download),
    {
        Permission {
            create: allow_manage,
            copy: allow_manage,
            move_: allow_manage,
            delete: allow_manage,
            rename: allow_manage,
            upload: allow_upload,
            download: allow_download,
        }
    }
}

/// An address the server is reachable at.
#[derive(Debug, Clone, Copy, PartialEq, Eq, Structural)]
pub struct Address {
    pub ip: IpAddress,
    pub port: u32,
}

/// The answer to a configuration request.
#[derive(Debug)]
pub struct GetConfigResponse {
    pub root: String,
    pub root_canonical: String,
    pub prefix: String,
    pub permission: Permission,
    pub address: Vec<Address>,
}

/// A subdirectory in a listing.
#[derive(Debug)]
pub struct Directory {
    pub path: String,
    pub modified_timestamp_in_ms: i64,
}

/// A regular file in a listing.
#[derive(Debug)]
pub struct File {
    pub path: String,
    pub modified_timestamp_in_ms: i64,
    pub size: u64,
}

/// What the metadata of a directory entry says it is.
#[derive(Debug, Clone, Copy, PartialEq, Eq, Structural)]
pub enum EntryKind {
    Directory,
    File,
    /// A symbolic link, a device or anything else.
    Other,
}

/// A directory entry as read from disk: its absolute path, its kind (links
/// not followed), its modification time as seconds and nanoseconds since the
/// epoch (`None`: before it) and its length.
#[derive(Debug)]
pub struct RawEntry {
    pub path: String,
    pub kind: EntryKind,
    pub modified: Option<(u64, u32)>,
    pub len: u64,
}

/// The answer to a listing request.
#[derive(Debug)]
pub struct ListDirResponse {
    pub dir_path: String,
    pub directories: Vec<Directory>,
    pub files: Vec<File>,
}

/// A management operation.
#[derive(Debug, Clone, Copy, PartialEq, Eq, Structural)]
pub enum Operation {
    CreateDir,
    CopyFile,
    DeleteFile,
    MoveFile,
    RenameFile,
}

/// A management request.
#[derive(Debug)]
pub struct ManageDirOrFileRequest {
    pub operation: Operation,
    pub file_path_name: String,
    pub dir_path: String,
    pub target: String,
}

/// The canonical forms of the two paths of a management request, each joined
/// onto the root (`None`: it could not be resolved), and what the first is.
#[derive(Debug)]
pub struct ResolvedPaths {
    pub source: Option<String>,
    pub source_kind: EntryKind,
    pub dest_dir: Option<String>,
}

/// What a management request does on disk.
#[derive(Debug)]
pub enum ManageAction {
    CreateDir(String),
    CopyFile { from: String, to: String },
    /// Copy the directory `from`, with all it holds, into `to_dir`.
    CopyDir { from: String, to_dir: String },
    RemoveFile(String),
    RemoveDirAll(String),
    Rename { from: String, to: String },
    /// The source is neither a file nor a directory.
    Nothing,
}

/// A management action over mathematical values.
pub enum ActionView {
    CreateDir(Seq<char>),
    CopyFile(Seq<char>, Seq<char>),
    CopyDir(Seq<char>, Seq<char>),
    RemoveFile(Seq<char>),
    RemoveDirAll(Seq<char>),
    Rename(Seq<char>, Seq<char>),
    Nothing,
}

impl View for ManageAction {
    type V = ActionView;

    open spec fn view(&self) -> ActionView {
        match self {
            ManageAction::CreateDir(p) => ActionView::CreateDir(p@),
            ManageAction::CopyFile { from, to } => ActionView::CopyFile(from@, to@),
            ManageAction::CopyDir { from, to_dir } => ActionView::CopyDir(from@, to_dir@),
            ManageAction::RemoveFile(p) => ActionView::RemoveFile(p@),
            ManageAction::RemoveDirAll(p) => ActionView::RemoveDirAll(p@),
            ManageAction::Rename { from, to } => ActionView::Rename(from@, to@),
            ManageAction::Nothing => ActionView::Nothing,
        }
    }
}

/// A resolved path of the sandbox, or why there is none.
pub open spec fn sandboxed(root: Seq<char>, c: Option<Seq<char>>) -> Result<Seq<char>, ServiceError> {
    match c {
        None => Err(ServiceError::Unresolved),
        Some(p) => if within_root(root, p) {
            Ok(p)
        } else {
            Err(ServiceError::Path(PathError::PathEscape))
        },
    }
}

/// The view of an optional string.
pub open spec fn opt_view(o: Option<String>) -> Option<Seq<char>> {
    match o {
        None => None,
        Some(s) => Some(s@),
    }
}

/// What a management request does, given the resolved paths.
pub open spec fn manage_action_of(
    root: Seq<char>,
    op: Operation,
    target: Seq<char>,
    paths: ResolvedPaths,
) -> Result<ActionView, ServiceError> {
    let source = sandboxed(root, opt_view(paths.source));
    let dest = sandboxed(root, opt_view(paths.dest_dir));
    match op {
        Operation::CreateDir => match dest {
            Err(e) => Err(e),
            Ok(d) => if !valid_name(target) {
                Err(ServiceError::Path(PathError::InvalidName))
            } else {
                Ok(ActionView::CreateDir(joined(d, target)))
            },
        },
        Operation::CopyFile => match source {
            Err(e) => Err(e),
            Ok(from) => if paths.source_kind == EntryKind::File {
                if file_name_of(from).len() == 0 {
                    Err(ServiceError::Path(PathError::NoFileName))
                } else {
                    match dest {
                        Err(e) => Err(e),
                        Ok(d) => Ok(ActionView::CopyFile(from, joined(d, file_name_of(from)))),
                    }
                }
            } else if paths.source_kind == EntryKind::Directory {
                match dest {
                    Err(e) => Err(e),
                    Ok(d) => Ok(ActionView::CopyDir(from, d)),
                }
            } else {
                Ok(ActionView::Nothing)
            },
        },
        Operation::DeleteFile => match source {
            Err(e) => Err(e),
            Ok(from) => if paths.source_kind == EntryKind::File {
                Ok(ActionView::RemoveFile(from))
            } else if paths.source_kind == EntryKind::Directory {
                Ok(ActionView::RemoveDirAll(from))
            } else {
                Ok(ActionView::Nothing)
            },
        },
        Operation::MoveFile => match source {
            Err(e) => Err(e),
            Ok(from) => if file_name_of(from).len() == 0 {
                Err(ServiceError::Path(PathError::NoFileName))
            } else {
                match dest {
                    Err(e) => Err(e),
                    Ok(d) => Ok(ActionView::Rename(from, joined(d, file_name_of(from)))),
                }
            },
        },
        Operation::RenameFile => match source {
            Err(e) => Err(e),
            Ok(from) => if !valid_name(target) {
                Err(ServiceError::Path(PathError::InvalidName))
            } else if !within_root(root, with_file_name_of(from, target)) {
                Err(ServiceError::Path(PathError::PathEscape))
            } else {
                Ok(ActionView::Rename(from, with_file_name_of(from, target)))
            },
        },
    }
}

/// Milliseconds since the epoch, capped at `i64::MAX`.
pub open spec fn timestamp_ms(secs: u64, nanos: u32) -> i64 {
    let ms = secs * 1000 + nanos / 1_000_000;
    if ms > i64::MAX {
        i64::MAX
    } else {
        ms as i64
    }
}

/// Milliseconds since the epoch of a modification time; a time before the
/// epoch is an error.
pub fn get_timestamp_in_ms(since_epoch: Option<(u64, u32)>) -> (r: Result<i64, ServiceError>)
    ensures
        match since_epoch {
            None => r == Err::<i64, ServiceError>(ServiceError::BeforeEpoch),
            Some((s, n)) => r == Ok::<i64, ServiceError>(timestamp_ms(s, n)),
        },
{
    match since_epoch {
        None => Err(ServiceError::BeforeEpoch),
        Some((secs, nanos)) => {
            let ms: u128 = secs as u128 * 1000 + (nanos / 1_000_000) as u128;
            if ms > i64::MAX as u128 {
                Ok(i64::MAX)
            } else {
                Ok(ms as i64)
            }
        },
    }
}

/// An entry that can be listed: it lies within the root and was modified
/// after the epoch.
pub open spec fn entry_listable(root: Seq<char>, e: RawEntry) -> bool {
    within_root(root, e.path@) && e.modified is Some
}

/// The subdirectories among `es`, in order: path relative to the root and
/// modification time.
pub open spec fn listed_dirs(root: Seq<char>, es: Seq<RawEntry>) -> Seq<(Seq<char>, i64)>
    decreases es.len(),
{
    if es.len() == 0 {
        Seq::empty()
    } else {
        let e = es.last();
        let rest = listed_dirs(root, es.drop_last());
        if e.kind == EntryKind::Directory {
            rest.push((relative_to(root, e.path@), timestamp_ms(e.modified.unwrap().0, e.modified.unwrap().1)))
        } else {
            rest
        }
    }
}

/// The regular files among `es`, in order: path relative to the root,
/// modification time and size.
pub open spec fn listed_files(root: Seq<char>, es: Seq<RawEntry>) -> Seq<(Seq<char>, i64, u64)>
    decreases es.len(),
{
    if es.len() == 0 {
        Seq::empty()
    } else {
        let e = es.last();
        let rest = listed_files(root, es.drop_last());
        if e.kind == EntryKind::File {
            rest.push(
                (relative_to(root, e.path@), timestamp_ms(e.modified.unwrap().0, e.modified.unwrap().1), e.len),
            )
        } else {
            rest
        }
    }
}

/// The views of listed subdirectories.
pub open spec fn dirs_view(ds: Seq<Directory>) -> Seq<(Seq<char>, i64)> {
    ds.map_values(|d: Directory| (d.path@, d.modified_timestamp_in_ms))
}

/// The views of listed files.
pub open spec fn files_view(fs: Seq<File>) -> Seq<(Seq<char>, i64, u64)> {
    fs.map_values(|f: File| (f.path@, f.modified_timestamp_in_ms, f.size))
}

/// A listed subdirectory's view of an entry.
pub open spec fn dir_entry_view(root: Seq<char>, e: RawEntry) -> (Seq<char>, i64) {
    (relative_to(root, e.path@), timestamp_ms(e.modified.unwrap().0, e.modified.unwrap().1))
}

/// A listed file's view of an entry.
pub open spec fn file_entry_view(root: Seq<char>, e: RawEntry) -> (Seq<char>, i64, u64) {
    (relative_to(root, e.path@), timestamp_ms(e.modified.unwrap().0, e.modified.unwrap().1), e.len)
}

/// A listing holds exactly the subdirectory entries and exactly the regular
/// file entries, each in the order read; entries of any other kind (symbolic
/// links, devices) are left out wherever they stand.
pub proof fn lemma_listing_keeps_dirs_and_files(root: Seq<char>, es: Seq<RawEntry>)
    ensures
        listed_dirs(root, es) == es.filter(|e: RawEntry| e.kind == EntryKind::Directory).map_values(
            |e: RawEntry| dir_entry_view(root, e),
        ),
        listed_files(root, es) == es.filter(|e: RawEntry| e.kind == EntryKind::File).map_values(
            |e: RawEntry| file_entry_view(root, e),
        ),
    decreases es.len(),
{
    let pd = |e: RawEntry| e.kind == EntryKind::Directory;
    let pf = |e: RawEntry| e.kind == EntryKind::File;
    let fd = |e: RawEntry| dir_entry_view(root, e);
    let ff = |e: RawEntry| file_entry_view(root, e);
    if es.len() == 0 {
        assert(es.filter(pd) =~= Seq::<RawEntry>::empty());
        assert(es.filter(pf) =~= Seq::<RawEntry>::empty());
        assert(es.filter(pd).map_values(fd) =~= Seq::<(Seq<char>, i64)>::empty());
        assert(es.filter(pf).map_values(ff) =~= Seq::<(Seq<char>, i64, u64)>::empty());
    } else {
        lemma_listing_keeps_dirs_and_files(root, es.drop_last());
        let e = es.last();
        assert(es.filter(pd) == if pd(e) { es.drop_last().filter(pd).push(e) } else { es.drop_last().filter(pd) }) by {
            reveal_with_fuel(Seq::<RawEntry>::filter, 2);
        }
        assert(es.filter(pf) == if pf(e) { es.drop_last().filter(pf).push(e) } else { es.drop_last().filter(pf) }) by {
            reveal_with_fuel(Seq::<RawEntry>::filter, 2);
        }
        if pd(e) {
            assert(es.drop_last().filter(pd).push(e).map_values(fd) =~= es.drop_last().filter(pd).map_values(fd).push(fd(e)));
        }
        if pf(e) {
            assert(es.drop_last().filter(pf).push(e).map_values(ff) =~= es.drop_last().filter(pf).map_values(ff).push(ff(e)));
        }
    }
}

/// The management service.
pub struct ServaManagerServiceImpl {
    root_path: String,
    root_relative: String,
    root_absolute: String,
    prefix: String,
    available_ip: Vec<IpAddress>,
    port: u16,
    permission: Permission,
    allow_upload: bool,
    allow_manage: bool,
}

/// Builds the management service from the server's settings.
pub fn get_serva_manager(info: &ServerInfo) -> (r: ServaManagerServiceImpl)
    ensures
        r.wf(),
        r.spec_root()@ == info.root@,
        r.spec_relative_root()@ == info.arg_path@,
        r.spec_absolute_root()@ == info.root_canonical@,
        r.spec_prefix()@ == info.prefix@,
        r.spec_available_ip() == info.available_ip@,
        r.spec_port() == info.arg_port,
        r.spec_allow_manage() == info.arg_allow_manage,
        r.spec_allow_upload() == info.arg_allow_upload,
        r.spec_allow_download() == info.arg_allow_download,
{
    ServaManagerServiceImpl::from_info(info)
}

impl ServaManagerServiceImpl {
    /// The permission flags agree with the switches.
    pub closed spec fn wf(&self) -> bool {
        self.permission == permission_of(self.allow_manage, self.allow_upload, self.permission.download)
    }

    pub closed spec fn spec_root(&self) -> String {
        self.root_path
    }

    pub closed spec fn spec_allow_manage(&self) -> bool {
        self.allow_manage
    }

    pub closed spec fn spec_allow_upload(&self) -> bool {
        self.allow_upload
    }

    pub closed spec fn spec_allow_download(&self) -> bool {
        self.permission.download
    }

    pub closed spec fn spec_relative_root(&self) -> String {
        self.root_relative
    }

    pub closed spec fn spec_absolute_root(&self) -> String {
        self.root_absolute
    }

    pub closed spec fn spec_prefix(&self) -> String {
        self.prefix
    }

    pub closed spec fn spec_available_ip(&self) -> Seq<IpAddress> {
        self.available_ip@
    }

    pub closed spec fn spec_port(&self) -> u16 {
        self.port
    }

    /// The service for a server's settings.
    pub fn from_info(info: &ServerInfo) -> (r: ServaManagerServiceImpl)
        ensures
            r.wf(),
            r.spec_root()@ == info.root@,
            r.spec_relative_root()@ == info.arg_path@,
            r.spec_absolute_root()@ == info.root_canonical@,
            r.spec_prefix()@ == info.prefix@,
            r.spec_available_ip() == info.available_ip@,
            r.spec_port() == info.arg_port,
            r.spec_allow_manage() == info.arg_allow_manage,
            r.spec_allow_upload() == info.arg_allow_upload,
            r.spec_allow_download() == info.arg_allow_download,
    {
        ServaManagerServiceImpl {
            root_path: info.root.clone(),
            root_relative: info.arg_path.clone(),
            root_absolute: info.root_canonical.clone(),
            prefix: info.prefix.clone(),
            available_ip: copy_addresses(&info.available_ip),
            port: info.arg_port,
            permission: Permission::from_switches(
                info.arg_allow_manage,
                info.arg_allow_upload,
                info.arg_allow_download,
            ),
            allow_upload: info.arg_allow_upload,
            allow_manage: info.arg_allow_manage,
        }
    }

    /// The root of the sandbox.
    pub fn root(&self) -> (r: &String)
        ensures
            r == self.spec_root(),
    {
        &self.root_path
    }

    /// The path of an entry relative to the root.
    pub fn get_stripped_path_string(&self, path: &str) -> (r: Result<String, ServiceError>)
        ensures
            r is Ok <==> within_root(self.spec_root()@, path@),
            r matches Ok(s) ==> s@ == relative_to(self.spec_root()@, path@),
            r is Err ==> r == Err::<String, ServiceError>(ServiceError::Path(PathError::PathEscape)),
    {
        match strip_root(self.root_path.as_str(), path) {
            Ok(s) => Ok(s),
            Err(e) => Err(ServiceError::Path(e)),
        }
    }

    /// The canonical form of a directory to list, kept where it lies within the root.
    pub fn resolve_dir(&self, canonical: Option<&str>) -> (r: Result<String, ServiceError>)
        ensures
            match sandboxed(self.spec_root()@, match canonical { None => None, Some(c) => Some(c@) }) {
                Ok(p) => r matches Ok(s) && s@ == p,
                Err(e) => r == Err::<String, ServiceError>(e),
            },
    {
        match canonical {
            None => Err(ServiceError::Unresolved),
            Some(c) => match get_valid_joined_path(self.root_path.as_str(), c) {
                Ok(p) => Ok(p),
                Err(e) => Err(ServiceError::Path(e)),
            },
        }
    }

    /// Sorts the entries of a directory into subdirectories and regular
    /// files, relative to the root; anything else (a symbolic link, a device)
    /// is left out.
    pub fn get_dir_entries(&self, entries: &Vec<RawEntry>) -> (r: Result<
        (Vec<Directory>, Vec<File>),
        ServiceError,
    >)
        ensures
            r is Ok <==> forall|i: int|
                0 <= i < entries@.len() ==> entry_listable(self.spec_root()@, #[trigger] entries@[i]),
            r matches Ok((ds, fs)) ==> dirs_view(ds@) == listed_dirs(self.spec_root()@, entries@)
                && files_view(fs@) == listed_files(self.spec_root()@, entries@),
    {
        let ghost root = self.spec_root()@;
        let mut directories: Vec<Directory> = Vec::new();
        let mut files: Vec<File> = Vec::new();
        let mut i: usize = 0;
        while i < entries.len()
            invariant
                i <= entries@.len(),
                root == self.spec_root()@,
                forall|j: int| 0 <= j < i ==> entry_listable(root, #[trigger] entries@[j]),
                dirs_view(directories@) == listed_dirs(root, entries@.subrange(0, i as int)),
                files_view(files@) == listed_files(root, entries@.subrange(0, i as int)),
            decreases entries@.len() - i,
        {
            let entry = &entries[i];
            let ghost prefix = entries@.subrange(0, i as int + 1);
            assert(prefix.drop_last() =~= entries@.subrange(0, i as int));
            assert(prefix.last() == entries@[i as int]);
            let stripped = match self.get_stripped_path_string(entry.path.as_str()) {
                Ok(s) => s,
                Err(e) => return Err(e),
            };
            let ms = match get_timestamp_in_ms(entry.modified) {
                Ok(ms) => ms,
                Err(e) => return Err(e),
            };
            match entry.kind {
                EntryKind::Directory => {
                    directories.push(Directory { path: stripped, modified_timestamp_in_ms: ms });
                    assert(dirs_view(directories@) =~= listed_dirs(root, prefix));
                    assert(files_view(files@) =~= listed_files(root, prefix));
                },
                EntryKind::File => {
                    files.push(File { path: stripped, modified_timestamp_in_ms: ms, size: entry.len });
                    assert(dirs_view(directories@) =~= listed_dirs(root, prefix));
                    assert(files_view(files@) =~= listed_files(root, prefix));
                },
                EntryKind::Other => {
                    assert(dirs_view(directories@) =~= listed_dirs(root, prefix));
                    assert(files_view(files@) =~= listed_files(root, prefix));
                },
            }
            i = i + 1;
        }
        assert(entries@.subrange(0, entries@.len() as int) =~= entries@);
        Ok((directories, files))
    }

    /// Lists a directory of the sandbox from its entries.
    pub fn list_dir(&self, dir_path: String, entries: &Vec<RawEntry>) -> (r: Result<ListDirResponse, RpcError>)
        ensures
            r is Ok <==> forall|i: int|
                0 <= i < entries@.len() ==> entry_listable(self.spec_root()@, #[trigger] entries@[i]),
            r matches Err(e) ==> e is Internal,
            r matches Ok(resp) ==> resp.dir_path@ == dir_path@ && dirs_view(resp.directories@)
                == listed_dirs(self.spec_root()@, entries@) && files_view(resp.files@)
                == listed_files(self.spec_root()@, entries@),
    {
        match self.get_dir_entries(entries) {
            Ok((directories, files)) => Ok(ListDirResponse { dir_path, directories, files }),
            Err(e) => Err(RpcError::Internal(e)),
        }
    }

    /// The server's settings as a client sees them; the permission flags are
    /// those the switches give.
    pub fn get_config(&self) -> (r: GetConfigResponse)
        requires
            self.wf(),
        ensures
            r.permission == permission_of(
                self.spec_allow_manage(),
                self.spec_allow_upload(),
                self.spec_allow_download(),
            ),
            r.root@ == self.spec_relative_root()@,
            r.root_canonical@ == self.spec_absolute_root()@,
            r.prefix@ == self.spec_prefix()@,
            r.address@.len() == self.spec_available_ip().len(),
            forall|i: int| 0 <= i < r.address@.len() ==> #[trigger] r.address@[i] == (Address {
                ip: self.spec_available_ip()[i],
                port: self.spec_port() as u32,
            }),
    {
        let mut address: Vec<Address> = Vec::new();
        let mut i: usize = 0;
        while i < self.available_ip.len()
            invariant
                i <= self.available_ip@.len(),
                address@.len() == i,
                forall|j: int| 0 <= j < i ==> #[trigger] address@[j] == (Address {
                    ip: self.available_ip@[j],
                    port: self.port as u32,
                }),
            decreases self.available_ip@.len() - i,
        {
            address.push(Address { ip: self.available_ip[i], port: self.port as u32 });
            i = i + 1;
        }
        GetConfigResponse {
            root: self.root_relative.clone(),
            root_canonical: self.root_absolute.clone(),
            prefix: self.prefix.clone(),
            permission: self.permission,
            address,
        }
    }

    /// Plans one call of the chunked upload, where uploads are allowed.
    pub fn upload_file_chunk(&self, canonical_dir: Option<&str>, req: UploadFileChunkRequest) -> (r:
        Result<UploadPlan, RpcError>)
        ensures
            !self.spec_allow_upload() ==> r == Err::<UploadPlan, RpcError>(RpcError::PermissionDenied),
            self.spec_allow_upload() ==> match r {
                Ok(plan) => plan_matches(
                    self.spec_root()@,
                    match canonical_dir {
                        None => None,
                        Some(d) => Some(d@),
                    },
                    req,
                    Ok(plan),
                ),
                Err(e) => e matches RpcError::Internal(se) && plan_matches(
                    self.spec_root()@,
                    match canonical_dir {
                        None => None,
                        Some(d) => Some(d@),
                    },
                    req,
                    Err(se),
                ),
            },
    {
        if !self.allow_upload {
            return Err(RpcError::PermissionDenied);
        }
        match plan_upload(self.root_path.as_str(), canonical_dir, req) {
            Ok(plan) => Ok(plan),
            Err(e) => Err(RpcError::Internal(e)),
        }
    }

    /// Decides what a management request does, where management is allowed.
    pub fn manage_dir_or_file(&self, req: &ManageDirOrFileRequest, paths: &ResolvedPaths) -> (r:
        Result<ManageAction, RpcError>)
        ensures
            !self.spec_allow_manage() ==> r == Err::<ManageAction, RpcError>(RpcError::PermissionDenied),
            self.spec_allow_manage() ==> match manage_action_of(
                self.spec_root()@,
                req.operation,
                req.target@,
                *paths,
            ) {
                Err(e) => r == Err::<ManageAction, RpcError>(RpcError::Internal(e)),
                Ok(a) => r matches Ok(action) && action@ == a,
            },
    {
        if !self.allow_manage {
            return Err(RpcError::PermissionDenied);
        }
        match self.plan_manage(req.operation, req.target.as_str(), paths) {
            Ok(a) => Ok(a),
            Err(e) => Err(RpcError::Internal(e)),
        }
    }

    fn sandboxed_path(&self, c: &Option<String>) -> (r: Result<String, ServiceError>)
        ensures
            match sandboxed(self.spec_root()@, opt_view(*c)) {
                Ok(p) => r matches Ok(s) && s@ == p,
                Err(e) => r == Err::<String, ServiceError>(e),
            },
    {
        match c {
            None => Err(ServiceError::Unresolved),
            Some(p) => match get_valid_joined_path(self.root_path.as_str(), p.as_str()) {
                Ok(p) => Ok(p),
                Err(e) => Err(ServiceError::Path(e)),
            },
        }
    }

    fn plan_manage(&self, op: Operation, target: &str, paths: &ResolvedPaths) -> (r: Result<
        ManageAction,
        ServiceError,
    >)
        ensures
            match manage_action_of(self.spec_root()@, op, target@, *paths) {
                Err(e) => r == Err::<ManageAction, ServiceError>(e),
                Ok(a) => r matches Ok(action) && action@ == a,
            },
    {
        match op {
            Operation::CreateDir => {
                let dir = match self.sandboxed_path(&paths.dest_dir) {
                    Ok(d) => d,
                    Err(e) => return Err(e),
                };
                match validate_name(target) {
                    Ok(()) => {},
                    Err(e) => return Err(ServiceError::Path(e)),
                }
                Ok(ManageAction::CreateDir(join_child(dir.as_str(), target)))
            },
            Operation::CopyFile => {
                let from = match self.sandboxed_path(&paths.source) {
                    Ok(p) => p,
                    Err(e) => return Err(e),
                };
                match paths.source_kind {
                    EntryKind::File => {
                        let name = match file_name(from.as_str()) {
                            Ok(n) => n,
                            Err(e) => return Err(ServiceError::Path(e)),
                        };
                        let dir = match self.sandboxed_path(&paths.dest_dir) {
                            Ok(d) => d,
                            Err(e) => return Err(e),
                        };
                        let to = join_child(dir.as_str(), name.as_str());
                        Ok(ManageAction::CopyFile { from, to })
                    },
                    EntryKind::Directory => {
                        let dir = match self.sandboxed_path(&paths.dest_dir) {
                            Ok(d) => d,
                            Err(e) => return Err(e),
                        };
                        Ok(ManageAction::CopyDir { from, to_dir: dir })
                    },
                    EntryKind::Other => Ok(ManageAction::Nothing),
                }
            },
            Operation::DeleteFile => {
                let from = match self.sandboxed_path(&paths.source) {
                    Ok(p) => p,
                    Err(e) => return Err(e),
                };
                match paths.source_kind {
                    EntryKind::File => Ok(ManageAction::RemoveFile(from)),
                    EntryKind::Directory => Ok(ManageAction::RemoveDirAll(from)),
                    EntryKind::Other => Ok(ManageAction::Nothing),
                }
            },
            Operation::MoveFile => {
                let from = match self.sandboxed_path(&paths.source) {
                    Ok(p) => p,
                    Err(e) => return Err(e),
                };
                let name = match file_name(from.as_str()) {
                    Ok(n) => n,
                    Err(e) => return Err(ServiceError::Path(e)),
                };
                let dir = match self.sandboxed_path(&paths.dest_dir) {
                    Ok(d) => d,
                    Err(e) => return Err(e),
                };
                let to = join_child(dir.as_str(), name.as_str());
                Ok(ManageAction::Rename { from, to })
            },
            Operation::RenameFile => {
                let from = match self.sandboxed_path(&paths.source) {
                    Ok(p) => p,
                    Err(e) => return Err(e),
                };
                match validate_name(target) {
                    Ok(()) => {},
                    Err(e) => return Err(ServiceError::Path(e)),
                }
                let to = with_file_name(from.as_str(), target);
                if !is_within_root(self.root_path.as_str(), to.as_str()) {
                    return Err(ServiceError::Path(PathError::PathEscape));
                }
                Ok(ManageAction::Rename { from, to })
            },
        }
    }
}

/// A copy of a list of addresses.
fn copy_addresses(v: &Vec<IpAddress>) -> (r: Vec<IpAddress>)
    ensures
        r@ == v@,
{
    let mut r: Vec<IpAddress> = Vec::new();
    let mut i: usize = 0;
    while i < v.len()
        invariant
            i <= v@.len(),
            r@ == v@.subrange(0, i as int),
        decreases v@.len() - i,
    {
        r.push(v[i]);
        i = i + 1;
        assert(r@ =~= v@.subrange(0, i as int));
    }
    assert(r@ =~= v@);
    r
}

} // verus!
