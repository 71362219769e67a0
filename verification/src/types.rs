//! Data carried through one exchange invocation: per-entry metadata, the
//! planned rename targets, and the error taxonomy of the operation.

use vstd::prelude::*;
use vstd::string::*;

verus! {

/// Base name, extension and parent directory of one filesystem entry.
///
/// `name` is the base name without the extension. `ext` carries its leading
/// dot and is empty for directories and for files without one. `parent_dir`
/// is the path with its last component removed.
#[derive(Debug)]
pub struct MetadataCollection {
    pub name: String,
    pub ext: String,
    pub parent_dir: String,
}

/// True when every field of the metadata is empty.
pub open spec fn meta_is_empty(m: MetadataCollection) -> bool {
    m.name@.len() == 0 && m.ext@.len() == 0 && m.parent_dir@.len() == 0
}

impl Default for MetadataCollection {
    /// Metadata with every field empty.
    fn default() -> (r: Self)
        ensures
            meta_is_empty(r),
    {
        Self { name: String::new(), ext: String::new(), parent_dir: String::new() }
    }
}

/// The three paths one entry moves between: where it is now, where it ends
/// up, and the temporary name used by the temp-mediated strategy.
#[derive(Debug)]
pub struct PrepareName {
    pub original_path: String,
    pub new_path: String,
    pub pre_path: String,
}

/// True when every path of the plan is empty.
pub open spec fn prepare_is_empty(p: PrepareName) -> bool {
    p.original_path@.len() == 0 && p.new_path@.len() == 0 && p.pre_path@.len() == 0
}

impl Default for PrepareName {
    /// A plan with every path empty.
    fn default() -> (r: Self)
        ensures
            prepare_is_empty(r),
    {
        Self { original_path: String::new(), new_path: String::new(), pre_path: String::new() }
    }
}

/// Everything known about one entry: its stat flags, its metadata and its
/// rename plan.
#[derive(Debug)]
pub struct FileInfos {
    pub is_exist: bool,
    pub is_file: bool,
    pub packed_info: MetadataCollection,
    pub exchange: PrepareName,
}

/// True when the entry information still holds its initial values.
pub open spec fn infos_is_empty(f: FileInfos) -> bool {
    !f.is_exist && !f.is_file && meta_is_empty(f.packed_info) && prepare_is_empty(f.exchange)
}

impl Default for FileInfos {
    /// Entry information with every flag false and every field empty.
    fn default() -> (r: Self)
        ensures
            infos_is_empty(r),
    {
        Self {
            is_exist: false,
            is_file: false,
            packed_info: MetadataCollection::default(),
            exchange: PrepareName::default(),
        }
    }
}

/// Two resolved paths together with their stat results, as the boundary
/// collaborator handed them in: `is_file1` and `is_file2` say whether each
/// path points at a regular file rather than a directory.
#[derive(Debug)]
pub struct GetPathInfo {
    pub path1: String,
    pub path2: String,
    pub is_file1: bool,
    pub is_file2: bool,
}

impl Default for GetPathInfo {
    /// Path information with empty paths and both flags false.
    fn default() -> (r: Self)
        ensures
            r.path1@.len() == 0,
            r.path2@.len() == 0,
            !r.is_file1,
            !r.is_file2,
    {
        Self { path1: String::new(), path2: String::new(), is_file1: false, is_file2: false }
    }
}

/// The full state of one name exchange: the information of both entries.
pub struct NameExchange {
    pub f1: FileInfos,
    pub f2: FileInfos,
}

/// What the orchestrator decided for one exchange: the filled-in entry
/// information, the chosen strategy (`is_nested` selects the direct
/// two-step plan) and ordering, and the rename operations to perform in
/// order.
pub struct ExchangeDecision {
    pub info: NameExchange,
    pub is_nested: bool,
    pub file1_first: bool,
    pub ops: Vec<RenameOp>,
}

/// One rename operation of a plan: move the entry at `from` to `to`.
#[derive(Debug)]
pub struct RenameOp {
    pub from: String,
    pub to: String,
}

/// Why an exchange was refused or how it failed.
#[derive(Debug, Clone)]
pub enum RenameError {
    /// One or both input paths do not point at an existing entry.
    NotExists,
    /// The two resolved paths are identical.
    SamePath,
    /// A computed destination collides with an unrelated existing entry.
    AlreadyExists,
    /// The underlying rename was rejected for lack of access rights.
    PermissionDenied,
    /// The input could not be decoded or resolved to a well-formed path.
    InvalidPath,
    /// Any other failure, with a descriptive message.
    Unknown(String),
}

/// The stable status code of each error kind, as the outermost boundary
/// reports it. A rejected pair of identical paths shares the code that the
/// boundary has always used for it, and an undecodable input is reported with
/// the catch-all code.
pub open spec fn code_spec(e: RenameError) -> i32 {
    match e {
        RenameError::NotExists => 1,
        RenameError::SamePath => 2,
        RenameError::PermissionDenied => 2,
        RenameError::AlreadyExists => 3,
        RenameError::InvalidPath => 255,
        RenameError::Unknown(_) => 255,
    }
}

/// The descriptive message of each error kind.
pub open spec fn message_spec(e: RenameError) -> Seq<char> {
    match e {
        RenameError::NotExists => "File does not exist"@,
        RenameError::SamePath => "Both paths point to the same entry"@,
        RenameError::PermissionDenied => "Permission denied"@,
        RenameError::AlreadyExists => "File already exists"@,
        RenameError::InvalidPath => "Invalid path"@,
        RenameError::Unknown(msg) => "Unknown error: "@ + msg@,
    }
}

impl RenameError {
    /// Collapse the error to its stable status code.
    pub fn to_code(&self) -> (r: i32)
        ensures
            r == code_spec(*self),
    {
        match self {
            Self::NotExists => 1,
            Self::SamePath => 2,
            Self::PermissionDenied => 2,
            Self::AlreadyExists => 3,
            Self::InvalidPath => 255,
            Self::Unknown(_) => 255,
        }
    }

    /// The descriptive message of the error.
    pub fn message(&self) -> (r: String)
        ensures
            r@ == message_spec(*self),
    {
        match self {
            Self::NotExists => "File does not exist".to_owned(),
            Self::SamePath => "Both paths point to the same entry".to_owned(),
            Self::PermissionDenied => "Permission denied".to_owned(),
            Self::AlreadyExists => "File already exists".to_owned(),
            Self::InvalidPath => "Invalid path".to_owned(),
            Self::Unknown(msg) => {
                let mut r = "Unknown error: ".to_owned();
                r.append(msg.as_str());
                r
            },
        }
    }
}

} // verus!
