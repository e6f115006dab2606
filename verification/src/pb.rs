use vstd::prelude::*;
use crate::map::TextMap;

verus! {

/// Target platform of an operation, as carried in BuildKit's `pb.Platform`.
#[derive(Debug, Clone, PartialEq, Eq)]
pub struct Platform {
    pub architecture: String,
    pub os: String,
    pub variant: String,
    pub os_version: String,
    pub os_features: Vec<String>,
}

/// The abstract content of a [`Platform`]: its text fields as character sequences.
pub struct PlatformView {
    pub architecture: Seq<char>,
    pub os: Seq<char>,
    pub variant: Seq<char>,
    pub os_version: Seq<char>,
    pub os_features: Seq<Seq<char>>,
}

impl PlatformView {
    /// A platform naming `os`, `architecture` and `variant`, every other field left empty.
    pub open spec fn of(os: Seq<char>, architecture: Seq<char>, variant: Seq<char>) -> PlatformView {
        PlatformView {
            architecture,
            os,
            variant,
            os_version: Seq::empty(),
            os_features: Seq::empty(),
        }
    }
}

impl View for Platform {
    type V = PlatformView;

    open spec fn view(&self) -> PlatformView {
        PlatformView {
            architecture: self.architecture@,
            os: self.os@,
            variant: self.variant@,
            os_version: self.os_version@,
            os_features: self.os_features@.map_values(|s: String| s@),
        }
    }
}

/// A reference to an output of another node of the definition.
#[derive(Debug, Clone, PartialEq, Eq)]
pub struct Input {
    pub digest: String,
    pub index: i64,
}

/// A user or group chosen by name (resolved inside input `input`) or by id.
#[derive(Debug, Clone, PartialEq, Eq)]
pub struct NamedUserOpt {
    pub name: String,
    pub input: i64,
}

/// How a user or a group is given.
#[derive(Debug, Clone, PartialEq, Eq)]
pub enum UserOptUser {
    ByName(NamedUserOpt),
    ById(u32),
}

/// A user or a group.
#[derive(Debug, Clone, PartialEq, Eq)]
pub struct UserOpt {
    pub user: Option<UserOptUser>,
}

/// Owner of created or copied files.
#[derive(Debug, Clone, PartialEq, Eq)]
pub struct ChownOpt {
    pub user: Option<UserOpt>,
    pub group: Option<UserOpt>,
}

impl UserOpt {
    /// A copy of the value.
    pub fn duplicate(&self) -> (r: UserOpt)
        ensures
            r == *self,
    {
        match &self.user {
            None => UserOpt { user: None },
            Some(UserOptUser::ById(id)) => UserOpt { user: Some(UserOptUser::ById(*id)) },
            Some(UserOptUser::ByName(n)) => UserOpt {
                user: Some(UserOptUser::ByName(NamedUserOpt { name: n.name.clone(), input: n.input })),
            },
        }
    }
}

impl ChownOpt {
    /// A copy of the value.
    pub fn duplicate(&self) -> (r: ChownOpt)
        ensures
            r == *self,
    {
        let user = match &self.user {
            None => None,
            Some(u) => Some(u.duplicate()),
        };
        let group = match &self.group {
            None => None,
            Some(g) => Some(g.duplicate()),
        };
        ChownOpt { user, group }
    }
}

/// A copy of an optional owner.
pub fn duplicate_owner(o: &Option<ChownOpt>) -> (r: Option<ChownOpt>)
    ensures
        r == *o,
{
    match o {
        None => None,
        Some(c) => Some(c.duplicate()),
    }
}

/// A copy of a list of strings.
pub fn duplicate_strings(v: &Vec<String>) -> (r: Vec<String>)
    ensures
        r@ == v@,
{
    let mut r: Vec<String> = Vec::new();
    let mut i: usize = 0;
    while i < v.len()
        invariant
            i <= v@.len(),
            r@ == v@.subrange(0, i as int),
        decreases v@.len() - i,
    {
        r.push(v[i].clone());
        assert(r@ =~= v@.subrange(0, i + 1));
        i = i + 1;
    }
    assert(v@.subrange(0, v@.len() as int) =~= v@);
    r
}

/// Options of a persistent cache mount.
#[derive(Debug, Clone, PartialEq, Eq)]
pub struct CacheOpt {
    pub id: String,
    pub sharing: i32,
}

/// Options of a tmpfs mount.
#[derive(Debug, Clone, PartialEq, Eq)]
pub struct TmpfsOpt {
    pub size: i64,
}

/// Options of a secret mount.
#[derive(Debug, Clone, PartialEq, Eq)]
pub struct SecretOpt {
    pub id: String,
    pub uid: u32,
    pub gid: u32,
    pub mode: u32,
    pub optional: bool,
}

/// Options of an SSH agent socket mount.
#[derive(Debug, Clone, PartialEq, Eq)]
pub struct SshOpt {
    pub id: String,
    pub uid: u32,
    pub gid: u32,
    pub mode: u32,
    pub optional: bool,
}

/// Execution metadata of a command: arguments, environment, working
/// directory and user.
#[derive(Debug, Clone, PartialEq, Eq)]
pub struct Meta {
    pub args: Vec<String>,
    pub env: Vec<String>,
    pub cwd: String,
    pub user: String,
    pub hostname: String,
}

/// Copies `src` from the secondary input to `dest` in the input.
#[derive(Debug, Clone, PartialEq, Eq)]
pub struct FileActionCopy {
    pub src: String,
    pub dest: String,
    pub owner: Option<ChownOpt>,
    pub mode: i32,
    pub follow_symlink: bool,
    pub dir_copy_contents: bool,
    pub attempt_unpack_docker_compatibility: bool,
    pub create_dest_path: bool,
    pub allow_wildcard: bool,
    pub allow_empty_wildcard: bool,
    pub timestamp: i64,
    pub include_patterns: Vec<String>,
    pub exclude_patterns: Vec<String>,
    pub always_replace_existing_dest_paths: bool,
    pub mode_str: String,
}

/// Creates the directory `path`.
#[derive(Debug, Clone, PartialEq, Eq)]
pub struct FileActionMkDir {
    pub path: String,
    pub mode: i32,
    pub make_parents: bool,
    pub owner: Option<ChownOpt>,
    pub timestamp: i64,
}

/// The action of one step of a file operation.
#[derive(Debug, Clone, PartialEq, Eq)]
pub enum FileActionKind {
    Copy(FileActionCopy),
    Mkdir(FileActionMkDir),
}

/// One step of a file operation, with the indices of the layers it reads and writes.
#[derive(Debug, Clone, PartialEq, Eq)]
pub struct FileAction {
    pub input: i64,
    pub secondary_input: i64,
    pub output: i64,
    pub action: Option<FileActionKind>,
}

/// A sequence of file actions.
#[derive(Debug, Clone, PartialEq, Eq)]
pub struct FileOp {
    pub actions: Vec<FileAction>,
}

/// One layer of a merge, given by its position among the operation's inputs.
#[derive(Debug, Clone, PartialEq, Eq)]
pub struct MergeInput {
    pub input: i64,
}

/// Merges the given inputs, later ones on top of earlier ones.
#[derive(Debug, Clone, PartialEq, Eq)]
pub struct MergeOp {
    pub inputs: Vec<MergeInput>,
}

/// The kind of a definition node.
#[derive(Debug, Clone, PartialEq, Eq)]
pub enum OpKind {
    File(FileOp),
    Merge(MergeOp),
}

/// A definition node: its inputs, what it does, and its platform.
#[derive(Debug, Clone, PartialEq, Eq)]
pub struct Op {
    pub inputs: Vec<Input>,
    pub op: Option<OpKind>,
    pub platform: Option<Platform>,
}

/// A definition node together with its metadata.
#[derive(Debug)]
pub struct Node {
    pub head: Op,
    pub metadata: OpMetadata,
}

/// Metadata attached to a definition node.
#[derive(Debug)]
pub struct OpMetadata {
    pub ignore_cache: bool,
    pub description: TextMap<String>,
    pub caps: TextMap<bool>,
}

} // verus!
