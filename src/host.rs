use vstd::prelude::*;

verus! {

/// What a path is on disk.
#[derive(Debug, Clone, Copy, PartialEq, Eq, Structural)]
pub enum EntryKind {
    File,
    Directory,
    /// Missing, unreadable, or neither a file nor a directory.
    Other,
}

/// One entry met by a directory walk.
#[derive(Debug, Clone)]
pub struct WalkEntry {
    pub path: String,
    pub kind: EntryKind,
    /// Its length in bytes, where its metadata could be read.
    pub size: Option<u64>,
}

/// What an external tool run printed and how it ended.
#[derive(Debug, Clone)]
pub struct ToolOutput {
    /// The process exited with status zero.
    pub success: bool,
    /// Standard output, as text.
    pub stdout: String,
}

/// The machine a scan or a cleanup runs on: its disk, its environment and
/// its external tools. Every operation here may fail or find nothing; the
/// library decides what to do with whatever comes back.
pub trait HostSystem {
    /// The user's home directory, or an empty string where it is not known.
    fn home_dir(&self) -> String;

    /// The entries under `root`, `root` itself included, down to `max_depth`
    /// levels, in walk order; entries that could not be read are left out.
    fn walk(&self, root: &str, max_depth: usize) -> Vec<WalkEntry>;

    /// What `path` is now.
    fn path_kind(&self, path: &str) -> EntryKind;

    /// Deletes one file; tells whether it went.
    fn remove_file(&self, path: &str) -> bool;

    /// Deletes a directory and all it holds; tells whether it went.
    fn remove_dir_all(&self, path: &str) -> bool;

    /// Runs `program` with `args`; `None` where it could not be started.
    fn run_tool(&self, program: &str, args: &[&str]) -> Option<ToolOutput>;
}

pub open spec fn arg_views(args: Seq<&str>) -> Seq<Seq<char>> {
    args.map_values(|a: &str| a@)
}

/// Arguments that list the identifiers of dangling images.
pub fn image_list_args() -> (r: Vec<&'static str>)
    ensures
        arg_views(r@) == seq!["images"@, "--filter"@, "dangling=true"@, "-q"@, "--no-trunc"@],
{
    let r = vec!["images", "--filter", "dangling=true", "-q", "--no-trunc"];
    assert(arg_views(r@) =~= seq!["images"@, "--filter"@, "dangling=true"@, "-q"@, "--no-trunc"@]);
    r
}

/// Arguments that print the size of one image.
pub fn image_size_args<'a>(id: &'a str) -> (r: Vec<&'a str>)
    ensures
        arg_views(r@) == seq!["inspect"@, "-f"@, "{{.Size}}"@, id@],
{
    let r = vec!["inspect", "-f", "{{.Size}}", id];
    assert(arg_views(r@) =~= seq!["inspect"@, "-f"@, "{{.Size}}"@, id@]);
    r
}

/// Arguments that list the names of dangling volumes.
pub fn volume_list_args() -> (r: Vec<&'static str>)
    ensures
        arg_views(r@) == seq!["volume"@, "ls"@, "-qf"@, "dangling=true"@],
{
    let r = vec!["volume", "ls", "-qf", "dangling=true"];
    assert(arg_views(r@) =~= seq!["volume"@, "ls"@, "-qf"@, "dangling=true"@]);
    r
}

/// Arguments that prune what is dangling of `target` ("image" or "volume").
pub fn prune_args<'a>(target: &'a str) -> (r: Vec<&'a str>)
    ensures
        arg_views(r@) == seq![target@, "prune"@, "-f"@],
{
    let r = vec![target, "prune", "-f"];
    assert(arg_views(r@) =~= seq![target@, "prune"@, "-f"@]);
    r
}

} // verus!
