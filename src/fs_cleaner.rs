use vstd::prelude::*;

use crate::category::CleanableCategory;
use crate::cleaner::{can_clean_category, is_cleanable};
use crate::host::{prune_args, EntryKind, HostSystem, ToolOutput};
use crate::item::CleanableItem;
use crate::repositories::{CleanError, CleanerRepository};
use crate::text::{contains_str, has_substring};

verus! {

/// How the items of one category are removed.
#[derive(Debug, Clone, Copy, PartialEq, Eq, Structural)]
pub enum CleanupStrategy {
    /// Delete each item's file or directory.
    FileSystem,
    /// One prune of dangling container images.
    DockerImages,
    /// One prune of dangling container volumes.
    DockerVolumes,
}

/// The strategy a category name selects: a name with "Docker" goes to the
/// container tool, to images when it also says "Imagens", to volumes otherwise;
/// any other name goes to the filesystem.
pub open spec fn strategy_for(name: Seq<char>) -> CleanupStrategy {
    if has_substring(name, "Docker"@) {
        if has_substring(name, "Imagens"@) {
            CleanupStrategy::DockerImages
        } else {
            CleanupStrategy::DockerVolumes
        }
    } else {
        CleanupStrategy::FileSystem
    }
}

/// What is done to one item of a filesystem category.
#[derive(Debug, Clone, Copy, PartialEq, Eq, Structural)]
pub enum Removal {
    DeleteFile,
    DeleteTree,
}

pub open spec fn removal_of(kind: EntryKind) -> Option<Removal> {
    match kind {
        EntryKind::File => Some(Removal::DeleteFile),
        EntryKind::Directory => Some(Removal::DeleteTree),
        EntryKind::Other => None,
    }
}

/// A file is deleted, a directory is deleted with all it holds, anything else
/// (a label, a path that is gone) is skipped.
pub fn removal_for(kind: EntryKind) -> (r: Option<Removal>)
    ensures
        r == removal_of(kind),
{
    match kind {
        EntryKind::File => Some(Removal::DeleteFile),
        EntryKind::Directory => Some(Removal::DeleteTree),
        EntryKind::Other => None,
    }
}

/// Units a prune counts: one when the tool ran and exited with success,
/// whatever it removed; none otherwise.
pub open spec fn pruned_units(output: Option<ToolOutput>) -> usize {
    match output {
        Some(o) => if o.success {
            1usize
        } else {
            0usize
        },
        None => 0usize,
    }
}

pub open spec fn went_true() -> spec_fn(bool) -> bool {
    |b: bool| b
}

/// What a filesystem pass over `n` items may give: the host said what each
/// path was (`kinds`) and whether its removal went (`went`); a path that was
/// neither a file nor a directory was never removed; the count is the number
/// of removals that went.
pub open spec fn is_removal_count(n: int, r: usize) -> bool {
    exists|kinds: Seq<EntryKind>, went: Seq<bool>|
        #[trigger] is_removal_record(kinds, went, n) && r == went.filter(went_true()).len()
}

/// What the host said of `n` paths, and which removals went: a path that was
/// neither a file nor a directory was never removed.
pub open spec fn is_removal_record(kinds: Seq<EntryKind>, went: Seq<bool>, n: int) -> bool {
    &&& kinds.len() == n
    &&& went.len() == n
    &&& forall|k: int| 0 <= k < n && removal_of(#[trigger] kinds[k]) is None ==> !went[k]
}

/// What a prune may give: the units of whatever the tool run returned.
pub open spec fn is_prune_count(r: usize) -> bool {
    exists|output: Option<ToolOutput>| r == pruned_units(output)
}

/// What cleaning a category on the host gives: never an error; a category
/// whose name selects the container tool counts its one prune; any other
/// counts the removals of its own items that went.
pub open spec fn is_clean_count(category: crate::category::CategoryModel, r: Result<usize, CleanError>) -> bool {
    match r {
        Ok(n) => match strategy_for(category.name) {
            CleanupStrategy::FileSystem => is_removal_count(category.items.len() as int, n),
            _ => is_prune_count(n),
        },
        Err(_) => false,
    }
}

pub proof fn lemma_filter_len_le<A>(s: Seq<A>, keep: spec_fn(A) -> bool)
    ensures
        s.filter(keep).len() <= s.len(),
{
    s.lemma_filter_len(keep);
}

/// Where the host finds none of the paths any more, a filesystem pass counts nothing.
pub proof fn law_vanished_paths_count_nothing(kinds: Seq<EntryKind>, went: Seq<bool>, n: int)
    requires
        is_removal_record(kinds, went, n),
        forall|k: int| 0 <= k < n ==> #[trigger] kinds[k] == EntryKind::Other,
    ensures
        went.filter(went_true()).len() == 0,
{
    assert forall|k: int| 0 <= k < went.len() implies !went_true()(#[trigger] went[k]) by {
        assert(kinds[k] == EntryKind::Other);
    }
    went.lemma_all_neg_filter_empty(went_true());
}

/// The number of removals that went.
pub fn count_removed(went: &[bool]) -> (r: usize)
    ensures
        r == went@.filter(went_true()).len(),
{
    let mut count: usize = 0;
    let mut k: usize = 0;
    proof {
        reveal(Seq::filter);
        assert(went@.take(0) =~= Seq::<bool>::empty());
    }
    while k < went.len()
        invariant
            k <= went@.len(),
            count == went@.take(k as int).filter(went_true()).len(),
            count <= k,
        decreases went@.len() - k,
    {
        proof {
            reveal(Seq::filter);
            assert(went@.take(k + 1).drop_last() =~= went@.take(k as int));
            assert(went@.take(k + 1).last() == went@[k as int]);
        }
        if went[k] {
            count += 1;
        }
        k += 1;
    }
    assert(went@.take(k as int) =~= went@);
    count
}

/// Units a prune counts: one when the tool ran and exited with success,
/// whatever it removed; none otherwise.
pub fn units_pruned(output: &Option<ToolOutput>) -> (r: usize)
    ensures
        r == pruned_units(*output),
{
    match output {
        Some(o) => if o.success {
            1
        } else {
            0
        },
        None => 0,
    }
}

/// Cleans categories on the host: deletes files and directories, or runs the
/// container tool's prune.
pub struct FileSystemCleanerRepository<H: HostSystem> {
    host: H,
}

impl<H: HostSystem> FileSystemCleanerRepository<H> {
    pub fn new(host: H) -> (r: Self) {
        FileSystemCleanerRepository { host }
    }

    /// The host this repository works on.
    pub fn host(&self) -> &H {
        &self.host
    }

    /// The strategy a category name selects.
    pub fn get_cleanup_strategy(&self, category_name: &str) -> (r: CleanupStrategy)
        ensures
            r == strategy_for(category_name@),
    {
        if contains_str(category_name, "Docker") {
            if contains_str(category_name, "Imagens") {
                CleanupStrategy::DockerImages
            } else {
                CleanupStrategy::DockerVolumes
            }
        } else {
            CleanupStrategy::FileSystem
        }
    }

    /// Deletes each item that is a file or a directory now, and counts those that went.
    pub fn remove_items(&self, items: &[CleanableItem]) -> (r: usize)
        ensures
            is_removal_count(items@.len() as int, r),
            r <= items@.len(),
    {
        let mut went: Vec<bool> = Vec::new();
        let ghost mut kinds: Seq<EntryKind> = Seq::empty();
        let mut k: usize = 0;
        while k < items.len()
            invariant
                k <= items@.len(),
                kinds.len() == k,
                went@.len() == k,
                forall|m: int| 0 <= m < k && removal_of(#[trigger] kinds[m]) is None ==> !went@[m],
            decreases items@.len() - k,
        {
            let path = items[k].path();
            let kind = self.host.path_kind(path);
            let removed = match removal_for(kind) {
                Some(Removal::DeleteFile) => self.host.remove_file(path),
                Some(Removal::DeleteTree) => self.host.remove_dir_all(path),
                None => false,
            };
            proof {
                kinds = kinds.push(kind);
            }
            went.push(removed);
            k += 1;
        }
        let r = count_removed(went.as_slice());
        proof {
            lemma_filter_len_le(went@, went_true());
            assert(is_removal_record(kinds, went@, items@.len() as int));
        }
        r
    }

    /// Runs one prune of the container tool and counts it.
    pub fn prune(&self, target: &str) -> (r: usize)
        ensures
            is_prune_count(r),
            r <= 1,
    {
        let args = prune_args(target);
        let output = self.host.run_tool("docker", args.as_slice());
        let r = units_pruned(&output);
        assert(r == pruned_units(output));
        r
    }
}

impl<H: HostSystem> CleanerRepository for FileSystemCleanerRepository<H> {
    fn clean_category(&self, category: &CleanableCategory) -> (r: Result<usize, CleanError>)
        ensures
            is_clean_count(category@, r),
    {
        let items = category.items();
        assert(items@.len() == category@.items.len()) by {
            assert(items@.map_values(|i: CleanableItem| i@).len() == items@.len());
        }
        match self.get_cleanup_strategy(category.name()) {
            CleanupStrategy::DockerImages => Ok(self.prune("image")),
            CleanupStrategy::DockerVolumes => Ok(self.prune("volume")),
            CleanupStrategy::FileSystem => Ok(self.remove_items(items)),
        }
    }

    fn can_clean(&self, category: &CleanableCategory) -> (r: bool)
        ensures
            r == is_cleanable(category@),
    {
        can_clean_category(category)
    }
}

} // verus!
