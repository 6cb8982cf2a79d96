use vstd::prelude::*;

verus! {

/// What a reclaimable unit is, as far as contracts speak of it.
pub struct ItemModel {
    pub path: Seq<char>,
    pub size: u64,
}

/// One reclaimable unit: a file, a directory, a container image or volume.
/// It is never changed once built.
#[derive(Debug, Clone, PartialEq, Eq)]
pub struct CleanableItem {
    path: String,
    size_in_bytes: u64,
}

impl View for CleanableItem {
    type V = ItemModel;

    closed spec fn view(&self) -> ItemModel {
        ItemModel { path: self.path@, size: self.size_in_bytes }
    }
}

impl CleanableItem {
    pub fn new(path: String, size_in_bytes: u64) -> (r: Self)
        ensures
            r@ == (ItemModel { path: path@, size: size_in_bytes }),
    {
        CleanableItem { path, size_in_bytes }
    }

    pub fn path(&self) -> (r: &str)
        ensures
            r@ == self@.path,
    {
        self.path.as_str()
    }

    pub fn size_in_bytes(&self) -> (r: u64)
        ensures
            r == self@.size,
    {
        self.size_in_bytes
    }

    /// A copy of the item.
    pub fn clone_item(&self) -> (r: Self)
        ensures
            r@ == self@,
    {
        CleanableItem { path: self.path.clone(), size_in_bytes: self.size_in_bytes }
    }

    /// An item counts only when it holds at least one byte.
    pub fn is_significant(&self) -> (r: bool)
        ensures
            r == (self@.size > 0),
    {
        self.size_in_bytes > 0
    }
}

} // verus!
