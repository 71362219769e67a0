//! The path classifier: given the two resolved paths and their stat flags,
//! derive each entry's metadata, whether the two share a parent directory,
//! and whether one lies inside the other's subtree.

use vstd::prelude::*;
use vstd::string::*;

use crate::path_text::{
    contains_spec, ext_spec, has_parent, parent_spec, same_dir_spec, split_parent,
    split_stem_ext, stem_spec, str_eq,
};
use crate::types::{GetPathInfo, MetadataCollection};

verus! {

/// The containment relationship of two paths: `1` when the first holds the
/// second inside its subtree, `2` for the converse, `0` when neither does.
pub open spec fn mode_spec(p1: Seq<char>, p2: Seq<char>) -> u8 {
    if contains_spec(p1, p2) {
        1u8
    } else if contains_spec(p2, p1) {
        2u8
    } else {
        0u8
    }
}

/// The two containment directions exclude each other: a path strictly inside
/// another's subtree is strictly longer, so the relationship can never hold
/// both ways at once.
pub proof fn lemma_containment_exclusive(p1: Seq<char>, p2: Seq<char>)
    ensures
        !(contains_spec(p1, p2) && contains_spec(p2, p1)),
{
}

impl GetPathInfo {
    /// The stat flags of the two paths: true where the path points at a
    /// regular file, false where it points at a directory.
    pub fn if_file(&self) -> (r: (bool, bool))
        ensures
            r == (self.is_file1, self.is_file2),
    {
        (self.is_file1, self.is_file2)
    }

    /// True when both paths have a parent directory and those parents are
    /// structurally equal. A path without a parent — the root, or an empty
    /// path — shares a directory with nothing.
    pub fn if_same_dir(&self) -> (r: bool)
        ensures
            r == same_dir_spec(self.path1@, self.path2@),
    {
        if !has_parent(self.path1.as_str()) || !has_parent(self.path2.as_str()) {
            return false;
        }
        let (parent1, _name1) = split_parent(self.path1.as_str());
        let (parent2, _name2) = split_parent(self.path2.as_str());
        str_eq(parent1.as_str(), parent2.as_str())
    }

    /// Which of the two paths, if either, holds the other inside its
    /// subtree: `1` when the first contains the second, `2` for the
    /// converse, `0` when the two are unrelated.
    pub fn if_root(&self) -> (r: u8)
        ensures
            r == mode_spec(self.path1@, self.path2@),
    {
        if Self::path_is_parent(self.path1.as_str(), self.path2.as_str()) {
            1
        } else if Self::path_is_parent(self.path2.as_str(), self.path1.as_str()) {
            2
        } else {
            0
        }
    }

    /// True when `potential_child` lies strictly inside
    /// `potential_parent`'s subtree: the parent is a proper prefix ending at
    /// a component boundary.
    pub fn path_is_parent(potential_parent: &str, potential_child: &str) -> (r: bool)
        ensures
            r == contains_spec(potential_parent@, potential_child@),
    {
        let lp = potential_parent.unicode_len();
        let lc = potential_child.unicode_len();
        if lc <= lp {
            return false;
        }
        let prefix = potential_child.substring_char(0, lp);
        if !str_eq(prefix, potential_parent) {
            return false;
        }
        if potential_child.get_char(lp) == '/' {
            return true;
        }
        if lp == 0 {
            return true;
        }
        potential_parent.get_char(lp - 1) == '/'
    }

    /// The metadata of one path: base name without extension, extension
    /// with its leading dot, and parent directory. Directories keep their
    /// whole base name, dots included, and have no extension.
    pub fn get_info(file_path: &str, is_file: bool) -> (r: MetadataCollection)
        ensures
            r.name@ == stem_spec(file_path@, is_file),
            r.ext@ == ext_spec(file_path@, is_file),
            r.parent_dir@ == parent_spec(file_path@),
    {
        let (parent_dir, file_name) = split_parent(file_path);
        let (name, ext) = split_stem_ext(file_name.as_str(), is_file);
        MetadataCollection { name, ext, parent_dir }
    }

    /// The metadata of both paths, given their stat flags.
    pub fn metadata_collect(&self, is_file1: bool, is_file2: bool) -> (r: (
        MetadataCollection,
        MetadataCollection,
    ))
        ensures
            r.0.name@ == stem_spec(self.path1@, is_file1),
            r.0.ext@ == ext_spec(self.path1@, is_file1),
            r.0.parent_dir@ == parent_spec(self.path1@),
            r.1.name@ == stem_spec(self.path2@, is_file2),
            r.1.ext@ == ext_spec(self.path2@, is_file2),
            r.1.parent_dir@ == parent_spec(self.path2@),
    {
        let metadata1 = GetPathInfo::get_info(self.path1.as_str(), is_file1);
        let metadata2 = GetPathInfo::get_info(self.path2.as_str(), is_file2);
        (metadata1, metadata2)
    }
}

} // verus!
