//! Extensions of file names, the content types and categories they stand
//! for, and filters over them.
use vstd::prelude::*;
use vstd::string::*;

use crate::keymap::KeyMap;
use crate::repo_files::state::FileCategory;
use crate::strings::{copy_str, str_eq};

verus! {

/// The index of the last `c` in `s`, or -1 when there is none.
pub open spec fn last_index_of(s: Seq<char>, c: char) -> int
    decreases s.len(),
{
    if s.len() == 0 {
        -1
    } else if s.last() == c {
        s.len() - 1
    } else {
        last_index_of(s.drop_last(), c)
    }
}

pub proof fn lemma_last_index_of(s: Seq<char>, c: char)
    ensures
        -1 <= last_index_of(s, c) < s.len(),
        last_index_of(s, c) >= 0 ==> s[last_index_of(s, c)] == c,
        forall|j: int| last_index_of(s, c) < j < s.len() ==> s[j] != c,
    decreases s.len(),
{
    if s.len() > 0 && s.last() != c {
        lemma_last_index_of(s.drop_last(), c);
        assert forall|j: int| last_index_of(s, c) < j < s.len() implies s[j] != c by {
            if j < s.len() - 1 {
                assert(s.drop_last()[j] == s[j]);
            }
        }
    }
}

/// The extension of a file name: what follows its last '.', when it has one.
pub open spec fn spec_name_to_ext(name: Seq<char>) -> Option<Seq<char>> {
    let i = last_index_of(name, '.');
    if i < 0 {
        None
    } else {
        Some(name.subrange(i + 1, name.len() as int))
    }
}

pub fn name_to_ext(name: &str) -> (r: Option<String>)
    ensures
        match r {
            Some(e) => spec_name_to_ext(name@) == Some(e@),
            None => spec_name_to_ext(name@) is None,
        },
{
    proof {
        lemma_last_index_of(name@, '.');
    }
    let n = name.unicode_len();
    let mut i: usize = n;
    while i > 0
        invariant
            n == name@.len(),
            i <= n,
            forall|j: int| i <= j < n ==> name@[j] != '.',
            -1 <= last_index_of(name@, '.') < n,
            last_index_of(name@, '.') >= 0 ==> name@[last_index_of(name@, '.')] == '.',
            forall|j: int| last_index_of(name@, '.') < j < n ==> name@[j] != '.',
        decreases i,
    {
        if name.get_char(i - 1) == '.' {
            assert(last_index_of(name@, '.') == i - 1);
            return Some(copy_str(name.substring_char(i, n)));
        }
        i = i - 1;
    }
    None
}

/// What the icon of a file shows: its category and its badges.
#[derive(Clone, Copy, Debug, PartialEq, Eq, Structural)]
pub struct FileIconAttrs {
    pub category: FileCategory,
    pub is_dl: bool,
    pub is_ul: bool,
    pub is_download_transfer: bool,
    pub is_upload_transfer: bool,
    pub is_export: bool,
    pub is_import: bool,
    pub is_android: bool,
    pub is_ios: bool,
    pub is_vault_repo: bool,
    pub is_error: bool,
}

/// What an extension stands for: a content type and a category, where known.
#[derive(Debug)]
pub struct ExtInfo {
    pub content_type: Option<String>,
    pub category: Option<FileCategory>,
}

/// The table of known extensions (lower case), by extension.
#[derive(Debug)]
pub struct FileTypes {
    pub by_ext: KeyMap<String, ExtInfo>,
}

impl FileTypes {
    pub open spec fn spec_content_type(&self, ext: Seq<char>) -> Option<Seq<char>> {
        if self.by_ext@.contains_key(ext) {
            match self.by_ext@[ext].content_type {
                Some(t) => Some(t@),
                None => None,
            }
        } else {
            None
        }
    }

    pub open spec fn spec_category(&self, ext: Seq<char>) -> Option<FileCategory> {
        if self.by_ext@.contains_key(ext) {
            self.by_ext@[ext].category
        } else {
            None
        }
    }

    /// The content type of files with extension `ext`.
    pub fn ext_to_content_type(&self, ext: &String) -> (r: Option<String>)
        ensures
            match r {
                Some(t) => self.spec_content_type(ext@) == Some(t@),
                None => self.spec_content_type(ext@) is None,
            },
    {
        match self.by_ext.get(ext) {
            Some(info) => match &info.content_type {
                Some(t) => Some(copy_str(t.as_str())),
                None => None,
            },
            None => None,
        }
    }

    /// The category of files with extension `ext`.
    pub fn ext_to_file_category(&self, ext: &String) -> (r: Option<FileCategory>)
        ensures
            r == self.spec_category(ext@),
    {
        match self.by_ext.get(ext) {
            Some(info) => info.category,
            None => None,
        }
    }
}

/// Which files a view loads the content of: those of the listed categories
/// and those with the listed extensions.
#[derive(Debug)]
pub struct FilesFilter {
    pub categories: Vec<FileCategory>,
    pub exts: Vec<String>,
}

impl FilesFilter {
    pub open spec fn spec_matches(&self, ext: Option<Seq<char>>, category: FileCategory) -> bool {
        ||| self.categories@.contains(category)
        ||| (ext matches Some(e) && exists|i: int| 0 <= i < self.exts@.len() && #[trigger] self.exts@[i]@ == e)
    }

    /// Whether a file with extension `ext` and category `category` passes.
    pub fn matches(&self, ext: Option<&str>, category: &FileCategory) -> (r: bool)
        ensures
            r == self.spec_matches(
                match ext {
                    Some(e) => Some(e@),
                    None => None,
                },
                *category,
            ),
    {
        let n = self.categories.len();
        let mut i: usize = 0;
        while i < n
            invariant
                n == self.categories@.len(),
                i <= n,
                forall|j: int| 0 <= j < i ==> self.categories@[j] != *category,
            decreases n - i,
        {
            if self.categories[i] == *category {
                assert(self.categories@.contains(*category));
                return true;
            }
            i = i + 1;
        }
        assert(!self.categories@.contains(*category));
        match ext {
            None => false,
            Some(e) => {
                let m = self.exts.len();
                let mut k: usize = 0;
                while k < m
                    invariant
                        m == self.exts@.len(),
                        k <= m,
                        ext == Some(e),
                        !self.categories@.contains(*category),
                        forall|j: int| 0 <= j < k ==> self.exts@[j]@ != e@,
                    decreases m - k,
                {
                    if str_eq(self.exts[k].as_str(), e) {
                        assert(self.exts@[k as int]@ == e@);
                        return true;
                    }
                    k = k + 1;
                }
                false
            },
        }
    }
}

} // verus!
