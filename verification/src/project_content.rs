//! Rules of the project-content dump: which directory entries are walked
//! into or collected, and how each collected file is written into the
//! Markdown document.

use crate::text::str_equals;
use vstd::prelude::*;

verus! {

/// Files larger than this many bytes are left out.
pub const MAX_FILE_SIZE: u64 = 1024 * 1024 * 2;

/// Entry names that are skipped wherever they occur, directory or not.
pub open spec fn spec_is_ignored_dir(name: Seq<char>) -> bool {
    ||| name == "node_modules"@
    ||| name == ".git"@
    ||| name == ".expo"@
    ||| name == "android"@
    ||| name == "dist"@
    ||| name == "build"@
    ||| name == "scripts"@
    ||| name == "postman-collections"@
    ||| name == "blueprints"@
    ||| name == "assets"@
    ||| name == "target"@
}

/// File names that are skipped.
pub open spec fn spec_is_ignored_file(name: Seq<char>) -> bool {
    ||| name == "full-project-content.md"@
    ||| name == ".env"@
    ||| name == "package-lock.json"@
    ||| name == "eslint.config.mts"@
    ||| name == "tsconfig.json"@
    ||| name == "README.md"@
    ||| name == "nodemon.json"@
    ||| name == ".gitignore"@
    ||| name == ".sentryclirc"@
    ||| name == "Cargo.lock"@
}

/// Whether an entry of this name is skipped wherever it occurs.
pub fn is_ignored_dir(name: &str) -> (ignored: bool)
    ensures
        ignored == spec_is_ignored_dir(name@),
{
    str_equals(name, "node_modules") || str_equals(name, ".git") || str_equals(name, ".expo")
        || str_equals(name, "android") || str_equals(name, "dist") || str_equals(name, "build")
        || str_equals(name, "scripts") || str_equals(name, "postman-collections")
        || str_equals(name, "blueprints") || str_equals(name, "assets") || str_equals(
        name,
        "target",
    )
}

/// Whether a file of this name is skipped.
pub fn is_ignored_file(name: &str) -> (ignored: bool)
    ensures
        ignored == spec_is_ignored_file(name@),
{
    str_equals(name, "full-project-content.md") || str_equals(name, ".env") || str_equals(
        name,
        "package-lock.json",
    ) || str_equals(name, "eslint.config.mts") || str_equals(name, "tsconfig.json")
        || str_equals(name, "README.md") || str_equals(name, "nodemon.json") || str_equals(
        name,
        ".gitignore",
    ) || str_equals(name, ".sentryclirc") || str_equals(name, "Cargo.lock")
}

/// What the file system says of an entry.
#[derive(Debug, Clone, Copy, PartialEq, Eq, Structural)]
pub struct EntryMetadata {
    pub is_dir: bool,
    pub len: u64,
}

/// What to do with a directory entry.
#[derive(Debug, Clone, Copy, PartialEq, Eq, Structural)]
pub enum EntryAction {
    /// Leave it out.
    Skip,
    /// Walk into it: it is a directory.
    Descend,
    /// Add it to the collected files.
    Collect,
}

/// What to do with an entry, given its name (absent when it is not valid
/// Unicode) and its metadata (absent when it could not be read).
pub open spec fn spec_classify_entry(name: Option<Seq<char>>, metadata: Option<EntryMetadata>) -> EntryAction {
    match name {
        None => EntryAction::Skip,
        Some(name) => if spec_is_ignored_dir(name) {
            EntryAction::Skip
        } else {
            match metadata {
                None => EntryAction::Skip,
                Some(meta) => if meta.is_dir {
                    EntryAction::Descend
                } else if spec_is_ignored_file(name) {
                    EntryAction::Skip
                } else if meta.len > MAX_FILE_SIZE {
                    EntryAction::Skip
                } else {
                    EntryAction::Collect
                },
            }
        },
    }
}

/// The view of an optional name.
pub open spec fn name_view(name: Option<&str>) -> Option<Seq<char>> {
    match name {
        Some(n) => Some(n@),
        None => None,
    }
}

/// What to do with a directory entry (see `spec_classify_entry`).
pub fn classify_entry(name: Option<&str>, metadata: Option<EntryMetadata>) -> (action: EntryAction)
    ensures
        action == spec_classify_entry(name_view(name), metadata),
{
    match name {
        None => EntryAction::Skip,
        Some(name) => {
            if is_ignored_dir(name) {
                EntryAction::Skip
            } else {
                match metadata {
                    None => EntryAction::Skip,
                    Some(meta) => {
                        if meta.is_dir {
                            EntryAction::Descend
                        } else if is_ignored_file(name) {
                            EntryAction::Skip
                        } else if meta.len > MAX_FILE_SIZE {
                            EntryAction::Skip
                        } else {
                            EntryAction::Collect
                        }
                    },
                }
            }
        },
    }
}

/// An entry is collected exactly when it is a readable, named file of at
/// most `MAX_FILE_SIZE` bytes whose name is on neither skip list; a
/// directory is walked into exactly when its name is not on the directory
/// skip list.
pub proof fn lemma_collected_entries(name: Option<Seq<char>>, metadata: Option<EntryMetadata>)
    ensures
        spec_classify_entry(name, metadata) == EntryAction::Collect <==> {
            &&& name is Some
            &&& !spec_is_ignored_dir(name->0)
            &&& !spec_is_ignored_file(name->0)
            &&& metadata is Some
            &&& !metadata->0.is_dir
            &&& metadata->0.len <= MAX_FILE_SIZE
        },
        spec_classify_entry(name, metadata) == EntryAction::Descend <==> {
            &&& name is Some
            &&& !spec_is_ignored_dir(name->0)
            &&& metadata is Some
            &&& metadata->0.is_dir
        },
{
}

/// The text that stands for a file that could not be read.
pub open spec fn unreadable_placeholder() -> Seq<char> {
    "[Could not read file]"@
}

/// The Markdown block of one file: its path, then its content in a code
/// fence, then a rule.
pub open spec fn spec_markdown_section(relative_path: Seq<char>, content: Seq<char>) -> Seq<char> {
    relative_path + "\n```\n"@ + content + "\n```\n-----\n"@
}

/// The content written for a file: what was read, or the placeholder.
pub open spec fn content_or_placeholder(content: Option<&str>) -> Seq<char> {
    match content {
        Some(c) => c@,
        None => unreadable_placeholder(),
    }
}

/// Appends the Markdown block of one file to the document.
pub fn append_markdown_section(document: &mut String, relative_path: &str, content: Option<&str>)
    ensures
        final(document)@ == old(document)@ + spec_markdown_section(
            relative_path@,
            content_or_placeholder(content),
        ),
{
    document.append(relative_path);
    document.append("\n```\n");
    match content {
        Some(c) => document.append(c),
        None => document.append("[Could not read file]"),
    }
    document.append("\n```\n-----\n");
    assert(final(document)@ =~= old(document)@ + spec_markdown_section(
        relative_path@,
        content_or_placeholder(content),
    ));
}

} // verus!
