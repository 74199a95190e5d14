use wayruler::project_content::{
    append_markdown_section, classify_entry, is_ignored_dir, is_ignored_file, EntryAction, EntryMetadata,
    MAX_FILE_SIZE,
};

fn file(len: u64) -> Option<EntryMetadata> {
    Some(EntryMetadata { is_dir: false, len })
}

fn dir() -> Option<EntryMetadata> {
    Some(EntryMetadata { is_dir: true, len: 4096 })
}

#[test]
fn max_file_size_is_two_mebibytes() {
    assert_eq!(MAX_FILE_SIZE, 2 * 1024 * 1024);
}

#[test]
fn ignored_names() {
    for name in ["node_modules", ".git", ".expo", "android", "dist", "build", "scripts",
        "postman-collections", "blueprints", "assets", "target"] {
        assert!(is_ignored_dir(name), "{}", name);
    }
    for name in ["full-project-content.md", ".env", "package-lock.json", "eslint.config.mts",
        "tsconfig.json", "README.md", "nodemon.json", ".gitignore", ".sentryclirc", "Cargo.lock"] {
        assert!(is_ignored_file(name), "{}", name);
    }
    assert!(!is_ignored_dir("src"));
    assert!(!is_ignored_dir("Build"));
    assert!(!is_ignored_file("main.rs"));
    assert!(!is_ignored_file("readme.md"));
}

#[test]
fn classify_directories() {
    assert_eq!(classify_entry(Some("src"), dir()), EntryAction::Descend);
    assert_eq!(classify_entry(Some("target"), dir()), EntryAction::Skip);
    assert_eq!(classify_entry(Some("README.md"), dir()), EntryAction::Descend);
}

#[test]
fn classify_files() {
    assert_eq!(classify_entry(Some("main.rs"), file(10)), EntryAction::Collect);
    assert_eq!(classify_entry(Some("Cargo.lock"), file(10)), EntryAction::Skip);
    assert_eq!(classify_entry(Some("build"), file(10)), EntryAction::Skip);
    assert_eq!(classify_entry(Some("big.bin"), file(MAX_FILE_SIZE)), EntryAction::Collect);
    assert_eq!(classify_entry(Some("big.bin"), file(MAX_FILE_SIZE + 1)), EntryAction::Skip);
}

#[test]
fn classify_unreadable_entries() {
    assert_eq!(classify_entry(None, file(1)), EntryAction::Skip);
    assert_eq!(classify_entry(Some("main.rs"), None), EntryAction::Skip);
    assert_eq!(classify_entry(Some("node_modules"), None), EntryAction::Skip);
}

#[test]
fn markdown_sections() {
    let mut doc = String::new();
    append_markdown_section(&mut doc, "src/main.rs", Some("fn main() {}"));
    assert_eq!(doc, "src/main.rs\n```\nfn main() {}\n```\n-----\n");
    append_markdown_section(&mut doc, "bin/data", None);
    assert_eq!(
        doc,
        "src/main.rs\n```\nfn main() {}\n```\n-----\nbin/data\n```\n[Could not read file]\n```\n-----\n"
    );
}
