use clawhive::memory::{build_memory_context, daily_entry, daily_files, daily_header, recent_daily, MemoryFileStore};

#[test]
fn memory_paths_and_entries() {
    let store = MemoryFileStore::new("/ws");
    assert_eq!(store.long_term_path(), "/ws/MEMORY.md");
    assert_eq!(store.daily_dir(), "/ws/memory");
    assert_eq!(store.daily_path((2026, 2, 13)), "/ws/memory/2026-02-13.md");
    assert_eq!(store.daily_path((2026, 1, 5)), "/ws/memory/2026-01-05.md");
    assert_eq!(daily_header((2026, 2, 13)), "# 2026-02-13\n\n");
    assert_eq!(daily_header((2026, 2, 30)), "# \n\n");
    assert_eq!(daily_entry("note"), "\nnote\n");
}

#[test]
fn daily_files_newest_first() {
    let names = vec![
        "2026-02-11.md".to_string(),
        "notes.txt".to_string(),
        "2026-02-13.md".to_string(),
        "2026-02-12.md".to_string(),
        "2026-13-01.md".to_string(),
        "README.md".to_string(),
    ];
    let files = daily_files(&names);
    let dates: Vec<(i32, u32, u32)> = files.iter().map(|(d, _)| *d).collect();
    assert_eq!(dates, vec![(2026, 2, 13), (2026, 2, 12), (2026, 2, 11)]);
    assert_eq!(files[0].1, "2026-02-13.md");
    let recent = recent_daily(files);
    assert_eq!(recent.len(), 3);
    assert_eq!(recent_daily(vec![((2026, 1, 1), "2026-01-01.md".to_string())]).len(), 1);
}

#[test]
fn memory_context_sections() {
    let recent = vec![((2026, 2, 13), "today".to_string()), ((2026, 2, 12), "yesterday".to_string())];
    assert_eq!(
        build_memory_context("long term", &recent),
        "[Memory Context]\n\nFrom MEMORY.md:\nlong term\n\nFrom memory/2026-02-13.md:\ntoday\n\nFrom memory/2026-02-12.md:\nyesterday"
    );
    let long = "x".repeat(2500);
    let ctx = build_memory_context(&long, &vec![]);
    assert_eq!(ctx.len(), "[Memory Context]\n\nFrom MEMORY.md:\n".len() + 2000);
}
