use tiered_memory::file_handler::{FileInfo, FileManager, StorageStats};

#[test]
fn capacities_are_given_in_mebibytes() {
    let fm = FileManager::new(1024, 512);
    assert!(fm.loaded_files.is_empty());
    assert_eq!(fm.secondary_capacity, 1024 * 1024 * 1024);
    assert_eq!(fm.swap_capacity, 512 * 1024 * 1024);
    let none = FileManager::new(0, 0);
    assert_eq!(none.secondary_capacity, 0);
    assert_eq!(none.swap_capacity, 0);
}

#[test]
fn a_recorded_file_is_returned_and_kept() {
    let mut fm = FileManager::new(1, 1);
    let info = fm.record_file(Some("a.txt".to_string()), "/tmp/a.txt".to_string(), vec![1, 2, 3]);
    assert_eq!(info.name, "a.txt");
    assert_eq!(info.path, "/tmp/a.txt");
    assert_eq!(info.size, 3);
    assert_eq!(info.content, vec![1, 2, 3]);
    let files = fm.get_loaded_files();
    assert_eq!(files.len(), 1);
    assert_eq!(files[0].name, "a.txt");
    assert_eq!(files[0].path, "/tmp/a.txt");
    assert_eq!(files[0].size, 3);
    assert_eq!(files[0].content, vec![1, 2, 3]);
}

#[test]
fn a_file_without_a_name_is_called_unknown() {
    let mut fm = FileManager::new(1, 1);
    let info = fm.record_file(None, "..".to_string(), Vec::new());
    assert_eq!(info.name, "unknown");
    assert_eq!(info.size, 0);
    assert_eq!(fm.loaded_files[0].name, "unknown");
}

#[test]
fn the_name_is_the_final_component_of_the_path() {
    let mut fm = FileManager::new(1, 1);
    let info = fm.add_file("some/dir/summary.bin", vec![9; 10]);
    assert_eq!(info.name, "summary.bin");
    assert_eq!(info.path, "some/dir/summary.bin");
    assert_eq!(info.size, 10);
    let plain = fm.add_file("plain", vec![1]);
    assert_eq!(plain.name, "plain");
    let dots = fm.add_file("some/dir/..", Vec::new());
    assert_eq!(dots.name, "unknown");
    assert_eq!(dots.path, "some/dir/..");
    assert_eq!(fm.get_loaded_files().len(), 3);
    assert_eq!(fm.loaded_files[1].name, "plain");
}

#[test]
fn files_are_kept_in_loading_order() {
    let mut fm = FileManager::new(1, 1);
    fm.add_file("one", vec![1]);
    fm.add_file("two", vec![2, 2]);
    fm.add_file("one", vec![3, 3, 3]);
    let sizes: Vec<u64> = fm.get_loaded_files().iter().map(|f| f.size).collect();
    assert_eq!(sizes, vec![1, 2, 3]);
}

#[test]
fn storage_stats_of_an_empty_manager() {
    let fm = FileManager::new(2, 1);
    let stats = fm.get_storage_stats(0);
    assert_eq!(
        stats,
        StorageStats {
            secondary_total: 2 * 1024 * 1024,
            secondary_used: 0,
            secondary_available: 2 * 1024 * 1024,
            swap_total: 1024 * 1024,
            swap_used: 0,
            swap_available: 1024 * 1024,
            files_loaded: 0,
            total_file_size: 0,
        }
    );
}

#[test]
fn storage_stats_add_up_the_sizes() {
    let mut fm = FileManager::new(1, 1);
    fm.add_file("a", vec![0; 100]);
    fm.add_file("b", vec![0; 28]);
    let stats = fm.get_storage_stats(48);
    assert_eq!(stats.secondary_total, 1_048_576);
    assert_eq!(stats.secondary_used, 128);
    assert_eq!(stats.secondary_available, 1_048_576 - 128);
    assert_eq!(stats.swap_total, 1_048_576);
    assert_eq!(stats.swap_used, 48);
    assert_eq!(stats.swap_available, 1_048_576 - 48);
    assert_eq!(stats.files_loaded, 2);
    assert_eq!(stats.total_file_size, 128);
}

#[test]
fn available_space_does_not_go_below_zero() {
    let mut fm = FileManager::new(0, 0);
    fm.add_file("a", vec![0; 5]);
    let stats = fm.get_storage_stats(7);
    assert_eq!(stats.secondary_used, 5);
    assert_eq!(stats.secondary_available, 0);
    assert_eq!(stats.swap_used, 7);
    assert_eq!(stats.swap_available, 0);
}

#[test]
fn stats_go_by_the_recorded_size() {
    let mut fm = FileManager::new(1, 1);
    fm.loaded_files.push(FileInfo {
        name: "big".to_string(),
        path: "big".to_string(),
        size: 2_000_000,
        content: Vec::new(),
    });
    let stats = fm.get_storage_stats(0);
    assert_eq!(stats.total_file_size, 2_000_000);
    assert_eq!(stats.secondary_available, 0);
}

#[test]
fn clearing_forgets_the_files_only() {
    let mut fm = FileManager::new(3, 2);
    fm.add_file("a", vec![1]);
    fm.clear_files();
    assert!(fm.get_loaded_files().is_empty());
    assert_eq!(fm.secondary_capacity, 3 * 1024 * 1024);
    assert_eq!(fm.swap_capacity, 2 * 1024 * 1024);
    assert_eq!(fm.get_storage_stats(0).total_file_size, 0);
}

#[test]
fn an_empty_batch_is_no_batch() {
    assert!(FileManager::loaded_batch(Vec::new()).is_none());
    let mut fm = FileManager::new(1, 1);
    let info = fm.add_file("a", vec![1]);
    let batch = FileManager::loaded_batch(vec![info]).unwrap();
    assert_eq!(batch.len(), 1);
    assert_eq!(batch[0].name, "a");
}

#[test]
fn a_copy_of_a_file_record_is_equal_in_every_field() {
    let info = FileInfo {
        name: "n".to_string(),
        path: "p".to_string(),
        size: 2,
        content: vec![8, 9],
    };
    let copy = info.clone();
    assert_eq!(copy.name, "n");
    assert_eq!(copy.path, "p");
    assert_eq!(copy.size, 2);
    assert_eq!(copy.content, vec![8, 9]);
}

#[test]
fn the_total_size_is_checked_for_overflow() {
    let mut fm = FileManager::new(1, 1);
    assert_eq!(fm.checked_total_size(), Some(0));
    fm.add_file("a", vec![0; 3]);
    fm.add_file("b", vec![0; 4]);
    assert_eq!(fm.checked_total_size(), Some(7));
    fm.loaded_files.push(FileInfo {
        name: "huge".to_string(),
        path: "huge".to_string(),
        size: u64::MAX - 7,
        content: Vec::new(),
    });
    assert_eq!(fm.checked_total_size(), Some(u64::MAX));
    fm.loaded_files.push(FileInfo {
        name: "one".to_string(),
        path: "one".to_string(),
        size: 1,
        content: Vec::new(),
    });
    assert_eq!(fm.checked_total_size(), None);
}
