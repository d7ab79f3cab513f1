use sam::config::{
    dirty_since_after, save_due, CachedCounts, Config, SortColumn, SortOrder,
};

#[test]
fn default_config_sorts_rarest_first() {
    let c = Config::default();
    assert_eq!(c.sort_column, SortColumn::Rarity);
    assert_eq!(c.sort_order, SortOrder::Ascending);
    assert_eq!(c.last_app_id, None);
    assert!(c.removed.is_empty());
    assert!(c.counts.is_empty());
}

#[test]
fn column_labels() {
    assert_eq!(SortColumn::Rarity.label(), "Rarity");
    assert_eq!(SortColumn::Name.label(), "Name");
    assert_eq!(SortColumn::State.label(), "State");
}

#[test]
fn counts_read_back_what_was_remembered() {
    let mut c = Config::default();
    assert_eq!(c.counts_for(10), None);
    c.remember_counts(10, 3, 12);
    assert_eq!(c.counts_for(10), Some(&CachedCounts { app_id: 10, unlocked: 3, total: 12 }));
    assert_eq!(c.counts_for(11), None);
}

#[test]
fn remembering_again_overwrites_in_place() {
    let mut c = Config::default();
    c.remember_counts(10, 3, 12);
    c.remember_counts(20, 0, 5);
    c.remember_counts(10, 12, 12);
    assert_eq!(
        c.counts,
        vec![
            CachedCounts { app_id: 10, unlocked: 12, total: 12 },
            CachedCounts { app_id: 20, unlocked: 0, total: 5 },
        ]
    );
    assert_eq!(c.counts_for(20), Some(&CachedCounts { app_id: 20, unlocked: 0, total: 5 }));
}

#[test]
fn the_first_entry_for_an_id_wins() {
    let mut c = Config::default();
    c.counts = vec![
        CachedCounts { app_id: 5, unlocked: 1, total: 2 },
        CachedCounts { app_id: 5, unlocked: 9, total: 9 },
    ];
    assert_eq!(c.counts_for(5), Some(&CachedCounts { app_id: 5, unlocked: 1, total: 2 }));
    c.remember_counts(5, 4, 4);
    assert_eq!(c.counts[0], CachedCounts { app_id: 5, unlocked: 4, total: 4 });
    assert_eq!(c.counts[1], CachedCounts { app_id: 5, unlocked: 9, total: 9 });
}

#[test]
fn remembering_counts_leaves_the_rest_of_the_config() {
    let mut c = Config::default();
    c.sort_column = SortColumn::Name;
    c.sort_order = SortOrder::Descending;
    c.last_app_id = Some(7);
    c.remember_counts(1, 1, 1);
    assert_eq!(c.sort_column, SortColumn::Name);
    assert_eq!(c.sort_order, SortOrder::Descending);
    assert_eq!(c.last_app_id, Some(7));
}

#[test]
fn settings_are_written_two_seconds_after_the_first_change() {
    assert_eq!(dirty_since_after(false, None, 100), None);
    assert_eq!(dirty_since_after(true, None, 100), Some(100));
    assert_eq!(dirty_since_after(true, Some(100), 900), Some(100));
    assert_eq!(dirty_since_after(false, Some(100), 900), Some(100));
    assert!(!save_due(None, 5000));
    assert!(!save_due(Some(100), 2099));
    assert!(save_due(Some(100), 2100));
    assert!(save_due(Some(100), 9000));
    assert!(!save_due(Some(9000), 100));
}
