use vrcs_core::models::{Subtitle, SubtitleTranslation};
use vrcs_core::subtitle_store::{
    group_rows, page_from, pending_migrations, saved_subtitle, SchemaTooNew,
};

fn row(id: i64, text: &str) -> Subtitle {
    Subtitle {
        id: Some(id),
        conversation_id: Some("c1".to_string()),
        text: text.to_string(),
        language: Some("en".to_string()),
        source: "speaker".to_string(),
        created_at: "2026-01-01T00:00:00Z".to_string(),
        translations: Vec::new(),
    }
}

fn translation(target: &str, text: &str) -> SubtitleTranslation {
    SubtitleTranslation {
        source_group: None,
        text: text.to_string(),
        source_language: Some("en".to_string()),
        target_language: target.to_string(),
        provider: "test".to_string(),
        model: None,
        created_at: "2026-01-01T00:00:01Z".to_string(),
    }
}

#[test]
fn a_fresh_store_runs_every_migration_in_order() {
    assert_eq!(pending_migrations(0).unwrap(), vec![1, 2, 3, 4]);
    assert_eq!(pending_migrations(2).unwrap(), vec![3, 4]);
}

#[test]
fn a_current_store_needs_no_migration() {
    assert!(pending_migrations(4).unwrap().is_empty());
}

#[test]
fn a_newer_store_is_refused() {
    assert_eq!(
        pending_migrations(5).unwrap_err(),
        SchemaTooNew { found: 5, supported: 4 }
    );
}

#[test]
fn joined_rows_fold_into_subtitles_with_their_translations() {
    let rows = vec![
        (row(3, "third"), Some(translation("ja", "三"))),
        (row(3, "third"), Some(translation("zh", "第三"))),
        (row(2, "second"), None),
        (row(1, "first"), Some(translation("ja", "一"))),
    ];
    let subtitles = group_rows(rows);
    assert_eq!(subtitles.len(), 3);
    assert_eq!(subtitles[0].id, Some(3));
    assert_eq!(subtitles[0].translations.len(), 2);
    assert_eq!(subtitles[0].translations[0].target_language, "ja");
    assert_eq!(subtitles[0].translations[1].target_language, "zh");
    assert_eq!(subtitles[1].id, Some(2));
    assert!(subtitles[1].translations.is_empty());
    assert_eq!(subtitles[2].text, "first");
    assert_eq!(subtitles[2].translations[0].text, "一");
}

#[test]
fn no_rows_give_no_subtitles() {
    assert!(group_rows(Vec::new()).is_empty());
}

#[test]
fn a_full_fetch_leaves_a_further_page() {
    let page = page_from(vec![row(5, "e"), row(4, "d"), row(3, "c")], 2);
    assert!(page.has_more);
    assert_eq!(page.items.len(), 2);
    assert_eq!(page.next_before_id, Some(4));
}

#[test]
fn a_short_fetch_is_the_last_page() {
    let page = page_from(vec![row(2, "b"), row(1, "a")], 2);
    assert!(!page.has_more);
    assert_eq!(page.items.len(), 2);
    assert_eq!(page.next_before_id, None);
}

#[test]
fn a_saved_subtitle_carries_its_new_id_and_no_translations() {
    let mut s = row(0, "hello");
    s.id = None;
    s.translations.push(translation("ja", "こんにちは"));
    let saved = saved_subtitle(s, 42, "c9".to_string());
    assert_eq!(saved.id, Some(42));
    assert_eq!(saved.conversation_id.as_deref(), Some("c9"));
    assert_eq!(saved.text, "hello");
    assert!(saved.translations.is_empty());
}
