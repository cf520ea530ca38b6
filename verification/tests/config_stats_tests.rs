use fluxvoice::config::{default_speech_languages, AppConfig, LanguageConfig};
use fluxvoice::stats::{
    apply_usage, date_string, get_today_date, push_history_front, DailyStats,
    TranscriptionHistoryItem, UsageStats, WindowPosition,
};

#[test]
fn default_config_values() {
    let c = AppConfig::default();
    assert_eq!(c.azure.speech_key, "");
    assert_eq!(c.azure.speech_region, "eastus");
    assert_eq!(c.azure.openai_deployment, "gpt-4");
    assert_eq!(c.hotkey.modifier1, "Ctrl");
    assert_eq!(c.hotkey.modifier2.as_deref(), Some("Shift"));
    assert_eq!(c.hotkey.key, "Z");
    assert_eq!(c.language.speech_languages, vec!["en-US"]);
    assert_eq!(c.language.model_version, "latest");
    assert_eq!(c.ui.width, 300);
    assert_eq!(c.ui.height, 100);
    assert_eq!(c.ui.opacity_hundredths, 90);
    assert_eq!(c.ui.theme, "light");
    assert!(c.features.text_polishing_enabled);
    assert!(c.features.auto_insert_enabled);
}

#[test]
fn migrate_keeps_a_populated_language_list() {
    let mut lang = LanguageConfig {
        speech_languages: vec!["de-DE".to_string()],
        model_version: "latest".to_string(),
        legacy_language: Some("en-US".to_string()),
    };
    lang.migrate();
    assert_eq!(lang.speech_languages, vec!["de-DE"]);
    assert_eq!(lang.legacy_language.as_deref(), Some("en-US"));
}

#[test]
fn migrate_moves_the_legacy_language() {
    let mut lang = LanguageConfig {
        speech_languages: Vec::new(),
        model_version: String::new(),
        legacy_language: Some("zh-CN".to_string()),
    };
    lang.migrate();
    assert_eq!(lang.speech_languages, vec!["zh-CN"]);
    assert_eq!(lang.legacy_language, None);
}

#[test]
fn migrate_falls_back_to_the_default_language() {
    let mut lang = LanguageConfig {
        speech_languages: Vec::new(),
        model_version: String::new(),
        legacy_language: None,
    };
    lang.migrate();
    assert_eq!(lang.speech_languages, default_speech_languages());
    assert_eq!(lang.speech_languages, vec!["en-US"]);
}

fn item(text: &str) -> TranscriptionHistoryItem {
    TranscriptionHistoryItem {
        original: text.to_string(),
        polished: None,
        final_text: text.to_string(),
        timestamp: 1,
        audio_data: None,
    }
}

#[test]
fn history_items_go_in_front() {
    let mut history = vec![item("old")];
    push_history_front(&mut history, item("new"));
    assert_eq!(history.len(), 2);
    assert_eq!(history[0].original, "new");
    assert_eq!(history[1].original, "old");
}

#[test]
fn window_position_fields() {
    let p = WindowPosition { x: -3, y: 17 };
    assert_eq!(p.x, -3);
    assert_eq!(p.y, 17);
}

#[test]
fn date_string_epoch() {
    assert_eq!(date_string(0), "1970-01-01");
}

#[test]
fn date_string_simple_calendar() {
    // 370 days after the epoch: year 1971, day-of-year 5.
    let secs = 370 * 86400;
    assert_eq!(date_string(secs), "1971-01-06");
    // Day-of-year 360 clamps the month to 12.
    let secs = (365 + 360) * 86400;
    assert_eq!(date_string(secs), "1971-12-01");
}

#[test]
fn today_date_has_the_expected_shape() {
    let today = get_today_date();
    let bytes = today.as_bytes();
    assert!(bytes.len() >= 10);
    assert_eq!(bytes[bytes.len() - 3], b'-');
    assert_eq!(bytes[bytes.len() - 6], b'-');
}

#[test]
fn usage_update_creates_todays_bucket() {
    let mut stats = UsageStats::new();
    let today = "2024-05-01".to_string();
    apply_usage(&mut stats, 12, 1500, &today);
    assert_eq!(stats.total_transcriptions, 1);
    assert_eq!(stats.total_characters, 12);
    assert_eq!(stats.total_duration_ms, 1500);
    assert_eq!(stats.daily_stats.len(), 1);
    assert_eq!(stats.daily_stats[0].date, "2024-05-01");
    assert_eq!(stats.daily_stats[0].transcription_count, 1);
}

#[test]
fn usage_update_grows_an_existing_bucket() {
    let mut stats = UsageStats::new();
    let today = "2024-05-01".to_string();
    apply_usage(&mut stats, 10, 1000, &today);
    apply_usage(&mut stats, 5, 500, &today);
    assert_eq!(stats.daily_stats.len(), 1);
    assert_eq!(stats.daily_stats[0].transcription_count, 2);
    assert_eq!(stats.daily_stats[0].total_characters, 15);
    assert_eq!(stats.daily_stats[0].total_duration_ms, 1500);
    assert_eq!(stats.total_transcriptions, 2);
}

#[test]
fn usage_keeps_only_the_last_thirty_days() {
    let mut stats = UsageStats::new();
    for day in 1..=31u32 {
        stats.daily_stats.push(DailyStats {
            date: format!("2024-01-{:02}", day),
            transcription_count: 1,
            total_characters: 1,
            total_duration_ms: 1,
        });
        stats.total_transcriptions += 1;
    }
    let today = "2024-02-01".to_string();
    apply_usage(&mut stats, 1, 1, &today);
    assert_eq!(stats.daily_stats.len(), 30);
    assert_eq!(stats.daily_stats[29].date, "2024-02-01");
    assert_eq!(stats.daily_stats[0].date, "2024-01-03");
}
