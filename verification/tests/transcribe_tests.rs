use fluxvoice::config::AppConfig;
use fluxvoice::transcribe::{
    build_polish_messages, extract_polish, extract_transcript, openai_url, resolve_polish,
    retry_decision, should_polish, transcription_url, validate_speech_key, BusyFlag, ChatMessage,
    CombinedPhrase, RecognizedPhrase, RetryAction, TranscriptionResponse,
};

fn phrase(text: Option<&str>) -> RecognizedPhrase {
    RecognizedPhrase { text: text.map(|t| t.to_string()), locale: None }
}

#[test]
fn transcript_prefers_the_first_combined_phrase() {
    let resp = TranscriptionResponse {
        combined_phrases: Some(vec![
            CombinedPhrase { text: Some("hello world".to_string()) },
            CombinedPhrase { text: Some("ignored".to_string()) },
        ]),
        phrases: Some(vec![phrase(Some("fallback"))]),
    };
    assert_eq!(extract_transcript(&resp).unwrap(), "hello world");
}

#[test]
fn transcript_falls_back_to_joined_phrases() {
    let resp = TranscriptionResponse {
        combined_phrases: Some(vec![CombinedPhrase { text: Some(String::new()) }]),
        phrases: Some(vec![phrase(Some("one")), phrase(None), phrase(Some("two"))]),
    };
    assert_eq!(extract_transcript(&resp).unwrap(), "one two");
}

#[test]
fn transcript_missing_everywhere_is_an_error() {
    let resp = TranscriptionResponse { combined_phrases: None, phrases: None };
    assert_eq!(
        extract_transcript(&resp).unwrap_err(),
        "No transcription text in response"
    );
    let empty = TranscriptionResponse {
        combined_phrases: Some(Vec::new()),
        phrases: Some(vec![phrase(None)]),
    };
    assert!(extract_transcript(&empty).is_err());
}

#[test]
fn transcription_url_embeds_the_region() {
    assert_eq!(
        transcription_url("eastus"),
        "https://eastus.api.cognitive.microsoft.com/speechtotext/transcriptions:transcribe?api-version=2024-11-15"
    );
}

#[test]
fn openai_url_trims_trailing_slashes() {
    assert_eq!(
        openai_url("https://x.example//", "gpt-4"),
        "https://x.example/openai/deployments/gpt-4/chat/completions?api-version=2024-02-15-preview"
    );
    assert_eq!(
        openai_url("https://x.example", "d"),
        "https://x.example/openai/deployments/d/chat/completions?api-version=2024-02-15-preview"
    );
}

#[test]
fn polish_messages_carry_the_instruction_and_the_text() {
    let msgs = build_polish_messages("fix me");
    assert_eq!(msgs.len(), 2);
    assert_eq!(msgs[0].role, "system");
    assert!(msgs[0].content.starts_with("You are a text polishing assistant."));
    assert_eq!(msgs[1].role, "user");
    assert_eq!(msgs[1].content, "fix me");
}

#[test]
fn polish_extraction_takes_the_first_choice() {
    let choices = vec![
        ChatMessage { role: "assistant".to_string(), content: "Polished.".to_string() },
        ChatMessage { role: "assistant".to_string(), content: "Other.".to_string() },
    ];
    assert_eq!(extract_polish(&choices).unwrap(), "Polished.");
    let none: Vec<ChatMessage> = Vec::new();
    assert_eq!(extract_polish(&none).unwrap_err(), "No response from OpenAI");
}

#[test]
fn polishing_is_attempted_only_with_credentials() {
    let mut config = AppConfig::default();
    assert!(!should_polish(&config)); // endpoint and key are empty
    config.azure.openai_key = "k".to_string();
    config.azure.openai_endpoint = "https://e".to_string();
    assert!(should_polish(&config));
    config.features.text_polishing_enabled = false;
    assert!(!should_polish(&config));
}

#[test]
fn transcription_needs_a_speech_key() {
    let mut config = AppConfig::default();
    assert_eq!(
        validate_speech_key(&config).unwrap_err(),
        "Azure Speech key not configured"
    );
    config.azure.speech_key = "some-key".to_string();
    assert!(validate_speech_key(&config).is_ok());
}

#[test]
fn polish_fallback_keeps_the_transcript() {
    let ok = resolve_polish("raw".to_string(), Some(Ok("nice".to_string())));
    assert_eq!(ok.original, "raw");
    assert_eq!(ok.polished.as_deref(), Some("nice"));
    assert_eq!(ok.final_text, "nice");

    let failed = resolve_polish("raw".to_string(), Some(Err("boom".to_string())));
    assert_eq!(failed.original, "raw");
    assert_eq!(failed.polished, None);
    assert_eq!(failed.final_text, "raw");

    let skipped = resolve_polish("raw".to_string(), None);
    assert_eq!(skipped.final_text, "raw");
    assert_eq!(skipped.polished, None);
}

#[test]
fn busy_flag_rejects_overlapping_requests() {
    let mut flag = BusyFlag::new();
    assert!(flag.try_acquire());
    assert!(!flag.try_acquire());
    flag.release();
    assert!(flag.try_acquire());
}

#[test]
fn retry_policy_backs_off_exponentially() {
    assert_eq!(retry_decision(0, 2), RetryAction::Retry { delay_secs: 1 });
    assert_eq!(retry_decision(1, 2), RetryAction::GiveUp);
    assert_eq!(retry_decision(3, 5), RetryAction::Retry { delay_secs: 8 });
    assert_eq!(retry_decision(4, 5), RetryAction::GiveUp);
}

#[test]
fn transcription_locale_hints() {
    assert_eq!(
        fluxvoice::transcribe::transcription_locales(),
        vec!["en-US".to_string(), "zh-CN".to_string()]
    );
}
