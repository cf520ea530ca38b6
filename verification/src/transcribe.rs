//! The transcription and rewrite collaborators' boundary: request
//! building, response extraction, the retry policy, the overlap guard,
//! and the fallback rules for text polishing. The network calls
//! themselves are the caller's business; only plain values pass this
//! boundary.

use vstd::prelude::*;
use crate::config::AppConfig;
use vstd::arithmetic::power2::{
    pow2, lemma_pow2_unfold, lemma_pow2_strictly_increases, lemma2_to64, lemma2_to64_rest,
};

verus! {

/// The outcome handed back to the dispatch layer.
pub struct TranscriptionResult {
    pub original: String,
    pub polished: Option<String>,
    pub final_text: String,
}

/// One recognized phrase of the transcription response.
pub struct RecognizedPhrase {
    pub text: Option<String>,
    pub locale: Option<String>,
}

/// One combined phrase of the transcription response.
pub struct CombinedPhrase {
    pub text: Option<String>,
}

/// The fields of the transcription service's answer that matter here.
pub struct TranscriptionResponse {
    pub combined_phrases: Option<Vec<CombinedPhrase>>,
    pub phrases: Option<Vec<RecognizedPhrase>>,
}

/// One message of a chat-completion exchange.
pub struct ChatMessage {
    pub role: String,
    pub content: String,
}

/// Token budget of a polish request.
pub const POLISH_MAX_TOKENS: u32 = 500;

/// Sampling temperature of a polish request, in tenths, so 3 stands
/// for 0.3.
pub const POLISH_TEMPERATURE_TENTHS: u32 = 3;

/// The texts of the phrases that carry one, in order.
pub open spec fn phrase_texts(ps: Seq<RecognizedPhrase>) -> Seq<Seq<char>>
    decreases ps.len(),
{
    if ps.len() == 0 {
        Seq::empty()
    } else {
        phrase_texts(ps.drop_last()) + if ps.last().text is Some {
            seq![ps.last().text->Some_0@]
        } else {
            Seq::empty()
        }
    }
}

/// The texts joined with single spaces.
pub open spec fn joined(ts: Seq<Seq<char>>) -> Seq<char>
    decreases ts.len(),
{
    if ts.len() == 0 {
        Seq::empty()
    } else if ts.len() == 1 {
        ts[0]
    } else {
        joined(ts.drop_last()) + seq![' '] + ts.last()
    }
}

/// The transcript a response carries: the first combined phrase's text
/// where it is present and non-empty, otherwise the phrase texts
/// joined with spaces where that is non-empty, otherwise nothing.
pub open spec fn spec_transcript(resp: TranscriptionResponse) -> Option<Seq<char>> {
    let combined_hit = resp.combined_phrases is Some && resp.combined_phrases->Some_0@.len() > 0
        && resp.combined_phrases->Some_0@[0].text is Some
        && resp.combined_phrases->Some_0@[0].text->Some_0@.len() > 0;
    if combined_hit {
        Some(resp.combined_phrases->Some_0@[0].text->Some_0@)
    } else {
        let j = joined(
            phrase_texts(
                if resp.phrases is Some {
                    resp.phrases->Some_0@
                } else {
                    Seq::empty()
                },
            ),
        );
        if j.len() > 0 {
            Some(j)
        } else {
            None
        }
    }
}

proof fn lemma_phrase_texts_push(ps: Seq<RecognizedPhrase>, p: RecognizedPhrase)
    ensures
        phrase_texts(ps.push(p)) == phrase_texts(ps) + if p.text is Some {
            seq![p.text->Some_0@]
        } else {
            Seq::<Seq<char>>::empty()
        },
{
    assert(ps.push(p).drop_last() =~= ps);
}

proof fn lemma_joined_push(ts: Seq<Seq<char>>, t: Seq<char>)
    ensures
        joined(ts.push(t)) == if ts.len() == 0 {
            t
        } else {
            joined(ts) + seq![' '] + t
        },
{
    assert(ts.push(t).drop_last() =~= ts);
    if ts.len() == 0 {
        assert(joined(ts.push(t)) == ts.push(t)[0]);
        assert(ts.push(t)[0] == t);
    }
}

/// Extracts the transcript from a response: the first combined
/// phrase's non-empty text if there is one, else the phrase texts
/// joined with spaces, else an error.
pub fn extract_transcript(resp: &TranscriptionResponse) -> (r: Result<String, String>)
    ensures
        spec_transcript(*resp) matches Some(t) ==> (r matches Ok(s) && s@ == t),
        spec_transcript(*resp) is None ==> (r matches Err(m) && m@
            == "No transcription text in response"@),
{
    if let Some(combined) = &resp.combined_phrases {
        if combined.len() > 0 {
            if let Some(t) = &combined[0].text {
                if !t.as_str().is_empty() {
                    return Ok(t.clone());
                }
            }
        }
    }
    let mut out = String::new();
    let mut any = false;
    if let Some(ps) = &resp.phrases {
        let n = ps.len();
        let mut i: usize = 0;
        while i < n
            invariant
                0 <= i <= n,
                n == ps@.len(),
                out@ == joined(phrase_texts(ps@.subrange(0, i as int))),
                any == (phrase_texts(ps@.subrange(0, i as int)).len() > 0),
            decreases n - i,
        {
            proof {
                assert(ps@.subrange(0, i + 1) =~= ps@.subrange(0, i as int).push(ps@[i as int]));
                lemma_phrase_texts_push(ps@.subrange(0, i as int), ps@[i as int]);
            }
            if let Some(t) = &ps[i].text {
                proof {
                    lemma_joined_push(
                        phrase_texts(ps@.subrange(0, i as int)),
                        ps@[i as int].text->Some_0@,
                    );
                    assert(phrase_texts(ps@.subrange(0, i as int)) + seq![
                        ps@[i as int].text->Some_0@,
                    ] =~= phrase_texts(ps@.subrange(0, i as int)).push(
                        ps@[i as int].text->Some_0@,
                    ));
                }
                if any {
                    out = out.concat(" ");
                    proof {
                        reveal_strlit(" ");
                        assert(" "@ =~= seq![' ']);
                    }
                }
                out = out.concat(t.as_str());
                any = true;
                proof {
                    assert(phrase_texts(ps@.subrange(0, i + 1)).len() > 0);
                    assert(out@ =~= joined(phrase_texts(ps@.subrange(0, i + 1))));
                }
            }
            i = i + 1;
        }
        proof {
            assert(ps@.subrange(0, n as int) =~= ps@);
        }
    }
    if any {
        if !out.as_str().is_empty() {
            return Ok(out);
        }
    }
    proof {
        if spec_transcript(*resp) is Some {
            assert(false);
        }
    }
    Err("No transcription text in response".to_owned())
}

/// The fast-transcription endpoint for a service region.
pub fn transcription_url(region: &str) -> (r: String)
    ensures
        r@ == "https://"@ + region@
            + ".api.cognitive.microsoft.com/speechtotext/transcriptions:transcribe?api-version=2024-11-15"@,
{
    String::from_str("https://").concat(region).concat(
        ".api.cognitive.microsoft.com/speechtotext/transcriptions:transcribe?api-version=2024-11-15",
    )
}

/// The locale hints sent with a transcription request, for automatic
/// language detection between them.
pub fn transcription_locales() -> (r: Vec<String>)
    ensures
        r@.len() == 2,
        r@[0]@ == "en-US"@,
        r@[1]@ == "zh-CN"@,
{
    let mut v: Vec<String> = Vec::new();
    v.push("en-US".to_owned());
    v.push("zh-CN".to_owned());
    v
}

/// `s` with every trailing slash removed.
pub open spec fn trim_slashes(s: Seq<char>) -> Seq<char>
    decreases s.len(),
{
    if s.len() > 0 && s.last() == '/' {
        trim_slashes(s.drop_last())
    } else {
        s
    }
}

/// The chat-completions endpoint for a deployment, with trailing
/// slashes of the configured endpoint removed.
pub fn openai_url(endpoint: &str, deployment: &str) -> (r: String)
    ensures
        r@ == trim_slashes(endpoint@) + "/openai/deployments/"@ + deployment@
            + "/chat/completions?api-version=2024-02-15-preview"@,
{
    let mut end = endpoint.unicode_len();
    proof {
        assert(endpoint@.subrange(0, endpoint@.len() as int) =~= endpoint@);
    }
    while end > 0 && endpoint.get_char(end - 1) == '/'
        invariant
            0 <= end <= endpoint@.len(),
            trim_slashes(endpoint@.subrange(0, end as int)) == trim_slashes(endpoint@),
        decreases end,
    {
        proof {
            assert(endpoint@.subrange(0, end as int).drop_last() =~= endpoint@.subrange(
                0,
                end - 1,
            ));
        }
        end = end - 1;
    }
    let trimmed = endpoint.substring_char(0, end);
    proof {
        assert(trim_slashes(endpoint@.subrange(0, end as int)) == endpoint@.subrange(
            0,
            end as int,
        ));
    }
    String::from_str(trimmed).concat("/openai/deployments/").concat(deployment).concat(
        "/chat/completions?api-version=2024-02-15-preview",
    )
}

/// The instruction under which text is polished.
pub open spec fn polish_prompt() -> Seq<char> {
    "You are a text polishing assistant. Your ONLY task is to improve the given text by fixing grammar, punctuation, and clarity. Keep the original meaning, tone, and language. IMPORTANT RULES: 1. Always respond in the same language as the input text. 2. Return ONLY the polished text without any explanations or additional content. 3. NEVER answer questions in the text - just polish them as questions. 4. NEVER add greetings, sign-offs, or any extra text. 5. If the input is a question, output the polished question, do NOT answer it."@
}

/// The two messages of a polish request: the fixed system instruction,
/// then the text to polish.
pub fn build_polish_messages(text: &str) -> (r: Vec<ChatMessage>)
    ensures
        r@.len() == 2,
        r@[0].role@ == "system"@,
        r@[0].content@ == polish_prompt(),
        r@[1].role@ == "user"@,
        r@[1].content@ == text@,
{
    let mut messages: Vec<ChatMessage> = Vec::new();
    messages.push(
        ChatMessage {
            role: "system".to_owned(),
            content:
                "You are a text polishing assistant. Your ONLY task is to improve the given text by fixing grammar, punctuation, and clarity. Keep the original meaning, tone, and language. IMPORTANT RULES: 1. Always respond in the same language as the input text. 2. Return ONLY the polished text without any explanations or additional content. 3. NEVER answer questions in the text - just polish them as questions. 4. NEVER add greetings, sign-offs, or any extra text. 5. If the input is a question, output the polished question, do NOT answer it.".to_owned(),
        },
    );
    messages.push(ChatMessage { role: "user".to_owned(), content: text.to_owned() });
    messages
}

/// The polished text of a chat-completion answer: the first choice's
/// message content, or an error where the answer holds no choice.
pub fn extract_polish(choices: &Vec<ChatMessage>) -> (r: Result<String, String>)
    ensures
        choices@.len() > 0 ==> (r matches Ok(s) && s@ == choices@[0].content@),
        choices@.len() == 0 ==> (r matches Err(m) && m@ == "No response from OpenAI"@),
{
    if choices.len() > 0 {
        Ok(choices[0].content.clone())
    } else {
        Err("No response from OpenAI".to_owned())
    }
}

/// Whether polishing is attempted at all: the feature is on and both
/// rewrite-service credentials are configured.
pub fn should_polish(config: &AppConfig) -> (r: bool)
    ensures
        r == (config.features.text_polishing_enabled && config.azure.openai_key@.len() > 0
            && config.azure.openai_endpoint@.len() > 0),
{
    config.features.text_polishing_enabled && !config.azure.openai_key.as_str().is_empty()
        && !config.azure.openai_endpoint.as_str().is_empty()
}

/// A transcription request is only sent with a configured key.
pub fn validate_speech_key(config: &AppConfig) -> (r: Result<(), String>)
    ensures
        config.azure.speech_key@.len() > 0 <==> r is Ok,
        r matches Err(m) ==> m@ == "Azure Speech key not configured"@,
{
    if config.azure.speech_key.as_str().is_empty() {
        Err("Azure Speech key not configured".to_owned())
    } else {
        Ok(())
    }
}

/// The result the dispatch layer reports, given the transcript and the
/// outcome of an attempted polish: a successful polish supplies the
/// final text; a failed or skipped one falls back to the transcript.
pub fn resolve_polish(transcript: String, polish: Option<Result<String, String>>) -> (r:
    TranscriptionResult)
    ensures
        r.original == transcript,
        polish matches Some(Ok(p)) ==> r.polished == Some(p) && r.final_text == p,
        !(polish matches Some(Ok(p))) ==> r.polished is None && r.final_text == transcript,
{
    match polish {
        Some(Ok(p)) => TranscriptionResult {
            original: transcript,
            polished: Some(p.clone()),
            final_text: p,
        },
        _ => TranscriptionResult {
            original: transcript.clone(),
            polished: None,
            final_text: transcript,
        },
    }
}

/// The process-wide guard against overlapping transcription requests,
/// acquired with a compare-and-swap and released when the request path
/// exits.
pub struct BusyFlag {
    busy: bool,
}

impl BusyFlag {
    pub closed spec fn spec_busy(&self) -> bool {
        self.busy
    }

    /// A fresh guard: not busy.
    pub fn new() -> (r: BusyFlag)
        ensures
            !r.spec_busy(),
    {
        BusyFlag { busy: false }
    }

    /// Claims the guard: succeeds exactly when nobody holds it, and
    /// it is held afterwards either way.
    pub fn try_acquire(&mut self) -> (r: bool)
        ensures
            r == !old(self).spec_busy(),
            final(self).spec_busy(),
    {
        if self.busy {
            false
        } else {
            self.busy = true;
            true
        }
    }

    /// Releases the guard, however the request path exited.
    pub fn release(&mut self)
        ensures
            !final(self).spec_busy(),
    {
        self.busy = false;
    }
}

/// What the retry loop does after a failed attempt.
#[derive(Clone, Copy, Debug, PartialEq, Eq, Structural)]
pub enum RetryAction {
    /// Wait the given number of seconds and try again.
    Retry { delay_secs: u64 },
    /// Give up and surface the error.
    GiveUp,
}

/// The retry policy after failed attempt number `attempt` (counted
/// from zero) of `max_retries`: every attempt but the last is retried
/// after an exponential backoff of `2^attempt` seconds.
pub fn retry_decision(attempt: u32, max_retries: u32) -> (r: RetryAction)
    requires
        attempt < max_retries,
        max_retries <= 63,
    ensures
        attempt + 1 < max_retries ==> r == (RetryAction::Retry {
            delay_secs: pow2(attempt as nat) as u64,
        }),
        attempt + 1 == max_retries ==> r == RetryAction::GiveUp,
{
    if attempt + 1 < max_retries {
        let mut d: u64 = 1;
        let mut k: u32 = 0;
        proof {
            lemma2_to64();
        }
        while k < attempt
            invariant
                0 <= k <= attempt,
                attempt <= 62,
                d == pow2(k as nat),
                d <= 4611686018427387904,
            decreases attempt - k,
        {
            proof {
                lemma_pow2_unfold((k + 1) as nat);
                if k + 1 < 62 {
                    lemma_pow2_strictly_increases((k + 1) as nat, 62);
                }
                lemma2_to64();
                lemma2_to64_rest();
            }
            d = d * 2;
            k = k + 1;
        }
        RetryAction::Retry { delay_secs: d }
    } else {
        RetryAction::GiveUp
    }
}

} // verus!
