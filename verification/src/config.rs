//! Application configuration: the settings structures, their defaults,
//! and the migration of the legacy single-language field to the
//! language list. Reading and writing the configuration store is the
//! caller's business; only plain values pass this boundary.

use vstd::prelude::*;

verus! {

/// Credentials and endpoints of the transcription and rewrite
/// collaborators.
pub struct AzureConfig {
    pub speech_key: String,
    pub speech_region: String,
    pub openai_endpoint: String,
    pub openai_key: String,
    pub openai_deployment: String,
}

/// The configured hotkey combination, as names to be parsed.
pub struct HotkeyConfig {
    pub modifier1: String,
    pub modifier2: Option<String>,
    pub key: String,
}

/// Recognition languages and model choice.
pub struct LanguageConfig {
    pub speech_languages: Vec<String>,
    pub model_version: String,
    /// The legacy single-language field, kept only to be migrated.
    pub legacy_language: Option<String>,
}

/// Window geometry and appearance. Opacity is kept in hundredths, so
/// 90 stands for 0.90.
pub struct UIConfig {
    pub position_x: i32,
    pub position_y: i32,
    pub width: u32,
    pub height: u32,
    pub opacity_hundredths: u32,
    pub theme: String,
}

/// Feature switches.
pub struct FeatureConfig {
    pub text_polishing_enabled: bool,
    pub auto_insert_enabled: bool,
}

/// The whole configuration.
pub struct AppConfig {
    pub azure: AzureConfig,
    pub hotkey: HotkeyConfig,
    pub language: LanguageConfig,
    pub ui: UIConfig,
    pub features: FeatureConfig,
}

/// The language list used when none is configured.
pub fn default_speech_languages() -> (r: Vec<String>)
    ensures
        r@.len() == 1,
        r@[0]@ == "en-US"@,
{
    let mut v: Vec<String> = Vec::new();
    v.push("en-US".to_owned());
    v
}

impl LanguageConfig {
    /// Moves the legacy single language into the language list: where
    /// the list is empty it takes the legacy value if one is set, and
    /// the default language otherwise; a non-empty list is untouched.
    /// The legacy field never survives a migration of an empty list.
    pub fn migrate(&mut self)
        ensures
            final(self).model_version == old(self).model_version,
            old(self).speech_languages@.len() > 0 ==> final(self).speech_languages
                == old(self).speech_languages && final(self).legacy_language
                == old(self).legacy_language,
            old(self).speech_languages@.len() == 0 ==> final(self).legacy_language is None
                && final(self).speech_languages@.len() == 1,
            (old(self).speech_languages@.len() == 0 && old(self).legacy_language is Some)
                ==> final(self).speech_languages@[0] == old(self).legacy_language->Some_0,
            old(self).speech_languages@.len() == 0 && old(self).legacy_language is None
                ==> final(self).speech_languages@[0]@ == "en-US"@,
    {
        if self.speech_languages.len() == 0 {
            let legacy = self.legacy_language.take();
            match legacy {
                Some(old_lang) => {
                    let mut v: Vec<String> = Vec::new();
                    v.push(old_lang);
                    self.speech_languages = v;
                },
                None => {
                    self.speech_languages = default_speech_languages();
                },
            }
        }
    }
}

impl Default for AppConfig {
    /// The configuration a fresh installation starts from.
    fn default() -> (r: AppConfig)
        ensures
            r.azure.speech_key@ == Seq::<char>::empty(),
            r.azure.speech_region@ == "eastus"@,
            r.azure.openai_endpoint@ == Seq::<char>::empty(),
            r.azure.openai_key@ == Seq::<char>::empty(),
            r.azure.openai_deployment@ == "gpt-4"@,
            r.hotkey.modifier1@ == "Ctrl"@,
            r.hotkey.modifier2 matches Some(m) && m@ == "Shift"@,
            r.hotkey.key@ == "Z"@,
            r.language.speech_languages@.len() == 1,
            r.language.speech_languages@[0]@ == "en-US"@,
            r.language.model_version@ == "latest"@,
            r.language.legacy_language is None,
            r.ui.position_x == 0,
            r.ui.position_y == 0,
            r.ui.width == 300,
            r.ui.height == 100,
            r.ui.opacity_hundredths == 90,
            r.ui.theme@ == "light"@,
            r.features.text_polishing_enabled,
            r.features.auto_insert_enabled,
    {
        AppConfig {
            azure: AzureConfig {
                speech_key: String::new(),
                speech_region: "eastus".to_owned(),
                openai_endpoint: String::new(),
                openai_key: String::new(),
                openai_deployment: "gpt-4".to_owned(),
            },
            hotkey: HotkeyConfig {
                modifier1: "Ctrl".to_owned(),
                modifier2: Some("Shift".to_owned()),
                key: "Z".to_owned(),
            },
            language: LanguageConfig {
                speech_languages: default_speech_languages(),
                model_version: "latest".to_owned(),
                legacy_language: None,
            },
            ui: UIConfig {
                position_x: 0,
                position_y: 0,
                width: 300,
                height: 100,
                opacity_hundredths: 90,
                theme: "light".to_owned(),
            },
            features: FeatureConfig { text_polishing_enabled: true, auto_insert_enabled: true },
        }
    }
}

} // verus!
