//! Transcription and translation of audio with the Granite Speech model capability.
use vstd::prelude::*;

use crate::capabilities::base::copy_dependencies;
use crate::capabilities::base::same_dependencies;
use crate::capabilities::base::ConfigureResult;
use crate::capabilities::base::Dependency;
use crate::launchers::base::env;
use crate::launchers::base::overlay_view;
use crate::launchers::base::EnvBinding;
use crate::registry::capabilities::is_model_dep;
use crate::registry::capabilities::is_tool_dep;
use crate::text::string_views;

verus! {

/// Transcription and translation of audio with the Granite Speech model.
pub struct SpeechCapability {
    pub id: String,
    pub name: String,
    pub description: String,
    pub dependencies: Vec<Dependency>,
}

impl SpeechCapability {
    /// The capability with its catalog description and dependencies.
    pub fn new() -> (c: Self)
        ensures
            c.id@ == "speech"@,
            c.name@ == "Audio Transcription"@,
            c.description@ == "Transcribe and translate audio files using Granite Speech models."@,
            c.dependencies@.len() == 1,
            is_model_dep(c.dependencies@[0], "granite-speech-1.0"@, true),
    {
        SpeechCapability {
            id: "speech".to_string(),
            name: "Audio Transcription".to_string(),
            description: "Transcribe and translate audio files using Granite Speech models.".to_string(),
            dependencies: vec![
                Dependency::Model { id: "granite-speech-1.0".to_string(), required: true },
            ],
        }
    }

    /// The capability's id.
    pub fn id(&self) -> (s: &str)
        ensures
            s@ == self.id@,
    {
        self.id.as_str()
    }

    /// The capability's name.
    pub fn name(&self) -> (s: &str)
        ensures
            s@ == self.name@,
    {
        self.name.as_str()
    }

    /// What the capability does.
    pub fn description(&self) -> (s: &str)
        ensures
            s@ == self.description@,
    {
        self.description.as_str()
    }

    /// What the capability depends on.
    pub fn dependencies(&self) -> (d: Vec<Dependency>)
        ensures
            same_dependencies(d@, self.dependencies@),
    {
        copy_dependencies(&self.dependencies)
    }

    /// What setting up says, given whether the speech model is configured.
    pub fn setup_message(model_configured: bool) -> (s: &'static str)
        ensures
            model_configured ==> s@ == "Granite Speech model is configured."@,
            !model_configured ==> s@ == "\nGranite Speech model is not configured. Run:\n  granite-cli model setup granite-speech-1.0\n\nSpeech capability requires the Granite Speech 1.0 model."@,
    {
        if model_configured {
            "Granite Speech model is configured."
        } else {
            "\nGranite Speech model is not configured. Run:\n  granite-cli model setup granite-speech-1.0\n\nSpeech capability requires the Granite Speech 1.0 model."
        }
    }

    /// The environment the capability adds to a launched tool.
    pub fn runtime_bindings(&self) -> (o: Vec<EnvBinding>)
        ensures
            overlay_view(o@) == seq![
                ("GRANITE_SPEECH_ENABLED"@, "true"@),
                ("GRANITE_SPEECH_MODEL"@, "granite-speech-1.0"@),
                ("GRANITE_SPEECH_LANGUAGES"@, "en,es,fr,de,zh"@),
            ],
    {
        let o = vec![
            env("GRANITE_SPEECH_ENABLED", "true"),
            env("GRANITE_SPEECH_MODEL", "granite-speech-1.0"),
            env("GRANITE_SPEECH_LANGUAGES", "en,es,fr,de,zh"),
        ];
        assert(overlay_view(o@) =~= seq![
            ("GRANITE_SPEECH_ENABLED"@, "true"@),
            ("GRANITE_SPEECH_MODEL"@, "granite-speech-1.0"@),
            ("GRANITE_SPEECH_LANGUAGES"@, "en,es,fr,de,zh"@),
        ]);
        o
    }
}

impl Default for SpeechCapability {
    /// The same as `new`.
    fn default() -> (c: Self)
        ensures
            c.id@ == "speech"@,
    {
        SpeechCapability::new()
    }
}

} // verus!
