//! The configuration message, and the settings that it is made of.

use crate::config::{AsrConfig, ConfigView};
use crate::error::{AsrError, ErrorView};
use crate::json;
use crate::json::JsonView;
use crate::json::{empty_object, flag_value, integer_value, set_member, text_array_value, text_value};
use crate::provider::SonioxAsrProvider;
use crate::text;
use crate::text::{same_text, trim};
use vstd::prelude::*;
use vstd::string::*;

verus! {

/// The endpoint of the service.
pub const DEFAULT_URL: &'static str = "wss://stt-rt.soniox.com/transcribe-websocket";

/// The model that is asked for unless the settings name another.
pub const DEFAULT_MODEL: &'static str = "stt-rt-v5";

/// The API key of the settings: `api_key`, or else `access_key`.
pub open spec fn resolved_api_key(config: ConfigView) -> Result<Seq<char>, ErrorView> {
    if config.api_key.len() > 0 {
        Ok(config.api_key)
    } else if config.access_key.len() > 0 {
        Ok(config.access_key)
    } else {
        Err(ErrorView::Connection("API key is required"@))
    }
}

/// The endpoint of the settings, or else the service's own.
pub open spec fn resolved_url(config: ConfigView) -> Seq<char> {
    if config.url.len() == 0 {
        DEFAULT_URL@
    } else {
        config.url
    }
}

/// The model of the settings, or else the default one.
pub open spec fn resolved_model(config: ConfigView) -> Seq<char> {
    if config.app_key.len() == 0 {
        DEFAULT_MODEL@
    } else {
        config.app_key
    }
}

/// Whether `c` ends the primary subtag of a language tag.
pub open spec fn subtag_separator(c: char) -> bool {
    c == '-' || c == '_'
}

/// The part of a language tag before its first separator.
pub open spec fn primary_subtag(tag: Seq<char>) -> Seq<char>
    decreases tag.len(),
{
    if tag.len() == 0 || subtag_separator(tag[0]) {
        Seq::empty()
    } else {
        seq![tag[0]] + primary_subtag(tag.subrange(1, tag.len() as int))
    }
}

/// The hint for a language: its primary subtag in lower case, or nothing where the service is to
/// find the language itself.
pub open spec fn hints_for(language: Option<Seq<char>>) -> Seq<Seq<char>> {
    match language {
        None => Seq::empty(),
        Some(language) => {
            let tag = text::trimmed(language);
            let hint = text::lowered(primary_subtag(tag));
            if tag.len() == 0 || text::lowered(tag) == "auto"@ || hint.len() == 0 {
                Seq::empty()
            } else {
                seq![hint]
            }
        },
    }
}

impl SonioxAsrProvider {
    /// The API key of the settings: `api_key`, or else `access_key`.
    pub fn resolve_api_key(config: &AsrConfig) -> (r: Result<String, AsrError>)
        ensures
            match r {
                Ok(key) => resolved_api_key(config@) == Ok::<Seq<char>, ErrorView>(key@),
                Err(error) => resolved_api_key(config@) == Err::<Seq<char>, ErrorView>(error@),
            },
    {
        if !config.api_key.as_str().is_empty() {
            return Ok(config.api_key.clone());
        }
        if !config.access_key.as_str().is_empty() {
            return Ok(config.access_key.clone());
        }
        Err(AsrError::Connection("API key is required".to_owned()))
    }

    /// The endpoint of the settings, or else the service's own.
    pub fn resolve_url(config: &AsrConfig) -> (r: String)
        ensures
            r@ == resolved_url(config@),
    {
        if config.url.as_str().is_empty() {
            DEFAULT_URL.to_owned()
        } else {
            config.url.clone()
        }
    }

    /// The model of the settings, or else the default one.
    pub fn resolve_model(config: &AsrConfig) -> (r: String)
        ensures
            r@ == resolved_model(config@),
    {
        if config.app_key.as_str().is_empty() {
            DEFAULT_MODEL.to_owned()
        } else {
            config.app_key.clone()
        }
    }

    /// The language of the settings as the service takes it: `zh-CN` and `zh_CN` give `zh`.
    pub fn language_hints(config: &AsrConfig) -> (r: Vec<String>)
        ensures
            r@.map_values(|hint: String| hint@) == hints_for(config@.language),
    {
        let mut hints: Vec<String> = Vec::new();
        if let Some(language) = &config.language {
            let tag = trim(language.as_str());
            if !tag.is_empty() && !same_text(tag.to_ascii_lowercase().as_str(), "auto") {
                let hint = primary(tag).to_ascii_lowercase();
                if !hint.as_str().is_empty() {
                    hints.push(hint);
                }
            }
        }
        assert(hints@.map_values(|hint: String| hint@) =~= hints_for(config@.language));
        hints
    }
}

/// The part of a language tag before its first separator.
fn primary(tag: &str) -> (r: &str)
    ensures
        r@ == primary_subtag(tag@),
{
    let len: usize = tag.unicode_len();
    let mut to: usize = 0;
    assert(tag@.subrange(0, len as int) =~= tag@);
    assert(tag@.subrange(0, 0) + primary_subtag(tag@) =~= primary_subtag(tag@));
    while to < len && tag.get_char(to) != '-' && tag.get_char(to) != '_'
        invariant
            to <= len == tag@.len(),
            primary_subtag(tag@) == tag@.subrange(0, to as int) + primary_subtag(
                tag@.subrange(to as int, len as int),
            ),
        decreases len - to,
    {
        proof {
            let rest = tag@.subrange(to as int, len as int);
            assert(rest.subrange(1, rest.len() as int) =~= tag@.subrange(to + 1, len as int));
            assert(tag@.subrange(0, to as int) + (seq![rest[0]] + primary_subtag(
                tag@.subrange(to + 1, len as int),
            )) =~= tag@.subrange(0, to + 1) + primary_subtag(tag@.subrange(to + 1, len as int)));
        }
        to = to + 1;
    }
    assert(primary_subtag(tag@) =~= tag@.subrange(0, to as int));
    tag.substring_char(0, to)
}

/// The members of every configuration message.
pub open spec fn common_members(config: ConfigView, api_key: Seq<char>) -> Map<
    Seq<char>,
    JsonView,
> {
    map![
        "api_key"@ => JsonView::Text(api_key),
        "model"@ => JsonView::Text(resolved_model(config)),
        "audio_format"@ => JsonView::Text("pcm_s16le"@),
        "sample_rate"@ => JsonView::Integer(config.sample_rate_hz as int),
        "num_channels"@ => JsonView::Integer(1),
        "enable_endpoint_detection"@ => JsonView::Bool(true),
    ]
}

/// The member that speaks of the language: hints where there are any, or else the wish that the
/// service find the language itself.
pub open spec fn language_member(config: ConfigView) -> Map<Seq<char>, JsonView> {
    let hints = hints_for(config.language);
    if hints.len() > 0 {
        map!["language_hints"@ => json::text_array(hints)]
    } else {
        map!["enable_language_identification"@ => JsonView::Bool(true)]
    }
}

/// The member that speaks of the words to expect, where there are any.
pub open spec fn context_member(config: ConfigView) -> Map<Seq<char>, JsonView> {
    if config.hotwords.len() > 0 {
        map!["context"@ => JsonView::Object(map!["terms"@ => json::text_array(config.hotwords)])]
    } else {
        Map::empty()
    }
}

/// The configuration message.
pub open spec fn config_message(config: ConfigView, api_key: Seq<char>) -> JsonView {
    JsonView::Object(
        common_members(config, api_key).union_prefer_right(
            language_member(config),
        ).union_prefer_right(context_member(config)),
    )
}

impl SonioxAsrProvider {
    /// The first message of a session: key, model, audio format, language and context.
    pub fn build_config_message(config: &AsrConfig, api_key: &str) -> (r: serde_json::Value)
        ensures
            json::value_view(r) == config_message(config@, api_key@),
    {
        let model = Self::resolve_model(config);
        let hints = Self::language_hints(config);

        let mut body = empty_object();
        set_member(&mut body, "api_key", text_value(api_key));
        set_member(&mut body, "model", text_value(model.as_str()));
        set_member(&mut body, "audio_format", text_value("pcm_s16le"));
        set_member(&mut body, "sample_rate", integer_value(config.sample_rate_hz));
        set_member(&mut body, "num_channels", integer_value(1));
        set_member(&mut body, "enable_endpoint_detection", flag_value(true));
        let ghost common = json::value_view(body)->Object_0;
        assert(common =~= common_members(config@, api_key@));

        if hints.len() > 0 {
            set_member(&mut body, "language_hints", text_array_value(hints.as_slice()));
        } else {
            set_member(&mut body, "enable_language_identification", flag_value(true));
        }
        let ghost spoken = json::value_view(body)->Object_0;
        assert(spoken =~= common.union_prefer_right(language_member(config@)));

        if config.hotwords.len() > 0 {
            let mut context = empty_object();
            set_member(&mut context, "terms", text_array_value(config.hotwords.as_slice()));
            assert(json::value_view(context)->Object_0 =~= map![
                "terms"@ => json::text_array(config@.hotwords)
            ]);
            set_member(&mut body, "context", context);
        }
        assert(json::value_view(body)->Object_0 =~= spoken.union_prefer_right(context_member(config@)));
        body
    }
}

} // verus!
