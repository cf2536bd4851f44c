//! The settings that a recognition session is opened with.

use vstd::prelude::*;

verus! {

/// Settings of a recognition session.
#[derive(Debug, Clone, PartialEq, Eq)]
pub struct AsrConfig {
    /// The endpoint; the service's own when empty.
    pub url: String,
    /// The model; `DEFAULT_MODEL` when empty.
    pub app_key: String,
    /// The API key, used when `api_key` is empty.
    pub access_key: String,
    /// The API key.
    pub api_key: String,
    /// The spoken language, such as `zh-CN`; none, empty or `auto` leaves it to the service.
    pub language: Option<String>,
    /// Words that the service should expect.
    pub hotwords: Vec<String>,
    /// The sample rate of the audio.
    pub sample_rate_hz: u32,
    /// How long opening the connection may take.
    pub connect_timeout_ms: u64,
    /// Header names and values of the opening request, in the order in which they are set.
    pub custom_headers: Vec<(String, String)>,
}

/// What an `AsrConfig` says.
pub struct ConfigView {
    pub url: Seq<char>,
    pub app_key: Seq<char>,
    pub access_key: Seq<char>,
    pub api_key: Seq<char>,
    pub language: Option<Seq<char>>,
    pub hotwords: Seq<Seq<char>>,
    pub sample_rate_hz: u32,
    pub connect_timeout_ms: u64,
    pub custom_headers: Seq<(Seq<char>, Seq<char>)>,
}

impl View for AsrConfig {
    type V = ConfigView;

    open spec fn view(&self) -> ConfigView {
        ConfigView {
            url: self.url@,
            app_key: self.app_key@,
            access_key: self.access_key@,
            api_key: self.api_key@,
            language: match self.language {
                Some(language) => Some(language@),
                None => None,
            },
            hotwords: self.hotwords@.map_values(|word: String| word@),
            sample_rate_hz: self.sample_rate_hz,
            connect_timeout_ms: self.connect_timeout_ms,
            custom_headers: self.custom_headers@.map_values(
                |header: (String, String)| (header.0@, header.1@),
            ),
        }
    }
}

impl ConfigView {
    /// The settings of which none is made.
    pub open spec fn blank() -> ConfigView {
        ConfigView {
            url: Seq::empty(),
            app_key: Seq::empty(),
            access_key: Seq::empty(),
            api_key: Seq::empty(),
            language: None,
            hotwords: Seq::empty(),
            sample_rate_hz: 0,
            connect_timeout_ms: 0,
            custom_headers: Seq::empty(),
        }
    }
}

impl Default for AsrConfig {
    /// Settings of which none is made: texts and lists are empty, numbers are zero.
    fn default() -> (r: AsrConfig)
        ensures
            r@ == ConfigView::blank(),
    {
        let r = AsrConfig {
            url: String::new(),
            app_key: String::new(),
            access_key: String::new(),
            api_key: String::new(),
            language: None,
            hotwords: Vec::new(),
            sample_rate_hz: 0,
            connect_timeout_ms: 0,
            custom_headers: Vec::new(),
        };
        assert(r@.hotwords =~= Seq::<Seq<char>>::empty());
        assert(r@.custom_headers =~= Seq::<(Seq<char>, Seq<char>)>::empty());
        r
    }
}

} // verus!
