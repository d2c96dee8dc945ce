//! The values of live audio transcription: settings, results and errors of the
//! native core.
use crate::decimal;
use crate::error::{ErrorView, FoundryLocalError};
use crate::json;
use crate::json::JsonView;
use vstd::prelude::*;

verus! {

/// Audio format settings for a live transcription session.
///
/// They are read when a session starts. A change after that has no effect on
/// the session that runs.
#[derive(Debug, Clone)]
pub struct LiveAudioTranscriptionOptions {
    /// PCM sample rate in Hz. Default: 16000.
    pub sample_rate: i32,
    /// Number of audio channels. Default: 1 (mono).
    pub channels: i32,
    /// Number of bits per audio sample. Default: 16.
    pub bits_per_sample: i32,
    /// Optional BCP-47 language hint (e.g., `"en"`, `"zh"`).
    pub language: Option<String>,
    /// Maximum number of audio chunks buffered in the push queue.
    /// Default: 100 (~3 seconds of audio at typical chunk sizes).
    pub push_queue_capacity: usize,
}

impl Default for LiveAudioTranscriptionOptions {
    fn default() -> (res: Self)
        ensures
            res.sample_rate == 16000,
            res.channels == 1,
            res.bits_per_sample == 16,
            res.language is None,
            res.push_queue_capacity == 100,
    {
        LiveAudioTranscriptionOptions {
            sample_rate: 16000,
            channels: 1,
            bits_per_sample: 16,
            language: None,
            push_queue_capacity: 100,
        }
    }
}

/// A time offset in seconds, as the bits of an IEEE 754 double.
#[derive(Debug, Clone, Copy, PartialEq, Eq, Structural)]
pub struct Seconds {
    pub bits: u64,
}

/// A transcription result in the shape of the native core's JSON.
#[derive(Debug, Clone)]
pub struct LiveAudioTranscriptionRaw {
    pub is_final: bool,
    pub text: String,
    pub start_time: Option<Seconds>,
    pub end_time: Option<Seconds>,
}

/// A content part within a [`LiveAudioTranscriptionResponse`].
#[derive(Debug, Clone)]
pub struct ContentPart {
    /// The transcribed text.
    pub text: String,
    /// Same as `text`.
    pub transcript: String,
}

/// Transcription result from a live audio streaming session.
#[derive(Debug, Clone)]
pub struct LiveAudioTranscriptionResponse {
    /// Content parts. Access text via `result.content[0].text` or
    /// `result.content[0].transcript`.
    pub content: Vec<ContentPart>,
    /// Whether this is a final or partial (interim) result.
    pub is_final: bool,
    /// Start time offset of this segment in the audio stream.
    pub start_time: Option<Seconds>,
    /// End time offset of this segment in the audio stream.
    pub end_time: Option<Seconds>,
}

/// The view of a [`LiveAudioTranscriptionRaw`].
pub struct RawView {
    pub is_final: bool,
    pub text: Seq<char>,
    pub start_time: Option<Seconds>,
    pub end_time: Option<Seconds>,
}

/// The view of a [`LiveAudioTranscriptionResponse`], each content part as its
/// text and its transcript.
pub struct ResponseView {
    pub content: Seq<(Seq<char>, Seq<char>)>,
    pub is_final: bool,
    pub start_time: Option<Seconds>,
    pub end_time: Option<Seconds>,
}

impl View for LiveAudioTranscriptionRaw {
    type V = RawView;

    open spec fn view(&self) -> RawView {
        RawView {
            is_final: self.is_final,
            text: self.text@,
            start_time: self.start_time,
            end_time: self.end_time,
        }
    }
}

impl View for LiveAudioTranscriptionResponse {
    type V = ResponseView;

    open spec fn view(&self) -> ResponseView {
        ResponseView {
            content: self.content@.map_values(|part: ContentPart| (part.text@, part.transcript@)),
            is_final: self.is_final,
            start_time: self.start_time,
            end_time: self.end_time,
        }
    }
}

/// The response for a raw result: one content part, whose text and transcript
/// are both the text of the result, and everything else as it is.
pub open spec fn response_of(raw: RawView) -> ResponseView {
    ResponseView {
        content: seq![(raw.text, raw.text)],
        is_final: raw.is_final,
        start_time: raw.start_time,
        end_time: raw.end_time,
    }
}

/// Whether `res` is the response for a raw result, or the error that there is
/// none.
pub open spec fn is_response(
    res: Result<LiveAudioTranscriptionResponse, FoundryLocalError>,
    parsed: Result<LiveAudioTranscriptionRaw, serde_json::Error>,
) -> bool {
    match parsed {
        Ok(raw) => res matches Ok(response) && response@ == response_of(raw@),
        Err(cause) => res matches Err(e) && e@ == ErrorView::Serialization(cause),
    }
}

impl LiveAudioTranscriptionResponse {
    /// Parses a transcription response from the native core's JSON format.
    ///
    /// `parse` reads the text as a raw result. It is called once, on `json`.
    pub fn from_json<F: FnOnce(&str) -> Result<LiveAudioTranscriptionRaw, serde_json::Error>>(
        json: &str,
        parse: F,
    ) -> (res: Result<Self, FoundryLocalError>)
        requires
            call_requires(parse, (json,)),
        ensures
            exists|parsed: Result<LiveAudioTranscriptionRaw, serde_json::Error>| #[trigger]
                call_ensures(parse, (json,), parsed) && is_response(res, parsed),
    {
        let parsed = parse(json);
        let ghost answer = parsed;
        let res = Self::from_parsed(parsed);
        assert(call_ensures(parse, (json,), answer));
        res
    }

    /// The response for what became of parsing the native core's JSON.
    pub fn from_parsed(parsed: Result<LiveAudioTranscriptionRaw, serde_json::Error>) -> (res:
        Result<Self, FoundryLocalError>)
        ensures
            is_response(res, parsed),
    {
        match parsed {
            Ok(raw) => Ok(Self::from_raw(raw)),
            Err(cause) => Err(FoundryLocalError::from(cause)),
        }
    }

    /// The response for a raw result.
    pub fn from_raw(raw: LiveAudioTranscriptionRaw) -> (res: Self)
        ensures
            res@ == response_of(raw@),
            res.content@.len() == 1,
            res.content@[0].text@ == raw.text@,
            res.content@[0].transcript@ == raw.text@,
            res.is_final == raw.is_final,
            res.start_time == raw.start_time,
            res.end_time == raw.end_time,
    {
        let transcript = raw.text.clone();
        let mut content: Vec<ContentPart> = Vec::new();
        content.push(ContentPart { transcript, text: raw.text });
        let res = LiveAudioTranscriptionResponse {
            content,
            is_final: raw.is_final,
            start_time: raw.start_time,
            end_time: raw.end_time,
        };
        assert(res@.content =~= seq![(raw.text@, raw.text@)]);
        res
    }
}

/// Structured error response from the native core.
#[derive(Debug, Clone)]
pub struct CoreErrorResponse {
    /// Error code (e.g. `"ASR_SESSION_NOT_FOUND"`).
    pub code: String,
    /// Human-readable error message.
    pub message: String,
    /// Whether this error is transient (retryable).
    pub is_transient: bool,
}

impl CoreErrorResponse {
    /// Attempts to read a native error string as structured JSON. Returns `None` if
    /// the error is not valid JSON or does not match the schema.
    ///
    /// `parse` reads the text as a structured error. It is called once, on
    /// `error_string`.
    pub fn try_parse<F: FnOnce(&str) -> Result<CoreErrorResponse, serde_json::Error>>(
        error_string: &str,
        parse: F,
    ) -> (res: Option<Self>)
        requires
            call_requires(parse, (error_string,)),
        ensures
            exists|parsed: Result<CoreErrorResponse, serde_json::Error>| #[trigger]
                call_ensures(parse, (error_string,), parsed) && res == parsed.ok(),
    {
        let parsed = parse(error_string);
        let ghost answer = parsed;
        assert(call_ensures(parse, (error_string,), answer));
        match parsed {
            Ok(error) => Some(error),
            Err(_) => None,
        }
    }
}

/// A request whose parameters are the given fields.
pub open spec fn request_value(params: Map<Seq<char>, JsonView>) -> JsonView {
    JsonView::Object(json::no_fields().insert("Params"@, JsonView::Object(params)))
}

/// The parameters that start a session, each a string.
pub open spec fn start_params(
    model_id: Seq<char>,
    settings: LiveAudioTranscriptionOptions,
) -> Map<Seq<char>, JsonView> {
    let format = json::no_fields().insert("Model"@, JsonView::Text(model_id)).insert(
        "SampleRate"@,
        JsonView::Text(decimal::decimal(settings.sample_rate as int)),
    ).insert("Channels"@, JsonView::Text(decimal::decimal(settings.channels as int))).insert(
        "BitsPerSample"@,
        JsonView::Text(decimal::decimal(settings.bits_per_sample as int)),
    );
    match settings.language {
        Some(language) => format.insert("Language"@, JsonView::Text(language@)),
        None => format,
    }
}

/// The parameters that name a running session.
pub open spec fn handle_params(handle: Seq<char>) -> Map<Seq<char>, JsonView> {
    json::no_fields().insert("SessionHandle"@, JsonView::Text(handle))
}

fn request(params: serde_json::Map<String, serde_json::Value>) -> (res: serde_json::Value)
    ensures
        json::json_value(res) == request_value(json::json_fields(params)),
{
    let mut whole = json::new_object();
    json::insert_field(&mut whole, "Params", json::object_value(params));
    json::object_value(whole)
}

/// Builds the JSON request that starts a session.
pub fn build_start_request(model_id: &str, settings: &LiveAudioTranscriptionOptions) -> (res:
    serde_json::Value)
    ensures
        json::json_value(res) == request_value(start_params(model_id@, *settings)),
        json::json_value(res) matches JsonView::Object(whole) && whole["Params"@] matches
            JsonView::Object(params) && {
            &&& params["Model"@] == JsonView::Text(model_id@)
            &&& params["SampleRate"@] == JsonView::Text(decimal::decimal(settings.sample_rate as int))
            &&& params["Channels"@] == JsonView::Text(decimal::decimal(settings.channels as int))
            &&& params["BitsPerSample"@] == JsonView::Text(
                decimal::decimal(settings.bits_per_sample as int),
            )
            &&& params.contains_key("Language"@) <==> settings.language is Some
            &&& settings.language matches Some(language) ==> params["Language"@] == JsonView::Text(
                language@,
            )
        },
{
    proof {
        lemma_keys_differ();
        law_start_request_key_by_key(model_id@, *settings);
        assert(start_params(model_id@, *settings).dom().contains("Language"@)
            <==> settings.language is Some);
    }
    let mut params = json::new_object();
    json::insert_field(&mut params, "Model", json::text_value(model_id));
    let sample_rate = decimal::signed_text(settings.sample_rate);
    json::insert_field(&mut params, "SampleRate", json::text_value(sample_rate.as_str()));
    let channels = decimal::signed_text(settings.channels);
    json::insert_field(&mut params, "Channels", json::text_value(channels.as_str()));
    let bits_per_sample = decimal::signed_text(settings.bits_per_sample);
    json::insert_field(&mut params, "BitsPerSample", json::text_value(bits_per_sample.as_str()));
    if let Some(language) = &settings.language {
        json::insert_field(&mut params, "Language", json::text_value(language.as_str()));
    }
    request(params)
}

/// Builds the JSON request about a running session.
pub fn build_handle_request(handle: &str) -> (res: serde_json::Value)
    ensures
        json::json_value(res) == request_value(handle_params(handle@)),
        json::json_value(res) matches JsonView::Object(whole) && whole["Params"@] matches
            JsonView::Object(params) && params["SessionHandle"@] == JsonView::Text(handle@),
{
    proof {
        law_handle_request_names_the_session(handle@);
    }
    let mut params = json::new_object();
    json::insert_field(&mut params, "SessionHandle", json::text_value(handle));
    request(params)
}

/// A response for a raw result has exactly one content part. The text and the transcript of
/// it are the text of the result, and whether it is final and its times are those of the
/// result.
pub proof fn law_response_has_every_field_of_the_result(
    response: LiveAudioTranscriptionResponse,
    raw: LiveAudioTranscriptionRaw,
)
    requires
        response@ == response_of(raw@),
    ensures
        response.content@.len() == 1,
        response.content@[0].text@ == raw.text@,
        response.content@[0].transcript@ == raw.text@,
        response.is_final == raw.is_final,
        response.start_time == raw.start_time,
        response.end_time == raw.end_time,
{
    assert(response@.content.len() == 1);
    assert(response@.content[0] == (raw.text@, raw.text@));
}

/// Parsed JSON always leads to a response, whatever it holds, and JSON that did not parse
/// to the error of the parser.
pub proof fn law_parsed_results_are_never_refused(
    res: Result<LiveAudioTranscriptionResponse, FoundryLocalError>,
    parsed: Result<LiveAudioTranscriptionRaw, serde_json::Error>,
)
    requires
        is_response(res, parsed),
    ensures
        parsed matches Ok(raw) ==> (res matches Ok(response) && response.content@.len() == 1
            && response.content@[0].text@ == raw.text@ && response.content@[0].transcript@
            == raw.text@ && response.is_final == raw.is_final && response.start_time
            == raw.start_time && response.end_time == raw.end_time),
        parsed matches Err(cause) ==> res == Err::<LiveAudioTranscriptionResponse, FoundryLocalError>(
            FoundryLocalError::Serialization(cause),
        ),
{
    if let (Ok(response), Ok(raw)) = (res, parsed) {
        law_response_has_every_field_of_the_result(response, raw);
    }
}

proof fn lemma_keys_differ()
    ensures
        "Model"@ != "SampleRate"@,
        "Model"@ != "Channels"@,
        "Model"@ != "BitsPerSample"@,
        "Model"@ != "Language"@,
        "SampleRate"@ != "Channels"@,
        "SampleRate"@ != "BitsPerSample"@,
        "SampleRate"@ != "Language"@,
        "Channels"@ != "BitsPerSample"@,
        "Channels"@ != "Language"@,
        "BitsPerSample"@ != "Language"@,
{
    reveal_strlit("Model");
    reveal_strlit("SampleRate");
    reveal_strlit("Channels");
    reveal_strlit("BitsPerSample");
    reveal_strlit("Language");
    assert("Model"@[0] == 'M');
    assert("SampleRate"@[0] == 'S');
    assert("Channels"@[0] == 'C');
    assert("BitsPerSample"@[0] == 'B');
    assert("Language"@[0] == 'L');
}

/// The request that starts a session holds nothing but the parameters. These are the model
/// and the three numbers of the audio format in decimal, as they were set, and the language
/// exactly when one is set. There is no other parameter.
pub proof fn law_start_request_key_by_key(
    model_id: Seq<char>,
    settings: LiveAudioTranscriptionOptions,
)
    ensures
        request_value(start_params(model_id, settings)) matches JsonView::Object(whole) && {
            &&& whole.dom() == set!["Params"@]
            &&& whole["Params"@] matches JsonView::Object(params) && {
                &&& params["Model"@] == JsonView::Text(model_id)
                &&& params["SampleRate"@] == JsonView::Text(
                    decimal::decimal(settings.sample_rate as int),
                )
                &&& params["Channels"@] == JsonView::Text(decimal::decimal(settings.channels as int))
                &&& params["BitsPerSample"@] == JsonView::Text(
                    decimal::decimal(settings.bits_per_sample as int),
                )
                &&& settings.language matches Some(language) ==> params["Language"@]
                    == JsonView::Text(language@)
                &&& settings.language is Some ==> params.dom() == set![
                    "Model"@,
                    "SampleRate"@,
                    "Channels"@,
                    "BitsPerSample"@,
                    "Language"@,
                ]
                &&& settings.language is None ==> params.dom() == set![
                    "Model"@,
                    "SampleRate"@,
                    "Channels"@,
                    "BitsPerSample"@,
                ]
            }
        },
{
    lemma_keys_differ();
    let params = start_params(model_id, settings);
    let whole = json::no_fields().insert("Params"@, JsonView::Object(params));
    assert(whole.dom() =~= set!["Params"@]);
    if settings.language is Some {
        assert(params.dom() =~= set![
            "Model"@,
            "SampleRate"@,
            "Channels"@,
            "BitsPerSample"@,
            "Language"@,
        ]);
    } else {
        assert(params.dom() =~= set!["Model"@, "SampleRate"@, "Channels"@, "BitsPerSample"@]);
    }
}

/// Nothing that was set is lost in the request: the same request comes from the same model
/// and the same settings only. The capacity of the push queue is not part of it.
pub proof fn law_start_requests_differ_with_the_settings(
    a: Seq<char>,
    s: LiveAudioTranscriptionOptions,
    b: Seq<char>,
    t: LiveAudioTranscriptionOptions,
)
    requires
        request_value(start_params(a, s)) == request_value(start_params(b, t)),
    ensures
        a == b,
        s.sample_rate == t.sample_rate,
        s.channels == t.channels,
        s.bits_per_sample == t.bits_per_sample,
        s.language is Some <==> t.language is Some,
        s.language is Some ==> s.language->0@ == t.language->0@,
{
    lemma_keys_differ();
    law_start_request_key_by_key(a, s);
    law_start_request_key_by_key(b, t);
    let p = request_value(start_params(a, s))->Object_0["Params"@]->Object_0;
    assert(p.dom().contains("Language"@) <==> s.language is Some);
    assert(p.dom().contains("Language"@) <==> t.language is Some);
    lemma_decimal_differs(s.sample_rate, t.sample_rate);
    lemma_decimal_differs(s.channels, t.channels);
    lemma_decimal_differs(s.bits_per_sample, t.bits_per_sample);
}

proof fn lemma_decimal_differs(a: i32, b: i32)
    ensures
        decimal::decimal(a as int) == decimal::decimal(b as int) ==> a == b,
{
    if decimal::decimal(a as int) == decimal::decimal(b as int) {
        decimal::law_decimal_texts_differ(a as int, b as int);
    }
}

/// The request about a running session holds nothing but the handle of the session, whole.
pub proof fn law_handle_request_names_the_session(handle: Seq<char>)
    ensures
        request_value(handle_params(handle)) matches JsonView::Object(whole) && {
            &&& whole.dom() == set!["Params"@]
            &&& whole["Params"@] matches JsonView::Object(params) && {
                &&& params.dom() == set!["SessionHandle"@]
                &&& params["SessionHandle"@] == JsonView::Text(handle)
            }
        },
{
    let params = handle_params(handle);
    assert(params.dom() =~= set!["SessionHandle"@]);
    assert(json::no_fields().insert("Params"@, JsonView::Object(params)).dom() =~= set![
        "Params"@,
    ]);
}

} // verus!
