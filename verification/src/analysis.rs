//! Analysis orchestrator: builds the one multimodal interpretation request,
//! classifies failures, and turns the raw reply text into a structured
//! analysis result.

use vstd::prelude::*;

use crate::errors::CaptureError;
use crate::textops::{is_space, trim_spec, trim_window};

verus! {

/// The structured summary parsed out of the interpretation service's reply.
#[derive(Debug, Clone)]
pub struct ScreenAnalysis {
    pub current_focus: String,
    pub active_software: String,
    pub context_keywords: Vec<String>,
}

/// A bare code-fence delimiter.
pub open spec fn fence() -> Seq<char> {
    "```"@
}

/// A code-fence delimiter carrying the language hint the service likes to
/// emit.
pub open spec fn fence_json() -> Seq<char> {
    "```json"@
}

/// The sequence with every trailing fence delimiter removed.
pub open spec fn strip_trailing_fences(s: Seq<char>) -> Seq<char>
    decreases s.len(),
{
    if s.len() >= 3 && s.subrange(s.len() - 3, s.len() as int) == fence() {
        strip_trailing_fences(s.take(s.len() - 3))
    } else {
        s
    }
}

/// What unwrapping a possibly fence-wrapped reply yields: the text is
/// trimmed; a leading delimiter (language-tagged or bare) is stripped
/// together with every trailing delimiter and the whitespace around the
/// enclosed text; unwrapped text is only trimmed.
pub open spec fn spec_strip_code_fence(s: Seq<char>) -> Seq<char> {
    let t = trim_spec(s);
    if t.len() >= 7 && t.subrange(0, 7) == fence_json() {
        trim_spec(strip_trailing_fences(t.skip(7)))
    } else if t.len() >= 3 && t.subrange(0, 3) == fence() {
        trim_spec(strip_trailing_fences(t.skip(3)))
    } else {
        t
    }
}

/// Strip the markdown code fence some models wrap their reply in, despite
/// being instructed otherwise, so the enclosed text can be parsed.
#[verifier::rlimit(50)]
pub fn strip_code_fence(content: &str) -> (r: String)
    ensures
        r@ == spec_strip_code_fence(content@),
{
    proof {
        reveal_strlit("```json");
        reveal_strlit("```");
    }
    let n = content.unicode_len();
    let (lo, hi) = trim_window(content, 0, n);
    proof {
        assert(content@.subrange(0, n as int) =~= content@);
    }
    let ghost t = content@.subrange(lo as int, hi as int);

    let json_pref = hi - lo >= 7 && content.get_char(lo) == '`' && content.get_char(lo + 1) == '`'
        && content.get_char(lo + 2) == '`' && content.get_char(lo + 3) == 'j' && content.get_char(
        lo + 4,
    ) == 's' && content.get_char(lo + 5) == 'o' && content.get_char(lo + 6) == 'n';
    let plain_pref = !json_pref && hi - lo >= 3 && content.get_char(lo) == '`' && content.get_char(
        lo + 1,
    ) == '`' && content.get_char(lo + 2) == '`';

    if json_pref || plain_pref {
        let skiplen: usize = if json_pref {
            7
        } else {
            3
        };
        let start = lo + skiplen;
        proof {
            if json_pref {
                assert(t.subrange(0, 7) =~= fence_json());
            } else {
                assert(t.subrange(0, 3) =~= fence());
                if t.len() >= 7 && t.subrange(0, 7) == fence_json() {
                    assert(t.subrange(0, 7)[0] == t[0]);
                    assert(t.subrange(0, 7)[1] == t[1]);
                    assert(t.subrange(0, 7)[2] == t[2]);
                    assert(t.subrange(0, 7)[3] == t[3]);
                    assert(t.subrange(0, 7)[4] == t[4]);
                    assert(t.subrange(0, 7)[5] == t[5]);
                    assert(t.subrange(0, 7)[6] == t[6]);
                    assert(false);
                }
            }
            assert(t.skip(skiplen as int) =~= content@.subrange(start as int, hi as int));
        }
        let mut end = hi;
        while end - start >= 3 && content.get_char(end - 1) == '`' && content.get_char(end - 2)
            == '`' && content.get_char(end - 3) == '`'
            invariant
                start <= end <= hi <= content@.len(),
                strip_trailing_fences(t.skip(skiplen as int)) == strip_trailing_fences(
                    content@.subrange(start as int, end as int),
                ),
            decreases end,
        {
            proof {
                reveal_strlit("```");
                let w = content@.subrange(start as int, end as int);
                assert(w.subrange(w.len() - 3, w.len() as int) =~= fence());
                assert(w.take(w.len() - 3) =~= content@.subrange(start as int, end as int - 3));
            }
            end = end - 3;
        }
        proof {
            reveal_strlit("```");
            let w = content@.subrange(start as int, end as int);
            if w.len() >= 3 && w.subrange(w.len() - 3, w.len() as int) == fence() {
                assert(w.subrange(w.len() - 3, w.len() as int)[0] == w[w.len() - 3]);
                assert(w.subrange(w.len() - 3, w.len() as int)[1] == w[w.len() - 2]);
                assert(w.subrange(w.len() - 3, w.len() as int)[2] == w[w.len() - 1]);
                assert(false);
            }
        }
        let (lo2, hi2) = trim_window(content, start, end);
        let out = content.substring_char(lo2, hi2);
        out.to_owned()
    } else {
        proof {
            if t.len() >= 7 && t.subrange(0, 7) == fence_json() {
                assert(t.subrange(0, 7)[0] == t[0]);
                assert(t.subrange(0, 7)[1] == t[1]);
                assert(t.subrange(0, 7)[2] == t[2]);
                assert(t.subrange(0, 7)[3] == t[3]);
                assert(t.subrange(0, 7)[4] == t[4]);
                assert(t.subrange(0, 7)[5] == t[5]);
                assert(t.subrange(0, 7)[6] == t[6]);
                assert(false);
            }
            if t.len() >= 3 && t.subrange(0, 3) == fence() {
                assert(t.subrange(0, 3)[0] == t[0]);
                assert(t.subrange(0, 3)[1] == t[1]);
                assert(t.subrange(0, 3)[2] == t[2]);
                assert(false);
            }
        }
        let out = content.substring_char(lo, hi);
        out.to_owned()
    }
}

/// Whether `sub` stands at position `i` of `s`.
pub open spec fn matches_at(s: Seq<char>, sub: Seq<char>, i: int) -> bool {
    0 <= i && i + sub.len() <= s.len() && s.subrange(i, i + sub.len()) == sub
}

/// Whether `sub` occurs anywhere in `s`.
pub open spec fn contains_sub(s: Seq<char>, sub: Seq<char>) -> bool {
    exists|i: int| matches_at(s, sub, i)
}

/// Substring search: whether `sub` occurs anywhere in `s`.
pub fn str_contains(s: &str, sub: &str) -> (r: bool)
    ensures
        r == contains_sub(s@, sub@),
{
    let n = s.unicode_len();
    let m = sub.unicode_len();
    if m > n {
        assert forall|i: int| !matches_at(s@, sub@, i) by {}
        return false;
    }
    if m == 0 {
        proof {
            assert(s@.subrange(0, 0) =~= sub@);
            assert(matches_at(s@, sub@, 0));
        }
        return true;
    }
    let mut i: usize = 0;
    while i <= n - m
        invariant
            0 < m <= n == s@.len(),
            m == sub@.len(),
            i <= n - m + 1,
            forall|k: int| 0 <= k < i ==> !matches_at(s@, sub@, k),
        decreases n + 1 - m - i,
    {
        let mut j: usize = 0;
        let mut hit = true;
        while j < m
            invariant
                m <= n == s@.len(),
                m == sub@.len(),
                i + m <= n,
                j <= m,
                hit ==> forall|l: int| 0 <= l < j ==> s@[i + l] == sub@[l],
                !hit ==> !matches_at(s@, sub@, i as int),
            decreases m - j,
        {
            if s.get_char(i + j) != sub.get_char(j) {
                proof {
                    if matches_at(s@, sub@, i as int) {
                        assert(s@.subrange(i as int, i + sub@.len())[j as int] == sub@[j as int]);
                    }
                }
                hit = false;
                j = m;
            } else {
                j = j + 1;
            }
        }
        if hit {
            proof {
                assert(s@.subrange(i as int, i + sub@.len()) =~= sub@);
                assert(matches_at(s@, sub@, i as int));
            }
            return true;
        }
        i = i + 1;
    }
    proof {
        assert forall|k: int| !matches_at(s@, sub@, k) by {
            if 0 <= k < i {
            }
        }
    }
    false
}

/// The markers the service's rejection body carries when the configured
/// model cannot accept images.
pub open spec fn unsupported_modality_reply(body: Seq<char>) -> bool {
    contains_sub(body, "image_url"@) && contains_sub(body, "unknown variant"@)
}

/// Whether an HTTP status reads as success.
pub open spec fn spec_is_success(status: u16) -> bool {
    200 <= status < 300
}

/// Whether an HTTP status reads as success (the 2xx class).
pub fn is_success_status(status: u16) -> (r: bool)
    ensures
        r == spec_is_success(status),
{
    200 <= status && status < 300
}

/// Classify a non-success response: a body carrying the vision-unsupported
/// markers is surfaced as `UnsupportedModalityError`, anything else as
/// `ServiceError`, both retaining status and full body for diagnosis.
pub fn classify_http_failure(status: u16, body: String) -> (e: CaptureError)
    ensures
        unsupported_modality_reply(body@) ==> (e matches
            CaptureError::UnsupportedModalityError { status: st, body: b }
            && st == status && b@ == body@),
        !unsupported_modality_reply(body@) ==> (e matches
            CaptureError::ServiceError { status: st, body: b }
            && st == status && b@ == body@),
{
    let unsupported = str_contains(body.as_str(), "image_url") && str_contains(
        body.as_str(),
        "unknown variant",
    );
    if unsupported {
        CaptureError::UnsupportedModalityError { status, body }
    } else {
        CaptureError::ServiceError { status, body }
    }
}

/// The text standing at `choices[0].message.content` of a reply body, or
/// `None` where the body is not a JSON document of that shape.
pub uninterp spec fn reply_content_of(body: Seq<char>) -> Option<Seq<char>>;

/// Relies on `serde_json::from_str`, `serde_json::Value`'s `Index` and
/// `Value::as_str`: which text stands at `choices[0].message.content` is a
/// function of the reply body alone.
#[verifier::external_body]
fn extract_reply_content(body: &str) -> (r: Option<String>)
    ensures
        match r {
            Some(c) => reply_content_of(body@) == Some(c@),
            None => reply_content_of(body@) is None,
        },
{
    let v: serde_json::Value = serde_json::from_str(body).ok()?;
    let s = v["choices"][0]["message"]["content"].as_str()?;
    Some(s.to_string())
}

/// The three analysis fields a reply text parses into — focus, software,
/// keyword list — or `None` where the text is not a JSON object of that
/// fixed shape.
pub uninterp spec fn analysis_fields_of(text: Seq<char>) -> Option<
    (Seq<char>, Seq<char>, Seq<Seq<char>>),
>;

/// Relies on `serde_json::from_str`, `Value::get`, `Value::as_str` and
/// `Value::as_array`: whether a text parses as the fixed analysis shape,
/// and which fields it then holds, is a function of the text alone.
#[verifier::external_body]
fn parse_analysis_fields(text: &str) -> (r: Option<(String, String, Vec<String>)>)
    ensures
        match r {
            Some(f) => analysis_fields_of(text@) == Some((f.0@, f.1@, f.2.deep_view())),
            None => analysis_fields_of(text@) is None,
        },
{
    let v: serde_json::Value = serde_json::from_str(text).ok()?;
    let focus = v.get("current_focus")?.as_str()?.to_string();
    let software = v.get("active_software")?.as_str()?.to_string();
    let keywords = v.get("context_keywords")?.as_array()?.iter().map(|k| {
        k.as_str().map(|s| s.to_string())
    }).collect::<Option<Vec<String>>>()?;
    Some((focus, software, keywords))
}

/// Turn the outcome of the fixed-shape parse into the structured result:
/// parsed fields become a `ScreenAnalysis`; a failed parse becomes
/// `MalformedResponseError` retaining the unwrapped text it choked on.
pub fn finish_analysis(stripped: String, fields: Option<(String, String, Vec<String>)>) -> (r:
    Result<ScreenAnalysis, CaptureError>)
    ensures
        match fields {
            Some(f) => (r matches Ok(a) && a.current_focus@ == f.0@ && a.active_software@ == f.1@
                && a.context_keywords.deep_view() == f.2.deep_view()),
            None => (r matches Err(e) && e matches CaptureError::MalformedResponseError { raw }
                && raw@ == stripped@),
        },
{
    match fields {
        Some(f) => Ok(
            ScreenAnalysis { current_focus: f.0, active_software: f.1, context_keywords: f.2 },
        ),
        None => Err(CaptureError::MalformedResponseError { raw: stripped }),
    }
}

/// Unwrap a reply text from its optional code fence and parse it as the
/// fixed analysis shape; a parse failure retains the unwrapped text.
pub fn parse_reply(content: &str) -> (r: Result<ScreenAnalysis, CaptureError>)
    ensures
        match analysis_fields_of(spec_strip_code_fence(content@)) {
            Some(f) => (r matches Ok(a) && a.current_focus@ == f.0 && a.active_software@ == f.1
                && a.context_keywords.deep_view() == f.2),
            None => (r matches Err(e) && e matches CaptureError::MalformedResponseError { raw }
                && raw@ == spec_strip_code_fence(content@)),
        },
{
    let stripped = strip_code_fence(content);
    let fields = parse_analysis_fields(stripped.as_str());
    finish_analysis(stripped, fields)
}

/// What handling one reply must yield: a non-success status is classified
/// (keeping status and body), a success reply must hold the single textual
/// content field, and that text — unwrapped from its optional code fence —
/// must parse as the fixed analysis shape.
pub open spec fn spec_handle_response(
    status: u16,
    body: Seq<char>,
    r: Result<ScreenAnalysis, CaptureError>,
) -> bool {
    if !spec_is_success(status) {
        if unsupported_modality_reply(body) {
            r matches Err(e) && e matches CaptureError::UnsupportedModalityError {
                status: st,
                body: b,
            } && st == status && b@ == body
        } else {
            r matches Err(e) && e matches CaptureError::ServiceError { status: st, body: b }
                && st == status && b@ == body
        }
    } else {
        match reply_content_of(body) {
            None => r matches Err(e) && e matches CaptureError::MalformedResponseError { raw }
                && raw@ == body,
            Some(content) => match analysis_fields_of(spec_strip_code_fence(content)) {
                Some(f) => r matches Ok(a) && a.current_focus@ == f.0 && a.active_software@
                    == f.1 && a.context_keywords.deep_view() == f.2,
                None => r matches Err(e) && e matches CaptureError::MalformedResponseError { raw }
                    && raw@ == spec_strip_code_fence(content),
            },
        }
    }
}

/// Decide what one reply of the interpretation service means, as
/// `spec_handle_response` says.
pub fn handle_analysis_response(status: u16, body: String) -> (r: Result<
    ScreenAnalysis,
    CaptureError,
>)
    ensures
        spec_handle_response(status, body@, r),
{
    if !is_success_status(status) {
        return Err(classify_http_failure(status, body));
    }
    match extract_reply_content(body.as_str()) {
        None => Err(CaptureError::MalformedResponseError { raw: body }),
        Some(content) => parse_reply(content.as_str()),
    }
}

/// Relies on std's `String::push`: appends exactly one character.
#[verifier::external_body]
fn push_char(s: &mut String, c: char)
    ensures
        final(s)@ == old(s)@.push(c),
{
    s.push(c);
}

/// The lower-case hex digit for a value below 16.
pub open spec fn hex_digit(n: int) -> char {
    if n < 10 {
        (48 + n) as char
    } else {
        (87 + n) as char
    }
}

fn hex_digit_char(v: u8) -> (c: char)
    requires
        v < 16,
    ensures
        c == hex_digit(v as int),
{
    if v < 10 {
        (48 + v) as char
    } else {
        (87 + v) as char
    }
}

/// JSON string escaping of one character: quote, backslash and the control
/// characters are escaped (the five with short forms as those), everything
/// else stands as itself.
pub open spec fn esc_char(c: char) -> Seq<char> {
    if c == '"' {
        seq!['\\', '"']
    } else if c == '\\' {
        seq!['\\', '\\']
    } else if c == '\u{8}' {
        seq!['\\', 'b']
    } else if c == '\t' {
        seq!['\\', 't']
    } else if c == '\n' {
        seq!['\\', 'n']
    } else if c == '\u{c}' {
        seq!['\\', 'f']
    } else if c == '\r' {
        seq!['\\', 'r']
    } else if (c as u32) < 32 {
        seq!['\\', 'u', '0', '0', hex_digit(((c as u32) >> 4) as int), hex_digit(
            ((c as u32) & 15) as int,
        )]
    } else {
        seq![c]
    }
}

/// JSON string escaping of a whole text.
pub open spec fn esc(s: Seq<char>) -> Seq<char>
    decreases s.len(),
{
    if s.len() == 0 {
        Seq::empty()
    } else {
        esc_char(s[0]) + esc(s.drop_first())
    }
}

/// Escaping works character by character: escaping a text extended by one
/// character appends that character's escape.
pub proof fn lemma_esc_push(s: Seq<char>, c: char)
    ensures
        esc(s.push(c)) == esc(s) + esc_char(c),
    decreases s.len(),
{
    if s.len() == 0 {
        let e = Seq::<char>::empty();
        assert(s.push(c).drop_first() =~= e);
        assert(s.push(c)[0] == c);
        assert(esc(e) == Seq::<char>::empty());
        assert(esc(s.push(c)) == esc_char(c) + esc(e));
        assert(esc(s.push(c)) =~= esc(s) + esc_char(c));
    } else {
        assert(s.push(c).drop_first() =~= s.drop_first().push(c));
        lemma_esc_push(s.drop_first(), c);
        assert(esc_char(s[0]) + (esc(s.drop_first()) + esc_char(c)) =~= (esc_char(s[0]) + esc(
            s.drop_first(),
        )) + esc_char(c));
    }
}

/// Append the JSON-escaped form of `s` to `out`.
fn append_json_escaped(out: &mut String, s: &str)
    ensures
        final(out)@ == old(out)@ + esc(s@),
{
    let ghost orig = out@;
    let n = s.unicode_len();
    let mut i: usize = 0;
    proof {
        assert(s@.take(0) =~= Seq::<char>::empty());
        assert(out@ =~= orig + esc(s@.take(0)));
    }
    while i < n
        invariant
            n == s@.len(),
            i <= n,
            out@ == orig + esc(s@.take(i as int)),
        decreases n - i,
    {
        let c = s.get_char(i);
        proof {
            reveal_strlit("\\\"");
            reveal_strlit("\\\\");
            reveal_strlit("\\b");
            reveal_strlit("\\t");
            reveal_strlit("\\n");
            reveal_strlit("\\f");
            reveal_strlit("\\r");
            reveal_strlit("\\u00");
        }
        if c == '"' {
            out.append("\\\"");
            proof {
                assert("\\\""@ =~= esc_char(c));
            }
        } else if c == '\\' {
            out.append("\\\\");
            proof {
                assert("\\\\"@ =~= esc_char(c));
            }
        } else if c == '\u{8}' {
            out.append("\\b");
            proof {
                assert("\\b"@ =~= esc_char(c));
            }
        } else if c == '\t' {
            out.append("\\t");
            proof {
                assert("\\t"@ =~= esc_char(c));
            }
        } else if c == '\n' {
            out.append("\\n");
            proof {
                assert("\\n"@ =~= esc_char(c));
            }
        } else if c == '\u{c}' {
            out.append("\\f");
            proof {
                assert("\\f"@ =~= esc_char(c));
            }
        } else if c == '\r' {
            out.append("\\r");
            proof {
                assert("\\r"@ =~= esc_char(c));
            }
        } else {
            let v = c as u32;
            if v < 32 {
                proof {
                    assert(v < 32 ==> ((v >> 4) < 16 && (v & 15) < 16)) by (bit_vector);
                }
                let ghost before = out@;
                out.append("\\u00");
                let hi = hex_digit_char((v >> 4) as u8);
                push_char(out, hi);
                let lo = hex_digit_char((v & 15) as u8);
                push_char(out, lo);
                proof {
                    assert(out@ =~= before + esc_char(c));
                }
            } else {
                push_char(out, c);
                proof {
                    assert(seq![c] =~= esc_char(c));
                }
            }
        }
        proof {
            lemma_esc_push(s@.take(i as int), c);
            assert(s@.take(i as int).push(c) =~= s@.take(i + 1));
            assert(out@ =~= orig + esc(s@.take(i + 1)));
        }
        i = i + 1;
    }
    proof {
        assert(s@.take(n as int) =~= s@);
    }
}

/// Generation-length cap sent with every analysis request.
pub const MAX_ANALYSIS_TOKENS: u32 = 500;

/// The built-in instructional prompt, used when no override is configured.
pub open spec fn default_analysis_prompt_spec() -> Seq<char> {
    "Analyze this screenshot and return a JSON object with:\n- current_focus: What is the user currently working on? (1-2 sentences in Chinese)\n- active_software: What software is being used? (in Chinese)\n- context_keywords: What are the key topics/technologies? (array of strings, in Chinese)\n\nReturn ONLY valid JSON, no other text. Example format:\n{\"current_focus\": \"编写 Rust 后端代码\", \"active_software\": \"VS Code\", \"context_keywords\": [\"Rust\", \"Tauri\", \"异步编程\"]}"@
}

/// The built-in instructional prompt.
pub fn default_analysis_prompt() -> (r: &'static str)
    ensures
        r@ == default_analysis_prompt_spec(),
{
    "Analyze this screenshot and return a JSON object with:\n- current_focus: What is the user currently working on? (1-2 sentences in Chinese)\n- active_software: What software is being used? (in Chinese)\n- context_keywords: What are the key topics/technologies? (array of strings, in Chinese)\n\nReturn ONLY valid JSON, no other text. Example format:\n{\"current_focus\": \"编写 Rust 后端代码\", \"active_software\": \"VS Code\", \"context_keywords\": [\"Rust\", \"Tauri\", \"异步编程\"]}"
}

/// The prompt a cycle uses: the configured override where one is present and
/// non-empty, the built-in default otherwise.
pub open spec fn spec_effective_prompt(custom: Option<Seq<char>>) -> Seq<char> {
    match custom {
        Some(p) => if p.len() > 0 {
            p
        } else {
            default_analysis_prompt_spec()
        },
        None => default_analysis_prompt_spec(),
    }
}

/// Pick the prompt for one analysis request.
pub fn effective_prompt(custom: &Option<String>) -> (r: String)
    ensures
        r@ == spec_effective_prompt(custom.deep_view()),
{
    match custom {
        Some(p) => if p.unicode_len() > 0 {
            p.clone()
        } else {
            String::from_str(default_analysis_prompt())
        },
        None => String::from_str(default_analysis_prompt()),
    }
}

/// The endpoint one chat-completion request goes to.
pub fn endpoint_of(api_base_url: &str) -> (r: String)
    ensures
        r@ == api_base_url@ + "/chat/completions"@,
{
    let mut r = api_base_url.to_owned();
    r.append("/chat/completions");
    r
}

/// The one request body the orchestrator sends: model name, a single user
/// message holding the instructional prompt and the image as an embedded
/// data URI, and the fixed generation-length cap.
pub open spec fn spec_request_body(
    model: Seq<char>,
    prompt: Seq<char>,
    image_b64: Seq<char>,
) -> Seq<char> {
    "{\"model\":\""@ + esc(model)
        + "\",\"messages\":[{\"role\":\"user\",\"content\":[{\"type\":\"text\",\"text\":\""@ + esc(
        prompt,
    ) + "\"},{\"type\":\"image_url\",\"image_url\":{\"url\":\"data:image/png;base64,"@ + esc(
        image_b64,
    ) + "\"}}]}],\"max_tokens\":500}"@
}

/// Build the analysis request body.
pub fn build_analysis_request_body(model: &str, prompt: &str, image_b64: &str) -> (r: String)
    ensures
        r@ == spec_request_body(model@, prompt@, image_b64@),
{
    let mut out = String::new();
    out.append("{\"model\":\"");
    append_json_escaped(&mut out, model);
    out.append("\",\"messages\":[{\"role\":\"user\",\"content\":[{\"type\":\"text\",\"text\":\"");
    append_json_escaped(&mut out, prompt);
    out.append("\"},{\"type\":\"image_url\",\"image_url\":{\"url\":\"data:image/png;base64,");
    append_json_escaped(&mut out, image_b64);
    out.append("\"}}]}],\"max_tokens\":500}");
    proof {
        assert(out@ =~= spec_request_body(model@, prompt@, image_b64@));
    }
    out
}

/// One keyword as a quoted JSON string.
pub open spec fn quoted_keyword(k: Seq<char>) -> Seq<char> {
    "\""@ + esc(k) + "\""@
}

/// The keyword list as comma-separated quoted JSON strings.
pub open spec fn rendered_keywords(ks: Seq<Seq<char>>) -> Seq<char>
    decreases ks.len(),
{
    if ks.len() == 0 {
        Seq::empty()
    } else if ks.len() == 1 {
        quoted_keyword(ks.last())
    } else {
        rendered_keywords(ks.drop_last()) + ","@ + quoted_keyword(ks.last())
    }
}

/// The JSON text a parsed analysis is persisted as: the three fields as one
/// object, keys in lexicographic order.
pub open spec fn spec_render_analysis(
    focus: Seq<char>,
    software: Seq<char>,
    keywords: Seq<Seq<char>>,
) -> Seq<char> {
    "{\"active_software\":\""@ + esc(software) + "\",\"context_keywords\":["@ + rendered_keywords(
        keywords,
    ) + "],\"current_focus\":\""@ + esc(focus) + "\"}"@
}

/// Serialize a parsed analysis into the JSON text that is persisted as the
/// record content.
pub fn render_analysis(analysis: &ScreenAnalysis) -> (r: String)
    ensures
        r@ == spec_render_analysis(
            analysis.current_focus@,
            analysis.active_software@,
            analysis.context_keywords.deep_view(),
        ),
{
    let ghost ks = analysis.context_keywords.deep_view();
    let mut out = String::new();
    out.append("{\"active_software\":\"");
    append_json_escaped(&mut out, analysis.active_software.as_str());
    out.append("\",\"context_keywords\":[");
    let ghost mid = out@;
    let n = analysis.context_keywords.len();
    let mut i: usize = 0;
    proof {
        assert(ks.take(0) =~= Seq::<Seq<char>>::empty());
    }
    while i < n
        invariant
            n == analysis.context_keywords.len(),
            ks == analysis.context_keywords.deep_view(),
            ks.len() == n,
            i <= n,
            out@ == mid + rendered_keywords(ks.take(i as int)),
        decreases n - i,
    {
        if i > 0 {
            out.append(",");
        }
        out.append("\"");
        append_json_escaped(&mut out, analysis.context_keywords[i].as_str());
        out.append("\"");
        proof {
            assert(analysis.context_keywords[i as int]@ == ks[i as int]);
            assert(ks.take(i + 1).drop_last() =~= ks.take(i as int));
            assert(ks.take(i + 1).last() == ks[i as int]);
            assert(out@ =~= mid + rendered_keywords(ks.take(i + 1)));
        }
        i = i + 1;
    }
    proof {
        assert(ks.take(n as int) =~= ks);
    }
    out.append("],\"current_focus\":\"");
    append_json_escaped(&mut out, analysis.current_focus.as_str());
    out.append("\"}");
    proof {
        assert(out@ =~= spec_render_analysis(
            analysis.current_focus@,
            analysis.active_software@,
            ks,
        ));
    }
    out
}

} // verus!
