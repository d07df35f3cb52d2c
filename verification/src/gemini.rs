use vstd::prelude::*;
use crate::captions::strings;
use crate::text::{dec, push_dec, push_str, trim, trim_string};

verus! {

// ---------------------------------------------------------------------------
// serde_json and base64
// ---------------------------------------------------------------------------

/// Whether `serde_json::from_str::<Value>` accepts `text` as a JSON document.
pub uninterp spec fn json_valid(text: Seq<char>) -> bool;

/// The string that the JSON pointer `pointer` (such as `/a/0/b`) addresses in the document
/// `text`, as `Value::pointer` and then `Value::as_str` find it: `None` where nothing is
/// there or the value there is not a string.
pub uninterp spec fn json_str_at(text: Seq<char>, pointer: Seq<char>) -> Option<Seq<char>>;

/// The items of the JSON array that `pointer` addresses in the document `text`, each as
/// `Value::as_str` reads it: `None` where nothing is there or the value is not an array.
pub uninterp spec fn json_items_at(text: Seq<char>, pointer: Seq<char>) -> Option<
    Seq<Option<Seq<char>>>,
>;

/// The text of the first part of the first candidate of a generation reply `text`, read as
/// `value["candidates"][0]["content"]["parts"][0]["text"]` (serde_json's `Index`) and then
/// `Value::as_str`: `None` where it is missing or not a string.
pub uninterp spec fn json_reply_part(text: Seq<char>) -> Option<Seq<char>>;

/// The characters of an optional string.
pub open spec fn chars_opt(o: Option<String>) -> Option<Seq<char>> {
    match o {
        Some(s) => Some(s@),
        None => None,
    }
}

/// `serde_json::from_str::<Value>`: succeeds exactly on the documents that it accepts; the
/// error is the parser's message.
#[verifier::external_body]
fn json_check(text: &str) -> (r: Result<(), String>)
    ensures
        r is Ok <==> json_valid(text@),
{
    match serde_json::from_str::<serde_json::Value>(text) {
        Ok(_) => Ok(()),
        Err(e) => Err(e.to_string()),
    }
}

/// `Value::pointer` then `Value::as_str` on the document `text` parsed by
/// `serde_json::from_str`; nothing is found in a text that does not parse.
#[verifier::external_body]
fn json_string_at(text: &str, pointer: &str) -> (r: Option<String>)
    ensures
        chars_opt(r) == json_str_at(text@, pointer@),
        !json_valid(text@) ==> r is None,
{
    match serde_json::from_str::<serde_json::Value>(text) {
        Ok(v) => v.pointer(pointer).and_then(|x| x.as_str()).map(|t| t.to_string()),
        Err(_) => None,
    }
}

/// serde_json's `Index` on the parsed reply (`["candidates"][0]["content"]["parts"][0]["text"]`)
/// then `Value::as_str`; nothing is found in a text that does not parse.
#[verifier::external_body]
fn json_candidate_text(text: &str) -> (r: Option<String>)
    ensures
        chars_opt(r) == json_reply_part(text@),
        !json_valid(text@) ==> r is None,
{
    match serde_json::from_str::<serde_json::Value>(text) {
        Ok(v) => v["candidates"][0]["content"]["parts"][0]["text"].as_str().map(|t| t.to_string()),
        Err(_) => None,
    }
}

/// `Value::pointer` then `Value::as_array` on the document `text` parsed by
/// `serde_json::from_str`, each item read with `Value::as_str`; nothing is found in a text
/// that does not parse.
#[verifier::external_body]
fn json_string_items_at(text: &str, pointer: &str) -> (r: Option<Vec<Option<String>>>)
    ensures
        (match r {
            Some(v) => Some(option_strings(v@)),
            None => None,
        }) == json_items_at(text@, pointer@),
        !json_valid(text@) ==> r is None,
{
    match serde_json::from_str::<serde_json::Value>(text) {
        Ok(v) => v.pointer(pointer).and_then(|x| x.as_array()).map(
            |a| a.iter().map(|i| i.as_str().map(|t| t.to_string())).collect(),
        ),
        Err(_) => None,
    }
}

/// A lower-case hexadecimal digit.
pub open spec fn hex_digit(n: int) -> char {
    if n < 10 {
        (48 + n) as char
    } else {
        (87 + n) as char
    }
}

/// How serde_json writes one character inside a JSON string: the quote, the backslash and
/// the control characters below U+0020 are escaped (`\b`, `\t`, `\n`, `\f`, `\r`, else
/// `\u00xx`); every other character stands for itself.
pub open spec fn json_escape(c: char) -> Seq<char> {
    let u = c as int;
    if c == '"' {
        seq!['\\', '"']
    } else if c == '\\' {
        seq!['\\', '\\']
    } else if u == 8 {
        seq!['\\', 'b']
    } else if u == 9 {
        seq!['\\', 't']
    } else if u == 10 {
        seq!['\\', 'n']
    } else if u == 12 {
        seq!['\\', 'f']
    } else if u == 13 {
        seq!['\\', 'r']
    } else if u < 0x20 {
        seq!['\\', 'u', '0', '0', hex_digit(u / 16), hex_digit(u % 16)]
    } else {
        seq![c]
    }
}

/// The characters of `s`, each as serde_json writes it inside a string.
pub open spec fn json_escaped(s: Seq<char>) -> Seq<char>
    decreases s.len(),
{
    if s.len() == 0 {
        seq![]
    } else {
        json_escaped(s.drop_last()) + json_escape(s.last())
    }
}

/// What `serde_json::to_string` writes for a string: the JSON string literal, quoted and
/// escaped.
pub open spec fn json_quoted(s: Seq<char>) -> Seq<char> {
    seq!['"'] + json_escaped(s) + seq!['"']
}

/// `serde_json::to_string(&str)`: the JSON string literal of `s`, escaped as serde_json's
/// `ESCAPE` table and `write_char_escape` do. Serialising a `str` cannot fail.
#[verifier::external_body]
fn json_quote(s: &str) -> (r: String)
    ensures
        r@ == json_quoted(s@),
{
    serde_json::to_string(s).unwrap_or_default()
}

/// The character of a 6-bit value in the standard Base64 alphabet.
pub open spec fn base64_char(n: int) -> char {
    if n < 26 {
        (65 + n) as char
    } else if n < 52 {
        (71 + n) as char
    } else if n < 62 {
        (n - 4) as char
    } else if n == 62 {
        '+'
    } else {
        '/'
    }
}

/// What `base64::engine::general_purpose::STANDARD.encode` writes for some bytes: each group
/// of three bytes as four characters of the standard alphabet, a last group of one or two
/// bytes padded with `=`.
pub open spec fn base64_of(bytes: Seq<u8>) -> Seq<char>
    decreases bytes.len(),
{
    if bytes.len() == 0 {
        seq![]
    } else if bytes.len() == 1 {
        let x = bytes[0] as int;
        seq![base64_char(x / 4), base64_char((x % 4) * 16), '=', '=']
    } else if bytes.len() == 2 {
        let x = bytes[0] as int;
        let y = bytes[1] as int;
        seq![base64_char(x / 4), base64_char((x % 4) * 16 + y / 16), base64_char((y % 16) * 4), '=']
    } else {
        let x = bytes[0] as int;
        let y = bytes[1] as int;
        let z = bytes[2] as int;
        seq![
            base64_char(x / 4),
            base64_char((x % 4) * 16 + y / 16),
            base64_char((y % 16) * 4 + z / 64),
            base64_char(z % 64),
        ] + base64_of(bytes.subrange(3, bytes.len() as int))
    }
}

/// `Engine::encode` of the standard Base64 engine. The engine panics only when the
/// encoded length overflows `usize`, which the bound on the input rules out.
#[verifier::external_body]
fn base64_encode(bytes: &[u8]) -> (r: String)
    requires
        bytes@.len() <= MAX_AUDIO_BYTES,
    ensures
        r@ == base64_of(bytes@),
{
    base64::Engine::encode(&base64::engine::general_purpose::STANDARD, bytes)
}

// ---------------------------------------------------------------------------
// Requests
// ---------------------------------------------------------------------------

/// The largest compressed answer that is sent for transcription.
pub const MAX_AUDIO_BYTES: usize = 15728640;

fn text(lit: &str) -> (r: String)
    ensures
        r@ == lit@,
{
    let mut s = String::new();
    push_str(&mut s, lit);
    s
}

/// The URL that generates content with Gemini 2.5 Flash.
pub fn generate_url() -> (r: String)
    ensures
        r@ == "https://generativelanguage.googleapis.com/v1beta/models/gemini-2.5-flash:generateContent"@,
{
    text("https://generativelanguage.googleapis.com/v1beta/models/gemini-2.5-flash:generateContent")
}

/// The URL of the model, which a key check reads.
pub fn model_url() -> (r: String)
    ensures
        r@ == "https://generativelanguage.googleapis.com/v1beta/models/gemini-2.5-flash"@,
{
    text("https://generativelanguage.googleapis.com/v1beta/models/gemini-2.5-flash")
}

/// The key to send: the entered key without surrounding white space; an empty key is
/// refused before anything is sent.
pub fn check_key(key: &str) -> (r: Result<String, String>)
    ensures
        trim(key@).len() == 0 ==> (r matches Err(e) && e@ == "Paste a Gemini API key to continue."@),
        trim(key@).len() > 0 ==> (r matches Ok(k) && k@ == trim(key@)),
{
    let k = trim_string(key);
    if k.as_str().unicode_len() == 0 {
        Err(text("Paste a Gemini API key to continue."))
    } else {
        Ok(k)
    }
}

/// The prompt that asks for the questions about a topic.
pub open spec fn questions_prompt(topic: Seq<char>) -> Seq<char> {
    "You write interview questions for a spoken-video app.\nGiven the topic, return JSON {\"questions\":[\"...\"]} with exactly 10 concise questions.\nEach question should be answerable on camera in 30 to 90 seconds.\nTopic: "@
        + topic
}

/// The JSON body of the request for questions: the prompt, and a JSON reply.
pub open spec fn questions_body(topic: Seq<char>) -> Seq<char> {
    "{\"contents\":[{\"parts\":[{\"text\":"@ + json_quoted(questions_prompt(topic))
        + "}]}],\"generationConfig\":{\"responseMimeType\":\"application/json\"}}"@
}

pub fn questions_request(topic: &str) -> (r: String)
    ensures
        r@ == questions_body(topic@),
{
    let mut prompt = text(
        "You write interview questions for a spoken-video app.\nGiven the topic, return JSON {\"questions\":[\"...\"]} with exactly 10 concise questions.\nEach question should be answerable on camera in 30 to 90 seconds.\nTopic: ",
    );
    push_str(&mut prompt, topic);
    let quoted = json_quote(prompt.as_str());
    let mut body = text("{\"contents\":[{\"parts\":[{\"text\":");
    push_str(&mut body, quoted.as_str());
    push_str(&mut body, "}]}],\"generationConfig\":{\"responseMimeType\":\"application/json\"}}");
    body
}

/// The JSON body of a transcription request: the instruction and the MP3 audio in Base64,
/// with the keys of each object in sorted order.
pub open spec fn transcribe_body(audio: Seq<u8>) -> Seq<char> {
    "{\"contents\":[{\"parts\":[{\"text\":\"Transcribe this spoken answer verbatim. Return only the transcript text, no timestamps or commentary.\"},{\"inlineData\":{\"data\":\""@
        + base64_of(audio) + "\",\"mimeType\":\"audio/mpeg\"}}]}]}"@
}

/// The request that transcribes compressed answer audio; audio over 15 MiB is refused.
pub fn transcribe_request(audio: &[u8]) -> (r: Result<String, String>)
    ensures
        audio@.len() > MAX_AUDIO_BYTES ==> (r matches Err(e) && e@
            == "Answer audio is too large to transcribe."@),
        audio@.len() <= MAX_AUDIO_BYTES ==> (r matches Ok(b) && b@ == transcribe_body(audio@)),
{
    if audio.len() > MAX_AUDIO_BYTES {
        return Err(text("Answer audio is too large to transcribe."));
    }
    let data = base64_encode(audio);
    let mut body = text(
        "{\"contents\":[{\"parts\":[{\"text\":\"Transcribe this spoken answer verbatim. Return only the transcript text, no timestamps or commentary.\"},{\"inlineData\":{\"data\":\"",
    );
    push_str(&mut body, data.as_str());
    push_str(&mut body, "\",\"mimeType\":\"audio/mpeg\"}}]}]}");
    Ok(body)
}

// ---------------------------------------------------------------------------
// Replies
// ---------------------------------------------------------------------------

/// The characters of a result of strings.
pub open spec fn chars_result(r: Result<String, String>) -> Result<Seq<char>, Seq<char>> {
    match r {
        Ok(t) => Ok(t@),
        Err(e) => Err(e@),
    }
}

/// What a generation reply gives: on a failed status its `error.message` (or a generic
/// message); otherwise the trimmed text of its first part, which must be there.
pub open spec fn reply_outcome(
    status_ok: bool,
    error_message: Option<Seq<char>>,
    text_part: Option<Seq<char>>,
) -> Result<Seq<char>, Seq<char>> {
    if !status_ok {
        Err(
            match error_message {
                Some(m) => m,
                None => "Gemini request failed"@,
            },
        )
    } else {
        match text_part {
            Some(t) => Ok(trim(t)),
            None => Err("Gemini returned an empty response"@),
        }
    }
}

/// The text of a generation reply. `status_ok` is whether the HTTP status was a success,
/// `error_message` the reply's `error.message` and `text_part` the reply's
/// `candidates[0].content.parts[0].text`, each `None` when absent or not a string.
pub fn reply_text(status_ok: bool, error_message: Option<String>, text_part: Option<String>) -> (r:
    Result<String, String>)
    ensures
        chars_result(r) == reply_outcome(status_ok, chars_opt(error_message), chars_opt(text_part)),
{
    if !status_ok {
        return Err(
            match error_message {
                Some(m) => m,
                None => text("Gemini request failed"),
            },
        );
    }
    match text_part {
        Some(t) => Ok(trim_string(t.as_str())),
        None => Err(text("Gemini returned an empty response")),
    }
}

/// Reads the body of a generation reply (`generateContent`): a body that is not JSON is an
/// error that carries the parser's message; otherwise the reply's text as `reply_text` reads it.
pub fn parse_generate_reply(status_ok: bool, body: &str) -> (r: Result<String, String>)
    ensures
        !json_valid(body@) ==> (r matches Err(e) && e@.len() >= 23 && e@.take(23)
            == "Gemini response: json: "@),
        json_valid(body@) ==> chars_result(r) == reply_outcome(
            status_ok,
            json_str_at(body@, "/error/message"@),
            json_reply_part(body@),
        ),
        r matches Ok(t) ==> status_ok && t@ == trim(t@),
{
    match json_check(body) {
        Ok(()) => {},
        Err(e) => {
            let mut s = text("Gemini response: json: ");
            proof {
                reveal_strlit("Gemini response: json: ");
            }
            let ghost head = s@;
            push_str(&mut s, e.as_str());
            assert(s@.take(23) =~= head);
            return Err(s);
        },
    }
    let message = json_string_at(body, "/error/message");
    let part = json_candidate_text(body);
    let r = reply_text(status_ok, message, part);
    proof {
        if r is Ok {
            crate::text::lemma_trim_idempotent(part.unwrap()@);
        }
    }
    r
}

/// What a key check's reply means: a success status accepts the key; otherwise the
/// reply's `error.message` (`None` when it has none) or a generic refusal is the error.
pub fn key_check_result(status_ok: bool, error_message: Option<String>) -> (r: Result<(), String>)
    ensures
        status_ok ==> r is Ok,
        !status_ok ==> (r matches Err(e) && e@ == match error_message {
            Some(m) => m@,
            None => "That Gemini API key did not work."@,
        }),
{
    if status_ok {
        Ok(())
    } else {
        Err(
            match error_message {
                Some(m) => m,
                None => text("That Gemini API key did not work."),
            },
        )
    }
}

/// Reads the reply of a key check (`GET` on the model): a success accepts the key; a
/// refusal gives the body's `error.message`, or a generic message where the body has none
/// (or is not JSON).
pub fn parse_key_reply(status_ok: bool, body: &str) -> (r: Result<(), String>)
    ensures
        status_ok ==> r is Ok,
        !status_ok ==> (r matches Err(e) && e@ == match json_str_at(body@, "/error/message"@) {
            Some(m) => m,
            None => "That Gemini API key did not work."@,
        }),
{
    if status_ok {
        return Ok(());
    }
    let message = json_string_at(body, "/error/message");
    key_check_result(status_ok, message)
}

/// The texts of some items, kept when they are strings that are not blank, trimmed.
pub open spec fn question_texts(items: Seq<Option<Seq<char>>>) -> Seq<Seq<char>>
    decreases items.len(),
{
    if items.len() == 0 {
        seq![]
    } else {
        question_texts(items.drop_last()) + match items.last() {
            Some(t) => if trim(t).len() > 0 {
                seq![trim(t)]
            } else {
                Seq::<Seq<char>>::empty()
            },
            None => Seq::<Seq<char>>::empty(),
        }
    }
}

/// The character sequences of some optional strings.
pub open spec fn option_strings(items: Seq<Option<String>>) -> Seq<Option<Seq<char>>> {
    items.map_values(
        |o: Option<String>|
            match o {
                Some(s) => Some(s@),
                None => None,
            },
    )
}

/// `Gemini returned {n} questions, expected 10.`
pub open spec fn too_few_message(n: nat) -> Seq<char> {
    "Gemini returned "@ + dec(n) + " questions, expected 10."@
}

/// The number of questions a project gets.
pub const QUESTION_COUNT: usize = 10;

/// What the items of the reply's `questions` array give: the first ten non-blank strings,
/// trimmed; fewer than ten is an error that says how many there were.
pub open spec fn questions_outcome(items: Seq<Option<Seq<char>>>) -> Result<
    Seq<Seq<char>>,
    Seq<char>,
> {
    let texts = question_texts(items);
    if texts.len() < 10 {
        Err(too_few_message(texts.len()))
    } else {
        Ok(texts.take(10))
    }
}

/// The strings of a result of string lists.
pub open spec fn strings_result(r: Result<Vec<String>, String>) -> Result<Seq<Seq<char>>, Seq<char>> {
    match r {
        Ok(q) => Ok(strings(q@)),
        Err(e) => Err(e@),
    }
}

/// Whether an item is a string with something besides white space.
pub open spec fn nonblank(item: Option<Seq<char>>) -> bool {
    match item {
        Some(t) => trim(t).len() > 0,
        None => false,
    }
}

/// How many items are strings with something besides white space.
pub open spec fn nonblank_count(items: Seq<Option<Seq<char>>>) -> nat
    decreases items.len(),
{
    if items.len() == 0 {
        0
    } else {
        nonblank_count(items.drop_last()) + if nonblank(items.last()) {
            1nat
        } else {
            0nat
        }
    }
}

proof fn lemma_question_texts_count(items: Seq<Option<Seq<char>>>)
    ensures
        question_texts(items).len() == nonblank_count(items),
    decreases items.len(),
{
    if items.len() > 0 {
        lemma_question_texts_count(items.drop_last());
    }
}

/// The questions are accepted exactly when the items hold at least ten non-blank strings
/// (ten included), and then they are ten: the first ten non-blank strings, trimmed, in order.
pub proof fn lemma_questions_accepted(items: Seq<Option<Seq<char>>>)
    ensures
        questions_outcome(items) is Ok <==> nonblank_count(items) >= 10,
        questions_outcome(items) matches Ok(q) ==> q.len() == 10 && q == question_texts(items).take(10),
        questions_outcome(items) matches Err(e) ==> e == too_few_message(nonblank_count(items)),
{
    lemma_question_texts_count(items);
}

/// Picks the questions out of the items of the reply's `questions` array.
pub fn select_questions(items: &Vec<Option<String>>) -> (r: Result<Vec<String>, String>)
    ensures
        strings_result(r) == questions_outcome(option_strings(items@)),
        r is Ok <==> nonblank_count(option_strings(items@)) >= 10,
        r matches Ok(q) ==> q@.len() == 10,
{
    proof {
        lemma_questions_accepted(option_strings(items@));
    }
    let ghost all = option_strings(items@);
    let mut kept: Vec<String> = Vec::new();
    let mut i: usize = 0;
    while i < items.len()
        invariant
            0 <= i <= items@.len(),
            all == option_strings(items@),
            strings(kept@) == question_texts(all.take(i as int)),
            kept@.len() <= i,
        decreases items@.len() - i,
    {
        let ghost before = strings(kept@);
        assert(all.take(i + 1).drop_last() =~= all.take(i as int));
        assert(all.take(i + 1).last() == all[i as int]);
        match &items[i] {
            Some(t) => {
                let q = trim_string(t.as_str());
                if q.as_str().unicode_len() > 0 {
                    kept.push(q);
                    assert(strings(kept@) =~= before.push(q@));
                }
            },
            None => {},
        }
        proof {
            assert(strings(kept@) =~= question_texts(all.take(i + 1)));
        }
        i = i + 1;
    }
    assert(all.take(items@.len() as int) =~= all);
    if kept.len() < QUESTION_COUNT {
        let mut s = text("Gemini returned ");
        push_dec(&mut s, kept.len() as u128);
        push_str(&mut s, " questions, expected 10.");
        return Err(s);
    }
    let ghost whole = strings(kept@);
    kept.truncate(QUESTION_COUNT);
    assert(strings(kept@) =~= whole.take(10));
    Ok(kept)
}

/// Every kept question text is trimmed and not empty.
proof fn lemma_question_texts_clean(items: Seq<Option<Seq<char>>>)
    ensures
        forall|k: int|
            0 <= k < question_texts(items).len() ==> (#[trigger] question_texts(items)[k]).len() > 0
                && question_texts(items)[k] == trim(question_texts(items)[k]),
    decreases items.len(),
{
    if items.len() > 0 {
        lemma_question_texts_clean(items.drop_last());
        let a = question_texts(items.drop_last());
        let b: Seq<Seq<char>> = match items.last() {
            Some(t) => if trim(t).len() > 0 {
                seq![trim(t)]
            } else {
                Seq::<Seq<char>>::empty()
            },
            None => Seq::<Seq<char>>::empty(),
        };
        if let Some(t) = items.last() {
            crate::text::lemma_trim_idempotent(t);
        }
        assert(question_texts(items) == a + b);
        assert forall|k: int| 0 <= k < question_texts(items).len() implies (#[trigger] question_texts(
            items,
        )[k]).len() > 0 && question_texts(items)[k] == trim(question_texts(items)[k]) by {
            if k < a.len() {
                assert(question_texts(items)[k] == a[k]);
            } else {
                assert(question_texts(items)[k] == b[k - a.len()]);
            }
        }
    }
}

/// The questions of a generation reply: the text must be JSON with a `questions` array;
/// its items give the questions as `select_questions` picks them.
pub fn questions_from_reply(text_reply: &str) -> (r: Result<Vec<String>, String>)
    ensures
        !json_valid(text_reply@) ==> (r matches Err(e) && e@
            == "Gemini did not return JSON questions: "@ + text_reply@),
        json_valid(text_reply@) && json_items_at(text_reply@, "/questions"@) is None ==> (r matches Err(
            e,
        ) && e@ == "Gemini JSON was missing questions"@),
        json_valid(text_reply@) ==> (json_items_at(text_reply@, "/questions"@) matches Some(items)
            ==> strings_result(r) == questions_outcome(items)),
        r matches Ok(q) ==> q@.len() == 10 && forall|k: int|
            0 <= k < 10 ==> (#[trigger] q@[k])@.len() > 0 && q@[k]@ == trim(q@[k]@),
{
    match json_check(text_reply) {
        Ok(()) => {},
        Err(_) => {
            let mut s = text("Gemini did not return JSON questions: ");
            push_str(&mut s, text_reply);
            return Err(s);
        },
    }
    let items = match json_string_items_at(text_reply, "/questions") {
        Some(l) => l,
        None => {
            return Err(text("Gemini JSON was missing questions"));
        },
    };
    let r = select_questions(&items);
    proof {
        let texts = question_texts(option_strings(items@));
        lemma_question_texts_clean(option_strings(items@));
        if r is Ok {
            let q = r->Ok_0;
            assert(texts.len() >= 10);
            assert(strings(q@) == texts.take(10));
            assert(strings(q@).len() == q@.len());
            assert forall|k: int| 0 <= k < 10 implies (#[trigger] q@[k])@.len() > 0 && q@[k]@ == trim(
                q@[k]@,
            ) by {
                assert(strings(q@)[k] == q@[k]@);
                assert(texts.take(10)[k] == texts[k]);
            }
        }
    }
    r
}

/// A transcript must hold some text.
pub fn transcript_from(reply: String) -> (r: Result<String, String>)
    ensures
        reply@.len() == 0 ==> (r matches Err(e) && e@ == "Gemini returned an empty transcript."@),
        reply@.len() > 0 ==> r == Ok::<String, String>(reply),
{
    if reply.as_str().unicode_len() == 0 {
        Err(text("Gemini returned an empty transcript."))
    } else {
        Ok(reply)
    }
}

} // verus!
