use speakeasy::gemini::{
    check_key, generate_url, key_check_result, model_url, parse_generate_reply, parse_key_reply,
    questions_from_reply, questions_request, reply_text, select_questions, transcribe_request,
    transcript_from,
};

#[test]
fn keys_are_trimmed_and_blank_keys_refused() {
    assert_eq!(check_key("  k-123 \n"), Ok("k-123".to_string()));
    assert_eq!(check_key(" \t"), Err("Paste a Gemini API key to continue.".to_string()));
}

#[test]
fn urls_name_the_model() {
    assert_eq!(
        generate_url(),
        "https://generativelanguage.googleapis.com/v1beta/models/gemini-2.5-flash:generateContent"
    );
    assert_eq!(
        model_url(),
        "https://generativelanguage.googleapis.com/v1beta/models/gemini-2.5-flash"
    );
}

fn ten_items() -> Vec<Option<String>> {
    (1..=12).map(|i| Some(format!("  Question {i}? "))).collect()
}

#[test]
fn select_questions_keeps_ten_trimmed() {
    let mut items = ten_items();
    items.insert(0, None);
    items.insert(2, Some("   ".into()));
    let q = select_questions(&items).unwrap();
    assert_eq!(q.len(), 10);
    assert_eq!(q[0], "Question 1?");
    assert_eq!(q[9], "Question 10?");
}

#[test]
fn select_questions_needs_ten() {
    let items: Vec<Option<String>> = vec![Some("a".into()), None, Some(" ".into()), Some("b".into())];
    assert_eq!(
        select_questions(&items),
        Err("Gemini returned 2 questions, expected 10.".to_string())
    );
}

#[test]
fn questions_from_json_reply() {
    let reply = r#"{"questions":["q1","q2","q3","q4","q5","q6","q7","q8","q9"," q10 ","q11"]}"#;
    let q = questions_from_reply(reply).unwrap();
    assert_eq!(q.len(), 10);
    assert_eq!(q[9], "q10");
    assert_eq!(
        questions_from_reply("not json"),
        Err("Gemini did not return JSON questions: not json".to_string())
    );
    assert_eq!(
        questions_from_reply(r#"{"other":[]}"#),
        Err("Gemini JSON was missing questions".to_string())
    );
    assert_eq!(
        questions_from_reply(r#"{"questions":["a", 3, null]}"#),
        Err("Gemini returned 1 questions, expected 10.".to_string())
    );
}

#[test]
fn generate_replies() {
    assert_eq!(reply_text(true, None, Some(" hi ".into())), Ok("hi".to_string()));
    assert_eq!(
        reply_text(true, None, None),
        Err("Gemini returned an empty response".to_string())
    );
    assert_eq!(reply_text(false, Some("bad".into()), None), Err("bad".to_string()));
    assert_eq!(
        reply_text(false, None, Some("x".into())),
        Err("Gemini request failed".to_string())
    );
    let body = r#"{"candidates":[{"content":{"parts":[{"text":"  spoken words \n"}]}}]}"#;
    assert_eq!(parse_generate_reply(true, body), Ok("spoken words".to_string()));
    let err = r#"{"error":{"message":"quota"}}"#;
    assert_eq!(parse_generate_reply(false, err), Err("quota".to_string()));
    assert!(parse_generate_reply(true, "{").unwrap_err().starts_with("Gemini response: json: "));
    // The candidates are read by position: an object keyed "0" holds no candidate.
    let keyed = r#"{"candidates":{"0":{"content":{"parts":[{"text":"x"}]}}}}"#;
    assert_eq!(
        parse_generate_reply(true, keyed),
        Err("Gemini returned an empty response".to_string())
    );
}

#[test]
fn key_check_replies() {
    assert_eq!(key_check_result(true, None), Ok(()));
    assert_eq!(
        key_check_result(false, None),
        Err("That Gemini API key did not work.".to_string())
    );
    assert_eq!(parse_key_reply(true, "garbage"), Ok(()));
    assert_eq!(
        parse_key_reply(false, r#"{"error":{"message":"API key not valid"}}"#),
        Err("API key not valid".to_string())
    );
    assert_eq!(
        parse_key_reply(false, "garbage"),
        Err("That Gemini API key did not work.".to_string())
    );
}

#[test]
fn questions_request_is_json_with_the_escaped_prompt() {
    let body = questions_request("the \"best\" talk");
    let value: serde_json::Value = serde_json::from_str(&body).unwrap();
    let text = value["contents"][0]["parts"][0]["text"].as_str().unwrap();
    assert!(text.ends_with("Topic: the \"best\" talk"));
    assert!(text.starts_with("You write interview questions for a spoken-video app.\nGiven the topic"));
    assert_eq!(
        value["generationConfig"]["responseMimeType"].as_str(),
        Some("application/json")
    );
}

#[test]
fn transcribe_request_encodes_audio() {
    let body = transcribe_request(b"Man").unwrap();
    assert!(body.ends_with(r#"{"inlineData":{"data":"TWFu","mimeType":"audio/mpeg"}}]}]}"#));
    let value: serde_json::Value = serde_json::from_str(&body).unwrap();
    let data = value["contents"][0]["parts"][1]["inlineData"]["data"].as_str().unwrap();
    assert_eq!(data, "TWFu");
    assert_eq!(
        value["contents"][0]["parts"][1]["inlineData"]["mimeType"].as_str(),
        Some("audio/mpeg")
    );
    let big = vec![0u8; 15 * 1024 * 1024 + 1];
    assert_eq!(
        transcribe_request(&big),
        Err("Answer audio is too large to transcribe.".to_string())
    );
}

#[test]
fn transcripts_must_not_be_empty() {
    assert_eq!(
        transcript_from(String::new()),
        Err("Gemini returned an empty transcript.".to_string())
    );
    assert_eq!(transcript_from("hi".into()), Ok("hi".to_string()));
}

#[test]
fn prompt_escaping_and_base64_padding_are_exact() {
    let body = questions_request("a\"b\\c\n\u{1}/é");
    assert!(body.ends_with("Topic: a\\\"b\\\\c\\n\\u0001/é\"}]}],\"generationConfig\":{\"responseMimeType\":\"application/json\"}}"));
    let data = |bytes: &[u8]| {
        let body = transcribe_request(bytes).unwrap();
        let value: serde_json::Value = serde_json::from_str(&body).unwrap();
        value["contents"][0]["parts"][1]["inlineData"]["data"].as_str().unwrap().to_string()
    };
    assert_eq!(data(b"M"), "TQ==");
    assert_eq!(data(b"Ma"), "TWE=");
    assert_eq!(data(b"Many"), "TWFueQ==");
    assert_eq!(data(&[0xfb, 0xff]), "+/8=");
}
