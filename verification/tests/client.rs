use aster::client::config::{env_truthy, env_u64, AiClient, ClientEnv, Effort};
use aster::client::errors::{format_api_error, network_error, rejected_images, Transport};
use aster::client::images::{
    caption_chat_messages, caption_values, captions, describe_all, describe_image, described_count,
    urls_in, urls_in_chat, vision_model_name,
};
use aster::client::models::{
    catalog, fetch_model_catalog, fetch_models, known_ids, model_info, supports_images,
    CatalogFrom, ModelEntry, ModelPages, PageStep,
};
use aster::client::partials::{Partials, ToolCallDelta};
use aster::client::passes::{
    cut_short, describe_instead, settle_message, thinking_block, AssistantMessage, PassStep,
    TextChoice, TextDelta, TextEnd, TextPasses, TextStream, ToolPasses, ToolStep,
};
use aster::client::reasoning::{merge_reasoning, ReasoningDetail};
use aster::client::request::{
    attribution, build_request, chat_url, no_reply_in_stream, post_headers, send_reasoned, send_with_retry,
    stream_body, ReasonedStep, StatusStep,
};
use aster::client::sse::{line_payload, read_sse, SseBuffer};
use aster::client::stream::{
    completion_chars, finish_stream, reply, settle_inline, Shown, StreamChoice, StreamDelta,
    StreamEnd, StreamResult, ToolStream,
};
use aster::client::usage::{
    estimate_tokens, json_chars, output_budget, round_usage, Usage, UsageCounter,
};
use aster::json::{Fields, Json};
use aster::json_text::{canonical_json, read_json};
use aster::message::{Annotation, ChatMessage, ToolCall};

fn no_env() -> ClientEnv {
    ClientEnv {
        seed: None,
        max_tokens: None,
        effort: None,
        web_search: None,
        timeout_secs: None,
        max_retries: None,
        deadline_secs: None,
    }
}

fn client() -> AiClient {
    AiClient::new("https://h/v1/", "k", "m", &no_env(), Effort::Medium)
}

fn call(id: &str) -> ToolCall {
    ToolCall {
        id: id.to_string(),
        name: "t".to_string(),
        arguments: "{}".to_string(),
        extra_content: None,
    }
}

#[test]
fn effort_words_read_back() {
    for e in [
        Effort::Off,
        Effort::Low,
        Effort::Medium,
        Effort::High,
        Effort::Xhigh,
        Effort::Max,
        Effort::Ultra,
    ] {
        assert_eq!(Effort::parse(e.as_str()), Some(e));
    }
    assert_eq!(Effort::parse("nonsense"), None);
}

#[test]
fn a_client_takes_its_settings_one_by_one() {
    let mut c = client().with_effort(Effort::High).with_web_search(true).with_max_tokens(Some(9));
    assert_eq!(c.effort(), Effort::High);
    assert!(c.web_search());
    assert_eq!(c.max_tokens(), Some(9));
    assert_eq!(c.api_key(), "k");
    c.set_endpoint("https://other/v1", "k2");
    assert_eq!(c.base_url(), "https://other/v1");
    assert_eq!(c.api_key(), "k2");
    c.learn_effort("m", Some(Effort::Low));
    assert_eq!(c.effort_for("m"), Some(Effort::Low));
    assert_eq!(c.effort_for("other"), Some(Effort::High));
}

#[test]
fn a_client_from_the_environment_needs_a_key() {
    let vars = vec!["A_KEY".to_string(), "B_KEY".to_string()];
    let none = AiClient::from_env(&None, &None, &None, false, &vars, &no_env(), Effort::Medium);
    assert_eq!(none.err(), Some("set A_KEY or B_KEY".to_string()));
    let none = AiClient::from_env(&None, &None, &None, true, &vars, &no_env(), Effort::Medium);
    assert_eq!(none.err(), Some("not signed in to ChatGPT; run `aster login codex`".to_string()));
    let key = Some("k".to_string());
    let c = AiClient::from_env(&None, &key, &None, false, &vars, &no_env(), Effort::Medium);
    let c = match c {
        Ok(c) => c,
        Err(e) => panic!("{e}"),
    };
    assert_eq!(c.base_url(), "https://openrouter.ai/api/v1");
    assert_eq!(c.model, "openai/gpt-4o-mini");
}

#[test]
fn numbers_and_switches_come_from_the_environment() {
    assert_eq!(env_u64(&Some(" 7 ".to_string()), 1), 7);
    assert_eq!(env_u64(&Some("x".to_string()), 1), 1);
    assert_eq!(env_u64(&None, 1), 1);
    assert!(env_truthy(&Some(" on ".to_string())));
    assert!(!env_truthy(&Some("ON".to_string())));
    assert!(!env_truthy(&None));
}

#[test]
fn api_errors_are_described() {
    assert_eq!(format_api_error(429, "{\"error\":{\"message\":\" slow \"}}"), "rate limited (429): slow");
    assert_eq!(
        format_api_error(400, "{\"error\":{\"metadata\":{\"raw\":\"up\"},\"message\":\"m\"}}"),
        "bad request (400): up"
    );
    assert_eq!(format_api_error(418, ""), "request failed (418)");
    assert_eq!(format_api_error(503, " down "), "provider error (503): down");
    assert_eq!(format_api_error(422, "{\"detail\":[{\"msg\":\"bad\"}]}"), "request failed (422): bad");
    assert_eq!(
        format_api_error(404, "{\"errors\":[{\"message\":\"none\"}]}"),
        "model or endpoint not found (404): none"
    );
    assert_eq!(
        format_api_error(401, "{\"error\":\"\"}"),
        "authentication failed (check your API key) (401): {\"error\":\"\"}"
    );
}

#[test]
fn network_failures_name_the_host() {
    assert_eq!(
        network_error(Transport::Timeout, None, "https://api.example.com/v1/chat"),
        Some(
            "The request to api.example.com timed out. Check your internet connection and try again."
                .to_string()
        )
    );
    assert_eq!(
        network_error(Transport::Connect, Some("h".to_string()), "https://x/"),
        Some("Couldn't reach h. Check your internet connection and try again.".to_string())
    );
    assert_eq!(
        network_error(Transport::Connect, None, "not a url"),
        Some("Couldn't reach the provider. Check your internet connection and try again.".to_string())
    );
    assert_eq!(network_error(Transport::Other, None, "https://x/"), None);
}

#[test]
fn image_refusals_are_recognised_in_any_case() {
    assert!(rejected_images("This model has no VISION"));
    assert!(!rejected_images("rate limited"));
}

fn picture(url: &str) -> Json {
    Fields::new()
        .text("type", "image_url")
        .with("image_url", Fields::new().text("url", url).json())
        .json()
}

#[test]
fn images_are_described_in_order() {
    let parts = vec![picture("u1"), picture("u2")];
    let message = Fields::new().text("role", "user").with("content", Json::array(parts)).json();
    let messages = vec![message];
    assert_eq!(urls_in(&messages), vec!["u1".to_string(), "u2".to_string()]);
    let texts = captions(&vec!["a cat".to_string()], 2, "[omitted]");
    assert_eq!(texts, vec!["[image: a cat]".to_string(), "[omitted]".to_string()]);
    let plain = caption_values(&messages, &texts);
    assert!(urls_in(&plain).is_empty());
    let parts = plain[0].array_at("content").expect("parts");
    assert_eq!(parts[0].str_at("text"), Some("[image: a cat]"));
    assert_eq!(parts[1].str_at("text"), Some("[omitted]"));
    assert_eq!(described_count(9), 4);
    assert_eq!(urls_in(&vec![describe_image("u")]), vec!["u".to_string()]);
    assert_eq!(vision_model_name(&Some(" ".to_string())), "openai/gpt-4o-mini");
    assert_eq!(vision_model_name(&Some("v".to_string())), "v");
}

#[test]
fn the_catalog_strips_resource_names_on_google_only() {
    let entry = |id: &str| ModelEntry {
        id: id.to_string(),
        input_modalities: Some(vec!["text".to_string(), "image".to_string()]),
        context_length: Some(10),
    };
    let google = "https://generativelanguage.googleapis.com/v1beta/openai";
    let v = catalog(vec![entry("models/b"), entry("a")], google);
    assert_eq!(v[0].id, "b");
    assert_eq!(v[0].takes_images, Some(true));
    assert_eq!(fetch_models(&v), vec!["a".to_string(), "b".to_string()]);
    assert!(model_info(&v, "b").is_some());
    assert!(model_info(&v, "models/b").is_none());
    assert!(supports_images(&None));
    let v = catalog(vec![entry("models/b")], "https://h/v1");
    assert_eq!(v[0].id, "models/b");
}

#[test]
fn a_paged_list_ends_with_a_short_page() {
    let ids = |n: usize| known_ids(&vec!["m".to_string(); n]);
    let mut pages = ModelPages::new(3, 2);
    assert_eq!(pages.take(Some(ids(2))), PageStep::Ask(2));
    assert_eq!(pages.take(Some(ids(1))), PageStep::Done);
    assert_eq!(pages.models.len(), 3);
    let mut pages = ModelPages::new(1, 2);
    assert_eq!(pages.take(Some(ids(2))), PageStep::Done);
    let mut pages = ModelPages::new(3, 2);
    assert_eq!(pages.take(Some(ids(0))), PageStep::Fallback);
    assert_eq!(pages.take(None), PageStep::Fallback);
    assert_eq!(fetch_model_catalog(true, true), CatalogFrom::Shortlist);
    assert_eq!(fetch_model_catalog(false, true), CatalogFrom::Pages);
    assert_eq!(fetch_model_catalog(false, false), CatalogFrom::Endpoint);
}

fn delta(index: usize, id: &str, name: &str, arguments: &str) -> ToolCallDelta {
    let some = |s: &str| if s.is_empty() { None } else { Some(s.to_string()) };
    ToolCallDelta {
        index,
        id: some(id),
        name: some(name),
        arguments: some(arguments),
        extra_content: None,
    }
}

#[test]
fn pieces_of_a_call_are_put_together() {
    let mut p = Partials::new();
    p.merge_tool_call(&delta(0, "a", "read", "{\"p\""));
    p.merge_tool_call(&delta(0, "", "", ":1}"));
    p.merge_tool_call(&delta(1, "b", "list", "{}"));
    let calls = p.finish();
    assert_eq!(calls.len(), 2);
    assert_eq!(calls[0].arguments, "{\"p\":1}");
    assert_eq!(calls[1].name, "list");
}

#[test]
fn a_resent_snapshot_replaces_what_was_gathered() {
    let mut p = Partials::new();
    p.merge_tool_call(&delta(0, "a", "read", "{\"p\""));
    p.merge_tool_call(&delta(0, "", "", "{\"p\":1}"));
    assert_eq!(p.finish()[0].arguments, "{\"p\":1}");
}

#[test]
fn two_calls_on_one_index_are_kept_apart() {
    let mut p = Partials::new();
    p.merge_tool_call(&delta(0, "a", "read", "{}"));
    p.merge_tool_call(&delta(0, "b", "list", "{}"));
    assert_eq!(p.finish().len(), 2);
}

#[test]
fn a_reply_that_was_cut_is_continued() {
    assert!(cut_short(Some("length")));
    assert!(!cut_short(Some("stop")));
    let mut t = TextPasses::new();
    assert_eq!(t.take("one ", Some("length")), PassStep::Again);
    assert_eq!(t.take("two", Some("stop")), PassStep::Done);
    assert_eq!(t.content, "one two");
    let mut t = TextPasses::new();
    assert_eq!(t.take("  ", Some("length")), PassStep::ThinkingExhausted);
    let mut t = TextPasses::new();
    for _ in 0..3 {
        assert_eq!(t.take("x", Some("length")), PassStep::Again);
    }
    assert_eq!(t.take("x", Some("length")), PassStep::Done);
}

#[test]
fn tool_replies_are_continued_too() {
    let mut p = ToolPasses::new();
    p.add_text(&Some("part".to_string()), Some("length"));
    assert_eq!(p.settle(true, Some("length")), PassStep::Degenerate);
    assert_eq!(p.partial().str_at("content"), Some("part"));
    let (text, calls) = settle_message(None, vec![call("a")], String::new(), Vec::new());
    assert_eq!(text, None);
    assert_eq!(calls.len(), 1);
}

#[test]
fn a_text_stream_that_drops_before_anything_is_retried() {
    let s = TextStream::new();
    assert!(matches!(s.end(true), TextEnd::Retry));
    let mut s = TextStream::new();
    let shown = s.feed(TextDelta {
        usage: None,
        choice: Some(TextChoice { finish_reason: None, text: "hi".to_string(), thinking: false }),
    });
    assert_eq!(shown, Some("hi".to_string()));
    assert!(matches!(s.end(true), TextEnd::Dropped));
    assert!(matches!(s.end(false), TextEnd::Reply));
}

#[test]
fn a_tool_stream_shows_each_piece_once() {
    let mut s = ToolStream::new();
    let (_, shown) = s.feed(StreamDelta {
        usage: Some(Usage { prompt_tokens: 1, completion_tokens: 2 }),
        choice: Some(StreamChoice {
            finish_reason: None,
            text: "hello".to_string(),
            tagged: String::new(),
            repeats: false,
            annotations: Vec::new(),
            reasoning_content: None,
            reasoning_details: Vec::new(),
            tool_calls: Vec::new(),
        }),
    });
    assert_eq!(shown.len(), 1);
    assert!(matches!(&shown[0], Shown::Text(t) if t == "hello"));
    assert!(matches!(s.end(false), StreamEnd::Reply));
    let (text, calls) = settle_inline("c".to_string(), Vec::new(), "c".to_string(), Vec::new());
    assert_eq!(text, "c");
    assert!(calls.is_empty());
    assert_eq!(completion_chars("abc", &vec![call("x")]), 3 + 2);
}

#[test]
fn thinking_is_merged_by_index() {
    let block = |index: u64, text: &str| ReasoningDetail {
        kind: "reasoning.text".to_string(),
        index: Some(index),
        text: Some(text.to_string()),
        summary: None,
        data: None,
        signature: None,
        id: None,
    };
    let mut out = Vec::new();
    merge_reasoning(&mut out, block(0, "a"));
    merge_reasoning(&mut out, block(0, "b"));
    merge_reasoning(&mut out, block(1, "c"));
    assert_eq!(out.len(), 2);
    assert_eq!(out[0].text, Some("ab".to_string()));
}

#[test]
fn requests_go_to_their_endpoint() {
    assert_eq!(chat_url("https://h/v1", &None), "https://h/v1/chat/completions");
    assert_eq!(chat_url("https://h/v1", &Some("https://c/x".to_string())), "https://c/x");
    let (stream, _) = stream_body(true, Fields::new().json());
    assert!(stream);
    let v = build_request("s", "u");
    assert_eq!(v[0].role, "system");
    assert_eq!(v[1].text, "u");
    assert!(no_reply_in_stream("plain").len() > 0);
}

#[test]
fn an_expired_token_is_refreshed_once() {
    assert_eq!(send_with_retry(200, true, false), StatusStep::Read);
    assert_eq!(send_with_retry(401, true, false), StatusStep::Refresh);
    assert_eq!(send_with_retry(401, true, true), StatusStep::Expired);
    assert_eq!(send_with_retry(401, false, false), StatusStep::Fail);
    assert_eq!(send_reasoned(true, true, false, false), ReasonedStep::DropHistory);
    assert_eq!(send_reasoned(false, true, true, true), ReasonedStep::Relax);
    assert_eq!(send_reasoned(false, true, true, false), ReasonedStep::Fail);
}

#[test]
fn headers_that_cannot_be_sent_are_dropped() {
    let v = vec![
        ("X-Title".to_string(), "Aster".to_string()),
        ("bad name".to_string(), "v".to_string()),
        ("X-Ok".to_string(), "line\nbreak".to_string()),
        ("x-title".to_string(), "Later".to_string()),
    ];
    let kept = attribution(&v);
    assert_eq!(kept.len(), 1);
    assert_eq!(kept[0], ("x-title".to_string(), "Later".to_string()));
}

#[test]
fn server_events_come_in_any_chunks() {
    let text = "data: {\"a\":1}\r\n\ndata: [DONE]\nnoise\n";
    let whole = {
        let mut b = SseBuffer::new();
        b.push(&text.as_bytes().to_vec());
        let mut out = Vec::new();
        while let Some(line) = b.next_line() {
            out.push(read_sse(&line));
        }
        out
    };
    let mut b = SseBuffer::new();
    let mut out = Vec::new();
    for byte in text.as_bytes() {
        b.push(&vec![*byte]);
        while let Some(line) = b.next_line() {
            out.push(read_sse(&line));
        }
    }
    assert_eq!(whole, out);
    assert_eq!(whole[0], Some("{\"a\":1}".to_string()));
    assert_eq!(line_payload("noise"), None);
    assert_eq!(read_sse(&b"data: \xff".to_vec()), Some("\u{fffd}".to_string()));
}

#[test]
fn usage_adds_up_and_stays_labelled() {
    assert_eq!(estimate_tokens(0), 0);
    assert_eq!(estimate_tokens(5), 2);
    let mut u = UsageCounter::new();
    u.record_usage(Some(Usage { prompt_tokens: 10, completion_tokens: 5 }), 0, 0);
    let before = u.usage_snapshot(true);
    assert_eq!(before.total_tokens, 15);
    assert!(!before.estimated);
    u.record_usage(None, 8, 4);
    let after = u.usage_snapshot(true);
    assert_eq!(after.total_tokens, 18);
    assert!(after.estimated);
    let round = round_usage(before, after).expect("a round");
    assert_eq!(round.prompt_tokens, 2);
    assert_eq!(round.completion_tokens, 1);
}

#[test]
fn the_output_budget_fits_the_window() {
    assert_eq!(output_budget(None, true, Some(1000), 0), None);
    assert_eq!(output_budget(Some(8000), false, None, 0), Some(8000));
    assert_eq!(output_budget(Some(8000), false, Some(10), 8_000), Some(8000));
    assert_eq!(output_budget(Some(8000), true, None, 0), Some(8000));
    assert_eq!(output_budget(Some(8000), true, Some(10_000), 8_000), Some(7488));
    assert_eq!(output_budget(Some(8000), true, Some(1_000), 8_000), Some(512));
}

#[test]
fn canonical_text_of_a_request_is_stable() {
    let j = read_json("{\"z\":1,\"a\":[{\"c\":2,\"b\":3}]}").expect("json");
    assert_eq!(canonical_json(&j), "{\"a\":[{\"b\":3,\"c\":2}],\"z\":1}");
}

#[test]
fn settings_of_a_client_can_change_later() {
    let mut c = client();
    c.set_effort(Effort::Max);
    c.set_web_search(true);
    c.set_max_tokens(None);
    c.set_attribution_headers(vec![("A".to_string(), "b".to_string())]);
    c.learn_strip();
    assert_eq!(c.effort(), Effort::Max);
    assert!(c.web_search());
    assert_eq!(c.max_tokens(), None);
    assert_eq!(c.attribution_headers.len(), 1);
    assert!(c.memo.strip_history);
    let head = c.build_request_from("m", true);
    assert!(head.stream && head.include_usage && head.web_plugin);
    assert_eq!(head.seed, Some(0));
}

#[test]
fn bare_thinking_becomes_a_block() {
    assert_eq!(thinking_block(0, &Some(" t ".to_string())), Some(" t ".to_string()));
    assert_eq!(thinking_block(1, &Some("t".to_string())), None);
    assert_eq!(thinking_block(0, &Some("  ".to_string())), None);
    let mut s = ToolStream::new();
    s.end_tags("", "deep");
    assert_eq!(s.bare_thinking(), Some("deep".to_string()));
    assert!(matches!(s.end(false), StreamEnd::Retry));
    s.fold_thinking();
    assert_eq!(s.bare_thinking(), None);
    assert_eq!(s.reasoning_details.len(), 1);
    assert_eq!(s.reasoning_details[0].text, Some("deep".to_string()));
    assert!(matches!(s.end(false), StreamEnd::Thought));
}

#[test]
fn the_codex_backend_gets_its_headers() {
    let named = vec![("OpenAI-Beta".to_string(), "mine".to_string())];
    let account = Some("acc".to_string());
    assert_eq!(
        post_headers(true, &account, &Vec::new()),
        vec![
            ("openai-beta".to_string(), "responses=experimental".to_string()),
            ("chatgpt-account-id".to_string(), "acc".to_string()),
        ]
    );
    assert_eq!(post_headers(true, &None, &named), vec![("openai-beta".to_string(), "mine".to_string())]);
    assert!(post_headers(false, &account, &Vec::new()).is_empty());
    assert!(describe_instead(true, 0, "no images here"));
    assert!(!describe_instead(true, 1, "no images here"));
    assert!(!describe_instead(false, 0, "no images here"));
    assert!(!describe_instead(true, 0, "rate limited"));
}

#[test]
fn values_are_measured_as_compact_text() {
    let mut map = serde_json::Map::new();
    map.insert("k".to_string(), serde_json::Value::from("é"));
    let values = vec![serde_json::Value::Object(map), serde_json::Value::from(12)];
    assert_eq!(json_chars(&values), Some("{\"k\":\"é\"}".len() + 2));
    assert_eq!(json_chars(&Vec::new()), Some(0));
}

fn streamed(text: &str, calls: Vec<ToolCallDelta>) -> ToolStream {
    let mut s = ToolStream::new();
    s.feed(StreamDelta {
        usage: None,
        choice: Some(StreamChoice {
            finish_reason: None,
            text: text.to_string(),
            tagged: String::new(),
            repeats: false,
            annotations: vec![Annotation { url: "u".to_string(), title: None }],
            reasoning_content: None,
            reasoning_details: Vec::new(),
            tool_calls: calls,
        }),
    });
    s
}

fn fragment(index: usize, id: Option<&str>, name: &str) -> ToolCallDelta {
    ToolCallDelta {
        index,
        id: id.map(str::to_string),
        name: Some(name.to_string()),
        arguments: Some("{}".to_string()),
        extra_content: None,
    }
}

#[test]
fn a_streamed_reply_has_content_where_text_came() {
    let r = reply(streamed("hi", Vec::new()), "hi".to_string(), Vec::new());
    assert_eq!(r.content, Some("hi".to_string()));
    assert_eq!(r.annotations.len(), 1);
    let calls = vec![fragment(3, Some("x"), "b"), fragment(1, None, "a")];
    let r = reply(streamed("", calls), String::new(), Vec::new());
    assert_eq!(r.content, None);
    let ids: Vec<&str> = r.tool_calls.iter().map(|c| c.id.as_str()).collect();
    assert_eq!(ids, vec!["call_1", "x"]);
}

#[test]
fn calls_written_into_the_text_are_taken_out() {
    let r = reply(streamed("markup", Vec::new()), String::new(), vec![call("i")]);
    assert_eq!(r.content, None);
    assert_eq!(r.tool_calls.len(), 1);
    let own = vec![fragment(0, Some("own"), "a")];
    let r = reply(streamed("text", own), String::new(), vec![call("i")]);
    assert_eq!(r.content, Some("text".to_string()));
    assert_eq!(r.tool_calls[0].id, "own");
}

#[test]
fn plain_thinking_stands_in_the_blocks_alone() {
    let mut s = ToolStream::new();
    s.end_tags("", "deep");
    let r = reply(s, String::new(), Vec::new());
    assert_eq!(r.content, None);
    assert_eq!(r.thoughts, vec!["deep".to_string()]);
    assert_eq!(
        canonical_json(&r.reasoning_details[0]),
        r#"{"text":"deep","type":"reasoning.text"}"#
    );
}

#[test]
fn a_finished_stream_is_looked_at_once_more() {
    let end = |text: &str, failed: bool, repeats: bool| {
        finish_stream(streamed(text, Vec::new()), failed, text.to_string(), Vec::new(), repeats)
    };
    assert!(matches!(end("hi", false, false), StreamResult::Reply(r) if r.content.is_some()));
    assert!(matches!(end("hi", false, true), StreamResult::Degenerate));
    assert!(matches!(end("hi", true, false), StreamResult::Dropped));
    assert!(matches!(end("", false, false), StreamResult::Retry));
    let mut s = ToolStream::new();
    s.end_tags("", "deep");
    let r = finish_stream(s, false, String::new(), Vec::new(), true);
    assert!(matches!(r, StreamResult::Reply(r) if r.content.is_none() && r.thoughts.len() == 1));
    let mut s = ToolStream::new();
    s.end_tags("", "deep");
    s.finish = Some("length".to_string());
    let r = finish_stream(s, false, String::new(), Vec::new(), false);
    assert!(matches!(r, StreamResult::ThinkingExhausted));
}

fn whole(content: Option<&str>, tool_calls: Vec<ToolCall>) -> AssistantMessage {
    AssistantMessage {
        content: content.map(str::to_string),
        tool_calls,
        annotations: vec![Annotation { url: "u".to_string(), title: None }],
        reasoning_details: Vec::new(),
        reasoning_content: Some("why".to_string()),
    }
}

#[test]
fn calls_end_the_passes_of_a_whole_reply() {
    let mut p = ToolPasses::new();
    let m = whole(Some("look"), vec![call("a")]);
    let step = p.step(m, Some("length"), String::new(), Vec::new(), true);
    let ToolStep::Reply(r) = step else { panic!("calls end the passes") };
    assert_eq!(r.content, Some("look".to_string()));
    assert_eq!(r.tool_calls.len(), 1);
    assert_eq!(r.annotations.len(), 1);
    assert_eq!(r.thoughts, vec!["why".to_string()]);
    assert_eq!(r.reasoning_details.len(), 1);
}

#[test]
fn prose_is_gathered_over_the_passes() {
    let mut p = ToolPasses::new();
    let step = p.step(whole(Some("a"), Vec::new()), Some("length"), String::new(), Vec::new(), false);
    assert!(matches!(step, ToolStep::Again(m) if m.str_at("content") == Some("a")));
    let step = p.step(whole(Some("b"), Vec::new()), Some("stop"), String::new(), Vec::new(), false);
    let ToolStep::Reply(r) = step else { panic!("it is finished") };
    assert_eq!(r.content, Some("ab".to_string()));
    assert_eq!(r.annotations.len(), 1);
    assert_eq!(r.thoughts.len(), 1);
}

#[test]
fn a_reply_that_is_always_cut_comes_out_bare() {
    let mut p = ToolPasses::new();
    for _ in 0..3 {
        let step = p.step(whole(Some("x"), Vec::new()), Some("length"), String::new(), Vec::new(), false);
        assert!(matches!(step, ToolStep::Again(_)));
    }
    let step = p.step(whole(Some("x"), Vec::new()), Some("length"), String::new(), Vec::new(), false);
    let ToolStep::Reply(r) = step else { panic!("the passes end") };
    assert_eq!(r.content, Some("xxxx".to_string()));
    assert!(r.annotations.is_empty() && r.reasoning_details.is_empty() && r.thoughts.is_empty());
}

#[test]
fn a_whole_reply_can_fail() {
    let step = |content: &str, finish: &str, repeats: bool| {
        let m = whole(Some(content), Vec::new());
        ToolPasses::new().step(m, Some(finish), String::new(), Vec::new(), repeats)
    };
    assert!(matches!(step(" ", "length", false), ToolStep::ThinkingExhausted));
    assert!(matches!(step("la la", "stop", true), ToolStep::Degenerate));
    assert!(matches!(step(" ", "stop", false), ToolStep::Reply(_)));
}

#[test]
fn one_failed_description_keeps_the_images() {
    let urls: Vec<String> = (0..6).map(|i| format!("u{i}")).collect();
    let mut results: Vec<Result<String, String>> = (0..4).map(|i| Ok(format!("d{i}"))).collect();
    let list = describe_all(&urls, &results, "[omitted]").expect("all came");
    assert_eq!(list.len(), 6);
    assert_eq!(list[3], "[image: d3]");
    assert_eq!(list[4], "[omitted]");
    results[3] = Err("down".to_string());
    assert_eq!(describe_all(&urls, &results, "[omitted]"), None);
    let few = urls[..3].to_vec();
    assert_eq!(describe_all(&few, &results, "x").map(|v| v.len()), Some(3));
    assert_eq!(describe_all(&urls, &Vec::new(), "x"), None);
    assert_eq!(describe_all(&Vec::new(), &Vec::new(), "x"), Some(Vec::new()));
}

#[test]
fn a_described_message_is_plain_text_again() {
    let text = Fields::new().text("type", "text").text("text", "see").json();
    let with_image = ChatMessage {
        role: "user".to_string(),
        text: "see".to_string(),
        content: Json::array(vec![text, picture("u1")]),
    };
    let all = vec![ChatMessage::plain("system", "s"), with_image];
    assert_eq!(urls_in_chat(&all), vec!["u1".to_string()]);
    let list = Some(vec!["[image: a cat]".to_string()]);
    let now = caption_chat_messages(&all, &list, "\n");
    assert_eq!(now[0].text, "s");
    assert_eq!(now[1].role, "user");
    assert_eq!(now[1].text, "see\n[image: a cat]");
    assert_eq!(now[1].content.as_str(), Some("see\n[image: a cat]"));
    let same = caption_chat_messages(&all, &None, "\n");
    assert_eq!(urls_in_chat(&same), vec!["u1".to_string()]);
}

#[test]
fn a_header_name_is_a_token() {
    let names = ["X-Title", "x_y~1", "", "no space", "colon:", "\u{e9}"];
    let all = names.iter().map(|n| (n.to_string(), "v".to_string())).collect();
    let kept: Vec<String> = attribution(&all).into_iter().map(|p| p.0).collect();
    assert_eq!(kept, vec!["x-title".to_string(), "x_y~1".to_string()]);
    let long = vec![("a".repeat(65535), "v".to_string()), ("a".repeat(65536), "v".to_string())];
    assert_eq!(attribution(&long).len(), 1);
}

#[test]
fn the_pieces_shown_make_the_content() {
    let mut s = TextStream::new();
    let mut shown: Vec<String> = Vec::new();
    for text in ["he", "", "llo "] {
        let choice = TextChoice { finish_reason: None, text: text.to_string(), thinking: false };
        shown.extend(s.feed(TextDelta { usage: None, choice: Some(choice) }));
    }
    shown.extend(s.feed(TextDelta { usage: None, choice: None }));
    shown.extend(s.end_tags("<tail"));
    assert_eq!(shown, vec!["he".to_string(), "llo ".to_string(), "<tail".to_string()]);
    assert_eq!(shown.concat(), s.content);
    assert_eq!(s.end_tags(""), None);
}

#[test]
fn compact_text_escapes_and_keeps_numbers() {
    let text = "{\"a\":[1,-2.5,null,true],\"b\":\"q\\\"\\n\"}";
    let value = serde_json::from_str(text).expect("json");
    assert_eq!(json_chars(&vec![value]), Some(text.len()));
}

#[test]
fn the_text_shown_of_a_tool_stream_is_its_content() {
    let mut s = ToolStream::new();
    let mut shown = Vec::new();
    for (text, tagged) in [("a", "t"), ("", "u"), ("b", "")] {
        let (_, more) = s.feed(StreamDelta {
            usage: None,
            choice: Some(StreamChoice {
                finish_reason: None,
                text: text.to_string(),
                tagged: tagged.to_string(),
                repeats: false,
                annotations: Vec::new(),
                reasoning_content: Some("r".to_string()),
                reasoning_details: Vec::new(),
                tool_calls: Vec::new(),
            }),
        });
        shown.extend(more);
    }
    let text: String =
        shown.iter().filter_map(|p| if let Shown::Text(t) = p { Some(t.as_str()) } else { None }).collect();
    assert_eq!(text, "ab");
    assert_eq!(s.content, text);
}
