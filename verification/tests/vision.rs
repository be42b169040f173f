use granite_cli::capabilities::vision_mcp::compare_labels;
use granite_cli::capabilities::vision_mcp::data_uri_within;
use granite_cli::capabilities::vision_mcp::describe_prompt_text;
use granite_cli::capabilities::vision_mcp::image_data_uri;
use granite_cli::capabilities::vision_mcp::image_mime;
use granite_cli::capabilities::vision_mcp::parse_image_source;
use granite_cli::capabilities::vision_mcp::AnalysisType;
use granite_cli::capabilities::vision_mcp::ImageSource;
use granite_cli::capabilities::vision_mcp::VlmError;
use granite_cli::capabilities::vision_mcp::vlm_outcome;
use granite_cli::capabilities::vision_mcp::vlm_request_body;
use granite_cli::capabilities::vision_mcp::vlm_target;
use granite_cli::capabilities::vision_mcp::ContentPart;
use granite_cli::json::JsonValue;

#[test]
fn image_bytes_travel_as_a_base64_data_uri() {
    assert_eq!(image_data_uri(&vec![1, 2, 3], "image/png"), "data:image/png;base64,AQID");
    assert_eq!(image_data_uri(&b"hello".to_vec(), "image/jpeg"), "data:image/jpeg;base64,aGVsbG8=");
    assert_eq!(image_data_uri(&vec![], "image/gif"), "data:image/gif;base64,");
}

#[test]
fn images_over_the_limit_are_refused() {
    match data_uri_within(&vec![1, 2, 3], "image/png", 2) {
        Err(e) => {
            assert!(matches!(e, VlmError::ImageTooLarge { limit: 2 }));
            assert_eq!(e.message(), "Image exceeds size limit: 2 bytes");
        }
        Ok(_) => panic!("three bytes are over a limit of two"),
    }
    assert_eq!(data_uri_within(&vec![1, 2, 3], "image/png", 3).ok().unwrap(), "data:image/png;base64,AQID");
}

#[test]
fn base64_sources_are_decoded_as_jpeg_bytes() {
    match parse_image_source("base64", "AQID").ok().unwrap() {
        ImageSource::Bytes { data, mime } => {
            assert_eq!(data, vec![1, 2, 3]);
            assert_eq!(mime, "image/jpeg");
        }
        _ => panic!("expected bytes"),
    }
    let err = parse_image_source("base64", "!!not base64").err().unwrap();
    assert!(err.starts_with("Invalid base64: "));
}

#[test]
fn url_sources_are_parsed() {
    match parse_image_source("url", "https://x.org/a/b.png").ok().unwrap() {
        ImageSource::Url(u) => {
            assert_eq!(u.text, "https://x.org/a/b.png");
            assert_eq!(u.path, "/a/b.png");
        }
        _ => panic!("expected a URL"),
    }
    let err = parse_image_source("url", "no scheme here").err().unwrap();
    assert!(err.starts_with("Invalid URL: "));
    assert_eq!(
        parse_image_source("ftp", "x").err().unwrap(),
        "Unknown image source type: 'ftp'. Use 'file', 'base64', or 'url'."
    );
    assert!(matches!(parse_image_source("file", "/tmp/cat.png").ok().unwrap(), ImageSource::File(p) if p == "/tmp/cat.png"));
}

#[test]
fn image_types_follow_extension_and_url_segment() {
    let file = |p: &str| image_mime(&ImageSource::File(p.to_string()));
    assert_eq!(file("/tmp/cat.png"), "image/png");
    assert_eq!(file("/tmp/cat.tif/"), "image/tiff");
    assert_eq!(file("/tmp/cat.PNG"), "image/jpeg");
    assert_eq!(file("/home/u/.webp"), "image/jpeg");
    assert_eq!(file("photo"), "image/jpeg");
    assert_eq!(file("a.b/photo.gif"), "image/gif");
    let url = |s: &str| match parse_image_source("url", s).ok().unwrap() {
        src @ ImageSource::Url(_) => image_mime(&src),
        _ => unreachable!(),
    };
    assert_eq!(url("https://x.org/img/png"), "image/png");
    assert_eq!(url("https://x.org/img/cat.png"), "image/jpeg");
    assert_eq!(image_mime(&ImageSource::Bytes { data: vec![], mime: "image/webp".to_string() }), "image/webp");
}

#[test]
fn analysis_prompts_name_the_analysis() {
    let (system, user) = AnalysisType::TextExtraction.prompts(None);
    assert!(system.starts_with("You are a text extraction assistant."));
    assert_eq!(user, "Analyze this image for text extraction.");
    let (system, user) = AnalysisType::Custom("Count the cats.".to_string()).prompts(None);
    assert_eq!(system, "Count the cats.");
    assert_eq!(user, "Analyze this image according to the instructions above.");
    let (_, user) = AnalysisType::UiAnalysis.prompts(Some("Which button is red?".to_string()));
    assert_eq!(user, "Which button is red?");
    assert_eq!(AnalysisType::ObjectDetection.display(), "object-detection");
    assert!(describe_prompt_text(None).starts_with("Describe this image in detail."));
}

#[test]
fn compared_images_are_labelled() {
    assert_eq!(compare_labels(2).ok().unwrap(), vec!["First image".to_string(), "Second image".to_string()]);
    assert_eq!(compare_labels(3).ok().unwrap(), vec!["Image 1".to_string(), "Image 2".to_string(), "Image 3".to_string()]);
    match compare_labels(1) {
        Err(e) => assert_eq!(e.message(), "API error: compare_images requires at least 2 images"),
        Ok(_) => panic!("one image cannot be compared"),
    }
}

#[test]
fn vision_requests_carry_system_and_user_parts() {
    let parts = vec![ContentPart::ImageUrl("data:image/png;base64,AQID".to_string()), ContentPart::Text("What is this?".to_string())];
    let body = vlm_request_body("granite-vision", "You look.", &parts);
    assert_eq!(body.get_str("model"), Some("granite-vision"));
    assert!(matches!(body.get("stream"), Some(JsonValue::Bool(false))));
    assert!(matches!(body.get("max_tokens"), Some(JsonValue::Number(n)) if n == "4096"));
    let messages = match body.get("messages") {
        Some(JsonValue::Array(m)) => m,
        _ => panic!("messages"),
    };
    assert_eq!(messages[0].get_str("role"), Some("system"));
    assert_eq!(messages[0].get_str("content"), Some("You look."));
    let content = match messages[1].get("content") {
        Some(JsonValue::Array(c)) => c,
        _ => panic!("content"),
    };
    assert_eq!(content[0].get_str("type"), Some("image_url"));
    assert_eq!(content[0].get("image_url").and_then(|u| u.get_str("url")), Some("data:image/png;base64,AQID"));
    assert_eq!(content[1].get_str("text"), Some("What is this?"));
}

#[test]
fn vision_requests_go_to_chat_completions() {
    let extra = vec![("X-Org".to_string(), "lab".to_string())];
    let (url, headers) = vlm_target("http://box:8000/v1//", "k", &extra);
    assert_eq!(url, "http://box:8000/v1/chat/completions");
    assert_eq!(headers, vec![
        ("Content-Type".to_string(), "application/json".to_string()),
        ("Authorization".to_string(), "Bearer k".to_string()),
        ("X-Org".to_string(), "lab".to_string()),
    ]);
    let (_, keyless) = vlm_target("http://box:8000/v1", "", &vec![]);
    assert_eq!(keyless.len(), 1);
}

#[test]
fn vision_answers_are_read_or_refused() {
    assert_eq!(vlm_outcome(200, "200 OK", "", Ok(vec![Some("a cat".to_string())])).ok().unwrap(), "a cat");
    match vlm_outcome(429, "429 Too Many Requests", "slow down", Ok(vec![])) {
        Err(VlmError::RateLimited(m)) => assert_eq!(m, "Rate limited: slow down"),
        _ => panic!("rate limited"),
    }
    match vlm_outcome(500, "500 Internal Server Error", "boom", Ok(vec![])) {
        Err(VlmError::ApiError(m)) => assert_eq!(m, "500 Internal Server Error: boom"),
        _ => panic!("api error"),
    }
    match vlm_outcome(200, "200 OK", "", Ok(vec![None])) {
        Err(e) => assert_eq!(e.message(), "API error: Empty response from VLM"),
        _ => panic!("empty"),
    }
    match vlm_outcome(200, "200 OK", "", Err("expected value".to_string())) {
        Err(VlmError::ApiError(m)) => assert_eq!(m, "Failed to parse response: expected value"),
        _ => panic!("parse error"),
    }
}
