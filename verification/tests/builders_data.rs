use libopenai::audio::timestamp_to_millis;
use libopenai::audio::AudioResponse;
use libopenai::audio::AudioResponseFormat;
use libopenai::audio::GenericSegment;
use libopenai::audio::JsonResponse;
use libopenai::audio::Subtitle;
use libopenai::chat::Message;
use libopenai::chat::Role;
use libopenai::embeddings::EmbeddingBuilder;
use libopenai::error::BuilderError;
use libopenai::error::Error;
use libopenai::finetune::TrainingData;
use libopenai::finetune::TrainingDataBuilder;
use libopenai::image::Data;
use libopenai::image::GenerateBuilder;
use libopenai::image::ImageEditBuilder;
use libopenai::image::ResponseFormat;
use libopenai::image::Size;
use libopenai::image::VariationBuilder;
use libopenai::text::trim_ascii;
use libopenai::text::trim_ascii_end;
use libopenai::text::trim_ascii_start;

#[test]
fn trims_drop_only_ascii_whitespace() {
    assert_eq!(trim_ascii_start(b"  \t\r\nhi "), b"hi ");
    assert_eq!(trim_ascii_end(b" hi \t\r\n"), b" hi");
    assert_eq!(trim_ascii(b"\n\n data: x \n\n"), b"data: x");
    assert_eq!(trim_ascii(b" \t\n\r\x0c"), b"");
    assert_eq!(trim_ascii(b""), b"");
    assert_eq!(trim_ascii(b"solid"), b"solid");
}

#[test]
fn message_constructors_set_roles() {
    let m = Message::new(Role::Assistant, "hello".to_owned());
    assert_eq!(m.role, Role::Assistant);
    assert_eq!(m.content, "hello");
    assert_eq!(Message::user("u".to_owned()).role, Role::User);
    assert_eq!(Message::system("s".to_owned()).role, Role::System);
    assert_eq!(Message::assistant("a".to_owned()).role, Role::Assistant);
    assert_eq!(Role::default(), Role::User);
}

#[test]
fn generate_builder_checks_prompt_and_n() {
    let b = GenerateBuilder::new("a cat".to_owned()).unwrap();
    assert_eq!(b.prompt, "a cat");
    assert!(b.n.is_none());

    let long = "x".repeat(1001);
    match GenerateBuilder::new(long) {
        Err(Error::Msg(_)) => {}
        other => panic!("expected a message error, got {:?}", other),
    }

    let b = GenerateBuilder::new("p".to_owned()).unwrap();
    let b = b.n(10).unwrap();
    assert_eq!(b.n, Some(10));
    let err: BuilderError<GenerateBuilder> = b.n(11).unwrap_err();
    assert_eq!(err.builder.n, Some(10));
    let b = err.into_inner();
    assert!(b.n(0).is_err());
}

#[test]
fn generate_builder_setters_keep_other_fields() {
    let b = GenerateBuilder::new("p".to_owned())
        .unwrap()
        .size(Size::P512)
        .response_format(ResponseFormat::B64Json)
        .user("me".to_owned());
    assert_eq!(b.prompt, "p");
    assert_eq!(b.size, Some(Size::P512));
    assert_eq!(b.response_format, Some(ResponseFormat::B64Json));
    assert_eq!(b.user, Some("me".to_owned()));
    assert_eq!(Size::default(), Size::P1024);
    assert_eq!(ResponseFormat::default(), ResponseFormat::Url);
}

#[test]
fn image_edit_builder_checks_prompt_and_n() {
    let long = "y".repeat(2000);
    assert!(ImageEditBuilder::new(long).is_err());
    let b = ImageEditBuilder::new("edit it".to_owned()).unwrap();
    let b = b.n(1).unwrap().size(Size::P256).user("u".to_owned());
    assert_eq!(b.n, Some(1));
    assert_eq!(b.size, Some(Size::P256));
    assert_eq!(b.user, Some("u".to_owned()));
}

#[test]
fn variation_builder_round_trip() {
    let b = VariationBuilder::new();
    assert!(b.n.is_none() && b.size.is_none());
    let b = b.n(3).unwrap().response_format(ResponseFormat::Url);
    assert_eq!(b.n, Some(3));
    assert_eq!(b.response_format, Some(ResponseFormat::Url));
    assert!(VariationBuilder::new().n(42).is_err());
    assert!(VariationBuilder::default().n.is_none());
}

#[test]
fn embedding_builder_sets_fields() {
    let b = EmbeddingBuilder::new("model-a".to_owned(), "some text".to_owned());
    assert_eq!(b.model, "model-a");
    assert_eq!(b.input, "some text");
    assert!(b.user.is_none());
    let b = b.user("end-user".to_owned());
    assert_eq!(b.user, Some("end-user".to_owned()));
}

#[test]
fn training_data_builder_defaults_and_decorate() {
    let b = TrainingData::builder();
    assert_eq!(b.prefix, Some(" ".to_owned()));
    assert_eq!(b.suffix, Some("\n".to_owned()));
    assert!(b.filename.is_none());

    let d = b.decorate(TrainingData::new("q".to_owned(), "a".to_owned()));
    assert_eq!(d.prompt, "q");
    assert_eq!(d.completion, " a\n");

    let bare = TrainingDataBuilder::new().prefix(None).suffix(None);
    let d = bare.decorate(TrainingData::new("q".to_owned(), "a".to_owned()));
    assert_eq!(d.completion, "a");

    let named = TrainingDataBuilder::new().filename("data.jsonl".to_owned());
    assert_eq!(named.filename, Some("data.jsonl".to_owned()));
}

#[test]
fn image_data_as_str_returns_contents() {
    assert_eq!(Data::Url("https://img".to_owned()).as_str(), "https://img");
    assert_eq!(Data::B64Json("aGk=".to_owned()).as_str(), "aGk=");
}

#[test]
fn segment_duration_subtracts_times() {
    let seg = GenericSegment { text: "hi", start: 1500, end: 4000 };
    assert_eq!(seg.duration(), 2500);
    assert_eq!(AudioResponseFormat::default(), AudioResponseFormat::Json);
}

#[test]
fn audio_response_text_joins_subtitles() {
    let resp = AudioResponse::Srt(vec![
        Subtitle { text: "first".to_owned(), start_ms: 0, end_ms: 900 },
        Subtitle { text: "second".to_owned(), start_ms: 1000, end_ms: 1900 },
        Subtitle { text: "third".to_owned(), start_ms: 2000, end_ms: 2500 },
    ]);
    assert_eq!(resp.text(), "first second third");
    assert_eq!(resp.duration(), Some(2500));
    let segs = resp.segments().unwrap();
    assert_eq!(segs.len(), 3);
    assert_eq!(segs[1].text, "second");
    assert_eq!(segs[1].start, 1000);
    assert_eq!(segs[1].end, 1900);

    let empty = AudioResponse::Srt(Vec::new());
    assert_eq!(empty.text(), "");
    assert_eq!(empty.duration(), Some(0));

    let plain = AudioResponse::Text("just text".to_owned());
    assert_eq!(plain.text(), "just text");
    assert_eq!(plain.duration(), None);
    assert!(plain.segments().is_none());
    assert!(plain.language().is_none());

    let json = AudioResponse::Json(JsonResponse { text: "t".to_owned() });
    assert_eq!(json.text(), "t");
}

#[test]
fn timestamp_converts_to_milliseconds() {
    assert_eq!(timestamp_to_millis(0, 0, 0, 0), 0);
    assert_eq!(timestamp_to_millis(1, 2, 3, 4), 3_600_000 + 120_000 + 3_000 + 4);
}

#[test]
fn builder_error_carries_builder_and_error() {
    let e = BuilderError::msg(7u64, "bad".to_owned());
    assert_eq!(e.builder, 7);
    match e.into_error() {
        Error::Msg(m) => assert_eq!(m, "bad"),
        other => panic!("expected a message error, got {:?}", other),
    }
    let e = BuilderError::new(1u32, Error::msg("m".to_owned()));
    assert_eq!(e.into_inner(), 1);
}
