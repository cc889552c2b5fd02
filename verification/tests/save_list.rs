use rpgmv_codec::error::{Error, LzErrorKind};
use rpgmv_codec::global::{
    decode_save_list, decode_slots, encode_entry, encode_save_list, encode_slot, encode_sprite,
    parse_entry, parse_slots, DateTime, DecodeError, Field, Global, GlobalEntry, SpriteInfo,
    MAX_TIMESTAMP_MILLIS,
};
use rpgmv_codec::save::{compress, decompress, Json, SaveValue};

fn sprite(name: &str, index: usize) -> SpriteInfo {
    SpriteInfo { file_name: name.to_string(), sprite_index: index }
}

fn entry() -> GlobalEntry {
    GlobalEntry {
        characters: vec![sprite("Actor1", 0), sprite("Actor2", 7)],
        faces: vec![sprite("Face1", 3)],
        global_id: "RPGMV".to_string(),
        playtime: "01:23:45".to_string(),
        timestamp: DateTime::from_timestamp_millis(1_700_000_000_000).unwrap(),
        title: "Quest".to_string(),
    }
}

const ENTRY_JSON: &str = "{\"characters\":[[\"Actor1\",0],[\"Actor2\",7]],\"faces\":[[\"Face1\",3]],\
\"globalId\":\"RPGMV\",\"playtime\":\"01:23:45\",\"timestamp\":1700000000000,\"title\":\"Quest\"}";

fn parse(json: &str) -> Result<Option<GlobalEntry>, DecodeError> {
    parse_entry(&Json::from_string(json).unwrap().inner())
}

fn with_field(name: &str, value: &str) -> String {
    let mut fields = vec![
        ("characters", "[]".to_string()),
        ("faces", "[]".to_string()),
        ("globalId", "\"id\"".to_string()),
        ("playtime", "\"0\"".to_string()),
        ("timestamp", "0".to_string()),
        ("title", "\"t\"".to_string()),
    ];
    for field in fields.iter_mut() {
        if field.0 == name {
            field.1 = value.to_string();
        }
    }
    let body: Vec<String> = fields.iter().map(|(k, v)| format!("\"{k}\":{v}")).collect();
    format!("{{{}}}", body.join(","))
}

fn without_field(name: &str) -> String {
    let fields = [
        ("characters", "[]"),
        ("faces", "[]"),
        ("globalId", "\"id\""),
        ("playtime", "\"0\""),
        ("timestamp", "0"),
        ("title", "\"t\""),
    ];
    let body: Vec<String> =
        fields.iter().filter(|(k, _)| *k != name).map(|(k, v)| format!("\"{k}\":{v}")).collect();
    format!("{{{}}}", body.join(","))
}

#[test]
fn timestamps_run_from_zero_to_the_last_moment() {
    assert_eq!(MAX_TIMESTAMP_MILLIS, 8_210_266_876_799_999);
    assert_eq!(DateTime::from_timestamp_millis(0).unwrap().timestamp_millis(), 0);
    assert_eq!(
        DateTime::from_timestamp_millis(1_700_000_000_000).unwrap().timestamp_millis(),
        1_700_000_000_000
    );
    assert_eq!(
        DateTime::from_timestamp_millis(MAX_TIMESTAMP_MILLIS).unwrap().timestamp_millis(),
        MAX_TIMESTAMP_MILLIS
    );
    assert_eq!(DateTime::from_timestamp_millis(MAX_TIMESTAMP_MILLIS + 1), None);
    assert_eq!(DateTime::from_timestamp_millis(i64::MAX), None);
    assert_eq!(DateTime::from_timestamp_millis(-1), None);
    assert_eq!(DateTime::from_timestamp_millis(i64::MIN), None);
}

#[test]
fn last_moment_is_the_last_that_the_calendar_has() {
    assert_eq!(
        chrono::DateTime::<chrono::Utc>::MAX_UTC.timestamp_millis(),
        MAX_TIMESTAMP_MILLIS
    );
    assert!(chrono::DateTime::from_timestamp_millis(MAX_TIMESTAMP_MILLIS).is_some());
    assert!(chrono::DateTime::from_timestamp_millis(MAX_TIMESTAMP_MILLIS + 1).is_none());
    assert!(chrono::DateTime::from_timestamp_millis(i64::MAX).is_none());
}

#[test]
fn null_is_an_empty_slot() {
    assert_eq!(parse("null"), Ok(None));
    assert_eq!(parse_entry(&SaveValue::Null), Ok(None));
}

#[test]
fn object_is_a_filled_slot() {
    assert_eq!(parse(ENTRY_JSON), Ok(Some(entry())));
}

#[test]
fn fields_of_other_names_are_passed_over() {
    let json = "{\"extra\":[1,2],\"characters\":[],\"faces\":[],\"globalId\":\"\",\"playtime\":\"\",\
\"timestamp\":5,\"title\":\"\",\"zzz\":null}";
    let read = parse(json).unwrap().unwrap();
    assert!(read.characters.is_empty() && read.faces.is_empty());
    assert_eq!(read.timestamp.timestamp_millis(), 5);
    assert_eq!(read.title, "");
}

#[test]
fn value_that_is_no_slot_is_refused() {
    for json in ["true", "1", "\"text\"", "[]", "[[],[],\"\",\"\",0,\"\"]"] {
        assert_eq!(parse(json), Err(DecodeError::NotASlot));
    }
}

#[test]
fn missing_field_is_named() {
    let fields = [
        ("characters", Field::Characters),
        ("faces", Field::Faces),
        ("globalId", Field::GlobalId),
        ("playtime", Field::Playtime),
        ("timestamp", Field::Timestamp),
        ("title", Field::Title),
    ];
    for (name, field) in fields {
        assert_eq!(field.key(), name);
        assert_eq!(parse(&without_field(name)), Err(DecodeError::MissingField(field)));
    }
    assert_eq!(parse("{}"), Err(DecodeError::MissingField(Field::Characters)));
    // The names are in lower camel case, and nothing else will do.
    let json = with_field("globalId", "\"id\"").replace("globalId", "global_id");
    assert_eq!(parse(&json), Err(DecodeError::MissingField(Field::GlobalId)));
}

#[test]
fn field_of_the_wrong_type_is_named() {
    for value in ["null", "1", "\"x\"", "{}", "[1]", "[[\"a\"]]", "[[\"a\",1,2]]", "[[1,\"a\"]]",
        "[[\"a\",\"1\"]]", "[[\"a\",-1]]", "[[\"a\",1.5]]", "[[\"a\",0],[]]", "[{\"0\":\"a\",\"1\":1}]"]
    {
        assert_eq!(
            parse(&with_field("characters", value)),
            Err(DecodeError::InvalidField(Field::Characters)),
            "{value}"
        );
        assert_eq!(
            parse(&with_field("faces", value)),
            Err(DecodeError::InvalidField(Field::Faces)),
            "{value}"
        );
    }
    for value in ["null", "1", "[]", "{}", "true"] {
        assert_eq!(parse(&with_field("globalId", value)), Err(DecodeError::InvalidField(Field::GlobalId)));
        assert_eq!(parse(&with_field("playtime", value)), Err(DecodeError::InvalidField(Field::Playtime)));
        assert_eq!(parse(&with_field("title", value)), Err(DecodeError::InvalidField(Field::Title)));
    }
    for value in ["null", "\"0\"", "1.5", "[]", "1e3"] {
        assert_eq!(parse(&with_field("timestamp", value)), Err(DecodeError::InvalidField(Field::Timestamp)));
    }
}

#[test]
fn timestamp_out_of_range_is_refused() {
    for value in ["-1", "-9223372036854775808", "8210266876800000", "9223372036854775807", "18446744073709551615"] {
        assert_eq!(parse(&with_field("timestamp", value)), Err(DecodeError::TimestampOutOfRange), "{value}");
    }
    for value in ["0", "1", "8210266876799999"] {
        let read = parse(&with_field("timestamp", value)).unwrap().unwrap();
        assert_eq!(read.timestamp.timestamp_millis().to_string(), value);
    }
}

#[test]
fn first_field_out_of_order_gives_the_error() {
    let json = "{\"characters\":1,\"timestamp\":-1}";
    assert_eq!(parse(json), Err(DecodeError::InvalidField(Field::Characters)));
    let json = "{\"characters\":[],\"timestamp\":-1}";
    assert_eq!(parse(json), Err(DecodeError::MissingField(Field::Faces)));
    let json = "{\"characters\":[],\"faces\":[],\"globalId\":\"\",\"playtime\":\"\",\"timestamp\":-1}";
    assert_eq!(parse(json), Err(DecodeError::TimestampOutOfRange));
}

#[test]
fn last_field_of_one_name_is_read() {
    let fields = vec![
        ("title".to_string(), SaveValue::PosInt(1)),
        ("characters".to_string(), SaveValue::Array(vec![])),
        ("faces".to_string(), SaveValue::Array(vec![])),
        ("globalId".to_string(), SaveValue::String("g".to_string())),
        ("playtime".to_string(), SaveValue::String("p".to_string())),
        ("timestamp".to_string(), SaveValue::NegInt(-1)),
        ("timestamp".to_string(), SaveValue::PosInt(9)),
        ("title".to_string(), SaveValue::String("t".to_string())),
    ];
    let read = parse_entry(&SaveValue::Object(fields)).unwrap().unwrap();
    assert_eq!(read.timestamp.timestamp_millis(), 9);
    assert_eq!(read.title, "t");
}

#[test]
fn sprite_is_a_pair_of_name_and_number() {
    assert_eq!(
        encode_sprite(&sprite("Actor1", 5)),
        SaveValue::Array(vec![SaveValue::String("Actor1".to_string()), SaveValue::PosInt(5)])
    );
    let read = parse(&with_field("characters", "[[\"Actor1\",5],[\"\",0]]")).unwrap().unwrap();
    assert_eq!(read.characters, vec![sprite("Actor1", 5), sprite("", 0)]);
}

#[test]
fn bad_slot_does_not_touch_the_others() {
    let bad = with_field("timestamp", "-1");
    let text = compress(&format!("[null,{ENTRY_JSON},{bad}]"));
    assert_eq!(
        decode_save_list(&text),
        Ok(vec![Ok(None), Ok(Some(entry())), Err(DecodeError::TimestampOutOfRange)])
    );
    let bad = with_field("timestamp", "9000000000000000");
    let text = compress(&format!("[{bad},null,{ENTRY_JSON},7,{{}}]"));
    assert_eq!(
        decode_save_list(&text),
        Ok(vec![
            Err(DecodeError::TimestampOutOfRange),
            Ok(None),
            Ok(Some(entry())),
            Err(DecodeError::NotASlot),
            Err(DecodeError::MissingField(Field::Characters)),
        ])
    );
}

#[test]
fn slots_are_read_from_an_array_only() {
    assert_eq!(parse_slots(&SaveValue::Array(vec![])), Some(vec![]));
    assert_eq!(
        parse_slots(&SaveValue::Array(vec![SaveValue::Null, SaveValue::Bool(true)])),
        Some(vec![Ok(None), Err(DecodeError::NotASlot)])
    );
    assert_eq!(parse_slots(&SaveValue::Null), None);
    assert_eq!(parse_slots(&SaveValue::Object(vec![])), None);
    assert_eq!(
        decode_slots(Json::from_string("{}").unwrap()),
        Err(Error::Json("Invalid global file".to_string()))
    );
    assert_eq!(decode_slots(Json::from_string("[null]").unwrap()), Ok(vec![Ok(None)]));
}

#[test]
fn save_text_fails_as_its_step_fails() {
    assert_eq!(decode_save_list("[null]"), Err(Error::Lz(LzErrorKind::Alphabet)));
    assert_eq!(decode_save_list("A"), Err(Error::Lz(LzErrorKind::Decompression)));
    assert!(matches!(decode_save_list(&compress("[null")), Err(Error::Json(_))));
    assert_eq!(
        decode_save_list(&compress("null")),
        Err(Error::Json("Invalid global file".to_string()))
    );
    assert_eq!(decode_save_list(&compress("[]")), Ok(vec![]));
}

#[test]
fn entry_is_written_with_its_six_fields() {
    let value = encode_entry(&entry());
    assert_eq!(Json::new(value).to_string(), Ok(ENTRY_JSON.to_string()));
    assert_eq!(encode_slot(&None), SaveValue::Null);
    assert_eq!(encode_slot(&Some(entry())), encode_entry(&entry()));
}

#[test]
fn save_list_survives_writing_and_reading() {
    let global = Global(vec![None, Some(entry()), None, Some(GlobalEntry {
        characters: vec![],
        faces: vec![sprite("\u{3042}", usize::MAX)],
        global_id: String::new(),
        playtime: String::new(),
        timestamp: DateTime::from_timestamp_millis(MAX_TIMESTAMP_MILLIS).unwrap(),
        title: "a \"b\"".to_string(),
    })]);
    let text = encode_save_list(&global).unwrap();
    assert_eq!(
        decompress(&text).unwrap(),
        Json::new(global.to_value()).to_string().unwrap()
    );
    let read = decode_save_list(&text).unwrap();
    let slots: Vec<Option<GlobalEntry>> = read.into_iter().map(|slot| slot.unwrap()).collect();
    assert_eq!(slots, global.0);
    assert_eq!(encode_save_list(&Global(vec![])), Ok(compress("[]")));
    assert_eq!(encode_save_list(&Global(vec![None])), Ok("NoOwrgNhC6Q==".to_string()));
}
