use imessage_rs::json::{Json, RealValue};
use imessage_rs::typedstream::{
    decode_attributed_body, decoded_to_json, extract_text, in_tag_range, parse_array_encoding,
    parse_struct_encoding, split_encodings, values_to_json, AttrRun, ByteOrder, Decoded,
    DecodedObject, Decoder, TAG_INTEGER_2, TAG_INTEGER_4,
};

fn hex_to_bytes(hex: &str) -> Vec<u8> {
    (0..hex.len())
        .step_by(2)
        .map(|i| u8::from_str_radix(&hex[i..i + 2], 16).unwrap())
        .collect()
}

fn field<'a>(j: &'a Json, key: &str) -> &'a Json {
    match j {
        Json::Object(entries) => {
            &entries.iter().find(|(k, _)| k == key).expect("missing key").1
        }
        _ => panic!("not an object"),
    }
}

fn items(j: &Json) -> &Vec<Json> {
    match j {
        Json::Array(v) => v,
        _ => panic!("not an array"),
    }
}

fn real_blob() -> Vec<u8> {
    let hex = "040B73747265616D747970656481E803840140848484124E534174747269627574\
               6564537472696E67008484084E534F626A656374008592848484084E5353747269\
               6E67019484012B3248612120546865204C69204B612D7368696E6720636C617373\
               69632E20576F72647320746F206C69766520627920F09F988486840269490130928\
               484840C4E5344696374696F6E617279009484016901928496961D5F5F6B494D4D65\
               7373616765506172744174747269627574654E616D65869284848408\
               4E534E756D626572008484074E5356616C7565009484012A84999900868686";
    hex_to_bytes(hex)
}

#[test]
fn decode_real_attributed_body() {
    let data = real_blob();
    let text = extract_text(&data);
    assert_eq!(
        text,
        Some("Ha! The Li Ka-shing classic. Words to live by 😄".to_string())
    );

    let json = decode_attributed_body(&data).unwrap();
    let arr = items(&json);
    assert_eq!(arr.len(), 1);
    assert_eq!(
        field(&arr[0], "string"),
        &Json::Str("Ha! The Li Ka-shing classic. Words to live by 😄".to_string())
    );
    let runs = items(field(&arr[0], "runs"));
    assert_eq!(runs.len(), 1);
    assert_eq!(field(&runs[0], "range"), &Json::Array(vec![Json::Uint(0), Json::Uint(48)]));
    assert_eq!(
        field(field(&runs[0], "attributes"), "__kIMMessagePartAttributeName"),
        &Json::Int(0)
    );
}

#[test]
fn split_encodings_simple() {
    assert_eq!(split_encodings("@"), vec!["@"]);
    assert_eq!(split_encodings("is"), vec!["i", "s"]);
    assert_eq!(split_encodings("+"), vec!["+"]);
}

#[test]
fn split_encodings_array() {
    assert_eq!(split_encodings("[5c]"), vec!["[5c]"]);
    assert_eq!(split_encodings("[10C]i"), vec!["[10C]", "i"]);
}

#[test]
fn split_encodings_struct() {
    assert_eq!(split_encodings("{name=ii}"), vec!["{name=ii}"]);
}

#[test]
fn parse_array_encoding_basic() {
    assert_eq!(parse_array_encoding("[5c]"), Ok((5, "c".to_string())));
    assert_eq!(parse_array_encoding("[10C]"), Ok((10, "C".to_string())));
    assert_eq!(parse_array_encoding("[100i]"), Ok((100, "i".to_string())));
}

#[test]
fn parse_struct_encoding_basic() {
    assert_eq!(
        parse_struct_encoding("{name=ii}"),
        Ok(vec!["i".to_string(), "i".to_string()])
    );
    assert_eq!(parse_struct_encoding("{ii}"), Ok(vec!["i".to_string(), "i".to_string()]));
}

#[test]
fn typedstream_empty_data_returns_none() {
    assert!(extract_text(&[]).is_none());
    assert!(decode_attributed_body(&[]).is_none());
}

#[test]
fn typedstream_invalid_data_returns_none() {
    assert!(extract_text(b"not a typedstream").is_none());
    assert!(decode_attributed_body(b"not a typedstream").is_none());
}

#[test]
fn integer_reading() {
    let mut decoder = Decoder {
        data: &[42],
        pos: 0,
        order: ByteOrder::Big,
        strings: Vec::new(),
        objects: Vec::new(),
    };
    assert_eq!(decoder.read_integer(false).unwrap(), 42);

    let mut decoder = Decoder {
        data: &[0xFE],
        pos: 0,
        order: ByteOrder::Big,
        strings: Vec::new(),
        objects: Vec::new(),
    };
    assert_eq!(decoder.read_integer(true).unwrap(), -2);

    let mut decoder = Decoder {
        data: &[TAG_INTEGER_2 as u8, 0x01, 0x00],
        pos: 0,
        order: ByteOrder::Big,
        strings: Vec::new(),
        objects: Vec::new(),
    };
    assert_eq!(decoder.read_integer(false).unwrap(), 256);
}

#[test]
fn decoded_to_json_primitives() {
    assert_eq!(decoded_to_json(&Decoded::Null), Json::Null);
    assert_eq!(decoded_to_json(&Decoded::Int(42)), Json::Int(42));
    let bits = 3.14f64.to_bits();
    assert_eq!(
        decoded_to_json(&Decoded::Real(RealValue::Double(bits))),
        Json::Real(RealValue::Double(bits))
    );
    assert_eq!(decoded_to_json(&Decoded::Str("hello".into())), Json::Str("hello".into()));
}

#[test]
fn decoded_to_json_nsstring() {
    let val = Decoded::Object(Box::new(DecodedObject::String("test".into())));
    assert_eq!(decoded_to_json(&val), Json::Str("test".into()));
}

#[test]
fn decoded_to_json_nsnumber() {
    let val = Decoded::Object(Box::new(DecodedObject::Number(Decoded::Int(7))));
    assert_eq!(decoded_to_json(&val), Json::Int(7));
}

#[test]
fn decoded_to_json_attributed_string() {
    let val = Decoded::Object(Box::new(DecodedObject::AttributedString {
        string: "Hello".into(),
        runs: vec![AttrRun {
            offset: 0,
            length: 5,
            attributes: vec![(
                "__kIMMessagePartAttributeName".into(),
                Decoded::Object(Box::new(DecodedObject::Number(Decoded::Int(0)))),
            )],
        }],
    }));
    let json = decoded_to_json(&val);
    assert_eq!(field(&json, "string"), &Json::Str("Hello".into()));
    let runs = items(field(&json, "runs"));
    assert_eq!(field(&runs[0], "range"), &Json::Array(vec![Json::Uint(0), Json::Uint(5)]));
    assert_eq!(
        field(field(&runs[0], "attributes"), "__kIMMessagePartAttributeName"),
        &Json::Int(0)
    );
}

// --- further cases -------------------------------------------------------------

#[test]
fn tag_range_bounds() {
    assert!(in_tag_range(-128));
    assert!(in_tag_range(-111));
    assert!(!in_tag_range(-110));
    assert!(!in_tag_range(0));
    assert!(!in_tag_range(127));
}

#[test]
fn integer_reading_four_bytes_little_endian() {
    let mut decoder = Decoder {
        data: &[TAG_INTEGER_4 as u8, 0x01, 0x02, 0x00, 0x00],
        pos: 0,
        order: ByteOrder::Little,
        strings: Vec::new(),
        objects: Vec::new(),
    };
    assert_eq!(decoder.read_integer(false).unwrap(), 0x0201);
    assert_eq!(decoder.pos, 5);

    let mut decoder = Decoder {
        data: &[TAG_INTEGER_2 as u8, 0xFF, 0xFF],
        pos: 0,
        order: ByteOrder::Big,
        strings: Vec::new(),
        objects: Vec::new(),
    };
    assert_eq!(decoder.read_integer(true).unwrap(), -1);

    let mut decoder = Decoder {
        data: &[0xFE],
        pos: 0,
        order: ByteOrder::Big,
        strings: Vec::new(),
        objects: Vec::new(),
    };
    assert_eq!(decoder.read_integer(false).unwrap(), 254);
}

#[test]
fn integer_reading_truncated_is_error() {
    let mut decoder = Decoder {
        data: &[TAG_INTEGER_4 as u8, 0x01],
        pos: 0,
        order: ByteOrder::Big,
        strings: Vec::new(),
        objects: Vec::new(),
    };
    assert!(decoder.read_integer(false).is_err());
}

#[test]
fn split_encodings_nested_and_unclosed() {
    assert_eq!(split_encodings("{a=[2i]c}@"), vec!["{a=[2i]c}", "@"]);
    assert_eq!(split_encodings("[3"), vec!["[3"]);
    assert_eq!(split_encodings(""), Vec::<String>::new());
}

#[test]
fn parse_array_encoding_errors() {
    assert_eq!(parse_array_encoding("[c]"), Err(()));
    assert_eq!(parse_array_encoding("5c]"), Err(()));
    assert_eq!(parse_array_encoding("[5c"), Err(()));
    assert_eq!(parse_array_encoding("[99999999999999999999999c]"), Err(()));
}

#[test]
fn parse_struct_encoding_errors() {
    assert_eq!(parse_struct_encoding("ii"), Err(()));
    assert_eq!(parse_struct_encoding("{}"), Ok(vec![]));
    assert_eq!(parse_struct_encoding("{a=b=c}"), Ok(vec!["b".to_string(), "=".to_string(), "c".to_string()]));
}

#[test]
fn header_only_stream_has_no_text() {
    // version 4, signature length 11, "streamtyped", system version 1000
    let mut data = vec![0x04, 0x0B];
    data.extend_from_slice(b"streamtyped");
    data.extend_from_slice(&[0x81, 0xE8, 0x03]);
    assert_eq!(extract_text(&data), None);
    assert_eq!(decode_attributed_body(&data), None);
}

#[test]
fn wrong_version_is_rejected() {
    let mut data = vec![0x05, 0x0B];
    data.extend_from_slice(b"typedstream");
    data.push(0x00);
    assert_eq!(extract_text(&data), None);
}

#[test]
fn dictionary_renders_string_keys_only() {
    let val = Decoded::Object(Box::new(DecodedObject::Dictionary(vec![
        (Decoded::Str("a".into()), Decoded::Int(1)),
        (Decoded::Int(5), Decoded::Int(2)),
        (
            Decoded::Object(Box::new(DecodedObject::String("b".into()))),
            Decoded::Str("x".into()),
        ),
        (Decoded::Str("a".into()), Decoded::Int(3)),
    ])));
    assert_eq!(
        decoded_to_json(&val),
        Json::Object(vec![("a".into(), Json::Int(3)), ("b".into(), Json::Str("x".into()))])
    );
}

#[test]
fn bytes_and_generic_render_null() {
    assert_eq!(decoded_to_json(&Decoded::Bytes(vec![1, 2, 3])), Json::Null);
    let g = Decoded::Object(Box::new(DecodedObject::Generic("NSFoo".into())));
    assert_eq!(decoded_to_json(&g), Json::Null);
    let d = Decoded::Object(Box::new(DecodedObject::Data(vec![])));
    assert_eq!(decoded_to_json(&d), Json::Null);
}

#[test]
fn nested_data_payload_is_decoded() {
    let d = Decoded::Object(Box::new(DecodedObject::Data(real_blob())));
    let j = decoded_to_json(&d);
    assert_eq!(items(&j).len(), 1);
}

#[test]
fn values_render_attributed_strings_first() {
    let plain = Decoded::Int(9);
    let attr = Decoded::Object(Box::new(DecodedObject::AttributedString {
        string: "x".into(),
        runs: vec![],
    }));
    let r = values_to_json(&vec![plain, attr]).unwrap();
    assert_eq!(items(&r).len(), 1);
    let r2 = values_to_json(&vec![Decoded::Int(1), Decoded::Null]).unwrap();
    assert_eq!(r2, Json::Array(vec![Json::Int(1), Json::Null]));
    assert_eq!(values_to_json(&vec![]), None);
}

#[test]
fn scalar_group_after_header_is_rendered() {
    // header, then a group whose new shared encoding string is "i", holding 5
    let mut data = vec![0x04, 0x0B];
    data.extend_from_slice(b"streamtyped");
    data.extend_from_slice(&[0x81, 0xE8, 0x03]);
    data.extend_from_slice(&[0x84, 0x01, b'i', 0x05]);
    assert_eq!(decode_attributed_body(&data), Some(Json::Array(vec![Json::Int(5)])));
    assert_eq!(extract_text(&data), None);
}

#[test]
fn unreadable_first_group_gives_nothing() {
    // header, then a group whose encoding string is nil
    let mut data = vec![0x04, 0x0B];
    data.extend_from_slice(b"streamtyped");
    data.extend_from_slice(&[0x81, 0xE8, 0x03]);
    data.extend_from_slice(&[0x85, 0x05]);
    assert_eq!(decode_attributed_body(&data), None);
}

#[test]
fn plain_nsstring_body_gives_its_text() {
    // header, a group "@" holding a new NSString object whose class chain
    // has one class, whose text group "+" holds "hello", then its end tag
    let mut data = vec![0x04, 0x0B];
    data.extend_from_slice(b"streamtyped");
    data.extend_from_slice(&[0x81, 0xE8, 0x03]);
    data.extend_from_slice(&[0x84, 0x01, b'@']);
    data.push(0x84);
    data.extend_from_slice(&[0x84, 0x84, 0x08]);
    data.extend_from_slice(b"NSString");
    data.extend_from_slice(&[0x01, 0x85]);
    data.extend_from_slice(&[0x84, 0x01, b'+', 0x05]);
    data.extend_from_slice(b"hello");
    data.push(0x86);
    assert_eq!(extract_text(&data), Some("hello".to_string()));
    assert_eq!(
        decode_attributed_body(&data),
        Some(Json::Array(vec![Json::Str("hello".to_string())]))
    );
}

#[test]
fn unknown_encoding_in_first_group_gives_nothing() {
    let data = [&[0x04u8, 0x0B][..], &b"streamtyped"[..], &[0x00u8, 0x84, 0x01, 0xFF][..]].concat();
    assert_eq!(extract_text(&data), None);
    assert_eq!(decode_attributed_body(&data), None);
}
