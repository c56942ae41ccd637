use mcgf::model::{ConfigValue, GuiElement, ImageData, LayoutDocument, Rect};
use mcgf::load::load_parsed;
use mcgf::notify::Notification;
use serde_json::Value;
use mcgf::writer::serialize;

fn rect(x: u32, y: u32, width: u32, height: u32) -> Rect {
    Rect { x, y, width, height }
}

fn element(id: &str, name: &str, data: Vec<(String, ConfigValue)>) -> GuiElement {
    GuiElement { dimensions: rect(1, 2, 3, 4), id: id.to_string(), data, name: name.to_string() }
}

fn root_document() -> LayoutDocument {
    LayoutDocument {
        base_element: GuiElement {
            dimensions: rect(0, 0, 100, 50),
            id: "root".to_string(),
            data: vec![],
            name: "Root".to_string(),
        },
        elements: vec![],
    }
}

fn rich_document() -> LayoutDocument {
    let image = ImageData { width: 2, height: 1, data: vec![0, 7, 42, 255] };
    LayoutDocument {
        base_element: element(
            "base",
            "Base \"quoted\" \\ name",
            vec![
                ("title".to_string(), ConfigValue::StringValue("line\nbreak\ttab".to_string())),
                ("count".to_string(), ConfigValue::NumberValue(-17)),
            ],
        ),
        elements: vec![
            element(
                "a",
                "",
                vec![(
                    "icon".to_string(),
                    ConfigValue::PathValue { path: "/tmp/icon.png".to_string(), data: image },
                )],
            ),
            element("b", "caf\u{e9} \u{1f600}", vec![]),
            element(
                "c",
                "\u{0}\u{1}\u{8}\u{c}\r\u{1f}\u{7f}",
                vec![
                    ("min".to_string(), ConfigValue::NumberValue(i64::MIN)),
                    ("max".to_string(), ConfigValue::NumberValue(i64::MAX)),
                    ("zero".to_string(), ConfigValue::NumberValue(0)),
                    ("".to_string(), ConfigValue::StringValue("".to_string())),
                ],
            ),
        ],
    }
}

fn read_u32(value: &Value) -> Result<u32, String> {
    let n = value.as_u64().ok_or("not an unsigned number")?;
    u32::try_from(n).map_err(|e| e.to_string())
}

fn read_string(value: &Value) -> Result<String, String> {
    Ok(value.as_str().ok_or("not a string")?.to_string())
}

fn member<'a>(value: &'a Value, name: &str) -> Result<&'a Value, String> {
    value.get(name).ok_or(format!("missing field `{}`", name))
}

fn read_rect(value: &Value) -> Result<Rect, String> {
    Ok(Rect {
        x: read_u32(member(value, "x")?)?,
        y: read_u32(member(value, "y")?)?,
        width: read_u32(member(value, "width")?)?,
        height: read_u32(member(value, "height")?)?,
    })
}

fn read_image(value: &Value) -> Result<ImageData, String> {
    let mut data = vec![];
    for byte in member(value, "data")?.as_array().ok_or("not a list")? {
        let n = byte.as_u64().ok_or("not an unsigned number")?;
        data.push(u8::try_from(n).map_err(|e| e.to_string())?);
    }
    Ok(ImageData {
        width: read_u32(member(value, "width")?)?,
        height: read_u32(member(value, "height")?)?,
        data,
    })
}

fn read_config(value: &Value) -> Result<ConfigValue, String> {
    if let Some(s) = value.get("StringValue") {
        Ok(ConfigValue::StringValue(read_string(s)?))
    } else if let Some(n) = value.get("NumberValue") {
        Ok(ConfigValue::NumberValue(n.as_i64().ok_or("not a signed number")?))
    } else if let Some(p) = value.get("PathValue") {
        Ok(ConfigValue::PathValue {
            path: read_string(member(p, "path")?)?,
            data: read_image(member(p, "data")?)?,
        })
    } else {
        Err("unknown variant".to_string())
    }
}

fn read_element(value: &Value) -> Result<GuiElement, String> {
    let mut data = vec![];
    for (key, entry) in member(value, "data")?.as_object().ok_or("not an object")? {
        data.push((key.clone(), read_config(entry)?));
    }
    Ok(GuiElement {
        dimensions: read_rect(member(value, "dimensions")?)?,
        id: read_string(member(value, "id")?)?,
        data,
        name: read_string(member(value, "name")?)?,
    })
}

/// Reads a document as a JSON reader of the schema does: members by name,
/// the properties of an element in the order of their keys.
fn read_document(text: &str) -> Result<LayoutDocument, String> {
    let value: Value = serde_json::from_str(text).map_err(|e| e.to_string())?;
    let mut elements = vec![];
    for e in member(&value, "elements")?.as_array().ok_or("not a list")? {
        elements.push(read_element(e)?);
    }
    Ok(LayoutDocument { base_element: read_element(member(&value, "base_element")?)?, elements })
}

fn sorted(mut document: LayoutDocument) -> LayoutDocument {
    document.base_element.data.sort_by(|a, b| a.0.cmp(&b.0));
    for e in document.elements.iter_mut() {
        e.data.sort_by(|a, b| a.0.cmp(&b.0));
    }
    document
}

#[test]
fn root_document_has_the_expected_text() {
    let text = serialize(&root_document());
    assert_eq!(
        text,
        "{\"base_element\":{\"dimensions\":{\"x\":0,\"y\":0,\"width\":100,\"height\":50},\"id\":\"root\",\"data\":{},\"name\":\"Root\"},\"elements\":[]}"
    );
}

#[test]
fn root_document_comes_back_as_written() {
    let document = root_document();
    let loaded = read_document(&serialize(&document)).unwrap();
    assert_eq!(loaded, document);
    assert_eq!(loaded.base_element.dimensions, rect(0, 0, 100, 50));
    assert_eq!(loaded.base_element.id, "root");
    assert_eq!(loaded.base_element.name, "Root");
    assert!(loaded.base_element.data.is_empty());
    assert!(loaded.elements.is_empty());
}

#[test]
fn saved_and_loaded_document_is_sent_as_it_was() {
    let document = root_document();
    let parsed = read_document(&serialize(&document));
    assert_eq!(
        load_parsed("/tmp/root.mcgf".to_string(), parsed),
        Notification::LoadSuccess(mcgf::model::LoadData {
            last_loaded_location: Some("/tmp/root.mcgf".to_string()),
            data: document,
        })
    );
}

#[test]
fn rich_document_comes_back_as_written() {
    let document = rich_document();
    assert!(document.is_valid());
    let text = serialize(&document);
    let loaded = read_document(&text).unwrap();
    assert_eq!(loaded, sorted(document));
    assert_eq!(sorted(read_document(&serialize(&loaded)).unwrap()), loaded);
}

#[test]
fn values_are_written_under_the_name_of_their_kind() {
    let document = LayoutDocument {
        base_element: element(
            "e",
            "n",
            vec![
                ("s".to_string(), ConfigValue::StringValue("v".to_string())),
                ("n".to_string(), ConfigValue::NumberValue(-5)),
                (
                    "p".to_string(),
                    ConfigValue::PathValue {
                        path: "a.png".to_string(),
                        data: ImageData { width: 1, height: 2, data: vec![3, 4] },
                    },
                ),
            ],
        ),
        elements: vec![],
    };
    assert_eq!(
        serialize(&document),
        "{\"base_element\":{\"dimensions\":{\"x\":1,\"y\":2,\"width\":3,\"height\":4},\"id\":\"e\",\"data\":{\"s\":{\"StringValue\":\"v\"},\"n\":{\"NumberValue\":-5},\"p\":{\"PathValue\":{\"path\":\"a.png\",\"data\":{\"width\":1,\"height\":2,\"data\":[3,4]}}}},\"name\":\"n\"},\"elements\":[]}"
    );
}

#[test]
fn strings_are_escaped_as_json() {
    let name = "q\" b\\ \u{8}\u{c}\n\r\t\u{0}\u{1f} \u{7f} \u{e9}/";
    let document = LayoutDocument { base_element: element("e", name, vec![]), elements: vec![] };
    let text = serialize(&document);
    let expected = "\"q\\\" b\\\\ \\b\\f\\n\\r\\t\\u0000\\u001f \u{7f} \u{e9}/\"";
    assert!(text.ends_with(&format!(",\"name\":{}}},\"elements\":[]}}", expected)));
    assert_eq!(serde_json::to_string(name).unwrap(), expected);
    assert_eq!(read_document(&text).unwrap(), document);
}

#[test]
fn numbers_at_their_limits_are_written_in_full() {
    let document = LayoutDocument {
        base_element: GuiElement {
            dimensions: rect(u32::MAX, 0, 10, 4294967295),
            id: String::new(),
            data: vec![
                ("min".to_string(), ConfigValue::NumberValue(i64::MIN)),
                ("max".to_string(), ConfigValue::NumberValue(i64::MAX)),
            ],
            name: String::new(),
        },
        elements: vec![],
    };
    let text = serialize(&document);
    assert!(text.contains("{\"x\":4294967295,\"y\":0,\"width\":10,\"height\":4294967295}"));
    assert!(text.contains("{\"NumberValue\":-9223372036854775808}"));
    assert!(text.contains("{\"NumberValue\":9223372036854775807}"));
    assert_eq!(read_document(&text).unwrap(), sorted(document));
}

#[test]
fn written_text_is_json_with_the_fields_of_the_schema() {
    let text = serialize(&rich_document());
    let value: serde_json::Value = serde_json::from_str(&text).unwrap();
    let base = value.get("base_element").unwrap();
    assert_eq!(base.get("id").unwrap().as_str(), Some("base"));
    assert_eq!(base.get("name").unwrap().as_str(), Some("Base \"quoted\" \\ name"));
    assert_eq!(base.get("dimensions").unwrap().get("width").unwrap().as_u64(), Some(3));
    let data = base.get("data").unwrap();
    assert_eq!(
        data.get("title").unwrap().get("StringValue").unwrap().as_str(),
        Some("line\nbreak\ttab")
    );
    assert_eq!(data.get("count").unwrap().get("NumberValue").unwrap().as_i64(), Some(-17));
    let elements = value.get("elements").unwrap().as_array().unwrap();
    assert_eq!(elements.len(), 3);
    let icon = elements[0].get("data").unwrap().get("icon").unwrap().get("PathValue").unwrap();
    assert_eq!(icon.get("path").unwrap().as_str(), Some("/tmp/icon.png"));
    let image = icon.get("data").unwrap();
    assert_eq!(image.get("width").unwrap().as_u64(), Some(2));
    assert_eq!(image.get("height").unwrap().as_u64(), Some(1));
    let bytes: Vec<u64> =
        image.get("data").unwrap().as_array().unwrap().iter().map(|b| b.as_u64().unwrap()).collect();
    assert_eq!(bytes, vec![0, 7, 42, 255]);
    assert_eq!(elements[1].get("name").unwrap().as_str(), Some("caf\u{e9} \u{1f600}"));
    assert_eq!(
        elements[2].get("name").unwrap().as_str(),
        Some("\u{0}\u{1}\u{8}\u{c}\r\u{1f}\u{7f}")
    );
    assert_eq!(
        elements[2].get("data").unwrap().get("min").unwrap().get("NumberValue").unwrap().as_i64(),
        Some(i64::MIN)
    );
}

#[test]
fn json_in_another_rendering_stands_for_the_same_document() {
    let compact = serialize(&root_document());
    let spaced = "{\n  \"elements\": [],\n  \"base_element\": {\n    \"name\": \"\\u0052oot\",\n    \"data\": {},\n    \"id\": \"root\",\n    \"dimensions\": { \"height\": 50, \"width\": 100, \"y\": 0, \"x\": 0 }\n  }\n}\n";
    assert_eq!(read_document(spaced).unwrap(), read_document(&compact).unwrap());
    assert_eq!(serialize(&read_document(spaced).unwrap()), compact);
}

#[test]
fn order_of_elements_is_kept() {
    let document = LayoutDocument {
        base_element: element("root", "r", vec![]),
        elements: vec![element("2", "two", vec![]), element("1", "one", vec![]), element("3", "", vec![])],
    };
    let loaded = read_document(&serialize(&document)).unwrap();
    let ids: Vec<&str> = loaded.elements.iter().map(|e| e.id.as_str()).collect();
    assert_eq!(ids, vec!["2", "1", "3"]);
}

#[test]
fn order_of_properties_shows_in_the_text_only() {
    let forward = LayoutDocument {
        base_element: element(
            "e",
            "n",
            vec![
                ("a".to_string(), ConfigValue::NumberValue(1)),
                ("b".to_string(), ConfigValue::NumberValue(2)),
            ],
        ),
        elements: vec![],
    };
    let mut backward = forward.clone();
    backward.base_element.data.reverse();
    assert_ne!(serialize(&forward), serialize(&backward));
    assert_eq!(
        read_document(&serialize(&forward)).unwrap(),
        read_document(&serialize(&backward)).unwrap()
    );
}

#[test]
fn a_document_with_a_key_twice_is_not_valid() {
    let mut document = root_document();
    assert!(document.is_valid());
    document.base_element.data.push(("k".to_string(), ConfigValue::NumberValue(1)));
    document.base_element.data.push(("l".to_string(), ConfigValue::NumberValue(1)));
    assert!(document.is_valid());
    document.elements.push(element(
        "e",
        "n",
        vec![
            ("k".to_string(), ConfigValue::NumberValue(1)),
            ("k".to_string(), ConfigValue::StringValue("again".to_string())),
        ],
    ));
    assert!(!document.elements[0].is_valid());
    assert!(!document.is_valid());
}

#[test]
fn a_large_image_comes_back_as_written() {
    let bytes: Vec<u8> = (0..200_000u32).map(|i| (i % 256) as u8).collect();
    let document = LayoutDocument {
        base_element: element(
            "e",
            "n",
            vec![(
                "picture".to_string(),
                ConfigValue::PathValue {
                    path: "big.png".to_string(),
                    data: ImageData { width: 500, height: 400, data: bytes },
                },
            )],
        ),
        elements: vec![],
    };
    assert_eq!(read_document(&serialize(&document)).unwrap(), document);
}
