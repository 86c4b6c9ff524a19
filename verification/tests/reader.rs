use mobileconf::document::{DocumentNode, NodeKind};
use mobileconf::reader::{node_from_value, parse_document};
use plist::{Dictionary, Value};

fn text(value: &str) -> Value {
    Value::String(value.to_string())
}

#[test]
fn string_and_data_values_keep_their_contents() {
    assert_eq!(node_from_value(text("hello")).as_string().unwrap(), "hello");
    assert_eq!(node_from_value(text("")).as_string().unwrap(), "");
    assert_eq!(node_from_value(Value::Data(vec![0, 255, 7])).as_data().unwrap(), &vec![0u8, 255, 7]);
}

#[test]
fn values_of_other_kinds_become_other() {
    assert_eq!(node_from_value(Value::Boolean(true)).kind(), NodeKind::Other);
    assert_eq!(node_from_value(Value::Integer(plist::Integer::from(42i64))).kind(), NodeKind::Other);
    assert_eq!(node_from_value(Value::Real(1.5)).kind(), NodeKind::Other);
    assert_eq!(node_from_value(Value::Uid(plist::Uid::new(3))).kind(), NodeKind::Other);
}

#[test]
fn array_value_keeps_its_items_in_order() {
    let value = Value::Array(vec![text("a"), Value::Boolean(false), text("b"), Value::Array(vec![])]);
    let node = node_from_value(value);
    let items = node.as_array().unwrap();
    assert_eq!(items.len(), 4);
    assert_eq!(items[0].as_string().unwrap(), "a");
    assert_eq!(items[1].kind(), NodeKind::Other);
    assert_eq!(items[2].as_string().unwrap(), "b");
    assert_eq!(items[3].as_array().unwrap().len(), 0);
}

#[test]
fn dictionary_value_keeps_its_bindings() {
    let mut inner = Dictionary::new();
    inner.insert("deep".to_string(), Value::Data(vec![1]));
    let mut dict = Dictionary::new();
    dict.insert("first".to_string(), text("1"));
    dict.insert("second".to_string(), Value::Dictionary(inner));
    dict.insert("third".to_string(), Value::Array(vec![text("x")]));
    dict.insert("first".to_string(), text("one"));
    let node = node_from_value(Value::Dictionary(dict));
    let root = node.as_dictionary().unwrap();
    assert_eq!(root.entries.len(), 3);
    assert_eq!(root.get("first").unwrap().as_string().unwrap(), "one");
    let second = root.get("second").unwrap().as_dictionary().unwrap();
    assert_eq!(second.get("deep").unwrap().as_data().unwrap(), &vec![1u8]);
    assert_eq!(root.get("third").unwrap().as_array().unwrap().len(), 1);
    assert!(root.get("fourth").is_none());
}

#[test]
fn deeply_nested_value_is_turned_level_by_level() {
    let mut value = text("core");
    let mut depth = 0;
    while depth < 200 {
        value = Value::Array(vec![value]);
        depth += 1;
    }
    let mut node = node_from_value(value);
    let mut seen = 0;
    loop {
        node = match node {
            DocumentNode::Array(mut items) => {
                assert_eq!(items.len(), 1);
                seen += 1;
                items.pop().unwrap()
            }
            DocumentNode::String(core) => {
                assert_eq!(core, "core");
                break;
            }
            other => panic!("neither an array nor the string: {:?}", other),
        };
    }
    assert_eq!(seen, 200);
}

#[test]
fn parsing_gives_the_node_of_the_value_that_was_read() {
    let document = b"<plist version=\"1.0\"><array><string>a</string><data>AQID</data><integer>7</integer></array></plist>";
    let node = parse_document(document).unwrap();
    let items = node.as_array().unwrap();
    assert_eq!(items.len(), 3);
    assert_eq!(items[0].as_string().unwrap(), "a");
    assert_eq!(items[1].as_data().unwrap(), &vec![1u8, 2, 3]);
    assert_eq!(items[2].kind(), NodeKind::Other);
}
