use iso17442_types::{lei, Lei};
use std::collections::BTreeMap;

const LEI_VALUE: &str = "YZ83GD8L7GG84979J516";

#[test]
fn roundtrip() {
    let l = lei::from_str_slice(LEI_VALUE).expect("Could not construct LEI slice");
    let mut val: BTreeMap<&str, &str> = BTreeMap::new();
    val.insert("lei", l.as_str());

    // serialize
    let out = serde_json::to_string(&val).expect("Could not serialize value");
    assert_eq!("{\"lei\":\"YZ83GD8L7GG84979J516\"}", &out);

    // deserialize
    let val = serde_json::from_str::<BTreeMap<String, String>>(&out)
        .expect("Could not deserialize from JSON");
    let back: Option<Lei> =
        val.get("lei").map(|s| Lei::decode(s.as_bytes()).expect("Could not decode the LEI"));

    assert_eq!(back.as_ref().map(Lei::as_lei), Some(l));
}

#[test]
fn document_with_a_bad_identifier() {
    let out = "{\"lei\":\"YZ83GD8L7GG84979J563\"}";
    let val = serde_json::from_str::<BTreeMap<String, String>>(out)
        .expect("Could not deserialize from JSON");
    assert!(Lei::decode(val["lei"].as_bytes()).is_err());
    assert!(lei::decode(val["lei"].as_bytes()).is_err());
}
