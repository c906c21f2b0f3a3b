use sapri::obj::Obj;
use sapri::paths::path_arr;
use serde_json::Value;

fn object_of(pairs: &[(&str, Value)]) -> Value {
    let mut m = serde_json::Map::new();
    for (k, v) in pairs {
        m.insert(k.to_string(), v.clone());
    }
    Value::Object(m)
}

#[test]
fn test_obj_simple() {
    let o = Obj::new().set(&["count"], 42).set(&["name"], "test").set(&["active"], true);

    assert_eq!(o.get(&["count"]), Some(&Value::from(42)));
    assert_eq!(o.get(&["name"]), Some(&Value::from("test")));
    assert_eq!(o.get(&["active"]), Some(&Value::from(true)));
    assert_eq!(o.get(&["missing"]), None);
}

#[test]
fn test_obj_with_default() {
    let base = Obj::new().set(&["theme"], "dark").set(&["lang"], "en");

    let extended = base.clone().set(&["theme"], "light").set(&["debug"], true);

    assert_eq!(extended.get(&["theme"]), Some(&Value::from("light")));
    assert_eq!(extended.get(&["lang"]), Some(&Value::from("en")));
    assert_eq!(extended.get(&["debug"]), Some(&Value::from(true)));
    assert_eq!(base.get(&["theme"]), Some(&Value::from("dark")));
}

#[test]
fn test_obj_with_path_arr() {
    let name_path = path_arr("user profile name");
    let name_path: Vec<&str> = name_path.iter().map(|s| s.as_str()).collect();
    let age_path = path_arr("user profile age");
    let age_path: Vec<&str> = age_path.iter().map(|s| s.as_str()).collect();
    let o = Obj::new().set(&name_path, "Mario").set(&age_path, 30);

    assert_eq!(o.get(&["user", "profile", "name"]), Some(&Value::from("Mario")));
    assert_eq!(o.get(&["user", "profile", "age"]), Some(&Value::from(30)));
}

#[test]
fn test_obj_fluent_chain() {
    let o = Obj::new().set(&["a"], 1).set(&["b"], 2).set(&["c"], 3);

    assert_eq!(o.get(&["a"]), Some(&Value::from(1)));
    assert_eq!(o.get(&["b"]), Some(&Value::from(2)));
    assert_eq!(o.get(&["c"]), Some(&Value::from(3)));
}

#[test]
fn test_obj_complex_values() {
    let arr = Value::from(vec![1, 2, 3]);
    let nested = object_of(&[("key", Value::from("value"))]);
    let o = Obj::new()
        .set(&["num"], 42)
        .set(&["float"], 3.14)
        .set(&["str"], "hello")
        .set(&["bool"], false)
        .set(&["arr"], arr.clone())
        .set(&["nested"], nested.clone());

    assert_eq!(o.get(&["num"]), Some(&Value::from(42)));
    assert_eq!(o.get(&["float"]), Some(&Value::from(3.14)));
    assert_eq!(o.get(&["str"]), Some(&Value::from("hello")));
    assert_eq!(o.get(&["bool"]), Some(&Value::from(false)));
    assert_eq!(o.get(&["arr"]), Some(&arr));
    assert_eq!(o.get(&["nested"]), Some(&nested));
}

#[test]
fn obj_keys_are_dot_joined() {
    let o = Obj::new().set(&["a", "b"], 1);
    assert_eq!(o.get(&["a.b"]), Some(&Value::from(1)));
    assert_eq!(o.get(&["a"]), None);
    let replaced = o.set(&["a.b"], 2);
    assert_eq!(replaced.get(&["a", "b"]), Some(&Value::from(2)));
}
