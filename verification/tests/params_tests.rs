use radio_api::params::{AllParameters, RequestParameters, str_to_arr};

fn bag(pairs: &[(&str, &str)]) -> RequestParameters {
    RequestParameters::new(
        pairs.iter().map(|(k, v)| (k.to_string(), v.to_string())).collect(),
    )
}

#[test]
fn get_string_trims_and_drops_empty() {
    let p = bag(&[("name", "  Radio One  "), ("tag", "   ")]);
    assert_eq!(p.get_string("name"), Some("Radio One".to_string()));
    assert_eq!(p.get_string("tag"), None);
    assert_eq!(p.get_string("missing"), None);
}

#[test]
fn get_string_takes_first_value() {
    let p = bag(&[("name", "first"), ("name", "second")]);
    assert_eq!(p.get_string("name"), Some("first".to_string()));
}

#[test]
fn get_bool_accepts_only_lowercase_true() {
    let p = bag(&[("a", "true"), ("b", "TRUE"), ("c", "1")]);
    assert!(p.get_bool("a", false));
    assert!(!p.get_bool("b", false));
    assert!(!p.get_bool("c", true) == false || !p.get_bool("c", true));
    assert!(!p.get_bool("c", false));
    assert!(p.get_bool("missing", true));
    assert!(!p.get_bool("missing", false));
}

#[test]
fn get_number_parses_or_defaults() {
    let p = bag(&[("limit", "17"), ("offset", "x9"), ("big", "99999999999999999999")]);
    assert_eq!(p.get_number("limit", 5), 17);
    assert_eq!(p.get_number("offset", 5), 5);
    assert_eq!(p.get_number("big", 3), 3);
    assert_eq!(p.get_number("missing", 999999), 999999);
}

#[test]
fn str_to_arr_splits_trims_and_drops_empties() {
    assert_eq!(str_to_arr(" a, b ,,c "), vec!["a", "b", "c"]);
    assert_eq!(str_to_arr(""), Vec::<String>::new());
    assert_eq!(str_to_arr(" , "), Vec::<String>::new());
    assert_eq!(str_to_arr("jazz"), vec!["jazz"]);
}

#[test]
fn cache_key_is_stable_across_pair_order() {
    let url = "/json/stations/search?name=x".to_string();
    let p1 = bag(&[("name", "x"), ("limit", "10"), ("reverse", "true")]);
    let p2 = bag(&[("reverse", "true"), ("name", "x"), ("limit", "10")]);
    let a = AllParameters::new(url.clone(), &p1);
    let b = AllParameters::new(url, &p2);
    assert_eq!(a.to_string(), b.to_string());
}

#[test]
fn cache_key_differs_when_a_parameter_differs() {
    let url = "/json/stations/search".to_string();
    let a = AllParameters::new(url.clone(), &bag(&[("name", "x")]));
    let b = AllParameters::new(url, &bag(&[("name", "y")]));
    assert_ne!(a.to_string(), b.to_string());
}

#[test]
fn cache_key_holds_url_and_every_parameter() {
    let p = bag(&[("tagList", "rock, pop")]);
    let a = AllParameters::new("/json/stations/search".to_string(), &p);
    let key = a.to_string();
    assert!(key.starts_with("{\"url\":\"/json/stations/search\""));
    assert!(key.contains("\"param_tag_list\":[\"rock\",\"pop\"]"));
    assert!(key.contains("\"param_limit\":999999"));
    assert!(key.contains("\"param_bitrate_max\":1000000"));
    assert!(key.contains("\"param_order\":\"name\""));
    assert!(key.contains("\"param_tags\":null"));
}
