use servidor_http::package::HeaderMap;
use servidor_http::response::{Package, Response, Status};

fn entries(map: &HeaderMap) -> Vec<(String, String)> {
    let mut all = Vec::new();
    for i in 0..map.len() {
        let (name, value) = map.entry(i);
        all.push((name.clone(), value.clone()));
    }
    all
}

fn owned(pairs: &[(&str, &str)]) -> Vec<(String, String)> {
    pairs.iter().map(|(k, v)| (k.to_string(), v.to_string())).collect()
}

#[test]
fn new_header_map_is_empty() {
    let map = HeaderMap::new();
    assert_eq!(map.len(), 0);
    assert_eq!(map.get("A"), None);
}

#[test]
fn header_map_keeps_insertion_order() {
    let mut map = HeaderMap::new();
    map.insert("B", "2");
    map.insert("A", "1");
    map.insert("C", "3");
    assert_eq!(entries(&map), owned(&[("B", "2"), ("A", "1"), ("C", "3")]));
}

#[test]
fn header_map_overwrites_in_place() {
    let mut map = HeaderMap::new();
    map.insert("B", "2");
    map.insert("A", "1");
    map.insert("B", "4");
    map.put(String::from("A"), String::from("5"));
    assert_eq!(entries(&map), owned(&[("B", "4"), ("A", "5")]));
    assert_eq!(map.get("B"), Some(&String::from("4")));
    assert_eq!(map.get("A"), Some(&String::from("5")));
    assert_eq!(map.len(), 2);
}

#[test]
fn header_map_names_are_exact() {
    let mut map = HeaderMap::new();
    map.insert("Host", "a");
    map.insert("host", "b");
    map.insert("Host ", "c");
    assert_eq!(map.len(), 3);
    assert_eq!(map.get("Host"), Some(&String::from("a")));
    assert_eq!(map.get("host"), Some(&String::from("b")));
    assert_eq!(map.get("HOST"), None);
}

#[test]
fn header_map_clone_is_equal() {
    let mut map = HeaderMap::new();
    map.insert("A", "1");
    map.insert("B", "2");
    let copy = map.clone();
    assert_eq!(copy, map);
    assert_eq!(entries(&copy), owned(&[("A", "1"), ("B", "2")]));
    map.insert("A", "3");
    assert_ne!(copy, map);
    assert_eq!(copy.get("A"), Some(&String::from("1")));
}

#[test]
fn package_accessors_of_a_response() {
    let mut response = Response::new(Status::OK);
    assert_eq!(response.get_header("A"), None);
    assert_eq!(response.get_body(), None);
    response.add_header("A", "1");
    response.set_body(vec![7, 8]);
    assert_eq!(response.get_header("A"), Some(&String::from("1")));
    assert_eq!(response.get_header_list().len(), 1);
    assert_eq!(response.get_body(), Some(&vec![7, 8]));
    assert_eq!(response.status(), Status::OK);
}
