use provider_runtime::client::{ApiConfiguration, ProviderApi};
use provider_runtime::keyed::{same_text, StrMap};
use provider_runtime::transfer::AddVolumes;
use std::sync::Arc;

#[test]
fn map_keeps_the_order_of_insertion() {
    let mut m: StrMap<u32> = StrMap::new();
    assert_eq!(m.len(), 0);
    m.insert("b".to_string(), 2);
    m.insert("a".to_string(), 1);
    m.insert("c".to_string(), 3);
    m.insert("a".to_string(), 10);
    assert_eq!(m.len(), 3);
    assert_eq!(m.key_at(0), "b");
    assert_eq!(m.key_at(1), "a");
    assert_eq!(*m.value_at(1), 10);
    assert_eq!(m.find("c"), Some(2));
    assert_eq!(m.find("d"), None);
    assert!(m.contains_key("a"));
    assert_eq!(m.get("a"), Some(&10));
    assert_eq!(m.get("z"), None);
    m.set_value_at(0, 20);
    assert_eq!(m.get("b"), Some(&20));
    assert_eq!(m.remove("a"), Some(10));
    assert_eq!(m.remove("a"), None);
    assert_eq!(m.len(), 2);
    assert_eq!(m.key_at(0), "b");
    assert_eq!(m.key_at(1), "c");
}

#[test]
fn texts_are_compared_by_content() {
    assert!(same_text("abc", "abc"));
    assert!(!same_text("abc", "abd"));
    assert!(!same_text("abc", "ab"));
    assert!(same_text("", ""));
}

#[test]
fn provider_api_keeps_its_configuration() {
    let configuration = Arc::new(ApiConfiguration { api_url: "http://127.0.0.1:5001".to_string() });
    let api = ProviderApi::new(configuration.clone());
    assert_eq!(api.configuration().api_url, "http://127.0.0.1:5001");
    assert_eq!(Arc::strong_count(&configuration), 2);
}

#[test]
fn add_volumes_carries_the_volumes() {
    let msg = AddVolumes::new(vec![]);
    assert!(msg.0.is_empty());
}
