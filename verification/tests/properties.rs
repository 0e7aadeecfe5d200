use slatedb_wal_bench::properties::{read_properties, Properties, PropertiesError};

fn read(contents: &str) -> Properties {
    read_properties("client.properties", contents).unwrap()
}

fn message(contents: &str) -> String {
    read_properties("client.properties", contents).unwrap_err().message()
}

#[test]
fn entries_comments_and_blank_lines() {
    let properties = read(
        "# comment\n! also a comment\n\n  security.protocol = SASL_SSL \r\n\tfetch.wait.max.ms=10\n   # = x",
    );
    assert_eq!(properties.len(), 2);
    assert_eq!(properties.get("security.protocol"), Some("SASL_SSL"));
    assert_eq!(properties.get("fetch.wait.max.ms"), Some("10"));
    assert_eq!(properties.get("# comment"), None);
}

#[test]
fn first_equals_sign_ends_the_key() {
    let properties = read("sasl.jaas.config=a.b.C required k=\"v\";\nempty=\n spaced key = a = b");
    assert_eq!(properties.get("sasl.jaas.config"), Some("a.b.C required k=\"v\";"));
    assert_eq!(properties.get("empty"), Some(""));
    assert_eq!(properties.get("spaced key"), Some("a = b"));
}

#[test]
fn later_entries_take_the_place_of_earlier_ones() {
    let properties = read("a=1\nb=2\na=3\n");
    assert_eq!(properties.len(), 2);
    assert_eq!(properties.get("a"), Some("3"));
    assert_eq!(properties.get("b"), Some("2"));
}

#[test]
fn empty_files_hold_nothing() {
    assert_eq!(read("").len(), 0);
    assert_eq!(read("\n\r\n  \n").len(), 0);
    assert_eq!(read("#a=b").len(), 0);
}

#[test]
fn faults_are_reported_with_their_line() {
    assert_eq!(
        message("a=1\n\nnonsense\n=x"),
        "invalid Kafka property at client.properties:3; expected key=value"
    );
    assert_eq!(
        message("a=1\n = x\nnonsense"),
        "empty Kafka property key at client.properties:2"
    );
    assert_eq!(message("="), "empty Kafka property key at client.properties:1");
    assert!(matches!(
        read_properties("p", "\n\n\nx"),
        Err(PropertiesError::NoValue { path, line: 4 }) if path == "p"
    ));
    assert!(matches!(
        read_properties("p", "#\r\n=v"),
        Err(PropertiesError::NoKey { path, line: 2 }) if path == "p"
    ));
}

#[test]
fn properties_are_a_map() {
    let mut properties = Properties::new();
    assert_eq!(properties.remove("a"), None);
    properties.insert("a".to_string(), "1".to_string());
    properties.insert("b".to_string(), "2".to_string());
    properties.insert("a".to_string(), "3".to_string());
    assert_eq!(properties.get("a"), Some("3"));
    let mut entries: Vec<(&str, &str)> = (0..properties.len()).map(|i| properties.entry(i)).collect();
    entries.sort();
    assert_eq!(entries, vec![("a", "3"), ("b", "2")]);
    assert_eq!(properties.remove("a"), Some("3".to_string()));
    assert_eq!(properties.remove("a"), None);
    assert_eq!(properties.len(), 1);
    assert_eq!(properties.get("b"), Some("2"));
}

#[test]
fn written_properties_are_read_back() {
    let entries = [("a.b", "1"), ("key with space", "x=y # z"), ("empty", ""), ("a.b", "2")];
    let text: String = entries.iter().map(|(key, value)| format!("{key}={value}\n")).collect();
    let properties = read(&text);
    assert_eq!(properties.len(), 3);
    assert_eq!(properties.get("a.b"), Some("2"));
    assert_eq!(properties.get("key with space"), Some("x=y # z"));
    assert_eq!(properties.get("empty"), Some(""));
}
