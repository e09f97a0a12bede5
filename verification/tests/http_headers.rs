use hitavada_crossword::http::{create_headers, header_table, headers_from, HeaderRefused};

#[test]
fn test_create_headers() {
    let headers = create_headers().unwrap();

    // Test required headers are present
    assert!(headers.contains_key("accept"));
    assert!(headers.contains_key("accept-language"));
    assert!(headers.contains_key("content-type"));
    assert!(headers.contains_key("origin"));
    assert!(headers.contains_key("user-agent"));
    assert!(headers.contains_key("x-requested-with"));

    // Test header values
    assert_eq!(headers.get("accept").unwrap(), "*/*");
    assert_eq!(headers.get("origin").unwrap(), "https://www.ehitavada.com");
    assert_eq!(
        headers.get("content-type").unwrap(),
        "application/x-www-form-urlencoded; charset=UTF-8"
    );
}

#[test]
fn test_headers_are_valid() {
    let headers = create_headers().unwrap();

    // Test that all headers can be converted to strings
    for (name, value) in headers.iter() {
        assert!(!name.as_str().is_empty());
        assert!(!value.to_str().unwrap().is_empty());
    }
}

#[test]
fn fourteen_headers_each_with_its_value() {
    let table = header_table();
    assert_eq!(table.len(), 14);
    let headers = create_headers().unwrap();
    assert_eq!(headers.len(), 14);
    for (name, value) in table {
        let values: Vec<_> = headers.get_all(name).iter().collect();
        assert_eq!(values.len(), 1);
        assert_eq!(values[0].as_bytes(), value.as_bytes());
    }
    assert_eq!(headers.get("x-requested-with").unwrap(), "XMLHttpRequest");
    assert_eq!(headers.get("dnt").unwrap(), "1");
    assert_eq!(
        headers.get("user-agent").unwrap(),
        "Mozilla/5.0 (Macintosh; Intel Mac OS X 10_15_7) AppleWebKit/537.36 (KHTML, like Gecko) Chrome/136.0.0.0 Safari/537.36"
    );
}

#[test]
fn a_later_value_replaces_an_earlier_one() {
    let table = vec![("accept", "text/html"), ("dnt", "1"), ("accept", "*/*")];
    let headers = headers_from(&table).unwrap();
    assert_eq!(headers.len(), 2);
    assert_eq!(headers.get_all("accept").iter().count(), 1);
    assert_eq!(headers.get("accept").unwrap(), "*/*");
}

#[test]
fn an_empty_table_makes_an_empty_map() {
    let headers = headers_from(&Vec::new()).unwrap();
    assert!(headers.is_empty());
}

#[test]
fn a_refused_header_is_named_by_its_place() {
    let upper = vec![("accept", "*/*"), ("Accept-Language", "en")];
    assert_eq!(headers_from(&upper).unwrap_err(), HeaderRefused { index: 1 });
    let newline = vec![("accept", "a\nb")];
    assert_eq!(headers_from(&newline).unwrap_err(), HeaderRefused { index: 0 });
    let empty_name = vec![("dnt", "1"), ("origin", "x"), ("", "1")];
    assert_eq!(headers_from(&empty_name).unwrap_err(), HeaderRefused { index: 2 });
}

fn may_stand_in_a_name(c: char) -> bool {
    c.is_ascii_lowercase() || c.is_ascii_digit() || "!\"#$%&'*+-.^_`|~".contains(c)
}

fn may_stand_in_a_value(c: char) -> bool {
    c == '\t' || (c >= ' ' && c != '\u{7f}')
}

fn taken(name: String, value: String) -> bool {
    let table: Vec<(&'static str, &'static str)> = vec![(&*name.leak(), &*value.leak())];
    match headers_from(&table) {
        Ok(headers) => {
            assert_eq!(headers.len(), 1);
            assert_eq!(headers.get(table[0].0).unwrap().as_bytes(), table[0].1.as_bytes());
            true
        }
        Err(refused) => {
            assert_eq!(refused, HeaderRefused { index: 0 });
            false
        }
    }
}

#[test]
fn the_characters_of_a_name() {
    for n in (0..0x3000u32).chain([0xD7FF, 0xE000, 0xFFFD, 0x1F600, 0x10FFFF]) {
        let c = char::from_u32(n).unwrap();
        assert_eq!(taken(c.to_string(), "v".to_string()), may_stand_in_a_name(c), "U+{n:04X}");
        assert_eq!(taken(format!("x-{c}-y"), "v".to_string()), may_stand_in_a_name(c), "U+{n:04X}");
    }
}

#[test]
fn the_characters_of_a_value() {
    for n in (0..0x3000u32).chain([0xD7FF, 0xE000, 0xFFFD, 0x1F600, 0x10FFFF]) {
        let c = char::from_u32(n).unwrap();
        assert_eq!(taken("dnt".to_string(), c.to_string()), may_stand_in_a_value(c), "U+{n:04X}");
        assert_eq!(taken("dnt".to_string(), format!("a{c}b")), may_stand_in_a_value(c), "U+{n:04X}");
    }
    assert!(taken("dnt".to_string(), String::new()));
}

#[test]
fn the_length_of_a_name() {
    assert!(!taken(String::new(), "v".to_string()));
    for (len, expected) in [(1, true), (64, true), (65, true), (65535, true), (65536, false)] {
        assert_eq!(taken("a".repeat(len), "v".to_string()), expected, "{len}");
    }
    assert!(!taken(format!("{}A", "a".repeat(70)), "v".to_string()));
    assert!(!taken(format!("{}é", "a".repeat(70)), "v".to_string()));
}

#[test]
fn up_to_128_headers_are_always_taken() {
    let table: Vec<(&'static str, &'static str)> = (0..128)
        .map(|i| (&*format!("x-header-{i}").leak(), "a value ~ with !\"#$% signs"))
        .collect();
    let headers = headers_from(&table).unwrap();
    assert_eq!(headers.len(), 128);
    assert_eq!(headers.get("x-header-127").unwrap(), "a value ~ with !\"#$% signs");
}

#[test]
fn the_first_that_is_no_header_is_named() {
    let table = vec![("dnt", "1"), ("Dnt", "1"), ("origin", "\n")];
    assert_eq!(headers_from(&table).unwrap_err(), HeaderRefused { index: 1 });
}

#[test]
fn create_headers_never_fails() {
    for _ in 0..3 {
        assert!(create_headers().is_ok());
    }
}
