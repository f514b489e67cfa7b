use random_tables_web::frontmatter::{get_file_metadata, process_frontmatter, Metadata};

#[test]
fn valid_frontmatter() {
    let mut expected_hashmap = Metadata::new();
    expected_hashmap.insert("testing".to_string(), "values".to_string());
    expected_hashmap.insert("layout".to_string(), "base".to_string());

    let file_content = "testing: values\nlayout: base\n".to_string();
    let actual_hashmap = process_frontmatter(&file_content);

    assert_eq!(expected_hashmap, actual_hashmap);
}

#[test]
fn valid_frontmatter_with_blank_line() {
    let mut expected_hashmap = Metadata::new();
    expected_hashmap.insert("testing".to_string(), "values".to_string());
    expected_hashmap.insert("layout".to_string(), "base".to_string());

    let file_content = "testing: values\n\nlayout: base\n".to_string();
    let actual_hashmap = process_frontmatter(&file_content);

    assert_eq!(expected_hashmap, actual_hashmap);
}

#[test]
fn empty_frontmatter() {
    let expected_hashmap = Metadata::new();

    let file_content = "".to_string();
    let actual_hashmap = process_frontmatter(&file_content);

    assert_eq!(expected_hashmap, actual_hashmap);
}

#[test]
fn blank_line_frontmatter() {
    let expected_hashmap = Metadata::new();

    let file_content = "\n".to_string();
    let actual_hashmap = process_frontmatter(&file_content);

    assert_eq!(expected_hashmap, actual_hashmap);
}

#[test]
fn get_file_metadata_valid_file() {
    let mut expected_hashmap = Metadata::new();
    expected_hashmap.insert("testing".to_string(), "values".to_string());

    let file_content = "---\ntesting: values\n---\nFile contents go\nhere.".to_string();
    let (actual_hashmap, actual_content) = get_file_metadata(&file_content);

    assert_eq!(expected_hashmap, actual_hashmap);
    assert_eq!("File contents go\nhere.", actual_content);
}

#[test]
fn get_file_metadata_valid_file_with_empty_frontmatter() {
    let expected_hashmap = Metadata::new();

    let file_content = "---\n---\nFile contents go\nhere.".to_string();
    let (actual_hashmap, actual_content) = get_file_metadata(&file_content);

    assert_eq!(expected_hashmap, actual_hashmap);
    assert_eq!("File contents go\nhere.", actual_content);
}

#[test]
fn get_file_metadata_valid_file_with_no_frontmatter() {
    let expected_hashmap = Metadata::new();

    let file_content = "File contents go\nhere.".to_string();
    let (actual_hashmap, actual_content) = get_file_metadata(&file_content);

    assert_eq!(expected_hashmap, actual_hashmap);
    assert_eq!("File contents go\nhere.", actual_content);
}

#[test]
fn get_file_metadata_valid_file_with_empty_content() {
    let mut expected_hashmap = Metadata::new();
    expected_hashmap.insert("testing".to_string(), "values".to_string());

    let file_content = "---\ntesting: values\n---\n".to_string();
    let (actual_hashmap, actual_content) = get_file_metadata(&file_content);

    assert_eq!(expected_hashmap, actual_hashmap);
    assert_eq!("", actual_content);
}

#[test]
fn get_file_metadata_valid_file_with_empty_content_no_trailing_newline() {
    let mut expected_hashmap = Metadata::new();
    expected_hashmap.insert("testing".to_string(), "values".to_string());

    let file_content = "---\ntesting: values\n---".to_string();
    let (actual_hashmap, actual_content) = get_file_metadata(&file_content);

    assert_eq!(expected_hashmap, actual_hashmap);
    assert_eq!("", actual_content);
}

#[test]
fn get_file_metadata_empty_file() {
    let expected_hashmap = Metadata::new();

    let file_content = "".to_string();
    let (actual_hashmap, actual_content) = get_file_metadata(&file_content);

    assert_eq!(expected_hashmap, actual_hashmap);
    assert_eq!("", actual_content);
}

#[test]
fn get_file_metadata_valid_file_with_three_frontmatter_seperators() {
    let mut expected_hashmap = Metadata::new();
    expected_hashmap.insert("testing".to_string(), "values".to_string());

    let file_content = "---\ntesting: values\n---\nFile contents go\n---\nhere.".to_string();
    let (actual_hashmap, actual_content) = get_file_metadata(&file_content);

    assert_eq!(expected_hashmap, actual_hashmap);
    assert_eq!("File contents go\n---\nhere.", actual_content);
}

#[test]
fn get_file_metadata_invalid_file_with_one_frontmatter_seperator_at_start() {
    let expected_hashmap = Metadata::new();

    let file_content = "---\nFile contents go\nhere.".to_string();
    let (actual_hashmap, actual_content) = get_file_metadata(&file_content);

    assert_eq!(expected_hashmap, actual_hashmap);
    assert_eq!("---\nFile contents go\nhere.", actual_content);
}

#[test]
fn get_file_metadata_valid_file_with_one_frontmatter_seperator_in_middle() {
    let expected_hashmap = Metadata::new();

    let file_content = "File contents go\n---\nhere.".to_string();
    let (actual_hashmap, actual_content) = get_file_metadata(&file_content);

    assert_eq!(expected_hashmap, actual_hashmap);
    assert_eq!("File contents go\n---\nhere.", actual_content);
}

#[test]
fn frontmatter_blank_line_skipped_empty_key_halts() {
    let mut expected = Metadata::new();
    expected.insert("a".to_string(), "1".to_string());

    let actual = process_frontmatter("a: 1\n\n: bad\nb: 2");

    assert_eq!(expected, actual);
}

#[test]
fn frontmatter_line_without_colon_gets_empty_value() {
    let mut expected = Metadata::new();
    expected.insert("flag".to_string(), "".to_string());
    expected.insert("key".to_string(), "value".to_string());

    let actual = process_frontmatter("flag\nkey: value\n");

    assert_eq!(expected, actual);
}

#[test]
fn frontmatter_duplicate_key_overwrites() {
    let mut expected = Metadata::new();
    expected.insert("k".to_string(), "second".to_string());

    let actual = process_frontmatter("k: first\nk: second\n");

    assert_eq!(expected, actual);
    assert_eq!(1, actual.len());
}

#[test]
fn frontmatter_values_and_keys_are_trimmed() {
    let mut expected = Metadata::new();
    expected.insert("key".to_string(), "value with spaces".to_string());

    let actual = process_frontmatter("  key :   value with spaces  \n");

    assert_eq!(expected, actual);
}

#[test]
fn parse_roundtrip_of_composed_file() {
    let block = "title: Page\nlayout: base\n";
    let content = "Body text\nwith --- inside a line.";
    let mut file = String::new();
    file.push_str("---\n");
    file.push_str(block);
    file.push_str("---\n");
    file.push_str(content);

    let mut expected = Metadata::new();
    expected.insert("title".to_string(), "Page".to_string());
    expected.insert("layout".to_string(), "base".to_string());

    let (actual, actual_content) = get_file_metadata(&file);
    assert_eq!(expected, actual);
    assert_eq!(content, actual_content);
}

#[test]
fn metadata_get_and_contains() {
    let (md, content) = get_file_metadata("---\nlayout: base\n---\nHello");
    assert_eq!(Some(&"base".to_string()), md.get("layout"));
    assert_eq!("Hello", content);
    assert!(md.contains_key("layout"));
    assert!(!md.contains_key("missing"));
    assert_eq!(None, md.get("missing"));
}

#[test]
fn frontmatter_key_named_content_is_kept_beside_the_body() {
    let mut expected = Metadata::new();
    expected.insert("content".to_string(), "keep".to_string());

    let (md, body) = get_file_metadata("---\ncontent: keep\n---\nBody");

    assert_eq!(expected, md);
    assert_eq!(Some(&"keep".to_string()), md.get("content"));
    assert_eq!("Body", body);
}

#[test]
fn frontmatter_block_ending_in_dashes_still_closes() {
    let mut expected = Metadata::new();
    expected.insert("k".to_string(), "v".to_string());
    expected.insert("--".to_string(), "".to_string());

    let (actual, content) = get_file_metadata("---\nk: v\n-----\nC");

    assert_eq!(expected, actual);
    assert_eq!("C", content);
}

#[test]
fn carriage_returns_are_trimmed_from_lines() {
    let mut expected = Metadata::new();
    expected.insert("key".to_string(), "value".to_string());

    let (actual, content) = get_file_metadata("---\nkey: value\r\n---\nBody\r\n");

    assert_eq!(expected, actual);
    assert_eq!("Body\r\n", content);
}

#[test]
fn file_of_only_an_opening_delimiter_is_content() {
    let (md, content) = get_file_metadata("---\n");
    assert_eq!(Metadata::new(), md);
    assert_eq!("---\n", content);
}
