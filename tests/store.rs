use ova::store::{
    find_line_index, parse_line, read_store_file, read_store_file_as_string, render_lines,
    store_location, template_lines,
};
use ova::{OvaError, Store};

/// The lines of a file's text, as `BufRead::lines` gives them.
fn lines_of(text: &str) -> Vec<String> {
    text.lines().map(|l| l.to_string()).collect()
}

fn template_text() -> String {
    let mut text = String::new();
    for line in template_lines() {
        text.push_str(&line);
        text.push('\n');
    }
    text
}

fn empty_store(path: &str) -> Store {
    Store::new(path.to_string(), &Vec::new())
}

#[test]
fn test_create_store_file() {
    let text = template_text();
    assert_eq!(
        text,
        "# OVA store file\n# Expected values like\n# KEY = VALUE\n# You can add keys manually\n# or use the 'ova add <name> <key>' command\n"
    );
}

#[test]
fn test_read_store_file_as_string() {
    let key = "test_key".to_string();
    let value = "1234567890123456".to_string();
    let text = format!("{} = {}", key, value);

    let file_content = read_store_file_as_string(&lines_of(&text));
    assert_eq!(file_content.len(), 1);
    assert_eq!(file_content[0], "test_key = 1234567890123456");
}

#[test]
fn test_read_store_file_as_string_with_empty_file() {
    let file_content = read_store_file_as_string(&lines_of(""));
    assert_eq!(file_content.len(), 0);
}

#[test]
fn test_read_store_file() {
    let key = "test_key".to_string();
    let value = "1234567890123456".to_string();
    let text = format!("{} = {}", key, value);

    let file_content = read_store_file(&lines_of(&text));
    assert_eq!(file_content.len(), 1);
    file_content.iter().for_each(|entry| {
        assert_eq!(entry.0, "test_key");
        assert_eq!(entry.1, "1234567890123456");
    });
}

#[test]
fn test_insert_into_store() {
    let store = empty_store("test.store");
    let key = "test_key".to_string();
    let value = "abcdefghijklmnop".to_string();

    let line = store.insert_into_store(&key, &value, "").unwrap();
    let text = line;

    let file_content = read_store_file_as_string(&lines_of(&text));
    assert_eq!(file_content.len(), 1);
    assert_eq!(file_content[0], "test_key = abcdefghijklmnop");
}

#[test]
fn test_insert_into_store_with_empty_key() {
    let store = empty_store("test_empty.store");
    let key = "".to_string();
    let value = "test_value".to_string();

    let result = store.insert_into_store(&key, &value, "");
    assert!(result.is_err());
}

#[test]
fn test_insert_into_store_with_empty_value() {
    let store = empty_store("test_empty_value.store");
    let key = "test_key".to_string();
    let value = "".to_string();

    let result = store.insert_into_store(&key, &value, "");
    assert!(result.is_err());
}

#[test]
fn test_insert_into_store_with_empty_key_and_value() {
    let store = empty_store("test_empty_key_value.store");
    let key = "".to_string();
    let value = "".to_string();

    let result = store.insert_into_store(&key, &value, "");
    assert!(result.is_err());
}

#[test]
fn test_insert_into_store_with_key_less_than_16_chars() {
    let store = empty_store("test_key_less_than_16_chars.store");
    let key = "abcdefghijklmnop".to_string();
    let value = "abcdefghijklmno".to_string();

    let result = store.insert_into_store(&key, &value, "");
    assert!(result.is_err());
}

#[test]
fn test_insert_into_store_with_already_existing_key() {
    let store = empty_store("test_existing_key.store");
    let key = "test_key".to_string();
    let value = "abcdefghijklmnop".to_string();

    let text = store.insert_into_store(&key, &value, "").unwrap();
    let store = Store::new("test_existing_key.store".to_string(), &lines_of(&text));
    let result = store.insert_into_store(&key, &value, &text);
    assert!(result.is_err());
}

#[test]
fn test_delete_from_store() {
    let store = empty_store("test_delete.store");
    let key = "test_key".to_string();
    let value = "1234567890123456".to_string();

    let text = store.insert_into_store(&key, &value, "").unwrap();
    let kept = store.delete_from_store(&key, &lines_of(&text)).unwrap();
    let text = render_lines(&kept);

    let file_content = read_store_file_as_string(&lines_of(&text));
    assert_eq!(file_content.len(), 0);
}

#[test]
fn test_delete_from_store_with_empty_key() {
    let store = empty_store("test_delete_empty_key.store");
    let key = "".to_string();

    let result = store.delete_from_store(&key, &Vec::new());
    assert!(result.is_err());
}

#[test]
fn test_update_store() {
    let store = empty_store("test_update.store");
    let key = "test_key".to_string();
    let value = "1234567890123456".to_string();

    let text = store.insert_into_store(&key, &value, "").unwrap();
    let updated = store
        .update_store(&key, &"1234567890123456".to_string(), &lines_of(&text))
        .unwrap();
    let text = render_lines(&updated);

    let file_content = read_store_file_as_string(&lines_of(&text));
    assert_eq!(file_content.len(), 1);
    assert_eq!(file_content[0], "test_key = 1234567890123456");
}

#[test]
fn test_update_store_with_empty_key() {
    let store = empty_store("test_update_empty_key.store");
    let key = "".to_string();
    let value = "1234567890123456".to_string();

    let result = store.update_store(&key, &value, &Vec::new());
    assert!(result.is_err());
}

#[test]
fn test_update_store_with_empty_value() {
    let store = empty_store("test_update_empty_value.store");
    let key = "test_key".to_string();
    let value = "".to_string();

    let result = store.update_store(&key, &value, &Vec::new());
    assert!(result.is_err());
}

#[test]
fn test_update_store_with_empty_key_and_value() {
    let store = empty_store("test_update_empty_key_value.store");
    let key = "".to_string();
    let value = "".to_string();

    let result = store.update_store(&key, &value, &Vec::new());
    assert!(result.is_err());
}

#[test]
fn test_update_store_with_key_less_than_16_chars() {
    let store = empty_store("test_update_key_less_than_16_chars.store");
    let key = "abcdefghijklmnop".to_string();
    let value = "abcdefghijklmno".to_string();
    let insert_value = "abcdefghijklmnop".to_string();

    let text = store.insert_into_store(&key, &insert_value, "").unwrap();
    let store = Store::new(
        "test_update_key_less_than_16_chars.store".to_string(),
        &lines_of(&text),
    );
    let result = store.update_store(&key, &value, &lines_of(&text));
    assert!(result.is_err());
}

#[test]
fn insert_then_reopen_gives_secret() {
    let mut text = template_text();
    let store = Store::new("s".to_string(), &lines_of(&text));
    text.push_str(
        &store
            .insert_into_store(&"mail".to_string(), &"QWERTYUIOPASDFGH".to_string(), &text)
            .unwrap(),
    );
    let reopened = Store::new("s".to_string(), &lines_of(&text));
    assert_eq!(
        reopened.get(&"mail".to_string()),
        Some("QWERTYUIOPASDFGH".to_string())
    );
}

#[test]
fn duplicate_insert_is_rejected_and_writes_nothing() {
    let text = "github = ABCDEFGHIJKLMNOP\n";
    let store = Store::new("s".to_string(), &lines_of(text));
    let result = store.insert_into_store(&"github".to_string(), &"QRSTUVWXYZ234567".to_string(), text);
    assert_eq!(result, Err(OvaError::DuplicateKey));
    assert_eq!(lines_of(text).len(), 1);
}

#[test]
fn invalid_fields_are_validation_errors() {
    let store = empty_store("s");
    let long = "ABCDEFGHIJKLMNOP".to_string();
    let cases = [
        ("   ".to_string(), long.clone()),
        ("name".to_string(), " \t ".to_string()),
        ("name".to_string(), "ABCDEFGHIJKLMNO".to_string()),
        ("name".to_string(), "   ABCDEFGHIJKLMNO   ".to_string()),
    ];
    for (k, v) in cases.iter() {
        assert_eq!(store.insert_into_store(k, v, ""), Err(OvaError::ValidationError));
        assert_eq!(store.update_store(k, v, &Vec::new()), Err(OvaError::ValidationError));
    }
}

#[test]
fn secret_length_counts_characters_after_trim() {
    let store = empty_store("s");
    let line = store
        .insert_into_store(&"name".to_string(), &"  ABCDEFGHIJKLMNOP ".to_string(), "")
        .unwrap();
    assert_eq!(line, "name =   ABCDEFGHIJKLMNOP \n");
}

#[test]
fn delete_missing_name_is_noop() {
    let text = "github = ABCDEFGHIJKLMNOP\nmail = QRSTUVWXYZ234567\n";
    let store = Store::new("s".to_string(), &lines_of(text));
    let kept = store.delete_from_store(&"bank".to_string(), &lines_of(text)).unwrap();
    assert_eq!(render_lines(&kept), text);
}

#[test]
fn delete_removes_exactly_one_line() {
    let text = "# header\ngithub = ABCDEFGHIJKLMNOP\nmail = QRSTUVWXYZ234567\nbank = AAAAAAAAAAAAAAAA";
    let store = Store::new("s".to_string(), &lines_of(text));
    let kept = store.delete_from_store(&"mail".to_string(), &lines_of(text)).unwrap();
    assert_eq!(kept.len(), 2);
    assert_eq!(
        render_lines(&kept),
        "github = ABCDEFGHIJKLMNOP\nbank = AAAAAAAAAAAAAAAA\n"
    );
}

#[test]
fn delete_matches_by_line_prefix() {
    let text = "github = ABCDEFGHIJKLMNOP\ngit = QRSTUVWXYZ234567";
    let store = Store::new("s".to_string(), &lines_of(text));
    let kept = store.delete_from_store(&"git".to_string(), &lines_of(text)).unwrap();
    assert_eq!(kept, vec!["git = QRSTUVWXYZ234567".to_string()]);
}

#[test]
fn update_replaces_secret_and_keeps_count() {
    let text = "github = ABCDEFGHIJKLMNOP\nmail = QRSTUVWXYZ234567";
    let store = Store::new("s".to_string(), &lines_of(text));
    let updated = store
        .update_store(&"github".to_string(), &"ZZZZZZZZZZZZZZZZ".to_string(), &lines_of(text))
        .unwrap();
    assert_eq!(updated.len(), 2);
    let text = render_lines(&updated);
    let reopened = Store::new("s".to_string(), &lines_of(&text));
    assert_eq!(
        reopened.get(&"github".to_string()),
        Some("ZZZZZZZZZZZZZZZZ".to_string())
    );
    assert_eq!(
        reopened.get(&"mail".to_string()),
        Some("QRSTUVWXYZ234567".to_string())
    );
}

#[test]
fn update_missing_name_leaves_lines() {
    let text = "github = ABCDEFGHIJKLMNOP\n";
    let store = Store::new("s".to_string(), &lines_of(text));
    let updated = store
        .update_store(&"bank".to_string(), &"ZZZZZZZZZZZZZZZZ".to_string(), &lines_of(text))
        .unwrap();
    assert_eq!(render_lines(&updated), text);
}

#[test]
fn round_trip_counts_data_lines() {
    let mut text = template_text();
    text.push_str("\na = AAAAAAAAAAAAAAAA\n# note\nb = BBBBBBBBBBBBBBBB\nc = CCCCCCCCCCCCCCCC\n");
    let store = Store::new("s".to_string(), &lines_of(&text));
    assert_eq!(store.list().len(), 3);
    assert_eq!(store.get(&"b".to_string()), Some("BBBBBBBBBBBBBBBB".to_string()));
}

#[test]
fn later_line_wins_for_repeated_name() {
    let text = "a = AAAAAAAAAAAAAAAA\na = BBBBBBBBBBBBBBBB";
    let store = Store::new("s".to_string(), &lines_of(text));
    assert_eq!(store.list().len(), 1);
    assert_eq!(store.get(&"a".to_string()), Some("BBBBBBBBBBBBBBBB".to_string()));
}

#[test]
fn fresh_template_then_insert_github() {
    let mut text = template_text();
    let store = Store::new("s".to_string(), &lines_of(&text));
    assert!(store.list().is_empty());
    let line = store
        .insert_into_store(&"github".to_string(), &"ABCDEFGHIJKLMNOP".to_string(), &text)
        .unwrap();
    assert_eq!(line, "github = ABCDEFGHIJKLMNOP\n");
    text.push_str(&line);
    let reopened = Store::new("s".to_string(), &lines_of(&text));
    assert_eq!(
        reopened.get(&"github".to_string()),
        Some("ABCDEFGHIJKLMNOP".to_string())
    );
}

#[test]
fn snapshot_is_not_refreshed_by_edits() {
    let text = "github = ABCDEFGHIJKLMNOP";
    let store = Store::new("s".to_string(), &lines_of(text));
    let kept = store.delete_from_store(&"github".to_string(), &lines_of(text)).unwrap();
    assert!(kept.is_empty());
    assert_eq!(store.get(&"github".to_string()), Some("ABCDEFGHIJKLMNOP".to_string()));
    assert_eq!(store.file_path(), "s");
}

#[test]
fn parse_line_splits_at_first_equals_and_trims() {
    assert_eq!(
        parse_line("  name  =  a=b  "),
        Some(("name".to_string(), "a=b".to_string()))
    );
    assert_eq!(parse_line("# a = b"), None);
    assert_eq!(parse_line(""), None);
    assert_eq!(parse_line("no equals here"), None);
    assert_eq!(parse_line("=x"), Some(("".to_string(), "x".to_string())));
}

#[test]
fn find_line_index_takes_first_prefix() {
    let lines = vec![
        "mail = X".to_string(),
        "github = Y".to_string(),
        "git = Z".to_string(),
    ];
    assert_eq!(find_line_index(&"git".to_string(), &lines), Some(1));
    assert_eq!(find_line_index(&"bank".to_string(), &lines), None);
}

#[test]
fn render_ends_each_line_with_newline() {
    assert_eq!(render_lines(&vec![]), "");
    assert_eq!(render_lines(&vec!["a".to_string()]), "a\n");
    assert_eq!(render_lines(&vec!["a".to_string(), "b".to_string()]), "a\nb\n");
}

#[test]
fn insert_after_delete_reads_back() {
    let text = "a = AAAAAAAAAAAAAAAA\nb = BBBBBBBBBBBBBBBB\n";
    let store = Store::new("s".to_string(), &lines_of(text));
    let kept = store.delete_from_store(&"a".to_string(), &lines_of(text)).unwrap();
    let mut text = render_lines(&kept);
    let store = Store::new("s".to_string(), &lines_of(&text));
    text.push_str(
        &store
            .insert_into_store(&"c".to_string(), &"CCCCCCCCCCCCCCCC".to_string(), &text)
            .unwrap(),
    );
    let reopened = Store::new("s".to_string(), &lines_of(&text));
    assert_eq!(reopened.get(&"b".to_string()), Some("BBBBBBBBBBBBBBBB".to_string()));
    assert_eq!(reopened.get(&"c".to_string()), Some("CCCCCCCCCCCCCCCC".to_string()));
    assert_eq!(reopened.list().len(), 2);
}

#[test]
fn insert_into_text_without_final_newline() {
    let mut text = "a = AAAAAAAAAAAAAAAA".to_string();
    let store = Store::new("s".to_string(), &lines_of(&text));
    let added = store
        .insert_into_store(&"b".to_string(), &"BBBBBBBBBBBBBBBB".to_string(), &text)
        .unwrap();
    assert_eq!(added, "\nb = BBBBBBBBBBBBBBBB\n");
    text.push_str(&added);
    let reopened = Store::new("s".to_string(), &lines_of(&text));
    assert_eq!(reopened.get(&"a".to_string()), Some("AAAAAAAAAAAAAAAA".to_string()));
    assert_eq!(reopened.get(&"b".to_string()), Some("BBBBBBBBBBBBBBBB".to_string()));
}

#[test]
fn store_location_per_platform() {
    assert_eq!(store_location("linux"), Ok(("HOME", ".config")));
    assert_eq!(store_location("macos"), Ok(("HOME", ".config")));
    assert_eq!(store_location("windows"), Ok(("USERPROFILE", "AppData/Local")));
    assert_eq!(store_location("freebsd"), Err(OvaError::EnvironmentError));
}
