use yarn_spool::{expand_substitutions, string_table, StringInfo};

fn row(id: &str, text: &str) -> StringInfo {
    StringInfo { id: id.to_string(), text: text.to_string() }
}

#[test]
fn string_table_holds_each_row_under_its_key() {
    let table = string_table(vec![row("line:1", "Hello"), row("line:2", "Bye, {0}")]);
    assert_eq!(table.len(), 2);
    assert_eq!(table.get(&"line:1".to_string()), Some(&row("line:1", "Hello")));
    assert_eq!(table.get(&"line:2".to_string()), Some(&row("line:2", "Bye, {0}")));
    assert_eq!(table.get(&"line:3".to_string()), None);
}

#[test]
fn empty_string_table_holds_nothing() {
    let table = string_table(Vec::new());
    assert_eq!(table.len(), 0);
    assert_eq!(table.get(&String::new()), None);
}

#[test]
fn later_row_with_the_same_key_counts() {
    let table = string_table(vec![row("a", "first"), row("b", "other"), row("a", "second")]);
    assert_eq!(table.len(), 2);
    assert_eq!(table.get(&"a".to_string()), Some(&row("a", "second")));
    assert_eq!(table.get(&"b".to_string()), Some(&row("b", "other")));
}

#[test]
fn looked_up_text_takes_substitutions() {
    let table = string_table(vec![row("greet", "Hello, {0}! You have {1} letters.")]);
    let text = &table.get(&"greet".to_string()).unwrap().text;
    let values = vec!["Ann".to_string(), "3".to_string()];
    assert_eq!(expand_substitutions(text, &values), "Hello, Ann! You have 3 letters.");
}

#[test]
fn string_info_clone_is_equal() {
    let first = row("id", "text");
    assert_eq!(first.clone(), first);
}
