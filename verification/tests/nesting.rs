use fusionner::document::{TomlTable, TomlValue};
use fusionner::error::ErrorKind;
use fusionner::merger::Note;
use fusionner::nesting::nests_within;
use fusionner::utils::{deserialize_toml, serialize_toml};

fn nested_arrays(n: usize) -> String {
    format!("a = {}{}", "[".repeat(n), "]".repeat(n))
}

fn nested_inline_tables(n: usize) -> String {
    format!("a = {}1{}", "{ b = ".repeat(n), " }".repeat(n))
}

fn dotted_header(n: usize) -> String {
    format!("[{}a]\nx = 1\n", "a.".repeat(n))
}

fn dotted_key(n: usize) -> String {
    format!("{}a = 1\n", "a.".repeat(n))
}

fn mixed(header: usize, key: usize, arrays: usize) -> String {
    format!(
        "[{}a]\n{}a = {}1{}\n",
        "a.".repeat(header),
        "b.".repeat(key),
        "[".repeat(arrays),
        "]".repeat(arrays)
    )
}

fn tower(n: usize) -> TomlValue {
    let mut v = TomlValue::Integer(1);
    for _ in 0..n {
        v = TomlValue::Array(vec![v]);
    }
    let mut t = TomlTable::new();
    t.insert("a".to_string(), v);
    TomlValue::Table(t)
}

fn chain(n: usize) -> TomlValue {
    let mut v = TomlValue::Integer(1);
    for _ in 0..n {
        let mut t = TomlTable::new();
        t.insert("a".to_string(), v);
        v = TomlValue::Table(t);
    }
    v
}

#[test]
fn nesting_counts_open_levels() {
    assert!(nests_within("", 0));
    assert!(nests_within("a = 1", 0));
    assert!(!nests_within("a = [1]", 0));
    assert!(nests_within("a = [1]", 1));
    assert!(nests_within("a = [[1], [2], [3]]\nb = [[4]]", 2));
    assert!(!nests_within("a = [[1], [2], [[3]]]", 2));
    assert!(nests_within("a = { b = { c = 1 }, d = { e = 2 } }", 2));
    // the dots of a key stand above its value
    assert!(!nests_within("a.b = 1", 0));
    assert!(nests_within("a.b = 1\nc.d = 2\ne.f = 3", 1));
    assert!(!nests_within("a.b.c = [1]", 2));
    assert!(nests_within("a.b.c = [1]", 3));
    assert!(nests_within("a = { b.c = 1, d.e = 2, f.g = [3] }", 3));
    // the dots of a header stand above what follows it, until the next header
    assert!(nests_within("[a.b.c]\nx = 1\n[d]\ny = [2]", 3));
    assert!(!nests_within("[a.b.c]\nx = [1]", 2));
    assert!(nests_within("[a.b.c]\nx = [1]", 3));
    assert!(!nests_within("[a.b.c]\nx = [[1]]", 3));
    assert!(!nests_within("[a.b.c]\nx.y = [1]", 3));
    assert!(nests_within("[[a.b]]\nx = 1\n[[a.b]]\nx = 2", 3));
    assert!(nests_within("[a.b.c]\n[d]\nx.y = [1]", 3));
    assert!(!nests_within("[[a.b.c]]\nx = [1]", 2));
    assert!(!nests_within("[[a.b.c]]\nx = [[1]]", 3));
    assert!(nests_within("[[a.b.c]]\nx = [[1]]", 4));
    assert!(!nests_within("[ a . b . c ] # x\nx.y.z = { u.v = [1] }", 6));
    assert!(nests_within("[ a . b . c ] # x\nx.y.z = { u.v = [1] }", 7));
}

#[test]
fn nesting_passes_over_strings_and_comments() {
    assert!(nests_within("a = \"[[[{{{...\" # [[[ {{{ ...\nb = '[[[...'", 0));
    assert!(nests_within("a = \"\"\"\n[[[\n\"\"\"\nb = '''\n{{{\n'''", 0));
    assert!(nests_within("a = \"x\\\"[[[\"", 0));
    assert!(nests_within("a = [\"]\", [']'], # ]\n 1]", 2));
    assert!(!nests_within("a = [\"]\", [']', [1]]]", 2));
    assert!(nests_within("[merges.\"refs/heads/v1.2.3\"]\nx = \"\"\ny = ['', \"\"]", 2));
    assert!(nests_within("a = \"\"\"x\"\"\"\"\"\nb = [1]", 1));
    assert!(nests_within("a = \"é[\"\nb = 'ü{'", 0));
}

#[test]
fn documents_are_read_up_to_the_nesting_limit() {
    assert!(deserialize_toml(&nested_arrays(256)).is_ok());
    assert!(deserialize_toml(&nested_inline_tables(256)).is_ok());
    assert!(deserialize_toml(&dotted_header(255)).is_ok());
    assert!(deserialize_toml(&dotted_key(256)).is_ok());
    // a header, a dotted key below it and arrays in its value add up
    assert!(deserialize_toml(&mixed(100, 100, 56)).is_ok());
    assert!(deserialize_toml(&mixed(254, 1, 1)).is_ok());
    assert!(deserialize_toml(&mixed(1, 254, 1)).is_ok());
    let text = format!(
        "[[{}a]]\n{}a = {}1{}\n",
        "a.".repeat(100),
        "b.".repeat(100),
        "{ c = ".repeat(56),
        " }".repeat(56)
    );
    assert!(deserialize_toml(&text).is_ok());
}

#[test]
fn documents_beyond_the_nesting_limit_are_refused() {
    assert!(deserialize_toml(&nested_arrays(257)).is_err());
    assert!(deserialize_toml(&nested_inline_tables(257)).is_err());
    assert!(deserialize_toml(&dotted_header(256)).is_err());
    assert!(deserialize_toml(&dotted_key(257)).is_err());
    assert!(deserialize_toml(&mixed(100, 100, 57)).is_err());
    assert!(deserialize_toml(&nested_arrays(100_000)).is_err());
    assert!(deserialize_toml(&nested_inline_tables(100_000)).is_err());
    assert!(deserialize_toml(&dotted_header(100_000)).is_err());
    assert!(deserialize_toml(&dotted_key(100_000)).is_err());
    assert!(deserialize_toml(&mixed(30_000, 30_000, 30_000)).is_err());
    assert_eq!(Err(ErrorKind::InvalidNote), Note::decode(&nested_arrays(100_000)));
}

#[test]
fn deep_documents_are_refused_whatever_their_strings_and_comments_hold() {
    // each level holds something that looks like the end of a level, and is none
    let decoys = [
        "\"]\", ",
        "\"a\\\"]\", ",
        "\"\\\\\", \"]\", ",
        "']', ",
        "'\"]', ",
        "\"\"\"]\"\"\", ",
        "\"\"\"\n]\"\" ]\"\"\", ",
        "\"\"\"\\\"\"\"]\"\"\", ",
        "\"\"\"]\"\"\"\"\", ",
        "'''']'''', ",
        "'''\n]'' ]''''', ",
        "# ]\n",
        "# \" ]\r\n",
        "# ' ]\n",
        "\"\", \"]\", ",
        "'', ']', ",
        "\"#\", \"]\", # ]\n",
        "\"\\u005d]\", ",
    ];
    for decoy in decoys.iter() {
        let flat = format!("a = [{}1]", decoy.repeat(2_000));
        assert!(deserialize_toml(&flat).is_ok(), "{}", decoy);
        let mut deep = String::from("a = ");
        for _ in 0..20_000 {
            deep.push('[');
            deep.push_str(decoy);
        }
        assert!(deserialize_toml(&deep).is_err(), "{}", decoy);
        let mut deep = String::from("a = ");
        for _ in 0..20_000 {
            deep.push_str("[ ");
            deep.push_str(decoy);
            deep.push_str("{ c.d = ");
        }
        assert!(deserialize_toml(&deep).is_err(), "{}", decoy);
    }
}

#[test]
fn deep_headers_are_refused_whatever_their_keys_hold() {
    for key in ["\"]\"", "'] # '", "\"\\\"]\"", "\"a.b\""].iter() {
        let flat = format!("[{}]\nx = 1\n", key).repeat(1);
        assert!(deserialize_toml(&flat).is_ok(), "{}", key);
        let deep = format!("[{}a]\nx = 1\n", format!("{}.", key).repeat(20_000));
        assert!(deserialize_toml(&deep).is_err(), "{}", key);
        let deep = format!("{}a = 1\n", format!("{} . ", key).repeat(20_000));
        assert!(deserialize_toml(&deep).is_err(), "{}", key);
    }
}

#[test]
fn flat_documents_of_any_size_are_read() {
    let mut text = String::from("origin = \"a.b.c [x] {y}\" # [[[ {{{ ...\n");
    for i in 0..3_000 {
        text.push_str(&format!(
            "[merges.\"refs/heads/v1.2.{}\"]\nkey.part = [\"a.b\", '[c]', 1.5, {{ d.e = [2.5] }}]\n",
            i
        ));
        text.push_str("long = \"\"\"\n[[[ ... {{{\n\"\"\"\n");
        text.push_str("list = [\n  [1.5, 2.5], # [[[\n  [3.5],\n]\n");
    }
    let tree = deserialize_toml(&text).unwrap();
    let merges = tree.as_table().unwrap().get("merges").unwrap().as_table().unwrap();
    assert_eq!(3_000, merges.len());
    let floats = format!("a = [{}1.5]", "1.5, ".repeat(5_000));
    assert!(deserialize_toml(&floats).is_ok());
    let strings = format!("a = \"{}\"", "[{.".repeat(5_000));
    assert!(deserialize_toml(&strings).is_ok());
    let tables = "[[t]]\na.b = 1\n".repeat(5_000);
    assert!(deserialize_toml(&tables).is_ok());
}

#[test]
fn trees_are_written_up_to_the_nesting_limit() {
    assert!(tower(254).fits(256));
    assert!(!tower(255).fits(256));
    assert!(serialize_toml(&tower(254)).is_ok());
    assert!(serialize_toml(&tower(255)).is_err());
    assert!(serialize_toml(&tower(5_000)).is_err());
    assert!(serialize_toml(&chain(255)).is_ok());
    assert!(serialize_toml(&chain(256)).is_err());
    assert!(TomlValue::Integer(1).fits(1));
    assert!(!TomlValue::Integer(1).fits(0));
}

#[test]
fn trees_that_are_written_are_read_back() {
    for tree in [tower(254), chain(255), tower(3), chain(1)].iter() {
        let text = serialize_toml(tree).unwrap();
        let back = deserialize_toml(&text).unwrap();
        assert_eq!(text, serialize_toml(&back).unwrap());
    }
    // every level holds a value and a table
    let mut v = TomlValue::Integer(1);
    for _ in 0..254 {
        let mut t = TomlTable::new();
        t.insert("x".to_string(), TomlValue::Float("1.5".to_string()));
        t.insert("a.b".to_string(), v);
        v = TomlValue::Table(t);
    }
    let text = serialize_toml(&v).unwrap();
    let back = deserialize_toml(&text).unwrap();
    assert_eq!(text, serialize_toml(&back).unwrap());
    // tables in arrays in tables
    let mut v = TomlValue::Integer(1);
    for _ in 0..126 {
        let mut t = TomlTable::new();
        t.insert("x".to_string(), TomlValue::Array(vec![TomlValue::Float("2.5".to_string())]));
        t.insert("a".to_string(), v);
        v = TomlValue::Array(vec![TomlValue::Table(t)]);
    }
    let mut root = TomlTable::new();
    root.insert("r".to_string(), v);
    let root = TomlValue::Table(root);
    assert!(root.fits(256));
    let text = serialize_toml(&root).unwrap();
    let back = deserialize_toml(&text).unwrap();
    assert_eq!(text, serialize_toml(&back).unwrap());
}

#[test]
fn deep_documents_are_refused_whatever_their_lines_hold() {
    let shapes = [
        "[\n",
        "[ # [a]\n",
        "\n[",
        "[\r\n",
        "{ a = [\n",
        "[ \"=\", \n",
        "[ [], {}, \n",
        "{ \"a]\" = [ ], b = ",
        "{ 'a}' . b = ",
    ];
    for shape in shapes.iter() {
        let deep = format!("x = {}", shape.repeat(20_000));
        assert!(deserialize_toml(&deep).is_err(), "{}", shape);
        let deep = format!("[h]\ny = 1\n[[k.l]]\nx = {}", shape.repeat(20_000));
        assert!(deserialize_toml(&deep).is_err(), "{}", shape);
    }
    for text in ["[".repeat(20_000), "[[a]]\n[".repeat(20_000), "a = 1\n[b\n".repeat(20_000)].iter() {
        assert!(deserialize_toml(text).is_err());
    }
}
