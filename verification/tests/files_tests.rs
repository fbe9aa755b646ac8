use pwsh_core::cmdlets::files::{
    build_file_object, build_item_object, build_mode_string, normalize_value_to_lines, parse_count,
    parse_count_param, parse_encoding, parse_item_type, parse_optional_depth, select_lines, should_descend,
    split_lines, values_to_file_string, ItemKind, Making, ReadPlan, Removal, TextEncoding,
};
use pwsh_core::cmdlets::patterns::{
    matches_any_pattern, parse_string_patterns, should_output_name, wildcard_match_case_insensitive,
};
use pwsh_core::cmdlets::{
    GetChildItemCmdlet, GetContentCmdlet, NewItemCmdlet, RemoveItemCmdlet, SetContentCmdlet, TestPathCmdlet,
};
use pwsh_core::{CmdletContext, Number, Property, RuntimeError, Value};

fn num(x: f64) -> Number {
    Number::from_bits(x.to_bits())
}

fn text(s: &str) -> Value {
    Value::String(s.to_string())
}

fn texts(items: &[&str]) -> Vec<Value> {
    items.iter().map(|s| text(s)).collect()
}

fn strings(items: &[&str]) -> Vec<String> {
    items.iter().map(|s| s.to_string()).collect()
}

/// What `Get-Content` gives for a context, where `file` holds the bytes of the file
/// that the context names, if there is such a file.
fn get_content(context: CmdletContext, file: Option<&[u8]>) -> Result<Vec<Value>, RuntimeError> {
    let plan = GetContentCmdlet::plan(&context)?;
    match file {
        None => Err(RuntimeError::InvalidOperation(format!("Failed to open file '{}': not found", plan.path))),
        Some(bytes) => GetContentCmdlet::output(&bytes.to_vec(), &plan),
    }
}

/// What `Set-Content` writes for a context.
fn set_content(context: CmdletContext) -> Result<String, RuntimeError> {
    SetContentCmdlet::plan(&context).map(|(_, data)| data)
}

const FILE: &str = "/tmp/lines.txt";

// ---- Get-Content ----

#[test]
fn test_get_content_reads_text_file() {
    let context = CmdletContext::new().with_arguments(vec![text(FILE)]);
    let result = get_content(context, Some(b"one\ntwo\nthree\n")).unwrap();
    assert_eq!(result, texts(&["one", "two", "three"]));
}

#[test]
fn test_get_content_reads_empty_file() {
    let context = CmdletContext::new().with_parameter("Path".to_string(), text(FILE));
    let result = get_content(context, Some(b"")).unwrap();
    assert_eq!(result, vec![]);
}

#[test]
fn test_get_content_nonexistent_file_errors() {
    let context = CmdletContext::new().with_parameter("Path".to_string(), text("/tmp/does_not_exist.txt"));
    let result = get_content(context, None);
    assert!(result.is_err());
    let msg = result.err().unwrap().to_string();
    assert!(msg.contains("Failed to open file") || msg.contains("Failed to read file"));
}

#[test]
fn test_get_content_reads_utf16le_with_bom() {
    let s = "one\ntwo\n";
    let mut bytes: Vec<u8> = vec![0xFF, 0xFE]; // UTF-16LE BOM
    for u in s.encode_utf16() {
        bytes.push((u & 0x00FF) as u8);
        bytes.push((u >> 8) as u8);
    }
    let context = CmdletContext::new()
        .with_parameter("Encoding".to_string(), text("Unicode"))
        .with_arguments(vec![text(FILE)]);
    let result = get_content(context, Some(&bytes)).unwrap();
    assert_eq!(result, texts(&["one", "two"]));
}

#[test]
fn test_get_content_invalid_encoding_errors() {
    let context = CmdletContext::new()
        .with_parameter("Encoding".to_string(), text("utf32"))
        .with_parameter("Path".to_string(), text(FILE));
    let result = get_content(context, Some(b"hello\n"));
    assert!(result.is_err());
    let msg = result.err().unwrap().to_string();
    assert!(msg.to_ascii_lowercase().contains("unsupported encoding"));
}

#[test]
fn test_get_content_total_count() {
    let context = CmdletContext::new()
        .with_parameter("Path".to_string(), text(FILE))
        .with_parameter("TotalCount".to_string(), Value::Number(num(2.0)));
    let result = get_content(context, Some(b"one\ntwo\nthree\nfour\nfive\n")).unwrap();
    assert_eq!(result, texts(&["one", "two"]));
}

#[test]
fn test_get_content_tail() {
    let context = CmdletContext::new()
        .with_parameter("Path".to_string(), text(FILE))
        .with_parameter("Tail".to_string(), Value::Number(num(2.0)));
    let result = get_content(context, Some(b"one\ntwo\nthree\nfour\nfive\n")).unwrap();
    assert_eq!(result, texts(&["four", "five"]));
}

#[test]
fn test_get_content_total_count_and_tail_error() {
    let context = CmdletContext::new()
        .with_parameter("Path".to_string(), text(FILE))
        .with_parameter("TotalCount".to_string(), Value::Number(num(1.0)))
        .with_parameter("Tail".to_string(), Value::Number(num(1.0)));
    let result = get_content(context, Some(b"one\ntwo\nthree\n"));
    assert!(result.is_err());
    let msg = result.err().unwrap().to_string().to_ascii_lowercase();
    assert!(msg.contains("totalcount") && msg.contains("tail"));
}

#[test]
fn test_get_content_negative_total_count_errors() {
    let context = CmdletContext::new()
        .with_parameter("Path".to_string(), text(FILE))
        .with_parameter("TotalCount".to_string(), Value::Number(num(-1.0)));
    let result = get_content(context, Some(b"one\ntwo\n"));
    assert!(result.is_err());
    let msg = result.err().unwrap().to_string().to_ascii_lowercase();
    assert!(msg.contains("totalcount") && msg.contains("non-negative"));
}

#[test]
fn test_get_content_fractional_tail_errors() {
    let context = CmdletContext::new()
        .with_parameter("Path".to_string(), text(FILE))
        .with_parameter("Tail".to_string(), Value::Number(num(1.5)));
    let result = get_content(context, Some(b"one\ntwo\n"));
    assert!(result.is_err());
    let msg = result.err().unwrap().to_string().to_ascii_lowercase();
    assert!(msg.contains("tail") && msg.contains("non-negative"));
}

#[test]
fn get_content_needs_a_path() {
    let result = get_content(CmdletContext::new(), Some(b"x"));
    assert_eq!(result, Err(RuntimeError::InvalidOperation("Get-Content requires a file path".to_string())));
    let context = CmdletContext::new().with_arguments(vec![Value::Number(num(1.0))]);
    assert!(get_content(context, Some(b"x")).is_err());
}

#[test]
fn get_content_counts() {
    let zero = CmdletContext::new()
        .with_parameter("path".to_string(), text(FILE))
        .with_parameter("totalcount".to_string(), text(" 0 "));
    assert_eq!(get_content(zero, Some(&[0xff, 0xff, 0xff])), Ok(vec![]));
    let many = CmdletContext::new()
        .with_parameter("Path".to_string(), text(FILE))
        .with_parameter("Tail".to_string(), Value::Number(num(1e6)));
    assert_eq!(get_content(many, Some(b"a\r\nb")), Ok(texts(&["a", "b"])));
    let context = CmdletContext::new().with_parameter("Tail".to_string(), Value::Boolean(true));
    assert_eq!(
        parse_count_param(&context, "Tail"),
        Err(RuntimeError::InvalidOperation("Tail must be a non-negative integer, got: true".to_string()))
    );
    let context = CmdletContext::new().with_parameter("Tail".to_string(), Value::Number(num(1e30)));
    assert_eq!(
        parse_count_param(&context, "Tail"),
        Err(RuntimeError::InvalidOperation("Tail is too large: 1000000000000000019884624838656".to_string()))
    );
    let context = CmdletContext::new().with_parameter("Tail".to_string(), text("7"));
    assert_eq!(parse_count_param(&context, "tail"), Ok(Some(7)));
    assert_eq!(parse_count_param(&context, "Head"), Ok(None));
}

fn decode_bytes(bytes: &Vec<u8>, encoding: Option<TextEncoding>) -> Option<String> {
    let plan = ReadPlan { path: "f".to_string(), encoding, total_count: None, tail: None };
    match GetContentCmdlet::output(bytes, &plan) {
        Ok(lines) => Some(lines.iter().map(|v| v.to_string()).collect::<Vec<String>>().join("\n")),
        Err(e) => {
            assert_eq!(e, RuntimeError::InvalidOperation("Failed to read file 'f': the data is no text".to_string()));
            None
        }
    }
}

#[test]
fn bytes_are_decoded() {
    assert_eq!(decode_bytes(&b"plain".to_vec(), None), Some("plain".to_string()));
    assert_eq!(decode_bytes(&vec![0xEF, 0xBB, 0xBF, b'a'], None), Some("a".to_string()));
    assert_eq!(decode_bytes(&vec![0xFE, 0xFF, 0x00, b'a'], None), Some("a".to_string()));
    assert_eq!(decode_bytes(&vec![b'a', 0x00, b'b', 0x00], Some(TextEncoding::Utf16Le)), Some("ab".to_string()));
    assert_eq!(decode_bytes(&vec![0x00, b'a', 0x00, b'b'], Some(TextEncoding::Utf16Be)), Some("ab".to_string()));
    assert_eq!(decode_bytes(&vec![b'a', 0xE9], Some(TextEncoding::Ascii)), Some("a\u{e9}".to_string()));
    assert_eq!(decode_bytes(&vec![b'a', 0xFF], Some(TextEncoding::Utf8)), Some("a\u{fffd}".to_string()));
    assert_eq!(decode_bytes(&vec![b'a', 0xFF], None), None);
}

#[test]
fn encodings_by_name() {
    assert_eq!(parse_encoding(None), Ok(None));
    assert_eq!(parse_encoding(Some(&text(" UTF-8 "))), Ok(Some(TextEncoding::Utf8)));
    assert_eq!(parse_encoding(Some(&text("utf8bom"))), Ok(Some(TextEncoding::Utf8)));
    assert_eq!(parse_encoding(Some(&text("ASCII"))), Ok(Some(TextEncoding::Ascii)));
    assert_eq!(parse_encoding(Some(&text("utf16"))), Ok(Some(TextEncoding::Utf16Le)));
    assert_eq!(parse_encoding(Some(&text("BigEndianUnicode"))), Ok(Some(TextEncoding::Utf16Be)));
    assert_eq!(parse_encoding(Some(&text(""))), Ok(None));
    assert_eq!(
        parse_encoding(Some(&text("Latin1"))),
        Err(RuntimeError::InvalidOperation("Unsupported encoding: latin1".to_string()))
    );
    assert_eq!(
        parse_encoding(Some(&text("utf-32le"))),
        Err(RuntimeError::InvalidOperation("Unsupported encoding: UTF-32".to_string()))
    );
    assert_eq!(
        parse_encoding(Some(&Value::Number(num(8.0)))),
        Err(RuntimeError::InvalidOperation("Encoding must be a string, got: 8".to_string()))
    );
}

#[test]
fn lines_of_texts() {
    assert_eq!(split_lines(""), strings(&[]));
    assert_eq!(split_lines("a"), strings(&["a"]));
    assert_eq!(split_lines("a\n"), strings(&["a"]));
    assert_eq!(split_lines("a\n\nb\r\n"), strings(&["a", "", "b"]));
    assert_eq!(split_lines("\n"), strings(&[""]));
    assert_eq!(split_lines("a\rb\r"), strings(&["a\rb"]));
    let lines = strings(&["1", "2", "3"]);
    assert_eq!(select_lines(&lines, None, None), Ok(texts(&["1", "2", "3"])));
    assert_eq!(select_lines(&lines, Some(1), None), Ok(texts(&["1"])));
    assert_eq!(select_lines(&lines, Some(9), None), Ok(texts(&["1", "2", "3"])));
    assert_eq!(select_lines(&lines, None, Some(1)), Ok(texts(&["3"])));
    assert_eq!(select_lines(&lines, None, Some(3)), Ok(texts(&["1", "2", "3"])));
    assert_eq!(select_lines(&lines, Some(0), None), Ok(vec![]));
    assert!(select_lines(&lines, Some(1), Some(1)).is_err());
}

// ---- Set-Content ----

#[test]
fn test_set_content_writes_string_to_file() {
    let context = CmdletContext::new().with_arguments(vec![text("/tmp/out.txt"), text("Hello")]);
    assert_eq!(set_content(context), Ok("Hello\n".to_string()));
}

#[test]
fn test_set_content_writes_array_to_file() {
    let context = CmdletContext::new()
        .with_parameter("Path".to_string(), text("/tmp/out.txt"))
        .with_parameter("Value".to_string(), Value::Array(texts(&["Line 1", "Line 2", "Line 3"])));
    assert_eq!(
        SetContentCmdlet::plan(&context),
        Ok(("/tmp/out.txt".to_string(), "Line 1\nLine 2\nLine 3\n".to_string()))
    );
}

#[test]
fn test_set_content_overwrites_existing_file() {
    let context = CmdletContext::new().with_arguments(vec![text("/tmp/out.txt"), text("New")]);
    assert_eq!(set_content(context), Ok("New\n".to_string()));
}

#[test]
fn test_set_content_pipeline_input_writes_lines() {
    let context = CmdletContext::with_input(texts(&["a", "b"])).with_arguments(vec![text("/tmp/out.txt")]);
    assert_eq!(set_content(context), Ok("a\nb\n".to_string()));
}

#[test]
fn test_set_content_missing_path_errors() {
    let context = CmdletContext::new().with_parameter("Value".to_string(), text("Hello"));
    let result = set_content(context);
    assert!(result.is_err());
    assert_eq!(result, Err(RuntimeError::InvalidOperation("Set-Content requires a file path".to_string())));
}

#[test]
fn test_set_content_missing_value_errors() {
    let context = CmdletContext::new()
        .with_parameter("Path".to_string(), text("/tmp/out.txt"))
        .with_arguments(vec![text("/tmp/out.txt")]);
    let result = set_content(context);
    assert!(result.is_err());
    assert_eq!(
        result,
        Err(RuntimeError::InvalidOperation(
            "Set-Content requires a value to write (use -Value or pipeline input)".to_string()
        ))
    );
}

#[test]
fn values_as_file_text() {
    assert_eq!(values_to_file_string(&vec![]), "");
    assert_eq!(values_to_file_string(&vec![Value::Array(vec![])]), "");
    assert_eq!(
        values_to_file_string(&vec![Value::Number(num(1.0)), Value::Array(texts(&["a", "b"])), Value::Null]),
        "1\na\nb\n\n"
    );
    assert_eq!(normalize_value_to_lines(&Value::Boolean(true)), strings(&["true"]));
    assert_eq!(
        normalize_value_to_lines(&Value::Array(vec![Value::Array(texts(&["x"])), text("y")])),
        strings(&["@(x)", "y"])
    );
}

// ---- New-Item, Remove-Item, Test-Path ----

#[test]
fn test_new_item_creates_directory() {
    let context = CmdletContext::new()
        .with_parameter("Path".to_string(), text("/tmp/sub"))
        .with_parameter("Type".to_string(), text("Directory"));
    let (path, kind, force) = NewItemCmdlet::plan(&context).unwrap();
    assert_eq!((path.as_str(), kind, force), ("/tmp/sub", ItemKind::Directory, false));
    assert_eq!(NewItemCmdlet::decide(kind, &path, "/tmp", false, false, force), Ok(Making::CreateDirectories));
    let item = NewItemCmdlet::output(path, "sub".to_string(), kind);
    assert_eq!(item.get_property("Directory"), Some(Value::Boolean(true)));
    assert_eq!(item.get_property("ItemType"), Some(text("Directory")));
}

#[test]
fn test_new_item_creates_file() {
    let context = CmdletContext::new().with_arguments(vec![text("/tmp/a.txt"), text("File")]);
    let (path, kind, force) = NewItemCmdlet::plan(&context).unwrap();
    assert_eq!((path.as_str(), kind, force), ("/tmp/a.txt", ItemKind::File, false));
    assert_eq!(NewItemCmdlet::decide(kind, &path, "/tmp", false, false, force), Ok(Making::CreateFile));
    assert_eq!(
        NewItemCmdlet::output(path, "a.txt".to_string(), kind),
        Value::Object(vec![
            Property { name: "FullName".to_string(), value: text("/tmp/a.txt") },
            Property { name: "Name".to_string(), value: text("a.txt") },
            Property { name: "ItemType".to_string(), value: text("File") },
            Property { name: "Directory".to_string(), value: Value::Boolean(false) },
        ])
    );
}

#[test]
fn new_item_decisions() {
    let exists = RuntimeError::InvalidOperation("Path already exists: /p".to_string());
    assert_eq!(NewItemCmdlet::decide(ItemKind::Directory, "/p", "/", true, false, false), Err(exists.clone()));
    assert_eq!(NewItemCmdlet::decide(ItemKind::Directory, "/p", "/", true, false, true), Ok(Making::KeepDirectory));
    assert_eq!(NewItemCmdlet::decide(ItemKind::File, "/p", "/", true, false, false), Err(exists));
    assert_eq!(NewItemCmdlet::decide(ItemKind::File, "/p", "/", true, false, true), Ok(Making::CreateFile));
    assert_eq!(
        NewItemCmdlet::decide(ItemKind::File, "/q/p", "/q", false, true, true),
        Err(RuntimeError::InvalidOperation("Parent directory does not exist: /q".to_string()))
    );
    for (word, kind) in [(" DIR ", ItemKind::Directory), ("Folder", ItemKind::Directory), ("file", ItemKind::File)] {
        let context = CmdletContext::new().with_parameter("ItemType".to_string(), text(word));
        assert_eq!(parse_item_type(&context), Ok(kind));
    }
    let context = CmdletContext::new().with_parameter("Type".to_string(), text("Link"));
    assert_eq!(
        parse_item_type(&context),
        Err(RuntimeError::InvalidOperation("Unsupported -Type for New-Item: link".to_string()))
    );
    assert_eq!(
        parse_item_type(&CmdletContext::new()),
        Err(RuntimeError::InvalidOperation("New-Item requires -Type (File or Directory)".to_string()))
    );
    assert_eq!(
        NewItemCmdlet::plan(&CmdletContext::new()),
        Err(RuntimeError::InvalidOperation("New-Item requires a path".to_string()))
    );
    let forced = CmdletContext::new()
        .with_arguments(vec![text("p"), text("file")])
        .with_parameter("force".to_string(), Value::Boolean(true));
    assert_eq!(NewItemCmdlet::plan(&forced), Ok(("p".to_string(), ItemKind::File, true)));
    assert_eq!(
        build_item_object("f".to_string(), "n".to_string(), "File", false).get_property("fullname"),
        Some(text("f"))
    );
}

#[test]
fn test_remove_item_deletes_file() {
    let context = CmdletContext::new().with_arguments(vec![text("/tmp/a.txt")]);
    assert_eq!(RemoveItemCmdlet::plan(&context), Ok(("/tmp/a.txt".to_string(), false)));
    assert_eq!(RemoveItemCmdlet::decide(false, false), Removal::File);
    assert_eq!(RemoveItemCmdlet::decide(false, true), Removal::File);
}

#[test]
fn test_remove_item_deletes_directory_recurse() {
    let context = CmdletContext::new()
        .with_parameter("Path".to_string(), text("/tmp/dir"))
        .with_parameter("Recurse".to_string(), Value::Boolean(true));
    assert_eq!(RemoveItemCmdlet::plan(&context), Ok(("/tmp/dir".to_string(), true)));
    assert_eq!(RemoveItemCmdlet::decide(true, true), Removal::DirectoryTree);
    assert_eq!(RemoveItemCmdlet::decide(true, false), Removal::Directory);
    assert_eq!(
        RemoveItemCmdlet::plan(&CmdletContext::new()),
        Err(RuntimeError::InvalidOperation("Remove-Item requires a path".to_string()))
    );
}

#[test]
fn test_test_path_true_for_existing_file() {
    let context = CmdletContext::new().with_arguments(vec![text("/tmp/exists.txt")]);
    assert_eq!(TestPathCmdlet::plan(&context), Ok("/tmp/exists.txt".to_string()));
    assert_eq!(TestPathCmdlet::output(true), vec![Value::Boolean(true)]);
}

#[test]
fn test_test_path_false_for_missing_file() {
    let context = CmdletContext::new().with_arguments(vec![text("/tmp/missing.txt")]);
    assert_eq!(TestPathCmdlet::plan(&context), Ok("/tmp/missing.txt".to_string()));
    assert_eq!(TestPathCmdlet::output(false), vec![Value::Boolean(false)]);
    assert_eq!(
        TestPathCmdlet::plan(&CmdletContext::new()),
        Err(RuntimeError::InvalidOperation("Test-Path requires a path".to_string()))
    );
}

// ---- Get-ChildItem ----

#[test]
fn wildcards() {
    for (pattern, name, expected) in [
        ("*", "", true),
        ("*", "anything.txt", true),
        ("", "", true),
        ("", "a", false),
        ("*.rs", "main.rs", true),
        ("*.rs", "main.rst", false),
        ("*.RS", "main.rs", true),
        ("m?in.*", "Main.rs", true),
        ("m?in.*", "mn.rs", false),
        ("a*b*c", "aXXbYYc", true),
        ("a*b*c", "abc", true),
        ("a*b*c", "acb", false),
        ("*a", "banana", true),
        ("*a*a*a*", "banana", true),
        ("*a*a*a*a*", "banana", false),
        ("???", "abc", true),
        ("???", "ab", false),
        ("file[1]", "file[1]", true),
        ("é?", "éx", true),
        ("É", "é", false),
        ("**", "x", true),
        ("a**", "a", true),
    ] {
        assert_eq!(wildcard_match_case_insensitive(pattern, name), expected, "{} {}", pattern, name);
    }
}

#[test]
fn names_against_pattern_lists() {
    let patterns = strings(&["*.txt", "readme*"]);
    assert!(matches_any_pattern("notes.TXT", &patterns));
    assert!(matches_any_pattern("README.md", &patterns));
    assert!(!matches_any_pattern("main.rs", &patterns));
    assert!(!matches_any_pattern("main.rs", &vec![]));
    let none: Vec<String> = vec![];
    assert!(should_output_name("a.rs", &none, &none, &none));
    assert!(should_output_name("a.rs", &strings(&["*.rs"]), &strings(&["a*"]), &strings(&["b*"])));
    assert!(!should_output_name("a.rs", &strings(&["*.txt"]), &none, &none));
    assert!(!should_output_name("a.rs", &none, &strings(&["b*"]), &none));
    assert!(!should_output_name("a.rs", &none, &none, &strings(&["*.rs"])));
}

#[test]
fn pattern_lists_of_values() {
    assert_eq!(parse_string_patterns(None), strings(&[]));
    assert_eq!(parse_string_patterns(Some(&text("*.rs, *.txt ,, "))), strings(&["*.rs", "*.txt"]));
    assert_eq!(parse_string_patterns(Some(&text(""))), strings(&[]));
    assert_eq!(
        parse_string_patterns(Some(&Value::Array(vec![text("a,b"), Value::Number(num(1.0)), text(" c ")]))),
        strings(&["a", "b", "c"])
    );
    assert_eq!(parse_string_patterns(Some(&Value::Number(num(5.0)))), strings(&["5"]));
}

#[test]
fn depths() {
    assert_eq!(parse_optional_depth(None), Ok(None));
    assert_eq!(parse_optional_depth(Some(&Value::Number(num(2.0)))), Ok(Some(2)));
    assert_eq!(parse_optional_depth(Some(&Value::Number(num(2.9)))), Ok(Some(2)));
    assert_eq!(parse_optional_depth(Some(&Value::Number(num(0.0)))), Ok(Some(0)));
    assert_eq!(parse_optional_depth(Some(&Value::Number(num(1e30)))), Ok(Some(usize::MAX)));
    assert_eq!(
        parse_optional_depth(Some(&Value::Number(num(-1.0)))),
        Err(RuntimeError::InvalidOperation("Depth must be a non-negative number".to_string()))
    );
    assert_eq!(parse_optional_depth(Some(&text(" 3 "))), Ok(Some(3)));
    assert_eq!(parse_optional_depth(Some(&text("+3"))), Ok(Some(3)));
    assert_eq!(
        parse_optional_depth(Some(&text("three"))),
        Err(RuntimeError::InvalidOperation("Depth must be an integer, got: three".to_string()))
    );
    assert_eq!(
        parse_optional_depth(Some(&Value::Boolean(true))),
        Err(RuntimeError::InvalidOperation("Depth must be a number, got: true".to_string()))
    );
    assert_eq!(parse_count("18446744073709551615"), Some(usize::MAX));
    assert_eq!(parse_count("18446744073709551616"), None);
    assert_eq!(parse_count("007"), Some(7));
    assert_eq!(parse_count(""), None);
    assert_eq!(parse_count("+"), None);
    assert_eq!(parse_count("-1"), None);
    assert_eq!(parse_count("1 "), None);
}

#[test]
fn test_get_childitem_filter_include_exclude() {
    let context = CmdletContext::new()
        .with_arguments(vec![text("/tmp")])
        .with_parameter("Filter".to_string(), text("*.rs"))
        .with_parameter("Exclude".to_string(), text("b*"));
    let plan = GetChildItemCmdlet::plan(&context).unwrap();
    assert_eq!(plan.path, Some("/tmp".to_string()));
    let listed: Vec<&str> =
        ["a.rs", "b.rs", "c.txt", "d.RS"].into_iter().filter(|n| GetChildItemCmdlet::lists(&plan, n)).collect();
    assert_eq!(listed, vec!["a.rs", "d.RS"]);
}

#[test]
fn test_get_childitem_recurse_depth_limits_traversal() {
    let context = CmdletContext::new()
        .with_parameter("Recurse".to_string(), Value::Boolean(true))
        .with_parameter("Depth".to_string(), Value::Number(num(1.0)));
    let plan = GetChildItemCmdlet::plan(&context).unwrap();
    assert_eq!(plan.path, None);
    assert!(GetChildItemCmdlet::enters(&plan, 0, false, true));
    assert!(!GetChildItemCmdlet::enters(&plan, 1, false, true));
    assert!(!GetChildItemCmdlet::enters(&plan, 0, false, false));
    let flat = GetChildItemCmdlet::plan(&CmdletContext::new()).unwrap();
    assert!(!GetChildItemCmdlet::enters(&flat, 0, false, true));
    let bad = CmdletContext::new().with_parameter("Recurse".to_string(), text("perhaps"));
    assert!(GetChildItemCmdlet::plan(&bad).is_err());
    let bad = CmdletContext::new().with_parameter("Depth".to_string(), text("deep"));
    assert!(GetChildItemCmdlet::plan(&bad).is_err());
}

#[test]
fn test_get_childitem_recurse_does_not_follow_symlink_dirs() {
    assert!(should_descend(true, None, 10, false, true));
    assert!(!should_descend(true, None, 0, true, true));
    assert!(!should_descend(false, None, 0, false, true));
    assert!(should_descend(true, Some(3), 2, false, true));
    assert!(!should_descend(true, Some(3), 3, false, true));
}

#[test]
fn test_get_childitem_mode_string_format() {
    assert_eq!(build_mode_string(true, 0o755), "drwxr-xr-x");
    assert_eq!(build_mode_string(false, 0o644), "-rw-r--r--");
    assert_eq!(build_mode_string(false, 0), "----------");
    assert_eq!(build_mode_string(true, 0o100777), "drwxrwxrwx");
    assert_eq!(build_mode_string(false, 0o421), "-r---w---x");
}

#[test]
fn test_get_childitem_rich_properties_present() {
    let item = build_file_object("a.txt".to_string(), num(12.0), num(1.5e9), "-rw-r--r--".to_string(), false);
    assert_eq!(
        item,
        Value::Object(vec![
            Property { name: "Name".to_string(), value: text("a.txt") },
            Property { name: "Length".to_string(), value: Value::Number(num(12.0)) },
            Property { name: "LastWriteTime".to_string(), value: Value::Number(num(1.5e9)) },
            Property { name: "Mode".to_string(), value: text("-rw-r--r--") },
            Property { name: "Directory".to_string(), value: Value::Boolean(false) },
        ])
    );
}
