use pwsh_core::cmdlets::{
    ForEachObjectCmdlet, GroupObjectCmdlet, SelectObjectCmdlet, SortObjectCmdlet, WhereObjectCmdlet,
    WriteOutputCmdlet,
};
use pwsh_core::{Cmdlet, CmdletContext, Evaluator, Number, Property, RuntimeError, Value};

fn num(x: f64) -> Number {
    Number::from_bits(x.to_bits())
}

fn float(n: Number) -> f64 {
    f64::from_bits(n.to_bits())
}

/// Properties by name, built as a map is built.
#[derive(Clone, Default)]
struct HashMap(Vec<Property>);

impl HashMap {
    fn new() -> Self {
        HashMap(Vec::new())
    }

    fn insert(&mut self, name: String, value: Value) {
        self.0.push(Property { name, value });
    }

    fn from<const N: usize>(pairs: [(String, Value); N]) -> Vec<Property> {
        let mut map = HashMap::new();
        for (name, value) in pairs {
            map.insert(name, value);
        }
        map.0
    }
}

trait Properties {
    fn get(&self, name: &str) -> Option<&Value>;
    fn contains_key(&self, name: &str) -> bool;
}

impl Properties for Vec<Property> {
    fn get(&self, name: &str) -> Option<&Value> {
        self.iter().find(|p| p.name == name).map(|p| &p.value)
    }

    fn contains_key(&self, name: &str) -> bool {
        self.iter().any(|p| p.name == name)
    }
}

fn run<C: Cmdlet + 'static>(cmdlet: C, context: CmdletContext) -> Result<Vec<Value>, RuntimeError> {
    let boxed: Box<dyn Cmdlet> = Box::new(cmdlet);
    Evaluator::new().run_cmdlet(&boxed, &context)
}


#[test]
fn test_write_output_with_argument() {
    let cmdlet = WriteOutputCmdlet;
    let context = CmdletContext::new().with_arguments(vec![Value::Number(num(42.0))]);
    let result = run(cmdlet, context).unwrap();
    assert_eq!(result, vec![Value::Number(num(42.0))]);
}

#[test]
fn test_write_output_with_pipeline_input() {
    let cmdlet = WriteOutputCmdlet;
    let input = vec![Value::String("Hello".to_string())];
    let context = CmdletContext::with_input(input.clone());
    let result = run(cmdlet, context).unwrap();
    assert_eq!(result, input);
}

#[test]
fn test_write_output_multiple_values() {
    let cmdlet = WriteOutputCmdlet;
    let values = vec![Value::Number(num(1.0)), Value::Number(num(2.0)), Value::Number(num(3.0))];
    let context = CmdletContext::new().with_arguments(values.clone());
    let result = run(cmdlet, context).unwrap();
    assert_eq!(result, values);
}


#[test]
fn test_where_object_no_filter() {
    let cmdlet = WhereObjectCmdlet;
    let input = vec![Value::Number(num(1.0)), Value::Number(num(2.0)), Value::Number(num(3.0))];
    let context = CmdletContext::with_input(input.clone());
    let result = run(cmdlet, context).unwrap();
    assert_eq!(result, input);
}

#[test]
fn test_where_object_with_property_filter() {
    let cmdlet = WhereObjectCmdlet;

    // Create objects with properties
    let mut obj1 = HashMap::new();
    obj1.insert("Active".to_string(), Value::Boolean(true));
    obj1.insert("Name".to_string(), Value::String("Object1".to_string()));

    let mut obj2 = HashMap::new();
    obj2.insert("Active".to_string(), Value::Boolean(false));
    obj2.insert("Name".to_string(), Value::String("Object2".to_string()));

    let mut obj3 = HashMap::new();
    obj3.insert("Active".to_string(), Value::Boolean(true));
    obj3.insert("Name".to_string(), Value::String("Object3".to_string()));

    let input = vec![
        Value::Object(obj1.clone().0),
        Value::Object(obj2.0),
        Value::Object(obj3.clone().0),
    ];

    let context = CmdletContext::with_input(input)
        .with_parameter("Property".to_string(), Value::String("Active".to_string()));

    let result = run(cmdlet, context).unwrap();
    assert_eq!(result.len(), 2);
    assert_eq!(result[0], Value::Object(obj1.0));
    assert_eq!(result[1], Value::Object(obj3.0));
}


#[test]
fn test_select_object_first() {
    let cmdlet = SelectObjectCmdlet;
    let input = vec![
        Value::Number(num(1.0)),
        Value::Number(num(2.0)),
        Value::Number(num(3.0)),
        Value::Number(num(4.0)),
    ];
    let context = CmdletContext::with_input(input)
        .with_parameter("First".to_string(), Value::Number(num(2.0)));
    let result = run(cmdlet, context).unwrap();
    assert_eq!(result, vec![Value::Number(num(1.0)), Value::Number(num(2.0))]);
}

#[test]
fn test_select_object_property() {
    let cmdlet = SelectObjectCmdlet;

    let mut obj = HashMap::new();
    obj.insert("Name".to_string(), Value::String("Test".to_string()));
    obj.insert("Value".to_string(), Value::Number(num(42.0)));
    obj.insert("Extra".to_string(), Value::String("Ignore".to_string()));

    let input = vec![Value::Object(obj.0)];
    let context = CmdletContext::with_input(input)
        .with_parameter("Property".to_string(), Value::String("Name".to_string()));

    let result = run(cmdlet, context).unwrap();
    assert_eq!(result.len(), 1);

    if let Value::Object(props) = &result[0] {
        assert_eq!(props.len(), 1);
        assert_eq!(
            props.get("Name"),
            Some(&Value::String("Test".to_string()))
        );
    } else {
        panic!("Expected object result");
    }
}

#[test]
fn test_select_object_no_params() {
    let cmdlet = SelectObjectCmdlet;
    let input = vec![Value::Number(num(1.0)), Value::Number(num(2.0))];
    let context = CmdletContext::with_input(input.clone());
    let result = run(cmdlet, context).unwrap();
    assert_eq!(result, input);
}


#[test]
fn test_foreach_object_no_params() {
    let cmdlet = ForEachObjectCmdlet;
    let input = vec![Value::Number(num(1.0)), Value::Number(num(2.0)), Value::Number(num(3.0))];
    let context = CmdletContext::with_input(input.clone());
    let result = run(cmdlet, context).unwrap();
    assert_eq!(result, input);
}

#[test]
fn test_foreach_object_with_member_name() {
    let cmdlet = ForEachObjectCmdlet;

    let mut obj1 = HashMap::new();
    obj1.insert("Name".to_string(), Value::String("Object1".to_string()));
    obj1.insert("Value".to_string(), Value::Number(num(10.0)));

    let mut obj2 = HashMap::new();
    obj2.insert("Name".to_string(), Value::String("Object2".to_string()));
    obj2.insert("Value".to_string(), Value::Number(num(20.0)));

    let input = vec![Value::Object(obj1.0), Value::Object(obj2.0)];
    let context = CmdletContext::with_input(input)
        .with_parameter("MemberName".to_string(), Value::String("Name".to_string()));

    let result = run(cmdlet, context).unwrap();
    assert_eq!(result.len(), 2);
    assert_eq!(result[0], Value::String("Object1".to_string()));
    assert_eq!(result[1], Value::String("Object2".to_string()));
}


#[test]
fn test_sort_object_numbers_ascending() {
    let cmdlet = SortObjectCmdlet;
    let input = vec![Value::Number(num(3.0)), Value::Number(num(1.0)), Value::Number(num(2.0))];
    let context = CmdletContext::with_input(input);
    let result = run(cmdlet, context).unwrap();
    assert_eq!(result, vec![Value::Number(num(1.0)), Value::Number(num(2.0)), Value::Number(num(3.0))]);
}

#[test]
fn test_sort_object_strings_case_insensitive() {
    let cmdlet = SortObjectCmdlet;
    let input = vec![
        Value::String("b".to_string()),
        Value::String("A".to_string()),
        Value::String("c".to_string()),
    ];
    let context = CmdletContext::with_input(input);
    let result = run(cmdlet, context).unwrap();
    assert_eq!(
        result,
        vec![
            Value::String("A".to_string()),
            Value::String("b".to_string()),
            Value::String("c".to_string())
        ]
    );
}

#[test]
fn test_sort_object_by_property() {
    let cmdlet = SortObjectCmdlet;

    let mut o1 = HashMap::new();
    o1.insert("Name".to_string(), Value::String("b".to_string()));
    o1.insert("CPU".to_string(), Value::Number(num(2.0)));

    let mut o2 = HashMap::new();
    o2.insert("Name".to_string(), Value::String("a".to_string()));
    o2.insert("CPU".to_string(), Value::Number(num(1.0)));

    let context = CmdletContext::with_input(vec![Value::Object(o1.0), Value::Object(o2.0)])
        .with_parameter("Property".to_string(), Value::String("CPU".to_string()));

    let result = run(cmdlet, context).unwrap();

    if let Value::Object(props) = &result[0] {
        assert_eq!(props.get("Name"), Some(&Value::String("a".to_string())));
    } else {
        panic!("Expected object");
    }
}

#[test]
fn test_sort_object_descending() {
    let cmdlet = SortObjectCmdlet;
    let input = vec![Value::Number(num(1.0)), Value::Number(num(3.0)), Value::Number(num(2.0))];
    let context = CmdletContext::with_input(input)
        .with_parameter("Descending".to_string(), Value::Boolean(true));
    let result = run(cmdlet, context).unwrap();
    assert_eq!(result, vec![Value::Number(num(3.0)), Value::Number(num(2.0)), Value::Number(num(1.0))]);
}

#[test]
fn test_sort_object_multiple_properties() {
    let cmdlet = SortObjectCmdlet;

    let mut o1 = HashMap::new();
    o1.insert("Name".to_string(), Value::String("b".to_string()));
    o1.insert("CPU".to_string(), Value::Number(num(1.0)));

    let mut o2 = HashMap::new();
    o2.insert("Name".to_string(), Value::String("a".to_string()));
    o2.insert("CPU".to_string(), Value::Number(num(1.0)));

    let mut o3 = HashMap::new();
    o3.insert("Name".to_string(), Value::String("c".to_string()));
    o3.insert("CPU".to_string(), Value::Number(num(0.0)));

    let context = CmdletContext::with_input(vec![Value::Object(o1.0), Value::Object(o2.0), Value::Object(o3.0)])
        .with_parameter(
            "Property".to_string(),
            Value::Array(vec![Value::String("CPU".to_string()), Value::String("Name".to_string())]),
        );

    let result = run(cmdlet, context).unwrap();

    // Expect CPU=0 first, then CPU=1 sorted by Name (a then b)
    let names: Vec<String> = result
        .iter()
        .filter_map(|v| v.get_property("Name"))
        .map(|v| v.to_string())
        .collect();
    assert_eq!(names, vec!["c".to_string(), "a".to_string(), "b".to_string()]);
}


#[test]
fn test_group_object_numbers() {
    let cmdlet = GroupObjectCmdlet;
    let input = vec![
        Value::Number(num(1.0)),
        Value::Number(num(2.0)),
        Value::Number(num(2.0)),
        Value::Number(num(3.0)),
        Value::Number(num(3.0)),
        Value::Number(num(3.0)),
    ];
    let context = CmdletContext::with_input(input);
    let result = run(cmdlet, context).unwrap();

    assert_eq!(result.len(), 3);

    // Group keys should be "1", "2", "3" in sorted order.
    let names: Vec<String> = result
        .iter()
        .filter_map(|v| v.get_property("Name"))
        .map(|v| v.to_string())
        .collect();
    assert_eq!(names, vec!["1".to_string(), "2".to_string(), "3".to_string()]);

    let counts: Vec<f64> = result
        .iter()
        .filter_map(|v| v.get_property("Count"))
        .filter_map(|v| v.to_number())
        .map(float)
        .collect();
    assert_eq!(counts, vec![1.0, 2.0, 3.0]);
}

#[test]
fn test_group_object_no_element() {
    let cmdlet = GroupObjectCmdlet;
    let input = vec![Value::Number(num(1.0)), Value::Number(num(1.0))];
    let context = CmdletContext::with_input(input)
        .with_parameter("NoElement".to_string(), Value::Boolean(true));
    let result = run(cmdlet, context).unwrap();

    assert_eq!(result.len(), 1);
    assert!(result[0].get_property("Group").is_none());
    assert_eq!(result[0].get_property("Count"), Some(Value::Number(num(2.0))));
}

#[test]
fn test_group_object_as_hash_table() {
    let cmdlet = GroupObjectCmdlet;
    let input = vec![Value::Number(num(1.0)), Value::Number(num(2.0)), Value::Number(num(2.0))];
    let context = CmdletContext::with_input(input)
        .with_parameter("AsHashTable".to_string(), Value::Boolean(true));
    let result = run(cmdlet, context).unwrap();

    assert_eq!(result.len(), 1);
    let Value::Object(map) = &result[0] else {
        panic!("Expected object hashtable result");
    };

    assert!(map.contains_key("1"));
    assert!(map.contains_key("2"));

    let gi2 = map.get("2").unwrap();
    assert_eq!(gi2.get_property("Count"), Some(Value::Number(num(2.0))));
}

#[test]
fn test_group_object_by_property() {
    let cmdlet = GroupObjectCmdlet;

    let a = Value::Object(HashMap::from([
        (
            "Extension".to_string(),
            Value::String(".rs".to_string()),
        ),
        ("Name".to_string(), Value::String("a".to_string())),
    ]));
    let b = Value::Object(HashMap::from([
        (
            "Extension".to_string(),
            Value::String(".rs".to_string()),
        ),
        ("Name".to_string(), Value::String("b".to_string())),
    ]));
    let c = Value::Object(HashMap::from([
        (
            "Extension".to_string(),
            Value::String(".txt".to_string()),
        ),
        ("Name".to_string(), Value::String("c".to_string())),
    ]));

    let context = CmdletContext::with_input(vec![a, b, c])
        .with_parameter("Property".to_string(), Value::String("Extension".to_string()));

    let result = run(cmdlet, context).unwrap();
    assert_eq!(result.len(), 2);

    // Keys are sorted; expect ".rs" then ".txt".
    let names: Vec<String> = result
        .iter()
        .filter_map(|v| v.get_property("Name"))
        .map(|v| v.to_string())
        .collect();
    assert_eq!(names, vec![".rs".to_string(), ".txt".to_string()]);

    let counts: Vec<f64> = result
        .iter()
        .filter_map(|v| v.get_property("Count"))
        .filter_map(|v| v.to_number())
        .map(float)
        .collect();
    assert_eq!(counts, vec![2.0, 1.0]);
}

#[test]
fn test_group_object_multiple_properties() {
    let cmdlet = GroupObjectCmdlet;

    let x1 = Value::Object(HashMap::from([
        ("A".to_string(), Value::String("one".to_string())),
        ("B".to_string(), Value::String("two".to_string())),
    ]));
    let x2 = Value::Object(HashMap::from([
        ("A".to_string(), Value::String("one".to_string())),
        ("B".to_string(), Value::String("two".to_string())),
    ]));
    let y = Value::Object(HashMap::from([
        ("A".to_string(), Value::String("one".to_string())),
        ("B".to_string(), Value::String("three".to_string())),
    ]));

    let context = CmdletContext::with_input(vec![x1, x2, y]).with_parameter(
        "Property".to_string(),
        Value::Array(vec![Value::String("A".to_string()), Value::String("B".to_string())]),
    );

    let result = run(cmdlet, context).unwrap();
    assert_eq!(result.len(), 2);

    // Names are "one,three" and "one,two"; sorted lexicographically
    let names: Vec<String> = result
        .iter()
        .filter_map(|v| v.get_property("Name"))
        .map(|v| v.to_string())
        .collect();
    assert_eq!(names, vec!["one,three".to_string(), "one,two".to_string()]);
}
