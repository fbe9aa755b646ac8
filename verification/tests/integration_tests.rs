use pwsh_core::cmdlets::GetProcessCmdlet;
use pwsh_core::{
    register_all, Cmdlet, CmdletContext, CmdletRegistry, Evaluator, Lexer, Number, Parser, Property, RuntimeError,
    Value,
};

fn num(x: f64) -> Number {
    Number::from_bits(x.to_bits())
}

trait Properties {
    fn get(&self, name: &str) -> Option<&Value>;
    fn contains_key(&self, name: &str) -> bool;
}

impl Properties for Vec<Property> {
    fn get(&self, name: &str) -> Option<&Value> {
        self.iter().find(|p| p.name == name).map(|p| &p.value)
    }

    fn contains_key(&self, name: &str) -> bool {
        self.iter().any(|p| p.name == name)
    }
}

fn run<C: Cmdlet + 'static>(cmdlet: C, context: CmdletContext) -> Result<Vec<Value>, RuntimeError> {
    let boxed: Box<dyn Cmdlet> = Box::new(cmdlet);
    Evaluator::new().run_cmdlet(&boxed, &context)
}


fn eval_with_cmdlets(input: &str) -> Result<Value, RuntimeError> {
    // Create evaluator with cmdlets registered
    let mut evaluator = Evaluator::new();
    register_all(evaluator.registry_mut());

    // Parse and execute
    let mut lexer = Lexer::new(input);
    let tokens = lexer.tokenize().unwrap();
    let mut parser = Parser::new(tokens);
    let program = parser.parse().unwrap();
    evaluator.eval(program)
}

#[test]
fn test_write_output_simple() {
    let result = eval_with_cmdlets("Write-Output 42").unwrap();
    assert_eq!(result, Value::Number(num(42.0)));
}

#[test]
fn test_write_output_string() {
    let result = eval_with_cmdlets("Write-Output \"Hello World\"").unwrap();
    assert_eq!(result, Value::String("Hello World".to_string()));
}

#[test]
fn test_get_process_basic() {
    let result = eval_with_cmdlets("Get-Process").unwrap();
    // Get-Process returns an array, but statement returns the last value
    assert_ne!(result, Value::Null);
}

#[test]
fn test_pipeline_write_output() {
    // Test that pipeline works correctly
    let result = eval_with_cmdlets("5 | Write-Output").unwrap();
    assert_eq!(result, Value::Number(num(5.0)));
}

#[test]
fn test_simple_value_through_pipeline() {
    // Simple value -> Write-Output
    let result = eval_with_cmdlets("42 | Write-Output").unwrap();
    assert_eq!(result, Value::Number(num(42.0)));
}

#[test]
fn test_variable_through_pipeline() {
    let result = eval_with_cmdlets("$x = 10\n$x | Write-Output").unwrap();
    assert_eq!(result, Value::Number(num(10.0)));
}

#[test]
fn test_cmdlet_not_found() {
    let result = eval_with_cmdlets("NonExistent-Cmdlet");
    assert!(result.is_err());
    if let Err(e) = result {
        assert!(e.to_string().contains("not recognized"));
    }
}

#[test]
fn test_week6_success_criteria_basic() {
    let result = eval_with_cmdlets("Write-Output \"Hello World\"").unwrap();
    assert_eq!(result, Value::String("Hello World".to_string()));
}

#[test]
fn test_week6_success_criteria_variable() {
    let result = eval_with_cmdlets("$x = 5\nWrite-Output $x").unwrap();
    assert_eq!(result, Value::Number(num(5.0)));
}


#[test]
fn test_case_insensitive_property_selection() {
    // Test for case-insensitive property lookup
    let code = r#"
        $process = @{CPU=45.2; Name="pwsh"; Id=3456}
        $process | Select-Object CPu
    "#;

    let mut lexer = Lexer::new(code);
    let tokens = lexer.tokenize().unwrap();
    let mut parser = Parser::new(tokens);
    let program = parser.parse().unwrap();

    let mut registry = CmdletRegistry::new();
    register_all(&mut registry);
    let mut evaluator = Evaluator::with_registry(registry);

    let result = evaluator.eval(program).unwrap();

    // Verify the property was found despite different case
    if let Value::Object(props) = result {
        assert_eq!(props.len(), 1, "Should have exactly 1 property");
        // The property should be found (case-insensitive)
        assert!(props.contains_key("CPu"), "Should have CPu property");
        assert_eq!(props.get("CPu"), Some(&Value::Number(num(45.2))));
    } else {
        panic!("Expected object result, got: {:?}", result);
    }
}

#[test]
fn verify_select_object_issue_fix() {
    let code = r#"
        $processes = @(
            @{Name="chrome"; CPU=45.2; Id=5678; WorkingSet=512000}
            @{Name="code"; CPU=23.1; Id=9012; WorkingSet=256000}
            @{Name="pwsh"; CPU=5.0; Id=3456; WorkingSet=51200}
            @{Name="explorer"; CPU=15.5; Id=1234; WorkingSet=102400}
            @{Name="System"; CPU=0.0; Id=4; WorkingSet=1024}
        )
        
        $processes | Select-Object Name, CPU
    "#;

    let mut lexer = Lexer::new(code);
    let tokens = lexer.tokenize().expect("Lexer should succeed");
    let mut parser = Parser::new(tokens);
    let program = parser.parse().expect("Parser should succeed");

    let mut registry = CmdletRegistry::new();
    register_all(&mut registry);
    let mut evaluator = Evaluator::with_registry(registry);

    let result = evaluator
        .eval(program)
        .expect("Should execute without 'Name' cmdlet error");

    // Verify the result is correct
    if let Value::Array(items) = result {
        assert_eq!(items.len(), 5, "Should have 5 process objects");

        // Check each object only has Name and CPU properties
        for item in items {
            if let Value::Object(props) = item {
                assert_eq!(
                    props.len(),
                    2,
                    "Each object should have exactly 2 properties"
                );
                assert!(props.contains_key("Name"), "Should have Name property");
                assert!(props.contains_key("CPU"), "Should have CPU property");
                assert!(!props.contains_key("Id"), "Should NOT have Id property");
                assert!(
                    !props.contains_key("WorkingSet"),
                    "Should NOT have WorkingSet property"
                );
            } else {
                panic!("Expected Object value in array");
            }
        }
    } else {
        panic!("Expected array result");
    }
}

#[test]
fn test_select_object_single_property_bare_word() {
    // Test with a single property as bare word
    let code = r#"
        $items = @(
            @{Name="A"; Value=1}
            @{Name="B"; Value=2}
        )
        $items | Select-Object Name
    "#;

    let mut lexer = Lexer::new(code);
    let tokens = lexer.tokenize().unwrap();
    let mut parser = Parser::new(tokens);
    let program = parser.parse().unwrap();

    let mut registry = CmdletRegistry::new();
    register_all(&mut registry);
    let mut evaluator = Evaluator::with_registry(registry);

    let result = evaluator.eval(program).unwrap();

    if let Value::Array(items) = result {
        assert_eq!(items.len(), 2);
        for item in items {
            if let Value::Object(props) = item {
                assert_eq!(props.len(), 1);
                assert!(props.contains_key("Name"));
            }
        }
    } else {
        panic!("Expected array result");
    }
}

#[test]
fn test_select_object_three_properties() {
    // Test with three properties
    let code = r#"
        $items = @(
            @{A=1; B=2; C=3; D=4}
        )
        $items | Select-Object A, B, C
    "#;

    let mut lexer = Lexer::new(code);
    let tokens = lexer.tokenize().unwrap();
    let mut parser = Parser::new(tokens);
    let program = parser.parse().unwrap();

    let mut registry = CmdletRegistry::new();
    register_all(&mut registry);
    let mut evaluator = Evaluator::with_registry(registry);

    let result = evaluator.eval(program).unwrap();

    // When pipeline returns a single item, it's not wrapped in an array
    if let Value::Object(props) = result {
        assert_eq!(props.len(), 3);
        assert!(props.contains_key("A"));
        assert!(props.contains_key("B"));
        assert!(props.contains_key("C"));
        assert!(!props.contains_key("D"));
    } else {
        panic!("Expected object result, got: {:?}", result);
    }
}

#[test]
fn test_bare_words_with_first_parameter() {
    // Test combining bare words with -First parameter
    let code = r#"
        $items = @(
            @{Name="A"; Value=1}
            @{Name="B"; Value=2}
            @{Name="C"; Value=3}
        )
        $items | Select-Object Name -First 2
    "#;

    let mut lexer = Lexer::new(code);
    let tokens = lexer.tokenize().unwrap();
    let mut parser = Parser::new(tokens);
    let program = parser.parse().unwrap();

    let mut registry = CmdletRegistry::new();
    register_all(&mut registry);
    let mut evaluator = Evaluator::with_registry(registry);

    let result = evaluator.eval(program).unwrap();

    if let Value::Array(items) = result {
        assert_eq!(items.len(), 2, "Should only return first 2 items");
        for item in items {
            if let Value::Object(props) = item {
                assert_eq!(props.len(), 1);
                assert!(props.contains_key("Name"));
                assert!(!props.contains_key("Value"));
            }
        }
    } else {
        panic!("Expected array result");
    }
}


#[test]
fn test_exact_issue_scenario() {
    let code = r#"
$processes = @(
    @{Name="chrome"; CPU=45.2; Id=5678; WorkingSet=512000}
    @{Name="code"; CPU=23.1; Id=9012; WorkingSet=256000}
    @{Name="pwsh"; CPU=5.0; Id=3456; WorkingSet=51200}
    @{Name="explorer"; CPU=15.5; Id=1234; WorkingSet=102400}
    @{Name="System"; CPU=0.0; Id=4; WorkingSet=1024}
)

$processes | Select-Object Name, CPU
    "#;

    let mut lexer = Lexer::new(code);
    let tokens = lexer.tokenize().expect("Should tokenize successfully");
    let mut parser = Parser::new(tokens);
    let program = parser.parse().expect("Should parse successfully");
    
    let mut registry = CmdletRegistry::new();
    register_all(&mut registry);
    let mut evaluator = Evaluator::with_registry(registry);
    
    // This should NOT fail with "The term 'Name' is not recognized as a cmdlet"
    let result = evaluator.eval(program)
        .expect("Should execute successfully without 'Name' cmdlet error");
    
    // Verify the result structure
    if let Value::Array(items) = result {
        assert_eq!(items.len(), 5, "Should return all 5 process objects");
        
        // Verify first object (chrome)
        if let Value::Object(props) = &items[0] {
            assert_eq!(props.len(), 2, "Should have exactly 2 properties");
            assert_eq!(props.get("Name"), Some(&Value::String("chrome".to_string())));
            assert_eq!(props.get("CPU"), Some(&Value::Number(num(45.2))));
            assert!(props.get("Id").is_none(), "Should not have Id");
            assert!(props.get("WorkingSet").is_none(), "Should not have WorkingSet");
        } else {
            panic!("First item should be an object");
        }
        
        // Verify second object (code)
        if let Value::Object(props) = &items[1] {
            assert_eq!(props.get("Name"), Some(&Value::String("code".to_string())));
            assert_eq!(props.get("CPU"), Some(&Value::Number(num(23.1))));
        }
        
        // Verify all objects only have Name and CPU
        for (i, item) in items.iter().enumerate() {
            if let Value::Object(props) = item {
                assert_eq!(props.len(), 2, "Item {} should have 2 properties", i);
                assert!(props.contains_key("Name"), "Item {} should have Name", i);
                assert!(props.contains_key("CPU"), "Item {} should have CPU", i);
            }
        }
    } else {
        panic!("Expected array result, got: {:?}", result);
    }
}


#[test]
fn test_select_object_bare_identifiers() {
    let input = r#"
        $processes = @(
            @{Name="chrome"; CPU=45.2; Id=5678; WorkingSet=512000}
            @{Name="code"; CPU=23.1; Id=9012; WorkingSet=256000}
        )
        $processes | Select-Object Name, CPU
    "#;

    let mut lexer = Lexer::new(input);
    let tokens = lexer.tokenize().unwrap();
    let mut parser = Parser::new(tokens);
    let program = parser.parse().unwrap();
    
    let mut registry = CmdletRegistry::new();
    register_all(&mut registry);
    let mut evaluator = Evaluator::with_registry(registry);
    
    let result = evaluator.eval(program);
    println!("Result: {:?}", result);
    
    assert!(result.is_ok(), "Should not fail with 'Name' cmdlet error");
}



#[test]
fn test_get_process_all() {
    let cmdlet = GetProcessCmdlet;
    let context = CmdletContext::new();
    let result = run(cmdlet, context).unwrap();
    assert_eq!(result.len(), 5);
}

#[test]
fn test_get_process_by_name() {
    let cmdlet = GetProcessCmdlet;
    let context = CmdletContext::new()
        .with_parameter("Name".to_string(), Value::String("chrome".to_string()));
    let result = run(cmdlet, context).unwrap();
    assert_eq!(result.len(), 1);

    if let Value::Object(props) = &result[0] {
        assert_eq!(
            props.get("Name"),
            Some(&Value::String("chrome".to_string()))
        );
    } else {
        panic!("Expected object result");
    }
}

#[test]
fn test_get_process_properties() {
    let cmdlet = GetProcessCmdlet;
    let context = CmdletContext::new();
    let result = run(cmdlet, context).unwrap();

    if let Value::Object(props) = &result[0] {
        assert!(props.contains_key("Name"));
        assert!(props.contains_key("Id"));
        assert!(props.contains_key("CPU"));
        assert!(props.contains_key("WorkingSet"));
    } else {
        panic!("Expected object result");
    }
}
