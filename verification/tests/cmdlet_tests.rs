use pwsh_core::cmdlet::NameTable;
use pwsh_core::{
    Argument, Cmdlet, CmdletContext, CmdletRegistry, CmdletStep, Evaluator, Expression, Literal, Number, Pipeline,
    PipelineExecutor, RuntimeError, Value,
};

fn num(x: f64) -> Number {
    Number::from_bits(x.to_bits())
}

fn float(n: Number) -> f64 {
    f64::from_bits(n.to_bits())
}

// Test cmdlet implementation
struct TestCmdlet;

impl Cmdlet for TestCmdlet {
    fn name(&self) -> String {
        "Test-Cmdlet".to_string()
    }

    fn execute(&self, context: &CmdletContext, _replies: &Vec<Value>) -> Result<CmdletStep, RuntimeError> {
        Ok(CmdletStep::Done(context.pipeline_input.clone()))
    }
}

// Test cmdlet that echoes input
struct EchoCmdlet;

impl Cmdlet for EchoCmdlet {
    fn name(&self) -> String {
        "Test-Echo".to_string()
    }

    fn execute(&self, context: &CmdletContext, _replies: &Vec<Value>) -> Result<CmdletStep, RuntimeError> {
        if context.pipeline_input.is_empty() {
            Ok(CmdletStep::Done(context.arguments.clone()))
        } else {
            Ok(CmdletStep::Done(context.pipeline_input.clone()))
        }
    }
}

// Test cmdlet that doubles numbers
struct DoubleCmdlet;

impl Cmdlet for DoubleCmdlet {
    fn name(&self) -> String {
        "Test-Double".to_string()
    }

    fn execute(&self, context: &CmdletContext, _replies: &Vec<Value>) -> Result<CmdletStep, RuntimeError> {
        let mut results = Vec::new();
        for value in &context.pipeline_input {
            if let Some(n) = value.to_number() {
                results.push(Value::Number(num(float(n) * 2.0)));
            } else {
                results.push(value.clone());
            }
        }
        Ok(CmdletStep::Done(results))
    }
}

// A cmdlet that fails
struct FailingCmdlet;

impl Cmdlet for FailingCmdlet {
    fn name(&self) -> String {
        "Test-Echo".to_string()
    }

    fn execute(&self, _context: &CmdletContext, _replies: &Vec<Value>) -> Result<CmdletStep, RuntimeError> {
        Err(RuntimeError::InvalidOperation("no such file".to_string()))
    }
}

#[test]
fn test_cmdlet_context_creation() {
    let ctx = CmdletContext::new();
    assert_eq!(ctx.pipeline_input.len(), 0);
    assert_eq!(ctx.parameters.len(), 0);
    assert_eq!(ctx.arguments.len(), 0);
}

#[test]
fn test_cmdlet_context_with_input() {
    let input = vec![Value::Number(num(42.0))];
    let ctx = CmdletContext::with_input(input.clone());
    assert_eq!(ctx.pipeline_input, input);
}

#[test]
fn test_cmdlet_registry() {
    let mut registry = CmdletRegistry::new();
    registry.register(Box::new(TestCmdlet));

    assert!(registry.contains("Test-Cmdlet"));
    assert!(registry.contains("test-cmdlet")); // Case-insensitive
    assert!(!registry.contains("NonExistent"));

    let cmdlet = registry.get("test-cmdlet");
    assert!(cmdlet.is_some());
}

#[test]
fn test_cmdlet_execution() {
    let cmdlet: Box<dyn Cmdlet> = Box::new(TestCmdlet);
    let input = vec![Value::Number(num(42.0))];
    let ctx = CmdletContext::with_input(input.clone());

    let mut evaluator = Evaluator::new();
    let result = evaluator.run_cmdlet(&cmdlet, &ctx).unwrap();
    assert_eq!(result, input);
}

#[test]
fn test_pipeline_single_cmdlet() {
    let mut registry = CmdletRegistry::new();
    registry.register(Box::new(EchoCmdlet));

    let executor = PipelineExecutor::new(&registry);
    let mut evaluator = Evaluator::new();

    // Create a simple pipeline: Test-Echo 42
    let pipeline = Pipeline {
        stages: vec![Expression::Call {
            name: "Test-Echo".to_string(),
            arguments: vec![Argument::Positional(Expression::Literal(Literal::Number(num(42.0))))],
        }],
    };

    let result = executor.execute(&pipeline, &mut evaluator).unwrap();
    assert_eq!(result, vec![Value::Number(num(42.0))]);
}

#[test]
fn test_pipeline_two_cmdlets() {
    let mut registry = CmdletRegistry::new();
    registry.register(Box::new(EchoCmdlet));
    registry.register(Box::new(DoubleCmdlet));

    let executor = PipelineExecutor::new(&registry);
    let mut evaluator = Evaluator::new();

    // Create pipeline: Test-Echo 5 | Test-Double
    let pipeline = Pipeline {
        stages: vec![
            Expression::Call {
                name: "Test-Echo".to_string(),
                arguments: vec![Argument::Positional(Expression::Literal(Literal::Number(num(5.0))))],
            },
            Expression::Call { name: "Test-Double".to_string(), arguments: vec![] },
        ],
    };

    let result = executor.execute(&pipeline, &mut evaluator).unwrap();
    assert_eq!(result, vec![Value::Number(num(10.0))]);
}

#[test]
fn registry_last_registration_wins() {
    let mut registry = CmdletRegistry::new();
    registry.register(Box::new(EchoCmdlet));
    registry.register(Box::new(FailingCmdlet));
    let mut evaluator = Evaluator::with_registry(registry);
    let result = evaluator.eval_expression(Expression::Call { name: "TEST-ECHO".to_string(), arguments: vec![] });
    assert_eq!(result, Err(RuntimeError::InvalidOperation("no such file".to_string())));
}

#[test]
fn context_parameters_are_found_by_exact_name() {
    let ctx = CmdletContext::new()
        .with_parameter("First".to_string(), Value::Number(num(1.0)))
        .with_parameter("First".to_string(), Value::Number(num(2.0)))
        .with_arguments(vec![Value::Null]);
    assert_eq!(ctx.parameters.len(), 1);
    assert_eq!(ctx.get_parameter("First"), Some(&Value::Number(num(2.0))));
    assert_eq!(ctx.get_parameter("first"), None);
    assert_eq!(ctx.get_argument(0), Some(&Value::Null));
    assert_eq!(ctx.get_argument(1), None);
}

#[test]
fn registry_finds_what_was_registered() {
    let mut registry = CmdletRegistry::new();
    assert!(registry.get("Test-Echo").is_none());
    assert!(!registry.contains("Test-Echo"));
    registry.register(Box::new(EchoCmdlet));
    assert!(registry.contains("test-echo"));
    assert_eq!(registry.get("TEST-ECHO").map(|c| c.name()), Some("Test-Echo".to_string()));
    assert!(registry.get("Test-Echo2").is_none());
    registry.register_as("Other", Box::new(EchoCmdlet));
    assert_eq!(registry.get("other").map(|c| c.name()), Some("Test-Echo".to_string()));
    assert!(registry.get("Test-Echo").is_some());
}

#[test]
fn name_table_keeps_the_last_item_of_a_name() {
    let mut table: NameTable<u32> = NameTable::new();
    assert_eq!(table.get("a"), None);
    table.store("Alpha", 1);
    table.store("beta", 2);
    table.store("ALPHA", 3);
    assert_eq!(table.get("alpha"), Some(&3));
    assert_eq!(table.get("Beta"), Some(&2));
    assert_eq!(table.get("gamma"), None);
    assert!(table.contains("BETA"));
    assert!(!table.contains("bet"));
}
