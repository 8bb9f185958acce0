use whispercat::pipeline::{
    ExecutionStart, Pipeline, PipelineExecutor, PipelineUnitReference, ProcessingUnit, Provider,
    StepOutcome, Unit, UnitId, UnitType, execute_replacement,
};

fn prompt_unit(name: &str, model: &str, template: &str) -> Unit {
    Unit::Prompt {
        id: UnitId::fresh(),
        name: name.to_string(),
        provider: Provider::OpenAI,
        model: model.to_string(),
        system_prompt: String::new(),
        user_prompt_template: template.to_string(),
    }
}

#[test]
fn test_pipeline_creation() {
    let pipeline = Pipeline::new("Test Pipeline".to_string());

    assert_eq!(pipeline.name, "Test Pipeline");
    assert!(pipeline.description.is_none());
    assert_eq!(pipeline.units.len(), 0);
}

#[test]
fn test_pipeline_add_unit() {
    let mut pipeline = Pipeline::new("Test".to_string());

    let unit = Unit::Prompt {
        id: UnitId::fresh(),
        name: "Prompt 1".to_string(),
        provider: Provider::OpenAI,
        model: "gpt-4".to_string(),
        system_prompt: "You are a helpful assistant".to_string(),
        user_prompt_template: "Process: {{input}}".to_string(),
    };

    pipeline.add_unit(unit);
    assert_eq!(pipeline.units.len(), 1);
    assert_eq!(pipeline.units[0].name(), "Prompt 1");
}

#[test]
fn test_unit_text_replacement() {
    let unit = Unit::TextReplacement {
        id: UnitId::fresh(),
        name: "Replace test".to_string(),
        find: "hello".to_string(),
        replace: "hi".to_string(),
        regex: false,
        case_sensitive: true,
    };

    assert_eq!(unit.name(), "Replace test");
}

#[test]
fn test_pipeline_unit_ordering() {
    let mut pipeline = Pipeline::new("Multi-unit".to_string());

    for i in 1..=3 {
        pipeline.add_unit(Unit::Prompt {
            id: UnitId::fresh(),
            name: format!("Unit {}", i),
            provider: Provider::OpenAI,
            model: "gpt-4".to_string(),
            system_prompt: String::new(),
            user_prompt_template: "{{input}}".to_string(),
        });
    }

    assert_eq!(pipeline.units.len(), 3);
    assert_eq!(pipeline.units[0].name(), "Unit 1");
    assert_eq!(pipeline.units[1].name(), "Unit 2");
    assert_eq!(pipeline.units[2].name(), "Unit 3");
}

#[test]
fn test_pipeline_with_description() {
    let mut pipeline = Pipeline::new("Test".to_string());
    pipeline.description = Some("This is a test pipeline".to_string());

    assert_eq!(pipeline.description, Some("This is a test pipeline".to_string()));
}

#[test]
fn test_pipeline_mixed_units() {
    let mut pipeline = Pipeline::new("Mixed".to_string());

    pipeline.add_unit(Unit::Prompt {
        id: UnitId::fresh(),
        name: "Prompt".to_string(),
        provider: Provider::OpenAI,
        model: "gpt-4".to_string(),
        system_prompt: String::new(),
        user_prompt_template: "{{input}}".to_string(),
    });

    pipeline.add_unit(Unit::TextReplacement {
        id: UnitId::fresh(),
        name: "Replace".to_string(),
        find: "old".to_string(),
        replace: "new".to_string(),
        regex: false,
        case_sensitive: true,
    });

    assert_eq!(pipeline.units.len(), 2);
}

#[test]
fn test_pipeline_executor_creation() {
    let executor = PipelineExecutor::new("test_api_key".to_string());

    drop(executor);
}

#[test]
fn test_pipeline_executor_with_optimization() {
    let executor = PipelineExecutor::new("test_key".to_string()).with_optimization(false);

    drop(executor);
}

fn resolved_prompt(name: &str, model: &str, system: &str, template: &str) -> ProcessingUnit {
    ProcessingUnit::new(
        name.to_string(),
        UnitType::Prompt {
            provider: Provider::OpenAI,
            model: model.to_string(),
            system_prompt: system.to_string(),
            user_prompt_template: template.to_string(),
        },
    )
}

fn resolved_replacement(name: &str, find: &str, replace: &str) -> ProcessingUnit {
    ProcessingUnit::new(
        name.to_string(),
        UnitType::TextReplacement {
            find: find.to_string(),
            replace: replace.to_string(),
            regex: false,
            case_sensitive: true,
        },
    )
}

#[test]
fn test_planner_groups_consecutive_prompts() {
    let executor = PipelineExecutor::new(String::new());
    let units = vec![
        resolved_prompt("A", "gpt-4", "", "{{input}}"),
        resolved_prompt("B", "gpt-4", "", "{{input}}"),
        resolved_replacement("C", "x", "y"),
        resolved_prompt("D", "gpt-4", "", "{{input}}"),
    ];
    let batches = executor.create_batches(&units);

    assert_eq!(batches.len(), 3);
    assert!(batches[0].optimizable);
    assert_eq!(batches[0].units.len(), 2);
    assert_eq!(batches[0].model.as_deref(), Some("gpt-4"));
    assert!(!batches[1].optimizable);
    assert_eq!(batches[1].units.len(), 1);
    assert!(batches[1].model.is_none());
    assert!(!batches[2].optimizable);
    assert_eq!(batches[2].units.len(), 1);
    assert_eq!(batches[2].model.as_deref(), Some("gpt-4"));

    // Concatenating all batch contents reproduces the input order exactly.
    let mut flattened: Vec<String> = Vec::new();
    for b in &batches {
        for u in &b.units {
            flattened.push(u.name.clone());
        }
    }
    assert_eq!(flattened, vec!["A", "B", "C", "D"]);
}

#[test]
fn test_planner_splits_on_model_change() {
    let executor = PipelineExecutor::new(String::new());
    let units = vec![
        resolved_prompt("A", "gpt-4", "", "{{input}}"),
        resolved_prompt("B", "gpt-3.5-turbo", "", "{{input}}"),
    ];
    let batches = executor.create_batches(&units);

    assert_eq!(batches.len(), 2);
    assert!(!batches[0].optimizable);
    assert!(!batches[1].optimizable);
}

#[test]
fn test_planner_disabled_optimization_is_all_singletons() {
    let executor = PipelineExecutor::new(String::new()).with_optimization(false);
    let units = vec![
        resolved_prompt("A", "gpt-4", "", "{{input}}"),
        resolved_prompt("B", "gpt-4", "", "{{input}}"),
        resolved_replacement("C", "x", "y"),
        resolved_prompt("D", "gpt-4", "", "{{input}}"),
    ];
    let batches = executor.plan(&units);

    assert_eq!(batches.len(), units.len());
    for b in &batches {
        assert_eq!(b.units.len(), 1);
        assert!(!b.optimizable);
    }
}

#[test]
fn test_compile_chained_prompt_exact_text() {
    let executor = PipelineExecutor::new(String::new());
    let units = vec![
        resolved_prompt("Fix", "gpt-4", "Fix grammar.", "Correct this: {{input}}"),
        resolved_prompt("Shorten", "gpt-4", "Shorten text.", "Condense: {{input}}"),
    ];
    let batches = executor.create_batches(&units);
    assert_eq!(batches.len(), 1);
    let (system_prompt, user_prompt) = executor.compile_chained_prompt("hello", &batches[0]);

    assert_eq!(
        system_prompt,
        "You are executing a chained processing pipeline. Process each step sequentially, \
         using the output from each step as input to the next.\n\n\
         ## Step 1: Fix\nFix grammar.\n\n## Step 2: Shorten\nShorten text."
    );
    assert_eq!(
        user_prompt,
        "Execute the following steps in order:\n\n\
         ### Step 1: Fix\nCorrect this: hello\n\n\
         ### Step 2: Shorten\nCondense: {STEP_1_OUTPUT}\n\n\
         Provide ONLY the final output from the last step."
    );
}

#[test]
fn test_replacement_case_insensitive_literal() {
    let out = execute_replacement("Hello", "hi", false, false, "hello HELLO world").unwrap();
    assert_eq!(out, "hi hi world");
}

#[test]
fn test_replacement_case_sensitive_literal() {
    let out = execute_replacement("Hello", "hi", false, true, "hello HELLO Hello").unwrap();
    assert_eq!(out, "hello HELLO hi");
}

#[test]
fn test_replacement_regex_mode() {
    let out = execute_replacement("[0-9]+", "#", true, true, "a1b22c333").unwrap();
    assert_eq!(out, "a#b#c#");
}

#[test]
fn test_replacement_malformed_regex_is_config_error() {
    let result = execute_replacement("[", "#", true, true, "abc");
    assert!(matches!(
        result,
        Err(whispercat::error::WhisperCatError::ConfigError(_))
    ));
}

#[test]
fn test_execute_disabled_pipeline_is_identity() {
    let executor = PipelineExecutor::new(String::new());
    let mut pipeline = Pipeline::new("off".to_string());
    pipeline.enabled = false;
    let units: Vec<ProcessingUnit> = Vec::new();

    match executor.begin_with_units("input text".to_string(), &pipeline, &units, 41) {
        ExecutionStart::Finished { result } => {
            assert_eq!(result.output, "input text");
            assert_eq!(result.log_entries.len(), 0);
            assert_eq!(result.total_duration_ms, 0);
        }
        ExecutionStart::Running { .. } => panic!("a disabled pipeline must short-circuit"),
    }
}

#[test]
fn test_execute_empty_pipeline_is_identity() {
    let executor = PipelineExecutor::new(String::new());
    let pipeline = Pipeline::new("empty".to_string());
    let units: Vec<ProcessingUnit> = Vec::new();

    match executor.begin_with_units("unchanged".to_string(), &pipeline, &units, 7) {
        ExecutionStart::Finished { result } => {
            assert_eq!(result.output, "unchanged");
            assert_eq!(result.log_entries.len(), 0);
            assert_eq!(result.total_duration_ms, 0);
        }
        ExecutionStart::Running { .. } => panic!("an empty pipeline must short-circuit"),
    }
}

#[test]
fn test_execute_dangling_reference_is_skipped_with_warning() {
    let executor = PipelineExecutor::new(String::new());
    let valid = resolved_replacement("lower", "abc", "xyz");
    let valid_id = valid.id;
    let store = vec![valid];

    let mut pipeline = Pipeline::new("mixed".to_string());
    pipeline.add_unit_ref(valid_id);
    pipeline.add_unit_ref(UnitId::from_value(123456789));

    let mut state = match executor.begin_with_units("abc abc".to_string(), &pipeline, &store, 0) {
        ExecutionStart::Running { state } => state,
        ExecutionStart::Finished { .. } => panic!("one valid unit remains, so the run proceeds"),
    };
    assert_eq!(state.warnings.len(), 1);

    match executor.step(&mut state, 5) {
        StepOutcome::Applied => {}
        _ => panic!("the replacement executes locally"),
    }
    match executor.step(&mut state, 9) {
        StepOutcome::Done { result } => {
            assert_eq!(result.output, "xyz xyz");
            assert_eq!(result.log_entries.len(), 1);
            assert_eq!(result.log_entries[0].unit_name, "lower");
            assert_eq!(result.warnings.len(), 1);
        }
        _ => panic!("the run completes after the one valid unit"),
    }
}

#[test]
fn test_execute_prompt_batch_round_trip() {
    let executor = PipelineExecutor::new(String::new());
    let a = resolved_prompt("A", "gpt-4", "sys a", "first {{input}}");
    let b = resolved_prompt("B", "gpt-4", "sys b", "second {{input}}");
    let a_id = a.id;
    let b_id = b.id;
    let store = vec![a, b];

    let mut pipeline = Pipeline::new("chain".to_string());
    pipeline.add_unit_ref(a_id);
    pipeline.add_unit_ref(b_id);

    let mut state = match executor.begin_with_units("go".to_string(), &pipeline, &store, 100) {
        ExecutionStart::Running { state } => state,
        ExecutionStart::Finished { .. } => panic!("two units are enabled"),
    };

    match executor.step(&mut state, 150) {
        StepOutcome::Call { model, user_prompt, .. } => {
            assert_eq!(model, "gpt-4");
            assert!(user_prompt.contains("first go"));
        }
        _ => panic!("an optimizable batch asks for one external call"),
    }
    state.provide_response("answer".to_string(), 250);
    match executor.step(&mut state, 300) {
        StepOutcome::Done { result } => {
            assert_eq!(result.output, "answer");
            assert_eq!(result.log_entries.len(), 1);
            assert!(result.log_entries[0].optimized);
            assert_eq!(result.log_entries[0].unit_name, "OPTIMIZED CHAIN (2 units)");
            assert_eq!(result.log_entries[0].input, "go");
            assert_eq!(result.log_entries[0].output, "answer");
            assert_eq!(result.log_entries[0].duration_ms, 100);
            assert_eq!(result.total_duration_ms, 200);
        }
        _ => panic!("one response finishes the run"),
    }
}

#[test]
fn test_disabled_reference_is_not_executed() {
    let executor = PipelineExecutor::new(String::new());
    let unit = resolved_replacement("swap", "a", "b");
    let unit_id = unit.id;
    let store = vec![unit];

    let mut pipeline = Pipeline::new("off-ref".to_string());
    pipeline.add_unit_ref_with_state(unit_id, false);

    match executor.begin_with_units("aaa".to_string(), &pipeline, &store, 0) {
        ExecutionStart::Finished { result } => {
            assert_eq!(result.output, "aaa");
            assert_eq!(result.log_entries.len(), 0);
            assert_eq!(result.warnings.len(), 0);
        }
        ExecutionStart::Running { .. } => panic!("a disabled reference leaves nothing to run"),
    }
}

#[test]
fn test_legacy_unit_migration_keeps_payload() {
    let legacy = prompt_unit("Old", "gpt-4", "say {{input}}");
    let id = legacy.id();
    let migrated = legacy.to_processing_unit();

    assert_eq!(migrated.id, id);
    assert_eq!(migrated.name, "Old");
    assert!(migrated.description.is_none());
    match migrated.unit_type {
        UnitType::Prompt { model, user_prompt_template, .. } => {
            assert_eq!(model, "gpt-4");
            assert_eq!(user_prompt_template, "say {{input}}");
        }
        UnitType::TextReplacement { .. } => panic!("a prompt stays a prompt"),
    }
}

#[test]
fn test_unit_reference_defaults_enabled() {
    let id = UnitId::from_value(42);
    let reference = PipelineUnitReference::new(id);
    assert_eq!(reference.unit_id, id);
    assert!(reference.enabled);
}
