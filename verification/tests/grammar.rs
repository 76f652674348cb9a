use noise::component::Component;
use noise::errors::PipelineError;
use noise::factory::create_component;
use noise::number::Number;
use noise::parser::parse_components;
use noise::processors::VolumeParams;
use noise::sources::SineParams;
use noise::context::AppContext;

fn strings(xs: &[&str]) -> Vec<String> {
    xs.iter().map(|s| s.to_string()).collect()
}

#[test]
fn tokenize_keeps_nested_commas() {
    // A nested parallel body is not split on its internal comma.
    let pieces = parse_components("parallel:[sine:freq=1,square:freq=2],peak");
    assert_eq!(pieces, strings(&["parallel:[sine:freq=1,square:freq=2]", "peak"]));
}

#[test]
fn tokenize_trims_and_drops_empty_pieces() {
    let pieces = parse_components(" sine , ,volume:level=1 , ");
    assert_eq!(pieces, strings(&["sine", "volume:level=1"]));
    assert_eq!(parse_components(""), strings(&[]));
    assert_eq!(parse_components(" , ,, "), strings(&[]));
}

#[test]
fn tokenize_does_not_check_balance() {
    // Malformed brackets pass the tokenizer; they fail later in the
    // parallel parser.
    let pieces = parse_components("parallel:[sine");
    assert_eq!(pieces, strings(&["parallel:[sine"]));
    let r = create_component::<f64>("parallel:[sine");
    assert_eq!(r.unwrap_err(), PipelineError::MalformedParallelBody);
}

#[test]
fn number_accepts_float_literals() {
    for ok in ["440", "4.5", ".5", "5.", "4.5e-2", "1E3", "+2", "-0.25", "inf", "Infinity", "NaN", "-inf"] {
        assert!(Number::from_text(ok).is_some(), "{}", ok);
    }
    for bad in ["", " 440", "440 ", "4.5.6", "abc", "4e", "e4", ".", "+", "--1", "1_000", "0x10"] {
        assert!(Number::from_text(bad).is_none(), "{}", bad);
    }
}

#[test]
fn number_keeps_its_text() {
    let n = Number::from_text("4.5e-2").unwrap();
    assert_eq!(n.as_text(), "4.5e-2");
    assert_eq!(n.dup().as_text(), "4.5e-2");
}

#[test]
fn factory_builds_each_kind() {
    let c = create_component::<f64>("sine:freq=880").unwrap();
    assert!(c.is_source());
    match c {
        Component::Sine(s) => assert_eq!(s.frequency.as_text(), "880"),
        _ => panic!("expected a sine source"),
    }
    let c = create_component::<f64>("square").unwrap();
    assert!(c.is_source());
    match c {
        Component::Square(s) => assert_eq!(s.frequency.as_text(), "440"),
        _ => panic!("expected a square source"),
    }
    let c = create_component::<f64>("volume:level=0.5").unwrap();
    assert!(!c.is_source());
    match c {
        Component::Volume(v) => assert_eq!(v.volume.as_text(), "0.5"),
        _ => panic!("expected a volume processor"),
    }
    let c = create_component::<f64>("peak").unwrap();
    assert!(!c.is_source());
    assert!(matches!(c, Component::Peak(_)));
}

#[test]
fn factory_builds_nested_parallel() {
    let c = create_component::<f64>("parallel:[parallel:[sine:freq=1],square:freq=2]").unwrap();
    assert!(c.is_source());
    match c {
        Component::Parallel(p) => {
            assert_eq!(p.components.len(), 2);
            match &p.components[0] {
                Component::Parallel(inner) => {
                    assert_eq!(inner.components.len(), 1);
                    assert!(matches!(inner.components[0], Component::Sine(_)));
                }
                _ => panic!("expected a nested parallel"),
            }
            assert!(matches!(p.components[1], Component::Square(_)));
        }
        _ => panic!("expected a parallel composite"),
    }
}

#[test]
fn factory_rejects_unknown_tag() {
    let e = create_component::<f64>("bogus:x=1").unwrap_err();
    assert_eq!(e, PipelineError::UnknownComponentType { tag: "bogus".to_string() });
    assert_eq!(e.message(), "Unknown component type: bogus");
}

#[test]
fn params_reject_bad_values() {
    let e = create_component::<f64>("sine:freq=abc").unwrap_err();
    assert_eq!(e, PipelineError::InvalidValue { name: "freq".to_string() });
    assert_eq!(e.message(), "Invalid freq value");
    let e = create_component::<f64>("volume:level=").unwrap_err();
    assert_eq!(e, PipelineError::InvalidValue { name: "level".to_string() });
    assert_eq!(e.message(), "Invalid level value");
    // A value with leading whitespace is not trimmed, and is rejected.
    let e = create_component::<f64>("sine:freq= 440").unwrap_err();
    assert_eq!(e, PipelineError::InvalidValue { name: "freq".to_string() });
}

#[test]
fn params_reject_unknown_keys_and_bad_format() {
    let e = create_component::<f64>("sine:frq=440").unwrap_err();
    assert_eq!(e, PipelineError::UnknownParameter { key: "frq".to_string() });
    assert_eq!(e.message(), "Unknown parameter: frq");
    let e = create_component::<f64>("sine:freq440").unwrap_err();
    assert_eq!(e, PipelineError::InvalidParameterFormat { param: "freq440".to_string() });
    assert_eq!(e.message(), "Invalid parameter format: freq440");
    // `sine:` has an empty parameter, which lacks an `=`.
    let e = create_component::<f64>("sine:").unwrap_err();
    assert_eq!(e, PipelineError::InvalidParameterFormat { param: "".to_string() });
}

#[test]
fn params_last_value_wins() {
    let p = SineParams::parse(&strings(&["freq=1", "freq=2"])).unwrap();
    assert_eq!(p.freq.as_text(), "2");
    let p = SineParams::parse(&strings(&[])).unwrap();
    assert_eq!(p.freq.as_text(), "440");
    let p = VolumeParams::parse(&strings(&[])).unwrap();
    assert_eq!(p.level.as_text(), "1");
    // A parameter must hold exactly one `=`.
    let e = SineParams::parse(&strings(&["freq=4=4"])).unwrap_err();
    assert_eq!(e, PipelineError::InvalidParameterFormat { param: "freq=4=4".to_string() });
}

#[test]
fn peak_takes_no_params() {
    let e = create_component::<f64>("peak:x=1").unwrap_err();
    assert_eq!(e, PipelineError::PeakTakesNoParams);
    assert_eq!(e.message(), "peak takes no params: peak");
    let e = create_component::<f64>("peak:").unwrap_err();
    assert_eq!(e, PipelineError::PeakTakesNoParams);
}

#[test]
fn parallel_body_must_be_bracketed() {
    let e = create_component::<f64>("parallel:sine").unwrap_err();
    assert_eq!(e, PipelineError::MalformedParallelBody);
    assert_eq!(e.message(), "parallel specs must be enclosed in [ ]");
    let e = create_component::<f64>("parallel").unwrap_err();
    assert_eq!(e, PipelineError::WrongSpecType { expected: "parallel".to_string() });
    assert_eq!(e.message(), "Not a parallel spec");
}

#[test]
fn parallel_body_must_not_be_empty() {
    let e = create_component::<f64>("parallel:[]").unwrap_err();
    assert_eq!(e, PipelineError::EmptyParallelBody);
    assert_eq!(e.message(), "parallel requires at least one component spec");
}

#[test]
fn parallel_child_failure_aborts_construction() {
    let e = create_component::<f64>("parallel:[sine:freq=1,bogus]").unwrap_err();
    assert_eq!(e, PipelineError::UnknownComponentType { tag: "bogus".to_string() });
}

#[test]
fn wrong_kind_spec_is_rejected() {
    let e = noise::sources::SineWaveSource::from_spec("volume:level=1").unwrap_err();
    assert_eq!(e, PipelineError::WrongSpecType { expected: "sine".to_string() });
    assert_eq!(e.message(), "Not a sine spec");
}

#[test]
fn app_context_holds_its_configuration() {
    let ctx = AppContext::new(Some("out.html".to_string()));
    assert_eq!(ctx.html_output.as_deref(), Some("out.html"));
    let ctx = AppContext::new(None);
    assert!(ctx.html_output.is_none());
}

#[test]
fn degenerate_frequencies_are_not_rejected() {
    // Validation does not bound numeric parameters; degenerate values
    // build and only produce degenerate output.
    assert!(create_component::<f64>("square:freq=1000000").is_ok());
    assert!(create_component::<f64>("sine:freq=0").is_ok());
    assert!(create_component::<f64>("volume:level=-3").is_ok());
}
