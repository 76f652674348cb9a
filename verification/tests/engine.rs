use noise::analysers::PeakAnalyser;
use noise::errors::PipelineError;
use noise::factory::create_component;
use noise::number::Number;
use noise::parser::parse_components;
use noise::pipeline::Pipeline;
use noise::samples::SampleOps;

/// The `f64` sample arithmetic: sine and square formulas, gain, running
/// peak, element-wise sum, and loudness normalization.
fn make_ops(
    sample_rate: f64,
) -> SampleOps<
    f64,
    impl Fn(&Number, usize) -> f64,
    impl Fn(&Number, usize) -> f64,
    impl Fn(&Number, f64) -> f64,
    impl Fn(f64, f64) -> f64,
    impl Fn(f64, f64) -> f64,
    impl Fn(f64, usize) -> f64,
> {
    SampleOps {
        sine: move |f: &Number, i: usize| {
            let freq: f64 = f.as_text().parse().unwrap();
            let angular_frequency = 2.0 * std::f64::consts::PI * freq;
            let t = i as f64 / sample_rate;
            (angular_frequency * t).sin()
        },
        square: move |f: &Number, i: usize| {
            let freq: f64 = f.as_text().parse().unwrap();
            let period_samples = (sample_rate / freq) as usize;
            let phase = (i % period_samples) as f64 / period_samples as f64;
            if phase < 0.5 {
                1.0
            } else {
                -1.0
            }
        },
        scale: |l: &Number, x: f64| {
            let level: f64 = l.as_text().parse().unwrap();
            x * level
        },
        peak: |a: f64, b: f64| a.max(b),
        add: |a: f64, b: f64| a + b,
        norm: |x: f64, c: usize| x / c as f64,
        zero: 0.0,
    }
}

fn build_pipeline(spec: &str) -> Result<Pipeline<f64>, PipelineError> {
    let mut pipeline = Pipeline::new();
    for piece in parse_components(spec) {
        let component = create_component::<f64>(piece.as_str())?;
        pipeline.add_component(component)?;
    }
    Ok(pipeline)
}

fn run(spec: &str, duration: f64, sample_rate: f64) -> Result<Vec<f64>, PipelineError> {
    let mut pipeline = build_pipeline(spec)?;
    let num_samples = (duration * sample_rate) as usize;
    pipeline.run(num_samples, &make_ops(sample_rate))
}

fn assert_bits_eq(a: &[f64], b: &[f64]) {
    assert_eq!(a.len(), b.len());
    for i in 0..a.len() {
        assert_eq!(a[i].to_bits(), b[i].to_bits(), "at index {}", i);
    }
}

#[test]
fn sine_length_is_duration_times_rate() {
    // floor(0.5 * 44100) samples, whatever the frequency.
    assert_eq!(run("sine:freq=440", 0.5, 44100.0).unwrap().len(), 22050);
    assert_eq!(run("sine:freq=123.45", 0.5, 44100.0).unwrap().len(), 22050);
    // The cast truncates: floor(0.0001 * 44100) = floor(4.41) = 4.
    assert_eq!(run("sine:freq=440", 0.0001, 44100.0).unwrap().len(), 4);
    // A chain keeps the sources' sample count.
    assert_eq!(run("sine:freq=440,volume:level=0.5,peak", 0.25, 8000.0).unwrap().len(), 2000);
}

#[test]
fn sine_is_deterministic() {
    let a = run("sine:freq=440", 0.01, 44100.0).unwrap();
    let b = run("sine:freq=440", 0.01, 44100.0).unwrap();
    assert_bits_eq(&a, &b);
    // One pipeline is re-runnable with identical results.
    let mut p = build_pipeline("sine:freq=440").unwrap();
    let ops = make_ops(44100.0);
    let c = p.run(441, &ops).unwrap();
    let d = p.run(441, &ops).unwrap();
    assert_bits_eq(&c, &d);
}

#[test]
fn sine_matches_its_formula() {
    let samples = run("sine:freq=440", 0.001, 44100.0).unwrap();
    assert_eq!(samples.len(), 44);
    for (i, s) in samples.iter().enumerate() {
        let expected = (2.0 * std::f64::consts::PI * 440.0 * (i as f64 / 44100.0)).sin();
        assert_eq!(s.to_bits(), expected.to_bits());
    }
}

#[test]
fn square_samples_are_exactly_one_or_minus_one() {
    let samples = run("square:freq=997", 0.02, 44100.0).unwrap();
    assert!(!samples.is_empty());
    for s in samples {
        assert!(s == 1.0 || s == -1.0);
    }
}

#[test]
fn square_follows_its_period() {
    // period = floor(8000 / 1000) = 8: four high samples, four low.
    let samples = run("square:freq=1000", 0.002, 8000.0).unwrap();
    assert_eq!(samples.len(), 16);
    for (i, s) in samples.iter().enumerate() {
        let expected = if i % 8 < 4 { 1.0 } else { -1.0 };
        assert_eq!(*s, expected);
    }
}

#[test]
fn volume_scales_element_wise() {
    let base = run("sine:freq=440", 0.005, 44100.0).unwrap();
    let half = run("sine:freq=440,volume:level=0.5", 0.005, 44100.0).unwrap();
    assert_eq!(base.len(), half.len());
    for i in 0..base.len() {
        assert_eq!(half[i].to_bits(), (base[i] * 0.5).to_bits());
    }
    // A negative level inverts phase; a level above one amplifies.
    let inverted = run("sine:freq=440,volume:level=-1.25", 0.005, 44100.0).unwrap();
    for i in 0..base.len() {
        assert_eq!(inverted[i].to_bits(), (base[i] * -1.25).to_bits());
    }
}

#[test]
fn volume_defaults_to_unit_gain() {
    let base = run("sine:freq=440", 0.005, 44100.0).unwrap();
    let unit = run("sine:freq=440,volume", 0.005, 44100.0).unwrap();
    assert_bits_eq(&base, &unit);
}

#[test]
fn sine_defaults_to_440() {
    let explicit = run("sine:freq=440", 0.005, 44100.0).unwrap();
    let implicit = run("sine", 0.005, 44100.0).unwrap();
    assert_bits_eq(&explicit, &implicit);
}

#[test]
fn peak_of_all_negative_buffer_is_zero() {
    // The running maximum is seeded at 0.0, so an all-negative buffer
    // reports 0.0, not its true (negative) maximum.
    let ops = make_ops(44100.0);
    let mut analyser = PeakAnalyser::<f64>::new();
    let peak = analyser.analyze(&vec![-0.5, -0.5, -0.5], &ops);
    assert_eq!(peak, 0.0);
    assert_eq!(analyser.get_result(), Some(0.0));
    // The cached result is consumed by one retrieval.
    assert_eq!(analyser.get_result(), None);
}

#[test]
fn peak_finds_the_maximum() {
    let ops = make_ops(44100.0);
    let mut analyser = PeakAnalyser::<f64>::new();
    assert_eq!(analyser.analyze(&vec![0.25, 0.75, 0.5], &ops), 0.75);
    assert_eq!(analyser.get_result(), Some(0.75));
}

#[test]
fn peak_leaves_the_buffer_unchanged() {
    let base = run("sine:freq=440", 0.005, 44100.0).unwrap();
    let observed = run("sine:freq=440,peak", 0.005, 44100.0).unwrap();
    assert_bits_eq(&base, &observed);
}

#[test]
fn parallel_of_two_identical_sines_reconstructs_one() {
    // Two identical sources summed and divided by two give back the
    // original at every index.
    let one = run("sine:freq=440", 0.005, 44100.0).unwrap();
    let two = run("parallel:[sine:freq=440,sine:freq=440]", 0.005, 44100.0).unwrap();
    assert_bits_eq(&one, &two);
}

#[test]
fn parallel_mixes_different_sources() {
    let sine = run("sine:freq=440", 0.002, 8000.0).unwrap();
    let square = run("square:freq=1000", 0.002, 8000.0).unwrap();
    let mixed = run("parallel:[sine:freq=440,square:freq=1000]", 0.002, 8000.0).unwrap();
    assert_eq!(mixed.len(), sine.len());
    for i in 0..mixed.len() {
        assert_eq!(mixed[i].to_bits(), ((sine[i] + square[i]) / 2.0).to_bits());
    }
}

#[test]
fn parallel_without_sources_stays_silent() {
    // A non-source child contributes nothing and is not counted, so the
    // sum is left as it is: all zero.
    let samples = run("parallel:[volume:level=2]", 0.001, 8000.0).unwrap();
    assert_eq!(samples.len(), 8);
    for s in samples {
        assert_eq!(s.to_bits(), 0.0f64.to_bits());
    }
}

#[test]
fn pipeline_must_start_with_a_source() {
    // Building fails before any processing happens.
    let e = match build_pipeline("volume:level=0.5,sine") {
        Err(e) => e,
        Ok(_) => panic!("expected an error"),
    };
    assert_eq!(e, PipelineError::NotStartingWithSource);
    assert_eq!(e.message(), "Pipeline must start with a Source");
}

#[test]
fn analyser_only_pipeline_is_rejected_at_build_time() {
    let e = match build_pipeline("peak") {
        Err(e) => e,
        Ok(_) => panic!("expected an error"),
    };
    assert_eq!(e, PipelineError::NotStartingWithSource);
}

#[test]
fn empty_buffer_is_refused_at_run_time() {
    // With zero samples requested, the source leaves an empty buffer and
    // the next non-source stage refuses it.
    let e = run("sine,volume:level=0.5", 0.0, 44100.0).unwrap_err();
    assert_eq!(e, PipelineError::ProcessorNeedsInput);
    assert_eq!(e.message(), "Processor requires input samples");
    let e = run("sine,peak", 0.0, 44100.0).unwrap_err();
    assert_eq!(e, PipelineError::AnalyserNeedsInput);
    assert_eq!(e.message(), "Analyser requires input samples");
    // A source alone is content to produce nothing.
    assert_eq!(run("sine", 0.0, 44100.0).unwrap().len(), 0);
}

#[test]
fn source_replaces_whatever_came_before() {
    // A source never reads the incoming buffer: a second source
    // overwrites the first's output entirely.
    let alone = run("square:freq=1000", 0.002, 8000.0).unwrap();
    let chained = run("sine:freq=440,square:freq=1000", 0.002, 8000.0).unwrap();
    assert_bits_eq(&alone, &chained);
}

#[test]
fn component_process_runs_one_stage() {
    let ops = make_ops(8000.0);
    let mut c = create_component::<f64>("volume:level=2").unwrap();
    let mut buffer = vec![0.5, -0.25];
    c.process(&mut buffer, 8, &ops).unwrap();
    assert_eq!(buffer, vec![1.0, -0.5]);
    let mut empty: Vec<f64> = Vec::new();
    let e = c.process(&mut empty, 8, &ops).unwrap_err();
    assert_eq!(e, PipelineError::ProcessorNeedsInput);
}

#[test]
fn empty_pipeline_yields_empty_buffer() {
    let mut p: Pipeline<f64> = Pipeline::new();
    let out = p.run(100, &make_ops(44100.0)).unwrap();
    assert!(out.is_empty());
}
