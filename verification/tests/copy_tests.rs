use std::cell::Cell;

use dd::endpoint::{InputSource, OutputSource};
use dd::errors::CopyError;
use dd::pipeline::{copy_with_callback, ThreadedCopyConfig};

fn sample_content(n: usize) -> Vec<u8> {
    let mut v = Vec::with_capacity(n);
    for i in 0..n {
        v.push((i % 251) as u8);
    }
    v
}

fn run_copy(
    input: InputSource,
    output: OutputSource,
    buffer_size: usize,
    buffer_count: usize,
) -> (OutputSource, u64, Option<CopyError>, u64) {
    let mut input = input;
    let mut output = output;
    let total = Cell::new(0u64);
    let calls = Cell::new(0u64);
    let outcome = copy_with_callback(
        &mut input,
        &mut output,
        ThreadedCopyConfig { buffer_size, buffer_count },
        |d| {
            assert!(d > 0, "callback must only see positive deltas");
            total.set(total.get() + d);
            calls.set(calls.get() + 1);
        },
    );
    assert_eq!(
        total.get(),
        outcome.bytes_reported,
        "summed callback deltas must equal the reported total"
    );
    (output, outcome.bytes_reported, outcome.failure, calls.get())
}

fn written_of(output: &OutputSource) -> Vec<u8> {
    match output {
        OutputSource::File { written, .. } => written.clone(),
        OutputSource::Stdout { written } => written.clone(),
        _ => Vec::new(),
    }
}

#[test]
fn round_trip_is_identical_for_many_buffer_sizes() {
    let content = sample_content(1000);
    for buffer_size in [1usize, 3, 7, 512, 1000, 4096] {
        let input = InputSource::File { content: content.clone(), pos: 0 };
        let output = OutputSource::File { written: Vec::new(), capacity: None };
        let (output, reported, failure, _) = run_copy(input, output, buffer_size, 2);
        assert!(failure.is_none());
        assert_eq!(reported, 1000);
        assert_eq!(written_of(&output), content, "buffer size {buffer_size}");
    }
}

#[test]
fn round_trip_from_stdin_model() {
    let content = sample_content(123);
    let input = InputSource::Stdin { content: content.clone(), pos: 0 };
    let output = OutputSource::Stdout { written: Vec::new() };
    let (output, reported, failure, _) = run_copy(input, output, 16, 4);
    assert!(failure.is_none());
    assert_eq!(reported, 123);
    assert_eq!(written_of(&output), content);
}

#[test]
fn zero_generator_fills_capacity_with_zeros() {
    // A capacity of 10 with 4-byte buffers: exactly 10 zero bytes land,
    // and only the two whole buffers are ever reported.
    let input = InputSource::DevZero;
    let output = OutputSource::File { written: Vec::new(), capacity: Some(10) };
    let (output, reported, failure, _) = run_copy(input, output, 4, 3);
    assert_eq!(failure, Some(CopyError::WriteFailure));
    assert_eq!(written_of(&output), vec![0u8; 10]);
    assert_eq!(reported, 8);
}

#[test]
fn zero_generator_exact_multiple_capacity() {
    let input = InputSource::DevZero;
    let output = OutputSource::File { written: Vec::new(), capacity: Some(8) };
    let (output, reported, failure, _) = run_copy(input, output, 4, 2);
    assert_eq!(failure, Some(CopyError::WriteFailure));
    assert_eq!(written_of(&output), vec![0u8; 8]);
    assert_eq!(reported, 8);
}

#[test]
fn random_generator_same_target_same_length_different_content() {
    let run = || {
        let input = InputSource::DevUrandom;
        let output = OutputSource::File { written: Vec::new(), capacity: Some(64) };
        let (output, reported, failure, _) = run_copy(input, output, 16, 2);
        assert_eq!(failure, Some(CopyError::WriteFailure));
        assert_eq!(reported, 64);
        written_of(&output)
    };
    let first = run();
    let second = run();
    assert_eq!(first.len(), 64);
    assert_eq!(second.len(), 64);
    assert_ne!(first, second, "two random fills of 64 bytes should differ");
    assert_ne!(
        first,
        vec![0u8; 64],
        "a random fill should not leave the zeroed buffer unchanged"
    );
}

#[test]
fn full_simulator_fails_on_first_write_and_reports_nothing() {
    let content = sample_content(5);
    let input = InputSource::File { content, pos: 0 };
    let (_, reported, failure, calls) = run_copy(input, OutputSource::DevFull, 4096, 2);
    assert_eq!(failure, Some(CopyError::WriteFailure));
    assert_eq!(reported, 0);
    assert_eq!(calls, 0, "no byte count may be reported for a failed first write");
}

#[test]
fn full_simulator_fails_for_zero_generator_too() {
    let (_, reported, failure, _) = run_copy(InputSource::DevZero, OutputSource::DevFull, 8, 1);
    assert_eq!(failure, Some(CopyError::WriteFailure));
    assert_eq!(reported, 0);
}

#[test]
fn null_source_completes_immediately_with_nothing_written() {
    let output = OutputSource::File { written: Vec::new(), capacity: None };
    let (output, reported, failure, calls) = run_copy(InputSource::DevNull, output, 512, 4);
    assert!(failure.is_none());
    assert_eq!(reported, 0);
    assert_eq!(calls, 0);
    assert_eq!(written_of(&output), Vec::<u8>::new());
}

#[test]
fn null_sink_accepts_everything_and_counts_it() {
    let content = sample_content(300);
    let input = InputSource::File { content, pos: 0 };
    let (_, reported, failure, _) = run_copy(input, OutputSource::DevNull, 64, 2);
    assert!(failure.is_none());
    assert_eq!(reported, 300);
}

#[test]
fn finite_input_larger_than_capacity_keeps_exactly_what_fit() {
    let content = sample_content(100);
    let input = InputSource::File { content: content.clone(), pos: 0 };
    let output = OutputSource::File { written: Vec::new(), capacity: Some(33) };
    let (output, reported, failure, _) = run_copy(input, output, 10, 2);
    assert_eq!(failure, Some(CopyError::WriteFailure));
    assert_eq!(written_of(&output), content[..33].to_vec());
    assert_eq!(reported, 30, "only whole drained buffers are counted");
}

#[test]
fn end_to_end_file_transfer_scenario() {
    // A 10,000-byte regular file moved with 1,000-byte buffers, four in
    // flight: the output is identical and every byte is reported.
    let content = sample_content(10_000);
    let input = InputSource::File { content: content.clone(), pos: 0 };
    let output = OutputSource::File { written: Vec::new(), capacity: None };
    let (output, reported, failure, _) = run_copy(input, output, 1_000, 4);
    assert!(failure.is_none());
    assert_eq!(reported, 10_000);
    assert_eq!(written_of(&output), content);
}

#[test]
fn empty_input_to_the_full_simulator_never_writes() {
    let input = InputSource::File { content: Vec::new(), pos: 0 };
    let (_, reported, failure, calls) = run_copy(input, OutputSource::DevFull, 8, 1);
    assert!(failure.is_none(), "with nothing to write the simulator is never attempted");
    assert_eq!(reported, 0);
    assert_eq!(calls, 0);
}

#[test]
fn output_file_keeps_its_earlier_bytes() {
    let content = sample_content(10);
    let input = InputSource::File { content: content.clone(), pos: 0 };
    let output = OutputSource::File { written: vec![9u8, 9, 9], capacity: None };
    let (output, reported, failure, _) = run_copy(input, output, 4, 1);
    assert!(failure.is_none());
    assert_eq!(reported, 10);
    let mut expected = vec![9u8, 9, 9];
    expected.extend_from_slice(&content);
    assert_eq!(written_of(&output), expected);
}
