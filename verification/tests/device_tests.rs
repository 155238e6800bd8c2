use dd::buffer::{create_buffer, DataBuffer};
use dd::cli::Cli;
use dd::device::{
    is_special_dev, resolve_input, resolve_output, validate_special_device_combo, InputSelection,
    OutputSelection,
};
use dd::errors::CopyError;
use dd::progress::{uses_bounded_bar, ProgressTracker, ProgressType, TransferCounter};

fn s(text: &str) -> String {
    text.to_owned()
}

#[test]
fn special_device_names_are_recognized_exactly() {
    for name in ["/dev/null", "/dev/zero", "/dev/urandom", "/dev/random", "/dev/full"] {
        assert!(is_special_dev(&s(name)), "{name}");
    }
    for name in ["/dev/sda", "/dev/NULL", "/dev/zero/", "dev/zero", "", "/tmp/out.bin"] {
        assert!(!is_special_dev(&s(name)), "{name}");
    }
}

#[test]
fn special_to_special_is_rejected() {
    let r = validate_special_device_combo(Some(&s("/dev/zero")), Some(&s("/dev/null")));
    assert_eq!(r, Err(CopyError::InvalidCombination));
    let r = validate_special_device_combo(Some(&s("/dev/full")), Some(&s("/dev/random")));
    assert_eq!(r, Err(CopyError::InvalidCombination));
}

#[test]
fn other_combinations_are_permitted() {
    assert!(validate_special_device_combo(Some(&s("/dev/zero")), Some(&s("/tmp/out"))).is_ok());
    assert!(validate_special_device_combo(Some(&s("/tmp/in")), Some(&s("/dev/null"))).is_ok());
    assert!(validate_special_device_combo(Some(&s("/tmp/in")), Some(&s("/tmp/out"))).is_ok());
    assert!(validate_special_device_combo(None, Some(&s("/dev/null"))).is_ok());
    assert!(validate_special_device_combo(Some(&s("/dev/zero")), None).is_ok());
    assert!(validate_special_device_combo(None, None).is_ok());
}

#[test]
fn input_paths_resolve_to_their_variants() {
    assert_eq!(resolve_input(None), InputSelection::Stdin);
    assert_eq!(resolve_input(Some(&s("/dev/null"))), InputSelection::DevNull);
    assert_eq!(resolve_input(Some(&s("/dev/zero"))), InputSelection::DevZero);
    assert_eq!(resolve_input(Some(&s("/dev/urandom"))), InputSelection::DevUrandom);
    assert_eq!(resolve_input(Some(&s("/dev/random"))), InputSelection::DevUrandom);
    // The full simulator is an output device; as an input it is a file.
    assert_eq!(resolve_input(Some(&s("/dev/full"))), InputSelection::RegularFile);
    assert_eq!(resolve_input(Some(&s("/tmp/in"))), InputSelection::RegularFile);
}

#[test]
fn output_paths_resolve_to_their_variants() {
    assert_eq!(resolve_output(None), OutputSelection::Stdout);
    assert_eq!(resolve_output(Some(&s("/dev/null"))), OutputSelection::DevNull);
    assert_eq!(resolve_output(Some(&s("/dev/full"))), OutputSelection::DevFull);
    // The generators are input devices; as outputs they are files.
    assert_eq!(resolve_output(Some(&s("/dev/zero"))), OutputSelection::RegularFile);
    assert_eq!(resolve_output(Some(&s("/dev/urandom"))), OutputSelection::RegularFile);
    assert_eq!(resolve_output(Some(&s("/tmp/out"))), OutputSelection::RegularFile);
}

#[test]
fn error_messages_name_their_condition() {
    assert_eq!(
        CopyError::InvalidCombination.message(),
        "cannot copy from a special device to a special device"
    );
    assert_eq!(CopyError::OpenFailure.message(), "could not open the endpoint");
    assert_eq!(CopyError::ReadFailure.message(), "read error");
    assert_eq!(CopyError::WriteFailure.message(), "no space left on device");
    assert_eq!(
        CopyError::MountBlocked.message(),
        "device is mounted and could not be unmounted"
    );
}

#[test]
fn created_buffers_are_zero_filled() {
    let buf = create_buffer(513);
    assert_eq!(buf.len(), 513);
    assert!(buf.iter().all(|b| *b == 0));
    assert_eq!(create_buffer(0).len(), 0);
}

#[test]
fn fresh_data_buffers_expose_no_valid_bytes() {
    let buf = DataBuffer::new(64);
    assert_eq!(buf.as_slice(), &[] as &[u8]);
}

#[test]
fn transfer_counter_accumulates_and_saturates() {
    let mut c = TransferCounter::new();
    assert_eq!(c.get(), 0);
    c.add(100);
    c.add(23);
    assert_eq!(c.get(), 123);
    let mut big = TransferCounter { total: u64::MAX - 1 };
    big.add(usize::MAX);
    assert_eq!(big.get(), u64::MAX);
}

#[test]
fn tracker_deltas_sum_to_the_total() {
    let mut t = ProgressTracker::new();
    let samples = [0u64, 10, 10, 250, 1000];
    let mut sum = 0u64;
    for cur in samples {
        sum += t.sample(cur);
    }
    assert_eq!(sum, 1000);
}

#[test]
fn bounded_bar_only_for_known_non_stream_targets() {
    assert!(uses_bounded_bar(Some(10), &ProgressType::FileTransfer));
    assert!(uses_bounded_bar(Some(10), &ProgressType::FillWithZeros));
    assert!(uses_bounded_bar(Some(10), &ProgressType::FillWithRandom));
    assert!(!uses_bounded_bar(Some(10), &ProgressType::StreamTransfer));
    assert!(!uses_bounded_bar(None, &ProgressType::FileTransfer));
    assert!(!uses_bounded_bar(None, &ProgressType::FillWithRandom));
}

#[test]
fn completion_messages_match_the_kind() {
    assert_eq!(ProgressType::FileTransfer.completion_message(), "File copy complete!");
    assert_eq!(ProgressType::StreamTransfer.completion_message(), "Stream complete!");
    assert_eq!(
        ProgressType::FillWithZeros.completion_message(),
        "Data has been overwritten with zeros!"
    );
    assert_eq!(
        ProgressType::FillWithRandom.completion_message(),
        "Data has been overwritten with random data!"
    );
}

#[test]
fn cli_carries_the_caller_surface() {
    let cli = Cli { input: Some(s("/dev/zero")), output: None, block_size: 512 };
    assert_eq!(cli.input.as_deref(), Some("/dev/zero"));
    assert!(cli.output.is_none());
    assert_eq!(cli.block_size, 512);
}
