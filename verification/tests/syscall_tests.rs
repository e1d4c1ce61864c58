use trace_core::syscall::{
    cycle_count_ecall, exit, read_from_private_input, read_private_input_frame, write_log,
    CYCLE_COUNT_CODE, EXIT_CODE, PRIVATE_INPUT_EXHAUSTED, READ_PRIVATE_INPUT_CODE, WRITE_LOG_CODE,
};

#[test]
fn test_write_log_frame() {
    let f = write_log(17);
    assert_eq!(f.code, WRITE_LOG_CODE);
    assert_eq!(f.code, 512);
    assert_eq!(f.arg0, 1);
    assert_eq!(f.arg2, 17);
}

#[test]
fn test_exit_frame() {
    let f = exit(3);
    assert_eq!(f.code, EXIT_CODE);
    assert_eq!(f.code, 513);
    assert_eq!(f.arg0, 3);
}

#[test]
fn test_read_private_input_frame() {
    let f = read_private_input_frame();
    assert_eq!(f.code, READ_PRIVATE_INPUT_CODE);
    assert_eq!(f.code, 1024);
}

#[test]
fn test_cycle_count_frame() {
    let f = cycle_count_ecall(9);
    assert_eq!(f.code, CYCLE_COUNT_CODE);
    assert_eq!(f.code, 1025);
    assert_eq!(f.arg1, 9);
}

#[test]
fn test_private_input_sentinel_decoding() {
    assert_eq!(read_from_private_input(PRIVATE_INPUT_EXHAUSTED), None);
    assert_eq!(read_from_private_input(0), Some(0));
    assert_eq!(read_from_private_input(0x41), Some(0x41));
    // Only the lowest byte carries the value.
    assert_eq!(read_from_private_input(0x1234_5678), Some(0x78));
    assert_eq!(read_from_private_input(u32::MAX - 1), Some(0xFE));
}
