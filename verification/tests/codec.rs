use muse_core::encode_command;

#[test]
fn encode_halt_command() {
    // The marker byte is overwritten with (total length - 1), so "h" frames
    // as [2, 'h', '\n'].
    assert_eq!(encode_command(b"h"), vec![2u8, 0x68, 0x0a]);
}

#[test]
fn encode_preset_command() {
    assert_eq!(encode_command(b"p50"), vec![4u8, 0x70, 0x35, 0x30, 0x0a]);
}

#[test]
fn encode_single_letter_commands() {
    assert_eq!(encode_command(b"s"), vec![2u8, 0x73, 0x0a]);
    assert_eq!(encode_command(b"d"), vec![2u8, 0x64, 0x0a]);
}

#[test]
fn encode_empty_command() {
    assert_eq!(encode_command(b""), vec![1u8, 0x0a]);
}

#[test]
fn encode_longest_command() {
    let cmd = vec![0x61u8; 253];
    let frame = encode_command(&cmd);
    assert_eq!(frame.len(), 255);
    assert_eq!(frame[0], 254);
    assert_eq!(&frame[1..254], &cmd[..]);
    assert_eq!(frame[254], 0x0a);
}
