use v4_cli::client::{
    dump_rows, expect_success, memory_query_payload, word_query_payload, StackSnapshot, WordInfo,
};
use v4_cli::container::{container_bytecode, V4BytecodeHeader};
use v4_cli::error::{ContainerError, UsageError};
use v4_cli::meta::{
    dump_request, line_kind, meta_command, parse_decimal, see_request, LineKind, MetaCommand,
};
use v4_cli::protocol::frame::Response;
use v4_cli::repl::{on_reset_reply, CompileResult, UnitRun, UnitStep, WordDef, WordTable};
use v4_cli::serial::DEFAULT_BAUD_RATE;
use v4_cli::transport::{FrameAssembler, ReceivePhase};
use v4_cli::{calc_crc8, Command, ErrorCode, V4Error};

fn reply(code: u8, data: &[u8]) -> Vec<u8> {
    let len = data.len() + 1;
    let mut body = vec![(len % 256) as u8, (len / 256) as u8, code];
    body.extend_from_slice(data);
    let crc = calc_crc8(&body);
    let mut out = vec![0xA5];
    out.extend_from_slice(&body);
    out.push(crc);
    out
}

fn ok_reply(word_indices: &[u16]) -> Response {
    let mut data = Vec::new();
    for w in word_indices {
        data.extend_from_slice(&w.to_le_bytes());
    }
    Response::decode(Command::Exec, &reply(0x00, &data)).unwrap()
}

#[test]
fn test_default_baud_rate() {
    assert_eq!(DEFAULT_BAUD_RATE, 115200);
}

#[test]
fn assembler_skips_noise_and_joins_fragments() {
    let frame = reply(0x00, &[0x05, 0x00]);
    let mut assembler = FrameAssembler::new();
    assert_eq!(assembler.phase(), ReceivePhase::Seeking);
    assembler.feed(&[0x00, 0x13, 0x37]);
    assert!(assembler.next_frame().is_none());
    assert_eq!(assembler.phase(), ReceivePhase::Seeking);
    assembler.feed(&frame[..2]);
    assert!(assembler.next_frame().is_none());
    assert_eq!(assembler.phase(), ReceivePhase::HeaderPending);
    assembler.feed(&frame[2..5]);
    assert!(assembler.next_frame().is_none());
    assert_eq!(assembler.phase(), ReceivePhase::BodyPending);
    assembler.feed(&frame[5..]);
    assert_eq!(assembler.next_frame(), Some(frame.clone()));
    assert_eq!(assembler.phase(), ReceivePhase::Seeking);
}

#[test]
fn assembler_ignores_marker_inside_payload_and_keeps_the_rest() {
    let first = reply(0x00, &[0xA5, 0xA5, 0x01]);
    let second = reply(0x01, &[]);
    let mut stream = first.clone();
    stream.extend_from_slice(&second);
    let mut assembler = FrameAssembler::new();
    assembler.feed(&stream);
    assert_eq!(assembler.next_frame(), Some(first));
    assert_eq!(assembler.next_frame(), Some(second));
    assert!(assembler.next_frame().is_none());
}

#[test]
fn assembler_expire_drops_partial_frame() {
    let frame = reply(0x00, &[]);
    let mut assembler = FrameAssembler::new();
    assembler.feed(&frame[..3]);
    assert!(assembler.next_frame().is_none());
    assert!(matches!(assembler.expire(), V4Error::Timeout));
    assert_eq!(assembler.phase(), ReceivePhase::Seeking);
    assembler.feed(&frame);
    assert_eq!(assembler.next_frame(), Some(frame));
}

#[test]
fn stack_reply_renders_depths_and_values() {
    let data = [2, 0x01, 0, 0, 0, 0x02, 0, 0, 0, 0];
    let st = StackSnapshot::parse(&data).unwrap();
    assert_eq!(st.data_depth, 2);
    assert_eq!(st.data_stack, vec![1, 2]);
    assert_eq!(st.return_depth, Some(0));
    assert!(st.return_stack.is_empty());
}

#[test]
fn stack_reply_negative_values() {
    let data = [1, 0xFF, 0xFF, 0xFF, 0xFF, 1, 0x00, 0x00, 0x00, 0x80];
    let st = StackSnapshot::parse(&data).unwrap();
    assert_eq!(st.data_stack, vec![-1]);
    assert_eq!(st.return_depth, Some(1));
    assert_eq!(st.return_stack, vec![i32::MIN]);
}

#[test]
fn stack_reply_keeps_reported_depths_and_present_values() {
    let st = StackSnapshot::parse(&[0, 3]).unwrap();
    assert_eq!(st.data_depth, 0);
    assert!(st.data_stack.is_empty());
    assert_eq!(st.return_depth, Some(3));
    assert!(st.return_stack.is_empty());

    let st = StackSnapshot::parse(&[0, 2, 7, 0, 0, 0, 9]).unwrap();
    assert_eq!(st.return_depth, Some(2));
    assert_eq!(st.return_stack, vec![7]);

    let st = StackSnapshot::parse(&[2, 1, 0, 0, 0, 2, 0, 0, 0]).unwrap();
    assert_eq!(st.data_depth, 2);
    assert_eq!(st.data_stack, vec![1, 2]);
    assert_eq!(st.return_depth, None);
    assert!(st.return_stack.is_empty());

    let st = StackSnapshot::parse(&[3, 5, 0, 0, 0]).unwrap();
    assert_eq!(st.data_depth, 3);
    assert_eq!(st.data_stack, vec![5]);
    assert_eq!(st.return_depth, None);

    assert!(StackSnapshot::parse(&[]).is_none());
}

#[test]
fn word_reply_parses_name_and_code() {
    let data = [3, b'D', b'U', b'P', 2, 0, 0x10, 0x20];
    let w = WordInfo::parse(&data).unwrap();
    assert_eq!(w.name, b"DUP".to_vec());
    assert_eq!(w.code_len, 2);
    assert_eq!(w.code, vec![0x10, 0x20]);
}

#[test]
fn word_reply_keeps_declared_length() {
    let w = WordInfo::parse(&[0, 5, 0]).unwrap();
    assert!(w.name.is_empty());
    assert_eq!(w.code_len, 5);
    assert!(w.code.is_empty());
    let w = WordInfo::parse(&[3, b'D', b'U', b'P', 3, 0, 0x10]).unwrap();
    assert_eq!(w.code_len, 3);
    assert_eq!(w.code, vec![0x10]);
    assert!(WordInfo::parse(&[]).is_none());
    assert!(WordInfo::parse(&[4, b'A', b'B']).is_none());
    assert!(WordInfo::parse(&[1, b'A', 0]).is_none());
}

#[test]
fn query_payloads_are_little_endian() {
    assert_eq!(memory_query_payload(0x1234_5678, 0x0100), vec![0x78, 0x56, 0x34, 0x12, 0x00, 0x01]);
    assert_eq!(word_query_payload(0x0203), vec![0x03, 0x02]);
}

#[test]
fn device_errors_name_command_and_status() {
    let bad = Response::decode(Command::QueryStack, &reply(0x04, &[])).unwrap();
    match expect_success(Command::QueryStack, bad) {
        Err(V4Error::Device { command, code, word }) => {
            assert_eq!(command, Command::QueryStack);
            assert_eq!(code, ErrorCode::VmError);
            assert!(word.is_none());
        }
        other => panic!("unexpected {:?}", other),
    }
    let good = Response::decode(Command::QueryStack, &reply(0x00, &[0, 0])).unwrap();
    assert_eq!(good.data, vec![0, 0]);
    assert!(expect_success(Command::QueryStack, good).is_ok());
}

#[test]
fn dump_rows_of_sixteen_with_text_column() {
    let data: Vec<u8> = (0x3Cu8..0x3Cu8 + 20).chain([0x00, 0x7F]).collect();
    let rows = dump_rows(0x100, &data);
    assert_eq!(rows.len(), 2);
    assert_eq!(rows[0].offset, 0x100);
    assert_eq!(rows[1].offset, 0x110);
    assert_eq!(rows[0].bytes, data[..16].to_vec());
    assert_eq!(rows[1].bytes, data[16..].to_vec());
    assert_eq!(rows[0].text, data[..16].to_vec());
    assert_eq!(rows[1].text, vec![0x4C, 0x4D, 0x4E, 0x4F, b'.', b'.']);
    assert!(dump_rows(0, &[]).is_empty());
}

#[test]
fn decimal_arguments() {
    assert_eq!(parse_decimal(b"4096", u32::MAX), Some(4096));
    assert_eq!(parse_decimal(b"+7", u32::MAX), Some(7));
    assert_eq!(parse_decimal(b"4294967295", u32::MAX), Some(u32::MAX));
    assert_eq!(parse_decimal(b"4294967296", u32::MAX), None);
    assert_eq!(parse_decimal(b"65536", 65535), None);
    assert_eq!(parse_decimal(b"", u32::MAX), None);
    assert_eq!(parse_decimal(b"+", u32::MAX), None);
    assert_eq!(parse_decimal(b"0x10", u32::MAX), None);
    assert_eq!(parse_decimal(b"-1", u32::MAX), None);
}

#[test]
fn dump_and_see_requests() {
    assert_eq!(dump_request(None, None).unwrap(), (0, 256));
    assert_eq!(dump_request(Some(b"32"), None).unwrap(), (32, 256));
    assert_eq!(dump_request(Some(b"32"), Some(b"1000")).unwrap(), (32, 256));
    assert_eq!(dump_request(Some(b"32"), Some(b"8")).unwrap(), (32, 8));
    assert!(matches!(
        dump_request(Some(b"x"), Some(b"8")),
        Err(V4Error::Usage(UsageError::InvalidAddress))
    ));
    assert!(matches!(
        dump_request(Some(b"1"), Some(b"70000")),
        Err(V4Error::Usage(UsageError::InvalidLength))
    ));
    assert_eq!(see_request(Some(b"12")).unwrap(), 12);
    assert!(matches!(see_request(None), Err(V4Error::Usage(UsageError::MissingWordIndex))));
    assert!(matches!(
        see_request(Some(b"abc")),
        Err(V4Error::Usage(UsageError::InvalidWordIndex))
    ));
}

#[test]
fn container_header_is_stripped() {
    let mut file = b"V4BC".to_vec();
    file.extend_from_slice(&[1, 2, 0x03, 0x00, 3, 0, 0, 0, 0, 0, 0, 0]);
    file.extend_from_slice(&[0xAA, 0xBB, 0xCC]);
    let h = V4BytecodeHeader::parse(&file).unwrap();
    assert_eq!(h.magic, *b"V4BC");
    assert_eq!(h.version_major, 1);
    assert_eq!(h.version_minor, 2);
    assert_eq!(h.flags, 3);
    assert_eq!(h.code_size, 3);
    assert_eq!(container_bytecode(&file).unwrap(), vec![0xAA, 0xBB, 0xCC]);
    assert!(matches!(
        container_bytecode(&file[..15]),
        Err(V4Error::Container(ContainerError::TooShort { len: 15 }))
    ));
    assert!(matches!(
        container_bytecode(&file[..16]),
        Err(V4Error::Container(ContainerError::EmptyBytecode))
    ));
    let mut bad = file.clone();
    bad[3] = b'X';
    assert!(matches!(container_bytecode(&bad), Err(V4Error::Container(ContainerError::BadMagic))));
}

#[test]
fn word_table_registers_shadows_and_resets() {
    let mut table = WordTable::new();
    assert_eq!(table.resolve("SQUARE"), None);
    table.register_word_index("SQUARE", 0);
    table.register_word_index("LED_ON", 1);
    assert_eq!(table.resolve("SQUARE"), Some(0));
    table.register_word_index("SQUARE", 5);
    assert_eq!(table.resolve("SQUARE"), Some(5));
    assert_eq!(table.resolve("LED_ON"), Some(1));
    assert_eq!(table.len(), 3);
    table.reset();
    assert_eq!(table.resolve("SQUARE"), None);
    assert_eq!(table.len(), 0);
}

#[test]
fn reset_reply_clears_table_only_on_success() {
    let mut table = WordTable::new();
    table.register_word_index("TEST", 4);
    match on_reset_reply(ErrorCode::Error, &mut table) {
        Err(V4Error::Device { command: Command::Reset, code: ErrorCode::Error, word: None }) => {}
        other => panic!("unexpected {:?}", other),
    }
    assert_eq!(table.resolve("TEST"), Some(4));
    assert!(on_reset_reply(ErrorCode::Success, &mut table).is_ok());
    assert_eq!(table.resolve("TEST"), None);
}

#[test]
fn unit_installs_word_then_registers_returned_index() {
    let compiled = CompileResult {
        words: vec![WordDef { name: "DOUBLE".to_string(), bytecode: vec![0x01, 0x02] }],
        bytecode: vec![],
    };
    let mut table = WordTable::new();
    let mut run = UnitRun::start(compiled);
    assert_eq!(run.step(), UnitStep::InstallWord(0));
    assert!(run.on_exec_reply(&ok_reply(&[7, 9])).is_ok());
    assert_eq!(run.step(), UnitStep::RegisterWord { word: 0, index: 7 });
    run.on_registered(&mut table);
    assert_eq!(run.step(), UnitStep::Finished);
    assert_eq!(table.resolve("DOUBLE"), Some(7));
}

#[test]
fn unit_runs_body_after_words_and_stops_on_failure() {
    let compiled = CompileResult {
        words: vec![
            WordDef { name: "A".to_string(), bytecode: vec![1] },
            WordDef { name: "B".to_string(), bytecode: vec![2] },
        ],
        bytecode: vec![9],
    };
    let mut table = WordTable::new();
    let mut run = UnitRun::start(compiled.clone());
    assert!(run.on_exec_reply(&ok_reply(&[])).is_ok());
    assert_eq!(run.step(), UnitStep::InstallWord(1));
    assert!(run.on_exec_reply(&ok_reply(&[3])).is_ok());
    run.on_registered(&mut table);
    assert_eq!(run.step(), UnitStep::RunBody);
    assert!(run.on_exec_reply(&ok_reply(&[])).is_ok());
    assert_eq!(run.step(), UnitStep::Finished);
    assert_eq!(table.resolve("B"), Some(3));
    assert_eq!(table.resolve("A"), None);

    let mut failing = UnitRun::start(compiled);
    let refused = Response::decode(Command::Exec, &reply(0x03, &[])).unwrap();
    match failing.on_exec_reply(&refused) {
        Err(V4Error::Device { command: Command::Exec, code: ErrorCode::BufferFull, word }) => {
            assert_eq!(word.as_deref(), Some("A"));
        }
        other => panic!("unexpected {:?}", other),
    }
    assert_eq!(failing.step(), UnitStep::Finished);
}

#[test]
fn unit_with_only_a_body_runs_it() {
    let compiled = CompileResult { words: vec![], bytecode: vec![1, 2] };
    let mut run = UnitRun::start(compiled);
    assert_eq!(run.step(), UnitStep::RunBody);
    let failed = Response::decode(Command::Exec, &reply(0x04, &[])).unwrap();
    assert!(matches!(
        run.on_exec_reply(&failed),
        Err(V4Error::Device { code: ErrorCode::VmError, word: None, .. })
    ));
    let empty = UnitRun::start(CompileResult { words: vec![], bytecode: vec![] });
    assert_eq!(empty.step(), UnitStep::Finished);
}

#[test]
fn refused_registration_is_a_compilation_error() {
    let compiled = CompileResult {
        words: vec![WordDef { name: "X".to_string(), bytecode: vec![1] }],
        bytecode: vec![5],
    };
    let mut run = UnitRun::start(compiled);
    assert!(run.on_exec_reply(&ok_reply(&[2])).is_ok());
    let e = run.on_register_refused("unknown word".to_string());
    assert!(matches!(e, V4Error::Compilation(ref m) if m == "unknown word"));
    assert_eq!(run.step(), UnitStep::Finished);
}

#[test]
fn session_lines_are_sorted() {
    assert_eq!(line_kind(b""), LineKind::Blank);
    assert_eq!(line_kind(b"bye"), LineKind::Exit);
    assert_eq!(line_kind(b"quit"), LineKind::Exit);
    assert_eq!(line_kind(b".exit"), LineKind::Exit);
    assert_eq!(line_kind(b"bye now"), LineKind::Source);
    assert_eq!(line_kind(b".dump 0 16"), LineKind::Meta);
    assert_eq!(line_kind(b"1 2 +"), LineKind::Source);
    assert_eq!(meta_command(b".help"), MetaCommand::Help);
    assert_eq!(meta_command(b".ping"), MetaCommand::Ping);
    assert_eq!(meta_command(b".reset"), MetaCommand::Reset);
    assert_eq!(meta_command(b".stack"), MetaCommand::Stack);
    assert_eq!(meta_command(b".rstack"), MetaCommand::RStack);
    assert_eq!(meta_command(b".dump"), MetaCommand::Dump);
    assert_eq!(meta_command(b".see"), MetaCommand::See);
    assert_eq!(meta_command(b".exit"), MetaCommand::Exit);
    assert_eq!(meta_command(b".stacks"), MetaCommand::Unknown);
    assert_eq!(meta_command(b"help"), MetaCommand::Unknown);
}
