use io_stack::OpenResult;
use io_stack::errors::IoError;
use io_stack::genuine_stdout::GenuineStdoutIo;
use io_stack::input::{BufferStream, GzInput, InputFeatures, InputHandle, SeekFrom};
use io_stack::memory::MemoryIo;
use io_stack::output::{OutputHandle, Sink};
use io_stack::provider::IoProvider;
use io_stack::scripted::{ScriptedIo, ScriptedReply};
use io_stack::stack::{IoStack, Provider};
use io_stack::status::DiagnosticsSink;

// SHA3-256 of the empty input, the FIPS 202 reference value.
const EMPTY_DIGEST: [u8; 32] = [
    0xa7, 0xff, 0xc6, 0xf8, 0xbf, 0x1e, 0xd7, 0x66, 0x51, 0xc1, 0x47, 0x56, 0xa0, 0x61, 0xd6,
    0x62, 0xf5, 0x80, 0xff, 0x4d, 0xe4, 0x3b, 0x49, 0xfa, 0x82, 0xd8, 0x0a, 0x4b, 0x80, 0xf8,
    0x43, 0x4a,
];

// SHA3-256 of b"abc", the FIPS 202 reference value.
const ABC_DIGEST: [u8; 32] = [
    0x3a, 0x98, 0x5d, 0xa7, 0x4f, 0xe2, 0x25, 0xb2, 0x04, 0x5c, 0x17, 0x2d, 0x6b, 0xd3, 0x90,
    0xbd, 0x85, 0x5f, 0x08, 0x6e, 0x3e, 0x9d, 0x52, 0x5b, 0x46, 0xbf, 0xe2, 0x45, 0x11, 0x43,
    0x15, 0x32,
];

fn memory_handle(name: &[u8]) -> OutputHandle {
    OutputHandle::new(name, Sink::Memory(Vec::new()))
}

fn write_all(h: &mut OutputHandle, mut bytes: &[u8]) {
    while !bytes.is_empty() {
        let n = h.write(bytes).expect("memory sink write");
        assert!(n > 0);
        bytes = &bytes[n..];
    }
}

#[test]
fn digest_of_empty_output_is_known_answer() {
    let h = memory_handle(b"log");
    let (name, digest) = h.into_name_digest();
    assert_eq!(name, b"log".to_vec());
    assert_eq!(digest, EMPTY_DIGEST);
}

#[test]
fn digest_of_abc_is_known_answer() {
    let mut h = memory_handle(b"out.pdf");
    write_all(&mut h, b"abc");
    let (_, digest) = h.into_name_digest();
    assert_eq!(digest, ABC_DIGEST);
}

#[test]
fn chunked_writes_digest_like_one_write() {
    let mut whole = memory_handle(b"a");
    write_all(&mut whole, b"hello, chunked world");

    let mut chunked = memory_handle(b"a");
    for piece in [&b"hel"[..], &b"lo, chu"[..], &b""[..], &b"nked world"[..]] {
        write_all(&mut chunked, piece);
    }

    let (_, d1) = whole.into_name_digest();
    let (_, d2) = chunked.into_name_digest();
    assert_eq!(d1, d2);
}

#[test]
fn flush_leaves_digest_alone() {
    let mut a = memory_handle(b"x");
    write_all(&mut a, b"abc");
    a.flush().expect("flush");
    let (_, d) = a.into_name_digest();
    assert_eq!(d, ABC_DIGEST);
}

#[test]
fn handle_name_is_readable_many_times() {
    let h = memory_handle(b"paper.xdv");
    assert_eq!(h.name().as_slice(), b"paper.xdv");
    assert_eq!(h.name().as_slice(), b"paper.xdv");
    let (name, _) = h.into_name_digest();
    assert_eq!(name, b"paper.xdv".to_vec());
}

#[test]
fn buffer_stream_knows_its_exact_size() {
    let mut s = BufferStream::new(b"0123456789".to_vec());
    assert_eq!(s.get_size(), Ok(10));
    // Reading does not change the total size.
    let _ = s.read_chunk(4);
    assert_eq!(s.get_size(), Ok(10));
}

#[test]
fn buffer_stream_seeks_and_reads_from_new_offset() {
    let mut s = BufferStream::new(b"0123456789".to_vec());
    assert_eq!(s.try_seek(SeekFrom::Start(4)), Ok(4));
    assert_eq!(s.read_chunk(3), b"456".to_vec());
    assert_eq!(s.try_seek(SeekFrom::End(-2)), Ok(8));
    assert_eq!(s.read_chunk(10), b"89".to_vec());
    assert_eq!(s.try_seek(SeekFrom::Start(1)), Ok(1));
    assert_eq!(s.try_seek(SeekFrom::Current(2)), Ok(3));
    assert_eq!(s.read_chunk(2), b"34".to_vec());
}

#[test]
fn buffer_stream_rejects_seek_before_start() {
    let mut s = BufferStream::new(b"abc".to_vec());
    assert_eq!(s.try_seek(SeekFrom::End(-4)), Err(IoError::Io));
    assert_eq!(s.try_seek(SeekFrom::Current(-1)), Err(IoError::Io));
    // The failed seeks left the position alone.
    assert_eq!(s.read_chunk(3), b"abc".to_vec());
}

#[test]
fn buffer_stream_past_end_reads_nothing() {
    let mut s = BufferStream::new(b"abc".to_vec());
    assert_eq!(s.try_seek(SeekFrom::Start(100)), Ok(100));
    assert_eq!(s.read_chunk(5), Vec::<u8>::new());
}

fn gzip(data: &[u8]) -> Vec<u8> {
    let mut enc = flate2::write::GzEncoder::new(Vec::new(), flate2::Compression::default());
    std::io::Write::write_all(&mut enc, data).expect("gzip write");
    enc.finish().expect("gzip finish")
}

#[test]
fn gz_stream_is_never_sizeable_or_seekable() {
    let mut s = GzInput::new(gzip(b"some fairly long decompressible content"));
    assert_eq!(s.get_size(), Err(IoError::NotSizeable));
    assert_eq!(s.try_seek(SeekFrom::Start(0)), Err(IoError::NotSeekable));
    assert_eq!(s.try_seek(SeekFrom::End(0)), Err(IoError::NotSeekable));
    // The answers do not depend on how much has been read.
    let _ = s.read_chunk(5).expect("gz read");
    assert_eq!(s.get_size(), Err(IoError::NotSizeable));
    assert_eq!(s.try_seek(SeekFrom::Current(1)), Err(IoError::NotSeekable));
}

#[test]
fn gz_stream_hands_out_the_decompressed_bytes() {
    let mut s = GzInput::new(gzip(b"hello gzip world"));
    let mut out = Vec::new();
    loop {
        let chunk = s.read_chunk(7).expect("gz read");
        if chunk.is_empty() {
            break;
        }
        out.extend_from_slice(&chunk);
    }
    assert_eq!(out, b"hello gzip world".to_vec());
}

#[test]
fn gz_stream_fails_hard_on_garbage() {
    let mut s = GzInput::new(b"this is not a gzip stream at all".to_vec());
    assert_eq!(s.read_chunk(8), Err(IoError::Io));
}

#[test]
fn memory_provider_serves_inserted_bytes() {
    let mut status = DiagnosticsSink::new();
    let mut m = MemoryIo::new();
    m.insert(b"a.tex".to_vec(), b"hi".to_vec());
    match m.input_open_name(b"a.tex", &mut status) {
        OpenResult::Found(mut h) => {
            assert_eq!(h.read_chunk(16), Ok(b"hi".to_vec()));
            assert_eq!(h.read_chunk(16), Ok(Vec::new()));
        }
        _ => panic!("expected Found"),
    }
    match m.input_open_name(b"other.tex", &mut status) {
        OpenResult::NotAvailable => {}
        _ => panic!("expected NotAvailable"),
    }
}

#[test]
fn memory_provider_later_insert_shadows_earlier() {
    let mut status = DiagnosticsSink::new();
    let mut m = MemoryIo::new();
    m.insert(b"a".to_vec(), b"first".to_vec());
    m.insert(b"a".to_vec(), b"second".to_vec());
    match m.input_open_name(b"a", &mut status) {
        OpenResult::Found(mut h) => assert_eq!(h.read_chunk(16), Ok(b"second".to_vec())),
        _ => panic!("expected Found"),
    }
}

#[test]
fn memory_provider_output_handle_digests() {
    let mut m = MemoryIo::new();
    match m.output_open_name(b"out.log") {
        OpenResult::Found(mut h) => {
            write_all(&mut h, b"abc");
            let (name, digest) = h.into_name_digest();
            assert_eq!(name, b"out.log".to_vec());
            assert_eq!(digest, ABC_DIGEST);
        }
        _ => panic!("expected Found"),
    }
}

fn serving(name: &[u8], content: &[u8]) -> ScriptedIo {
    let mut s = ScriptedIo::new();
    s.script_input(name.to_vec(), ScriptedReply::Serve(content.to_vec()));
    s
}

fn failing(name: &[u8], e: IoError) -> ScriptedIo {
    let mut s = ScriptedIo::new();
    s.script_input(name.to_vec(), ScriptedReply::Fail(e));
    s
}

#[test]
fn stack_first_match_wins_and_later_providers_see_nothing() {
    let mut status = DiagnosticsSink::new();
    let a = serving(b"n", b"aaa");
    let b = serving(b"n", b"bbb");
    let c = serving(b"n", b"ccc");
    let mut stack = IoStack::new(vec![a, b, c], ScriptedIo::new());
    match stack.input_open_name(b"n", &mut status) {
        OpenResult::Found(mut h) => assert_eq!(h.read_chunk(16), Ok(b"aaa".to_vec())),
        _ => panic!("expected Found"),
    }
    assert_eq!(stack.providers[0].input_calls, 1);
    assert_eq!(stack.providers[1].input_calls, 0);
    assert_eq!(stack.providers[2].input_calls, 0);
}

#[test]
fn stack_fails_fast_without_probing_later_providers() {
    let mut status = DiagnosticsSink::new();
    let a = ScriptedIo::new();
    let b = failing(b"n", IoError::Io);
    let c = serving(b"n", b"stale");
    let mut stack = IoStack::new(vec![a, b, c], ScriptedIo::new());
    match stack.input_open_name(b"n", &mut status) {
        OpenResult::HardError(e) => assert_eq!(e, IoError::Io),
        _ => panic!("expected HardError"),
    }
    assert_eq!(stack.providers[0].input_calls, 1);
    assert_eq!(stack.providers[1].input_calls, 1);
    assert_eq!(stack.providers[2].input_calls, 0);
}

#[test]
fn stack_reports_not_available_when_all_absent() {
    let mut status = DiagnosticsSink::new();
    let mut stack = IoStack::new(
        vec![ScriptedIo::new(), ScriptedIo::new(), ScriptedIo::new()],
        ScriptedIo::new(),
    );
    match stack.input_open_name(b"n", &mut status) {
        OpenResult::NotAvailable => {}
        _ => panic!("expected NotAvailable"),
    }
    assert_eq!(stack.providers[0].input_calls, 1);
    assert_eq!(stack.providers[1].input_calls, 1);
    assert_eq!(stack.providers[2].input_calls, 1);
}

#[test]
fn stack_output_lookup_fails_fast_too() {
    let a = ScriptedIo::new();
    let mut b = ScriptedIo::new();
    b.script_output(b"x".to_vec(), ScriptedReply::Fail(IoError::Io));
    let c = ScriptedIo::new();
    let mut stack = IoStack::new(vec![a, b, c], ScriptedIo::new());
    match stack.output_open_name(b"x") {
        OpenResult::HardError(e) => assert_eq!(e, IoError::Io),
        _ => panic!("expected HardError"),
    }
    assert_eq!(stack.providers[0].output_calls, 1);
    assert_eq!(stack.providers[1].output_calls, 1);
    assert_eq!(stack.providers[2].output_calls, 0);
}

#[test]
fn stack_stdout_goes_only_to_the_designated_provider() {
    let generic = Provider::Scripted(ScriptedIo::new());
    let mut stack = IoStack::new(vec![generic], Provider::Stdout(GenuineStdoutIo::new()));
    match stack.output_open_stdout() {
        OpenResult::Found(h) => {
            // Nothing was written, so the digest is that of the empty input.
            let (name, digest) = h.into_name_digest();
            assert_eq!(name, Vec::<u8>::new());
            assert_eq!(digest, EMPTY_DIGEST);
        }
        _ => panic!("expected Found"),
    }
    match &stack.providers[0] {
        Provider::Scripted(s) => assert_eq!(s.stdout_calls, 0),
        _ => panic!("unexpected provider kind"),
    }
}

#[test]
fn memory_layer_shadows_a_base_layer_end_to_end() {
    let mut status = DiagnosticsSink::new();
    let mut over = MemoryIo::new();
    over.insert(b"a.tex".to_vec(), b"hi".to_vec());
    // The base layer also holds a (different) "a.tex", like a directory on
    // disk would; a scripted provider stands in for it so that its probes
    // can be counted.
    let base = serving(b"a.tex", b"\\documentclass{article}");
    let mut stack = IoStack::new(
        vec![Provider::Memory(over), Provider::Scripted(base)],
        Provider::Stdout(GenuineStdoutIo::new()),
    );
    match stack.input_open_name(b"a.tex", &mut status) {
        OpenResult::Found(mut h) => assert_eq!(h.read_chunk(16), Ok(b"hi".to_vec())),
        _ => panic!("expected Found"),
    }
    match &stack.providers[1] {
        Provider::Scripted(s) => assert_eq!(s.input_calls, 0),
        _ => panic!("unexpected provider kind"),
    }
}

#[test]
fn input_and_output_probe_orders_are_independent() {
    let mut status = DiagnosticsSink::new();
    let mut a = serving(b"n", b"from-a");
    a.script_output(b"n".to_vec(), ScriptedReply::Serve(Vec::new()));
    let mut b = serving(b"n", b"from-b");
    b.script_output(b"n".to_vec(), ScriptedReply::Serve(Vec::new()));
    // Inputs probe provider 1 first; outputs probe provider 0 first.
    let mut stack =
        IoStack::new_with_orders(vec![a, b], vec![1, 0], vec![0, 1], ScriptedIo::new());

    match stack.input_open_name(b"n", &mut status) {
        OpenResult::Found(mut h) => assert_eq!(h.read_chunk(16), Ok(b"from-b".to_vec())),
        _ => panic!("expected Found"),
    }
    assert_eq!(stack.providers[0].input_calls, 0);
    assert_eq!(stack.providers[1].input_calls, 1);

    match stack.output_open_name(b"n") {
        OpenResult::Found(h) => assert_eq!(h.name().as_slice(), b"n"),
        _ => panic!("expected Found"),
    }
    assert_eq!(stack.providers[0].output_calls, 1);
    assert_eq!(stack.providers[1].output_calls, 0);
}

#[test]
fn stack_lookup_appends_no_diagnostics_from_silent_providers() {
    let mut status = DiagnosticsSink::new();
    status.note(String::from("before"));
    let mut stack = IoStack::new(vec![serving(b"n", b"x"), ScriptedIo::new()], ScriptedIo::new());
    let _ = stack.input_open_name(b"n", &mut status);
    let _ = stack.input_open_name(b"missing", &mut status);
    assert_eq!(status.messages, vec![String::from("before")]);
}

#[test]
fn diagnostics_sink_collects_messages_in_order() {
    let mut status = DiagnosticsSink::new();
    status.note(String::from("fetching resource"));
    status.note(String::from("done"));
    assert_eq!(status.messages, vec![
        String::from("fetching resource"),
        String::from("done"),
    ]);
}

#[test]
fn read_to_end_is_the_fallback_for_sizeless_streams() {
    let mut h = InputHandle::Gz(GzInput::new(gzip(b"the whole decompressed payload")));
    assert_eq!(h.get_size(), Err(IoError::NotSizeable));
    assert_eq!(h.read_to_end(), Ok(b"the whole decompressed payload".to_vec()));
    assert_eq!(h.read_to_end(), Ok(Vec::new()));

    let mut b = InputHandle::Buffer(BufferStream::new(b"abc".to_vec()));
    let _ = b.read_chunk(1);
    assert_eq!(b.read_to_end(), Ok(b"bc".to_vec()));
}

#[test]
fn input_handle_capabilities_follow_the_stream_kind() {
    let mut buffered = InputHandle::Buffer(BufferStream::new(b"xyz".to_vec()));
    assert_eq!(buffered.get_size(), Ok(3));
    assert_eq!(buffered.try_seek(SeekFrom::Start(1)), Ok(1));
    assert_eq!(buffered.read_chunk(8), Ok(b"yz".to_vec()));

    let mut unzipping = InputHandle::Gz(GzInput::new(gzip(b"xyz")));
    assert_eq!(unzipping.get_size(), Err(IoError::NotSizeable));
    assert_eq!(unzipping.try_seek(SeekFrom::Start(0)), Err(IoError::NotSeekable));
    assert_eq!(unzipping.read_chunk(8), Ok(b"xyz".to_vec()));
}
