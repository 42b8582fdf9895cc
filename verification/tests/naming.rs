use interprocess::named_pipe::{
    convert_path, set_nonblocking_for_stream, PipeMode, PipeName, PIPE_NOWAIT, PIPE_READMODE_BYTE,
    PIPE_READMODE_MESSAGE,
};
use interprocess::sys::{OsError, Step, Syscall, SysReturn};
use interprocess::wide::encode_wide;

const DENIED: OsError = OsError { code: 5, interrupted: false };

fn units(text: &str) -> Vec<u16> {
    text.encode_utf16().collect()
}

#[test]
fn local_pipe_path() {
    let path = convert_path("example", None);
    assert_eq!(path, units("\\\\.\\pipe\\example\0"));
    assert_eq!(
        path,
        vec![
            0x5C, 0x5C, 0x2E, 0x5C, 0x70, 0x69, 0x70, 0x65, 0x5C, 0x65, 0x78, 0x61, 0x6D, 0x70,
            0x6C, 0x65, 0
        ]
    );
}

#[test]
fn remote_pipe_path() {
    assert_eq!(convert_path("example", Some("server")), units("\\\\server\\pipe\\example\0"));
    assert_eq!(convert_path("a", Some("10.0.0.1")), units("\\\\10.0.0.1\\pipe\\a\0"));
}

#[test]
fn path_ends_in_one_terminator() {
    let path = convert_path("example", None);
    assert_eq!(path.last(), Some(&0));
    assert_eq!(path.iter().filter(|unit| **unit == 0).count(), 1);
    assert_eq!(path.len(), "\\\\.\\pipe\\example".len() + 1);
}

#[test]
fn path_of_empty_names() {
    assert_eq!(convert_path("", None), units("\\\\.\\pipe\\\0"));
    assert_eq!(convert_path("", Some("")), units("\\\\\\pipe\\\0"));
}

#[test]
fn path_is_the_same_for_the_same_names() {
    assert_eq!(convert_path("example", None), convert_path("example", None));
    assert_eq!(convert_path("example", Some("host")), convert_path("example", Some("host")));
    assert_ne!(convert_path("example", None), convert_path("example", Some("host")));
    assert_ne!(convert_path("example", None), convert_path("exampl", None));
}

#[test]
fn path_of_names_beyond_ascii() {
    assert_eq!(convert_path("caf\u{e9}", None), units("\\\\.\\pipe\\caf\u{e9}\0"));
    assert_eq!(
        convert_path("\u{1F600}", Some("\u{4e2d}\u{6587}")),
        units("\\\\\u{4e2d}\u{6587}\\pipe\\\u{1F600}\0")
    );
}

#[test]
fn wide_encoding_of_single_units() {
    assert_eq!(encode_wide(""), Vec::<u16>::new());
    assert_eq!(encode_wide("A"), vec![0x41]);
    assert_eq!(encode_wide("\u{e9}"), vec![0xE9]);
    assert_eq!(encode_wide("\u{FFFF}"), vec![0xFFFF]);
    assert_eq!(encode_wide("\u{D7FF}\u{E000}"), vec![0xD7FF, 0xE000]);
}

#[test]
fn wide_encoding_of_surrogate_pairs() {
    assert_eq!(encode_wide("\u{10000}"), vec![0xD800, 0xDC00]);
    assert_eq!(encode_wide("\u{1F600}"), vec![0xD83D, 0xDE00]);
    assert_eq!(encode_wide("\u{10FFFF}"), vec![0xDBFF, 0xDFFF]);
    assert_eq!(encode_wide("a\u{1F600}b"), vec![0x61, 0xD83D, 0xDE00, 0x62]);
}

#[test]
fn wide_encoding_agrees_with_the_standard_library() {
    for text in ["", "pipe", "\\\\.\\pipe\\x", "gr\u{fc}\u{df}e", "\u{10348}\u{1F600}z", "\0"] {
        assert_eq!(encode_wide(text), units(text));
    }
}

#[test]
fn read_mode_of_each_framing() {
    assert_eq!(PipeMode::Bytes.to_readmode(), 0);
    assert_eq!(PipeMode::Messages.to_readmode(), 2);
    assert_eq!(PIPE_READMODE_BYTE, 0);
    assert_eq!(PIPE_READMODE_MESSAGE, 2);
    assert_eq!(PIPE_NOWAIT, 1);
}

#[test]
fn mode_word_of_every_combination() {
    let word = |read_mode, nonblocking| match set_nonblocking_for_stream(3, read_mode, nonblocking, None)
    {
        Step::Call(Syscall::SetState { fd: 3, mode }) => mode,
        other => panic!("{:?}", other),
    };
    assert_eq!(word(None, false), 0);
    assert_eq!(word(None, true), 1);
    assert_eq!(word(Some(PipeMode::Bytes), false), 0);
    assert_eq!(word(Some(PipeMode::Bytes), true), 1);
    assert_eq!(word(Some(PipeMode::Messages), false), 2);
    assert_eq!(word(Some(PipeMode::Messages), true), 3);
}

#[test]
fn mode_word_keeps_the_framing_bits() {
    for read_mode in [None, Some(PipeMode::Bytes), Some(PipeMode::Messages)] {
        let framing = read_mode.map_or(0, PipeMode::to_readmode);
        for nonblocking in [false, true] {
            match set_nonblocking_for_stream(3, read_mode, nonblocking, None) {
                Step::Call(Syscall::SetState { mode, .. }) => {
                    assert_eq!(mode & !1, framing);
                    assert_eq!(mode & 1 == 1, nonblocking);
                }
                other => panic!("{:?}", other),
            }
        }
    }
}

#[test]
fn mode_call_names_the_handle() {
    assert_eq!(
        set_nonblocking_for_stream(42, Some(PipeMode::Messages), true, None),
        Step::Call(Syscall::SetState { fd: 42, mode: 3 })
    );
}

#[test]
fn mode_call_fails_on_zero() {
    let ret = |value| Some(SysReturn { value, error: DENIED });
    let bytes = Some(PipeMode::Bytes);
    assert_eq!(set_nonblocking_for_stream(3, bytes, true, ret(1)), Step::Done(Ok(())));
    assert_eq!(set_nonblocking_for_stream(3, bytes, true, ret(-1)), Step::Done(Ok(())));
    assert_eq!(set_nonblocking_for_stream(3, bytes, true, ret(0)), Step::Done(Err(DENIED)));
}

#[test]
fn pipe_name_gives_the_path_of_its_parts() {
    let local = PipeName::new("example", None);
    assert_eq!(local.to_path(), units("\\\\.\\pipe\\example\0"));
    assert_eq!(local.to_path(), convert_path("example", None));
    let remote = PipeName::new("example", Some("server"));
    assert_eq!(remote.to_path(), units("\\\\server\\pipe\\example\0"));
    // asking twice gives the same path
    assert_eq!(remote.to_path(), remote.to_path());
}
