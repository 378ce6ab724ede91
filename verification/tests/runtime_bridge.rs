use axiom_hive_core::runtime_bridge::{interpret_output, RuntimeError, UntrustedRuntime};

struct Canned {
    reply: Option<String>,
}

impl UntrustedRuntime for Canned {
    fn generate(&self, prompt: &str) -> Result<String, RuntimeError> {
        match &self.reply {
            Some(text) => Ok(format!("{} {}", text, prompt)),
            None => Err(RuntimeError::SpawnFailed("no such file".to_string())),
        }
    }
}

#[test]
fn successful_output_is_trimmed_text() {
    let result = interpret_output(true, "exit status: 0".to_string(), b"  an answer \n".to_vec());
    assert_eq!(result.unwrap(), "an answer");
    let result = interpret_output(true, "exit status: 0".to_string(), b"\t\r\nx y\x0b\x0c ".to_vec());
    assert_eq!(result.unwrap(), "x y");
}

#[test]
fn inner_whitespace_and_plain_text_are_kept() {
    let result = interpret_output(true, String::new(), b"already trimmed".to_vec());
    assert_eq!(result.unwrap(), "already trimmed");
    let result = interpret_output(true, String::new(), "\u{a0}caf\u{e9}  au lait\u{2003}".as_bytes().to_vec());
    assert_eq!(result.unwrap(), "caf\u{e9}  au lait");
}

#[test]
fn empty_and_blank_output_give_empty_text() {
    assert_eq!(interpret_output(true, String::new(), Vec::new()).unwrap(), "");
    assert_eq!(interpret_output(true, String::new(), b" \n\t ".to_vec()).unwrap(), "");
}

#[test]
fn failure_status_wins_over_the_output() {
    let result = interpret_output(false, "exit status: 3".to_string(), b"partial".to_vec());
    match result {
        Err(RuntimeError::NonZeroExit(status)) => assert_eq!(status, "exit status: 3"),
        other => panic!("unexpected {:?}", other),
    }
    let result = interpret_output(false, "signal: 9".to_string(), vec![0xff, 0xfe]);
    assert!(matches!(result, Err(RuntimeError::NonZeroExit(_))));
}

#[test]
fn output_that_is_not_utf8_is_an_error() {
    let result = interpret_output(true, String::new(), vec![b'o', b'k', 0xff]);
    assert!(matches!(result, Err(RuntimeError::Utf8(_))));
    let result = interpret_output(true, String::new(), vec![0xc3]);
    assert!(matches!(result, Err(RuntimeError::Utf8(_))));
    let result = interpret_output(true, String::new(), vec![0xed, 0xa0, 0x80]);
    assert!(matches!(result, Err(RuntimeError::Utf8(_))));
    let result = interpret_output(true, String::new(), vec![0xc0, 0x80]);
    assert!(matches!(result, Err(RuntimeError::Utf8(_))));
}

#[test]
fn runtime_errors_describe_themselves() {
    assert_eq!(
        RuntimeError::SpawnFailed("denied".to_string()).message(),
        "failed to spawn runtime process: denied"
    );
    assert_eq!(
        RuntimeError::StdinIo("broken pipe".to_string()).message(),
        "failed to write prompt to runtime: broken pipe"
    );
    assert_eq!(
        RuntimeError::OutputIo("closed".to_string()).message(),
        "failed to read runtime output: closed"
    );
    assert_eq!(
        RuntimeError::NonZeroExit("exit status: 1".to_string()).message(),
        "runtime exited with non-zero status: exit status: 1"
    );
    assert_eq!(
        RuntimeError::Utf8("invalid byte".to_string()).message(),
        "runtime output was not valid UTF-8: invalid byte"
    );
}

#[test]
fn a_runtime_can_be_swapped_for_a_mock() {
    let working = Canned { reply: Some("echo".to_string()) };
    assert_eq!(working.generate("hi").unwrap(), "echo hi");
    let broken = Canned { reply: None };
    assert!(matches!(broken.generate("hi"), Err(RuntimeError::SpawnFailed(_))));
}
