use companion_adventures_native::boundary::VERSION;
use companion_adventures_native::c_text::{find_nul, read_borrowed};
use companion_adventures_native::{free_string, say_hello, version, BoundaryError, OwnedString};

fn greeting_for(buffer: &[u8]) -> String {
    match say_hello(Some(buffer)) {
        Ok(owned) => owned.as_str().to_string(),
        Err(e) => panic!("refused: {:?}", e),
    }
}

#[test]
fn version_is_the_fixed_text() {
    let owned = version();
    assert_eq!(owned.as_str(), "CompanionAdventures 1.0.0");
    assert_eq!(owned.as_str(), VERSION);
    assert!(!owned.as_str().is_empty());
}

#[test]
fn version_is_the_same_on_every_call() {
    assert_eq!(version().as_str(), version().as_str());
}

#[test]
fn version_crosses_as_a_nul_terminated_string() {
    let bytes = version().into_bytes_with_nul();
    assert_eq!(bytes, b"CompanionAdventures 1.0.0\0".to_vec());
    assert_eq!(bytes.len(), 26);
    assert_eq!(bytes.last(), Some(&0u8));
    assert_eq!(bytes.iter().filter(|b| **b == 0).count(), 1);
}

#[test]
fn say_hello_greets_world() {
    assert_eq!(greeting_for(b"World\0"), "Hello World!");
}

#[test]
fn say_hello_greets_the_empty_name() {
    assert_eq!(greeting_for(b"\0"), "Hello !");
}

#[test]
fn say_hello_keeps_text_beyond_ascii() {
    assert_eq!(greeting_for("Zo\u{eb} \u{4e16}\u{754c} \u{1f600}\0".as_bytes()), "Hello Zo\u{eb} \u{4e16}\u{754c} \u{1f600}!");
}

#[test]
fn say_hello_reads_up_to_the_first_nul() {
    assert_eq!(greeting_for(b"ab\0cd\0"), "Hello ab!");
    assert_eq!(greeting_for(b"ab\0\xff\xfe"), "Hello ab!");
}

#[test]
fn say_hello_answer_crosses_as_a_nul_terminated_string() {
    let owned = say_hello(Some(b"World\0")).unwrap();
    assert_eq!(owned.into_bytes_with_nul(), b"Hello World!\0".to_vec());
}

#[test]
fn say_hello_refuses_the_null_pointer() {
    assert!(matches!(say_hello(None), Err(BoundaryError::InvalidInput)));
}

#[test]
fn say_hello_refuses_a_buffer_without_nul() {
    assert!(matches!(say_hello(Some(b"World")), Err(BoundaryError::InvalidInput)));
    assert!(matches!(say_hello(Some(b"")), Err(BoundaryError::InvalidInput)));
}

#[test]
fn say_hello_refuses_bytes_that_are_not_utf8() {
    let lone_continuation: &[u8] = b"\x80\0";
    let never_valid: &[u8] = b"ab\xff\0";
    let cut_short: &[u8] = b"\xe4\xb8\0";
    let overlong: &[u8] = b"\xc0\xaf\0";
    let surrogate: &[u8] = b"\xed\xa0\x80\0";
    for buffer in [lone_continuation, never_valid, cut_short, overlong, surrogate] {
        assert!(matches!(say_hello(Some(buffer)), Err(BoundaryError::InvalidInput)));
    }
}

#[test]
fn what_is_handed_out_can_be_read_back() {
    let bytes = version().into_bytes_with_nul();
    assert_eq!(read_borrowed(&bytes), Ok("CompanionAdventures 1.0.0"));
    assert_eq!(greeting_for(&bytes), "Hello CompanionAdventures 1.0.0!");
}

#[test]
fn every_string_handed_out_can_be_released() {
    free_string(Some(version()));
    free_string(say_hello(Some(b"World\0")).ok());
    free_string(say_hello(Some(b"\0")).ok());
}

#[test]
fn releasing_the_null_handle_does_nothing() {
    free_string(None);
    free_string(say_hello(None).ok());
    free_string(say_hello(Some(b"\xff\0")).ok());
}

#[test]
fn released_strings_leave_later_ones_intact() {
    let first: OwnedString = version();
    let second = say_hello(Some(b"World\0")).unwrap();
    free_string(Some(first));
    assert_eq!(second.as_str(), "Hello World!");
    free_string(Some(second));
    assert_eq!(version().as_str(), "CompanionAdventures 1.0.0");
}

#[test]
fn find_nul_gives_the_first_one() {
    assert_eq!(find_nul(b""), None);
    assert_eq!(find_nul(b"abc"), None);
    assert_eq!(find_nul(b"\0"), Some(0));
    assert_eq!(find_nul(b"abc\0"), Some(3));
    assert_eq!(find_nul(b"a\0b\0"), Some(1));
    assert_eq!(find_nul(b"\0\0"), Some(0));
}

#[test]
fn read_borrowed_gives_the_text_before_the_nul() {
    assert_eq!(read_borrowed(b"World\0"), Ok("World"));
    assert_eq!(read_borrowed(b"\0"), Ok(""));
    assert_eq!(read_borrowed(b"a\0b"), Ok("a"));
    assert_eq!(read_borrowed("\u{e9}\0".as_bytes()), Ok("\u{e9}"));
}

#[test]
fn read_borrowed_refuses_what_holds_no_text() {
    assert_eq!(read_borrowed(b""), Err(BoundaryError::InvalidInput));
    assert_eq!(read_borrowed(b"World"), Err(BoundaryError::InvalidInput));
    assert_eq!(read_borrowed(b"\xff\0"), Err(BoundaryError::InvalidInput));
    assert_eq!(read_borrowed(b"\xc3\0"), Err(BoundaryError::InvalidInput));
}

#[test]
fn read_borrowed_ignores_bad_bytes_after_the_nul() {
    assert_eq!(read_borrowed(b"ok\0\xff"), Ok("ok"));
}

#[test]
fn every_string_handed_out_ends_with_its_only_nul() {
    let names: [&[u8]; 5] = [b"\0", b"World\0", b"a b c\0tail", "\u{e9}\u{4e16}\0".as_bytes(), b"!\0\0"];
    for name in names {
        let bytes = say_hello(Some(name)).unwrap().into_bytes_with_nul();
        assert_eq!(find_nul(&bytes), Some(bytes.len() - 1));
    }
    let bytes = version().into_bytes_with_nul();
    assert_eq!(find_nul(&bytes), Some(bytes.len() - 1));
}

#[test]
fn a_greeting_read_back_is_greeted_again() {
    let bytes = say_hello(Some(b"World\0")).unwrap().into_bytes_with_nul();
    assert_eq!(read_borrowed(&bytes), Ok("Hello World!"));
    assert_eq!(greeting_for(&bytes), "Hello Hello World!!");
}

#[test]
fn the_only_refusal_is_invalid_input() {
    assert_eq!(say_hello(None).err(), Some(BoundaryError::InvalidInput));
    assert_eq!(say_hello(Some(b"no end")).err(), Some(BoundaryError::InvalidInput));
    assert_eq!(say_hello(Some(b"\xfe\0")).err(), Some(BoundaryError::InvalidInput));
    assert_eq!(say_hello(Some(b"fine\0")).err(), None);
}
