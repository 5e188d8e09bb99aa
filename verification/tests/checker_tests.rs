use codechecker::checker::{
    bytes_eq, copy_range, is_space_byte, split_lines, trim_bytes, wa_message, Checker,
    LinesChecker,
};
use codechecker::numfmt::dec_string;

fn check(answer: &[u8], output: &[u8]) -> Result<(), String> {
    let c = LinesChecker::new(answer.to_vec());
    c.check(&output.to_vec())
}

#[test]
fn identical_streams_accepted() {
    assert_eq!(check(b"7\n", b"7\n"), Ok(()));
    assert_eq!(check(b"", b""), Ok(()));
    assert_eq!(check(b"a\nb\nc\n", b"a\nb\nc\n"), Ok(()));
    assert_eq!(check(b"no trailing newline", b"no trailing newline"), Ok(()));
}

#[test]
fn wrong_value_rejected_with_line_number() {
    assert_eq!(
        check(b"7\n", b"8\n"),
        Err(String::from("Wrong answer in line 1"))
    );
    assert_eq!(
        check(b"1\n2\n3\n", b"1\n2\n4\n"),
        Err(String::from("Wrong answer in line 3"))
    );
}

#[test]
fn trailing_whitespace_differences_accepted() {
    assert_eq!(check(b"7\n", b"7"), Ok(()));
    assert_eq!(check(b"7\n", b"7 \n"), Ok(()));
    assert_eq!(check(b"a b\nc\n", b"a b  \r\n\tc\n"), Ok(()));
    assert_eq!(check(b"x\r\n", b"  x\n"), Ok(()));
}

#[test]
fn extra_nonempty_line_rejected() {
    assert_eq!(
        check(b"7\n", b"7\nextra\n"),
        Err(String::from("Wrong answer in line 2"))
    );
    assert_eq!(
        check(b"7\nextra\n", b"7\n"),
        Err(String::from("Wrong answer in line 2"))
    );
}

#[test]
fn trailing_blank_line_rejected_when_one_side_ends() {
    // The blank line trims to nothing, but one stream genuinely ends first.
    assert_eq!(
        check(b"a\n", b"a\n\n"),
        Err(String::from("Wrong answer in line 2"))
    );
}

#[test]
fn symmetry_on_concrete_streams() {
    let pairs: [(&[u8], &[u8]); 4] = [
        (b"7\n", b"8\n"),
        (b"a\nb\n", b"a\n"),
        (b"x y\n", b"x y \n"),
        (b"", b"stuff\n"),
    ];
    for (a, b) in pairs {
        assert_eq!(check(a, b), check(b, a));
    }
}

#[test]
fn empty_versus_blank_rejected() {
    assert_eq!(
        check(b"", b"\n"),
        Err(String::from("Wrong answer in line 1"))
    );
}

#[test]
fn split_lines_keeps_terminators() {
    let r = split_lines(&b"ab\nc\n\nd".to_vec());
    let expect: Vec<Vec<u8>> = vec![
        b"ab\n".to_vec(),
        b"c\n".to_vec(),
        b"\n".to_vec(),
        b"d".to_vec(),
    ];
    assert_eq!(r, expect);
    assert_eq!(split_lines(&b"".to_vec()), Vec::<Vec<u8>>::new());
}

#[test]
fn trim_bytes_strips_both_ends() {
    assert_eq!(trim_bytes(&b" \t a b \r\n".to_vec()), b"a b".to_vec());
    assert_eq!(trim_bytes(&b"\n".to_vec()), b"".to_vec());
    assert_eq!(trim_bytes(&b"xyz".to_vec()), b"xyz".to_vec());
}

#[test]
fn byte_helpers_behave() {
    assert!(is_space_byte(b' '));
    assert!(is_space_byte(b'\t'));
    assert!(is_space_byte(b'\r'));
    assert!(is_space_byte(b'\n'));
    assert!(!is_space_byte(b'0'));
    assert!(bytes_eq(&b"abc".to_vec(), &b"abc".to_vec()));
    assert!(!bytes_eq(&b"abc".to_vec(), &b"abd".to_vec()));
    assert!(!bytes_eq(&b"abc".to_vec(), &b"ab".to_vec()));
    assert_eq!(copy_range(&b"abcdef".to_vec(), 1, 4), b"bcd".to_vec());
}

#[test]
fn wrong_answer_message_renders_decimals() {
    assert_eq!(wa_message(1), "Wrong answer in line 1");
    assert_eq!(wa_message(42), "Wrong answer in line 42");
    assert_eq!(wa_message(1005), "Wrong answer in line 1005");
    assert_eq!(dec_string(0), "0");
    assert_eq!(dec_string(10), "10");
    assert_eq!(dec_string(18446744073709551615), "18446744073709551615");
}
