use console_session::pipe::{pipe_path, random_pipe_path, random_pipe_suffix, to_ascii_lower, PIPE_NAME_LEN};

fn wide(s: &str) -> Vec<u16> {
    let mut v: Vec<u16> = s.encode_utf16().collect();
    v.push(0);
    v
}

#[test]
fn pipe_path_is_lowercased_and_terminated() {
    assert_eq!(pipe_path(b"AbC12zZ"), wide(r"\\.\pipe\abc12zz"));
    assert_eq!(pipe_path(b""), wide(r"\\.\pipe\"));
}

#[test]
fn lowercase_touches_only_upper_letters() {
    assert_eq!(to_ascii_lower(b'A'), b'a');
    assert_eq!(to_ascii_lower(b'Z'), b'z');
    assert_eq!(to_ascii_lower(b'a'), b'a');
    assert_eq!(to_ascii_lower(b'7'), b'7');
    assert_eq!(to_ascii_lower(b'@'), b'@');
    assert_eq!(to_ascii_lower(b'['), b'[');
}

#[test]
fn random_suffix_is_alphanumeric() {
    for _ in 0..50 {
        let s = random_pipe_suffix();
        assert_eq!(s.len(), PIPE_NAME_LEN);
        assert!(s.iter().all(|b| b.is_ascii_alphanumeric()));
    }
}

#[test]
fn random_pipe_path_has_prefix_and_lowercase_name() {
    let prefix = wide(r"\\.\pipe\");
    let p = random_pipe_path();
    assert_eq!(p.len(), prefix.len() + PIPE_NAME_LEN);
    assert_eq!(&p[..prefix.len() - 1], &prefix[..prefix.len() - 1]);
    assert_eq!(p[p.len() - 1], 0);
    for &c in &p[prefix.len() - 1..p.len() - 1] {
        let b = c as u8;
        assert!(b.is_ascii_digit() || b.is_ascii_lowercase());
    }
    let names: Vec<Vec<u16>> = (0..8).map(|_| random_pipe_path()).collect();
    assert!(names.iter().any(|n| n != &names[0]));
}
