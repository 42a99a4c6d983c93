use nuls::compiler::decimal_string;
use nuls::{compiler_args, decode_output, output_lines, ErrorKind, IdeOperation, IdeSettings};

fn strings(v: &[&str]) -> Vec<String> {
    v.iter().map(|s| s.to_string()).collect()
}

#[test]
fn decimal_strings() {
    assert_eq!(decimal_string(0), "0");
    assert_eq!(decimal_string(7), "7");
    assert_eq!(decimal_string(1026), "1026");
    assert_eq!(decimal_string(u64::MAX), u64::MAX.to_string());
}

#[test]
fn check_args_for_local_file() {
    let args = compiler_args(IdeOperation::Check, &IdeSettings::default(), "file:///tmp/foo.nu", "/tmp/t1")
        .expect("args");
    assert_eq!(args, strings(&["--ide-check", "1000", "--include-path", "/tmp", "/tmp/t1"]));
}

#[test]
fn include_dirs_joined_by_record_separator() {
    let mut settings = IdeSettings::default();
    settings.include_dirs = strings(&["/a", "/b c"]);
    let args = compiler_args(IdeOperation::Complete(2), &settings, "file:///w/x.nu", "/tmp/t2").expect("args");
    assert_eq!(
        args,
        strings(&["--ide-complete", "2", "--include-path", "/w\u{1e}/a\u{1e}/b c", "/tmp/t2"])
    );
}

#[test]
fn args_for_non_file_uri() {
    let args = compiler_args(IdeOperation::Hover(12), &IdeSettings::default(), "untitled:Untitled-1", "/tmp/t3")
        .expect("args");
    assert_eq!(args, strings(&["--ide-hover", "12", "/tmp/t3"]));
    let mut settings = IdeSettings::default();
    settings.include_dirs = strings(&["/lib"]);
    let args = compiler_args(IdeOperation::GotoDef(0), &settings, "untitled:x", "/tmp/t4").expect("args");
    assert_eq!(args, strings(&["--ide-goto-def", "0", "--include-path", "/lib", "/tmp/t4"]));
}

#[test]
fn file_uri_without_local_path_is_invalid() {
    let e = compiler_args(IdeOperation::Check, &IdeSettings::default(), "file://example.com/foo.nu", "/tmp/t5")
        .unwrap_err();
    assert_eq!(e.kind, ErrorKind::InvalidParams);
}

#[test]
fn check_args_carry_problem_bound() {
    let mut settings = IdeSettings::default();
    settings.max_number_of_problems = 25;
    let args = compiler_args(IdeOperation::Check, &settings, "untitled:y", "/tmp/t6").expect("args");
    assert_eq!(args, strings(&["--ide-check", "25", "/tmp/t6"]));
}

#[test]
fn decode_output_utf8() {
    let r = decode_output(String::from("nu --ide-check"), "{\"a\":1}\n".as_bytes().to_vec()).expect("utf-8");
    assert_eq!(r.stdout, "{\"a\":1}\n");
    assert_eq!(r.cmdline, "nu --ide-check");
    let e = decode_output(String::from("nu"), vec![0x66, 0xff, 0x6f]).unwrap_err();
    assert_eq!(e.kind, ErrorKind::Parse);
}

#[test]
fn output_lines_split() {
    assert_eq!(output_lines("a\r\nb\n\nc"), strings(&["a", "b", "", "c"]));
    assert_eq!(output_lines("one\n"), strings(&["one"]));
    assert_eq!(output_lines(""), Vec::<String>::new());
    assert_eq!(output_lines("\n"), strings(&[""]));
}
