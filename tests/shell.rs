use zero_shell::error::ShellError;
use zero_shell::flags::{Flag, PathKind};
use zero_shell::output::LsOutput;
use zero_shell::parser::{parse, parse_command};
use zero_shell::processor::Directory;
use zero_shell::shell::{process_escape, EchoCommand, Shell};
use zero_shell::text::trim_ws;

fn strings(v: &[&str]) -> Vec<String> {
    v.iter().map(|s| s.to_string()).collect()
}

#[test]
fn words_split_on_spaces() {
    assert_eq!(parse("ls  -l   dir").unwrap(), strings(&["ls", "-l", "dir"]));
    assert_eq!(parse("").unwrap(), Vec::<String>::new());
}

#[test]
fn quotes_group_words() {
    assert_eq!(parse("echo 'a b' \"c d\"").unwrap(), strings(&["echo", "a b", "c d"]));
    assert_eq!(parse("a'b'c").unwrap(), strings(&["abc"]));
}

#[test]
fn backslashes() {
    assert_eq!(parse("a\\ b").unwrap(), strings(&["a b"]));
    assert_eq!(parse("\"x\\\\y\"").unwrap(), strings(&["x\\y"]));
    assert_eq!(parse("\"x\\ny\"").unwrap(), strings(&["x\\ny"]));
    assert_eq!(parse("'x\\y'").unwrap(), strings(&["x\\y"]));
    assert_eq!(parse("end\\").unwrap(), strings(&["end"]));
}

#[test]
fn unclosed_quote_is_an_error() {
    assert_eq!(parse("echo 'oops"), Err(ShellError::Other("unclosed quote".to_string())));
    assert_eq!(parse("\"oops"), Err(ShellError::Other("unclosed quote".to_string())));
}

#[test]
fn command_and_arguments() {
    assert_eq!(parse_command("  ls -a dir  ".to_string()).unwrap(), ("ls".to_string(), strings(&["-a", "dir"])));
    assert_eq!(parse_command("   ".to_string()).unwrap(), (String::new(), Vec::new()));
    assert_eq!(parse_command("''".to_string()).unwrap(), (String::new(), Vec::new()));
    assert_eq!(parse_command("echo `pwd`".to_string()), Err(ShellError::Backticks));
    assert_eq!(parse_command("echo \"open".to_string()), Err(ShellError::Other("unclosed quote".to_string())));
}

#[test]
fn trimming_whitespace() {
    assert_eq!(trim_ws(" \t a b \n"), "a b");
    assert_eq!(trim_ws("   "), "");
}

#[test]
fn flags_bundled_and_separate() {
    let args = strings(&["-al", "-F", "d", "f"]);
    let kinds = vec![PathKind::Missing, PathKind::Missing, PathKind::Directory, PathKind::File];
    let mut dirs = Vec::new();
    let mut files = Vec::new();
    let flags = Flag::parse(&args, &kinds, &mut dirs, &mut files).unwrap();
    assert_eq!(flags, Flag { l: true, a: true, f: true });
    assert_eq!(dirs, strings(&["d"]));
    assert_eq!(files, strings(&["f"]));
}

#[test]
fn unknown_flag_is_fatal() {
    let args = strings(&["-ax"]);
    let r = Flag::parse(&args, &vec![PathKind::Missing], &mut Vec::new(), &mut Vec::new());
    assert_eq!(r, Err(ShellError::Other("invalid flag: 'x', supported flags are: '-a', '-F', '-l'".to_string())));
}

#[test]
fn missing_path_is_fatal() {
    let args = strings(&["nope"]);
    let r = Flag::parse(&args, &vec![PathKind::Missing], &mut Vec::new(), &mut Vec::new());
    assert_eq!(r, Err(ShellError::Other("cannot access 'nope': No such file or directory".to_string())));
}

#[test]
fn no_arguments_give_no_flags() {
    let r = Flag::parse(&Vec::new(), &Vec::new(), &mut Vec::new(), &mut Vec::new());
    assert_eq!(r, Ok(Flag { l: false, a: false, f: false }));
}

#[test]
fn echo_escapes() {
    assert_eq!(process_escape("a\\nb"), "a\nb");
    assert_eq!(process_escape("\\t\\r\\\\"), "\t\r\\");
    assert_eq!(process_escape("\\q"), "\\q");
    assert_eq!(process_escape("x\\"), "x");
}

#[test]
fn echo_line() {
    assert_eq!(EchoCommand::output(&strings(&["hello", "w\\tx"])), "hello w\tx\n");
    assert_eq!(EchoCommand::output(&Vec::new()), "\n");
}

#[test]
fn shell_dispatch() {
    let shell = Shell::new();
    assert_eq!(shell.execute_command("ls -l".to_string()), Ok(Some(("ls".to_string(), strings(&["-l"])))));
    assert_eq!(shell.execute_command("".to_string()), Ok(None));
    assert_eq!(shell.execute_command("nope".to_string()), Err(ShellError::CommandNotFound("nope".to_string())));
    assert!(shell.knows("cat"));
    assert!(!shell.knows("ca"));
}

#[test]
fn error_messages() {
    assert_eq!(ShellError::CommandNotFound("x".to_string()).message(), "command 'x' not found");
    assert_eq!(ShellError::ArgsNotFound("mv".to_string()).message(), "mv: missing file operand");
    assert_eq!(ShellError::Other("boom".to_string()).message(), "boom");
    assert_eq!(ShellError::Backticks.message(), "command substitution with backticks (`) is not supported in our mini shell");
}

fn dir(path: &str, names: &[&str], total: u64) -> Directory {
    Directory { path: path.to_string(), entries: names.iter().map(|n| vec![n.to_string()]).collect(), max_len: 0, total_blocks: total }
}

#[test]
fn output_with_headings() {
    let dirs = vec![dir("a", &["x", "y"], 0), dir("b", &["z"], 0)];
    let flags = Flag { l: false, a: false, f: false };
    let out = LsOutput::render_results(&Vec::new(), &dirs, 2, 0, 0, &flags, None);
    assert_eq!(out, "a:\nx  y\n\nb:\nz\n");
    let single = LsOutput::render_results(&Vec::new(), &vec![dir(".", &["x"], 0)], 1, 0, 0, &flags, Some(80));
    assert_eq!(single, "x\n");
}

#[test]
fn output_long_with_total_and_files() {
    let files = vec![strings(&["-rw-r--r--", "1", "u", "g", "5", "Jan  1 00:00", "f"])];
    let mut d = dir("d", &[], 12);
    d.entries = vec![strings(&["drwxr-xr-x", "2", "u", "g", "4096", "Jan  1 00:00", "sub"])];
    d.max_len = 4;
    let flags = Flag { l: true, a: false, f: false };
    let out = LsOutput::render_results(&files, &vec![d], 1, 1, 1, &flags, Some(80));
    assert_eq!(
        out,
        "-rw-r--r-- 1 u g 5 Jan  1 00:00 f\n\nd:\ntotal 12:\ndrwxr-xr-x 2 u g 4096 Jan  1 00:00 sub\n"
    );
}
