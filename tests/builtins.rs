use zero_shell::builtins::{CdCommand, CdTarget, MvCommand, RmCommand};
use zero_shell::error::ShellError;

fn strings(v: &[&str]) -> Vec<String> {
    v.iter().map(|s| s.to_string()).collect()
}

#[test]
fn rm_reads_recursive_flag_and_targets() {
    assert_eq!(RmCommand::parse_args(&strings(&["a", "-r", "b"])), Ok((true, strings(&["a", "b"]))));
    assert_eq!(RmCommand::parse_args(&strings(&["a"])), Ok((false, strings(&["a"]))));
}

#[test]
fn rm_refuses_bad_options_and_no_targets() {
    assert_eq!(RmCommand::parse_args(&strings(&["-f", "a"])), Err(ShellError::Other("rm: invalid option -- '-f'".to_string())));
    assert_eq!(RmCommand::parse_args(&strings(&["-r"])), Err(ShellError::Other("missing operand".to_string())));
    assert_eq!(RmCommand::parse_args(&Vec::new()), Err(ShellError::Other("missing operand".to_string())));
}

#[test]
fn rm_protects_dot_entries() {
    for t in [".", "..", "./.", "./.."] {
        assert!(RmCommand::is_protected(t));
    }
    assert!(!RmCommand::is_protected("./a"));
}

#[test]
fn mv_operands() {
    assert_eq!(MvCommand::split_operands(&strings(&["a", "b", "dir"])), Ok((strings(&["a", "b"]), "dir".to_string())));
    assert_eq!(MvCommand::split_operands(&Vec::new()), Err(ShellError::ArgsNotFound("mv".to_string())));
    assert_eq!(
        MvCommand::split_operands(&strings(&["a"])),
        Err(ShellError::Other("mv: missing destination file operand after 'a'".to_string()))
    );
}

#[test]
fn cd_targets() {
    let home = Some("/home/u".to_string());
    assert_eq!(CdCommand::resolve(&Vec::new(), &home), Ok(CdTarget::Home));
    assert_eq!(CdCommand::resolve(&strings(&["-"]), &home), Ok(CdTarget::Previous));
    assert_eq!(CdCommand::resolve(&strings(&["~"]), &home), Ok(CdTarget::Home));
    assert_eq!(CdCommand::resolve(&strings(&["~/src"]), &home), Ok(CdTarget::Path("/home/u/src".to_string())));
    assert_eq!(CdCommand::resolve(&strings(&["x"]), &None), Ok(CdTarget::Path("x".to_string())));
    assert_eq!(
        CdCommand::resolve(&strings(&["~/src"]), &None),
        Err(ShellError::Other("cd: HOME environment variable not set".to_string()))
    );
    assert_eq!(CdCommand::resolve(&strings(&["a", "b"]), &home), Err(ShellError::Other("cd: too many arguments".to_string())));
}
