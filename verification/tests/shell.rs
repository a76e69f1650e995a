use kthreads::shell::{read_words, LineError, ShellReply, ShellState};

fn printed(reply: ShellReply) -> String {
    match reply {
        ShellReply::Print(text) => text,
        other => panic!("expected text, got {:?}", other),
    }
}

fn listed(reply: ShellReply) -> String {
    match reply {
        ShellReply::ListDir(path) => path,
        other => panic!("expected a directory, got {:?}", other),
    }
}

fn words(list: &[&str]) -> Vec<String> {
    list.iter().map(|w| w.to_string()).collect()
}

#[test]
fn new_shell_is_at_the_root() {
    let shell = ShellState::new();
    assert_eq!(shell.working_dir(), "/");
}

#[test]
fn empty_line_prints_nothing() {
    let mut shell = ShellState::new();
    assert!(matches!(shell.handle_command(String::new()), ShellReply::Nothing));
    assert!(matches!(shell.try_handle_command(String::new()), Ok(ShellReply::Nothing)));
    assert!(matches!(shell.run_words(&words(&[])), ShellReply::Nothing));
}

#[test]
fn pwd_prints_the_working_directory() {
    let mut shell = ShellState::new();
    assert_eq!(printed(shell.handle_command(String::from("pwd"))), "/");
    assert_eq!(printed(shell.run_words(&words(&["pwd", "ignored"]))), "/");
}

#[test]
fn cd_with_a_path_is_not_done_yet() {
    let mut shell = ShellState::new();
    assert_eq!(printed(shell.handle_command(String::from("cd usr/bin"))), "TODO: cd 'usr/bin'");
    assert_eq!(shell.working_dir(), "/");
}

#[test]
fn cd_alone_goes_to_the_root() {
    let mut shell = ShellState::new();
    assert!(matches!(shell.handle_command(String::from("cd")), ShellReply::Nothing));
    assert_eq!(shell.working_dir(), "/");
}

#[test]
fn ls_names_the_directory_to_list() {
    let mut shell = ShellState::new();
    assert_eq!(listed(shell.handle_command(String::from("ls"))), "/");
    assert_eq!(listed(shell.handle_command(String::from("ls /system/bin"))), "/system/bin");
    assert_eq!(listed(shell.handle_command(String::from("ls 'My Files' more"))), "My Files");
}

#[test]
fn cat_is_not_done_yet() {
    let mut shell = ShellState::new();
    assert_eq!(printed(shell.handle_command(String::from("cat file"))), "TODO: cat");
}

#[test]
fn echo_follows_each_argument_with_a_space() {
    let mut shell = ShellState::new();
    assert_eq!(printed(shell.handle_command(String::from("echo"))), "");
    assert_eq!(printed(shell.handle_command(String::from("echo one"))), "one ");
    assert_eq!(printed(shell.run_words(&words(&["echo", "a", "", "b c"]))), "a  b c ");
}

#[test]
fn echo_joins_unescaped_words() {
    let mut shell = ShellState::new();
    let reply = shell.handle_command(String::from("echo a\\ b 'c d'  e"));
    assert_eq!(printed(reply), "a b c d e ");
}

#[test]
fn quotes_and_escapes_are_taken_off() {
    let mut shell = ShellState::new();
    let line = String::from(r##"echo "double quoted (\")" '"single quoted (\')"'"##);
    assert_eq!(
        printed(shell.handle_command(line)),
        "double quoted (\") \"single quoted (')\" "
    );
}

#[test]
fn help_lists_the_builtins() {
    let mut shell = ShellState::new();
    assert_eq!(
        printed(shell.handle_command(String::from("help"))),
        "Builtins: pwd, cd, ls, cat, help, echo"
    );
}

#[test]
fn unknown_command_is_named() {
    let mut shell = ShellState::new();
    assert_eq!(printed(shell.handle_command(String::from("frobnicate now"))), "Unkown command 'frobnicate'");
    assert_eq!(printed(shell.handle_command(String::from("PWD"))), "Unkown command 'PWD'");
}

#[test]
fn leading_space_gives_an_empty_command() {
    let mut shell = ShellState::new();
    assert_eq!(printed(shell.handle_command(String::from(" pwd"))), "Unkown command ''");
}

#[test]
fn commands_answer_on_lines_they_do_not_read_to_the_end() {
    let mut shell = ShellState::new();
    // A bare tab holds the parser up behind the first word, which is all
    // that these commands read.
    assert_eq!(printed(shell.try_handle_command(String::from("pwd\tx")).unwrap()), "/");
    assert_eq!(printed(shell.try_handle_command(String::from("pwd\tand more")).unwrap()), "/");
    assert_eq!(printed(shell.try_handle_command(String::from("cat\rx")).unwrap()), "TODO: cat");
    assert_eq!(
        printed(shell.try_handle_command(String::from("help\nx")).unwrap()),
        "Builtins: pwd, cd, ls, cat, help, echo"
    );
    assert_eq!(
        printed(shell.try_handle_command(String::from("frob\tx")).unwrap()),
        "Unkown command 'frob'"
    );
    // The argument that `cd` and `ls` read is the empty word then.
    assert_eq!(printed(shell.try_handle_command(String::from("cd\tx")).unwrap()), "TODO: cd ''");
    assert_eq!(listed(shell.try_handle_command(String::from("ls a\tb")).unwrap()), "a");
    // A garbled word behind what the command reads does no harm.
    assert_eq!(printed(shell.try_handle_command(String::from("pwd \\\u{e9}")).unwrap()), "/");
    assert_eq!(listed(shell.try_handle_command(String::from("ls dir \\\u{e9}")).unwrap()), "dir");
}

#[test]
fn tabs_and_line_breaks_pass_inside_quotes_and_behind_a_backslash() {
    let mut shell = ShellState::new();
    assert_eq!(printed(shell.try_handle_command(String::from("echo 'a\tb'")).unwrap()), "a\tb ");
    assert_eq!(printed(shell.try_handle_command(String::from("echo \"a\nb\" c")).unwrap()), "a\nb c ");
    assert_eq!(printed(shell.try_handle_command(String::from("echo a\\\tb")).unwrap()), "a\tb ");
    assert_eq!(printed(shell.try_handle_command(String::from("echo a\\nb")).unwrap()), "a\nb ");
}

#[test]
fn echo_on_a_line_without_end_gets_no_answer() {
    let mut shell = ShellState::new();
    assert_eq!(shell.try_handle_command(String::from("echo a\tb")).err(), Some(LineError::Endless));
    assert_eq!(shell.try_handle_command(String::from("echo\n")).err(), Some(LineError::Endless));
    assert_eq!(shell.working_dir(), "/");
}

#[test]
fn a_word_cut_in_two_gets_no_answer() {
    let mut shell = ShellState::new();
    assert_eq!(
        shell.try_handle_command(String::from("echo \\\u{e9}")).err(),
        Some(LineError::Garbled)
    );
    assert_eq!(
        shell.try_handle_command(String::from("cd \\\u{e9}")).err(),
        Some(LineError::Garbled)
    );
    assert_eq!(
        shell.try_handle_command(String::from("\\\u{e9}")).err(),
        Some(LineError::Garbled)
    );
    // The garbled word comes before the line proves endless.
    assert_eq!(
        shell.try_handle_command(String::from("echo \\\u{e9}\tx")).err(),
        Some(LineError::Garbled)
    );
    // An escaped backslash before the character cuts nothing.
    assert_eq!(
        printed(shell.try_handle_command(String::from("echo \\\\\u{e9}")).unwrap()),
        "\\\u{e9} "
    );
}

#[test]
fn read_words_reads_what_the_command_reads() {
    let raw = |list: &[&[u8]]| -> Vec<Vec<u8>> { list.iter().map(|w| w.to_vec()).collect() };
    assert_eq!(read_words(&raw(&[]), 1), Ok(words(&[])));
    assert_eq!(read_words(&raw(&[b"pwd", b"x", b"\xff"]), 9), Ok(words(&["pwd"])));
    assert_eq!(read_words(&raw(&[b"cd", b"x", b"\xff"]), 9), Ok(words(&["cd", "x"])));
    assert_eq!(read_words(&raw(&[b"ls"]), 9), Ok(words(&["ls"])));
    assert_eq!(read_words(&raw(&[b"echo", b"a", b"b"]), 9), Ok(words(&["echo", "a", "b"])));
    assert_eq!(read_words(&raw(&[b"echo", b"a", b"b"]), 3), Err(LineError::Endless));
    assert_eq!(read_words(&raw(&[b"pwd", b"a", b"b"]), 3), Ok(words(&["pwd"])));
    assert_eq!(read_words(&raw(&[b"echo", b"a", b"\xff"]), 9), Err(LineError::Garbled));
    assert_eq!(read_words(&raw(&[b"echo", b"\xff", b"b"]), 3), Err(LineError::Garbled));
    assert_eq!(read_words(&raw(&[b"\xff"]), 9), Err(LineError::Garbled));
    assert_eq!(read_words(&raw(&[b"ls", b"\xc3"]), 9), Err(LineError::Garbled));
    assert_eq!(read_words(&raw(&[b"caf\xc3\xa9"]), 9), Ok(words(&["caf\u{e9}"])));
}

#[test]
fn words_outside_ascii_pass_through() {
    let mut shell = ShellState::new();
    assert_eq!(printed(shell.handle_command(String::from("echo caf\u{e9} na\u{ef}ve"))), "caf\u{e9} na\u{ef}ve ");
}
