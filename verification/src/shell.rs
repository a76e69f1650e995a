//! The command interpreter of the console: one line in, one reply out.

use vstd::prelude::*;
use vstd::pervasive::unreached;
use vstd::utf8::{decode_utf8, encode_utf8, valid_utf8};

verus! {

/// What the first `limit` calls of the word parser hand out for a command
/// line: its words, split and unescaped by the rules of a POSIX shell, as
/// bytes. There are fewer than `limit` where the parser comes to its end
/// before.
pub uninterp spec fn posix_words(line: Seq<char>, limit: nat) -> Seq<Seq<u8>>;

/// The values of a list of strings.
pub open spec fn word_views(words: Seq<String>) -> Seq<Seq<char>> {
    words.map_values(|w: String| w@)
}

/// The values of a list of byte strings.
pub open spec fn byte_views(words: Seq<Vec<u8>>) -> Seq<Seq<u8>> {
    words.map_values(|w: Vec<u8>| w@)
}

/// `String::push_str` appends the slice to the string.
pub assume_specification[ String::push_str ](s: &mut String, string: &str)
    ensures
        final(s)@ == old(s)@ + string@,
;

/// Runs `cmdline_words_parser::parse_posix` on a copy of the line's bytes,
/// asks it for a word at most `limit` times, and copies out what it hands
/// out. On bytes the parser checks no encoding, so it neither panics nor
/// refuses; what it hands out, in order, is what `posix_words` names.
#[verifier::external_body]
fn split_words(line: &str, limit: usize) -> (words: Vec<Vec<u8>>)
    ensures
        byte_views(words@) == posix_words(line@, limit as nat),
{
    let mut bytes = line.as_bytes().to_vec();
    cmdline_words_parser::parse_posix(bytes.as_mut_slice()).take(limit).map(
        |word| word.to_vec(),
    ).collect()
}

/// Turns bytes into text with `String::from_utf8`, which succeeds exactly
/// on valid UTF-8 and then gives the string that the bytes encode.
#[verifier::external_body]
fn text_of(bytes: &Vec<u8>) -> (text: Option<String>)
    ensures
        text is Some <==> valid_utf8(bytes@),
        text is Some ==> text->0@ == decode_utf8(bytes@),
{
    match String::from_utf8(bytes.clone()) {
        Ok(text) => Some(text),
        Err(_) => None,
    }
}

/// Why a command line gets no answer.
#[derive(Clone, Copy, Debug, PartialEq, Eq, Structural)]
pub enum LineError {
    /// A word that the command reads is not text: an escape cut a
    /// character in two.
    Garbled,
    /// The command reads every word, and the parser never comes to the end
    /// of the line: a tab or line break outside quotes holds it up.
    Endless,
}

/// How often the parser is asked for a word of a line: once more than the
/// line has bytes. A parser that comes to an end does so before.
pub open spec fn word_limit(line: Seq<char>) -> nat {
    let n = encode_utf8(line).len() as usize;
    if n < usize::MAX {
        (n + 1) as nat
    } else {
        n as nat
    }
}

/// The number of words that the command of a line reads, the command
/// itself counted: `cd` and `ls` read one argument if there is one, `echo`
/// reads every word, and any other command reads none.
pub open spec fn read_count(raw: Seq<Seq<u8>>) -> nat {
    if raw.len() == 0 {
        0
    } else if !valid_utf8(raw[0]) {
        1
    } else if decode_utf8(raw[0]) == "cd"@ || decode_utf8(raw[0]) == "ls"@ {
        if raw.len() > 1 {
            2
        } else {
            1
        }
    } else if decode_utf8(raw[0]) == "echo"@ {
        raw.len()
    } else {
        1
    }
}

/// The command reads every word of the line.
pub open spec fn reads_all(raw: Seq<Seq<u8>>) -> bool {
    &&& raw.len() > 0
    &&& valid_utf8(raw[0])
    &&& decode_utf8(raw[0]) != "cd"@
    &&& decode_utf8(raw[0]) != "ls"@
    &&& decode_utf8(raw[0]) == "echo"@
}

/// Why the words `raw`, handed out on at most `limit` calls, get no
/// answer; `None` when they get one. A word that is read and is not text
/// comes first; then a command that reads every word of a line without
/// end.
pub open spec fn line_error(raw: Seq<Seq<u8>>, limit: nat) -> Option<LineError> {
    if exists|i: int| 0 <= i < read_count(raw) && !valid_utf8(#[trigger] raw[i]) {
        Some(LineError::Garbled)
    } else if reads_all(raw) && raw.len() >= limit {
        Some(LineError::Endless)
    } else {
        None
    }
}

/// The words that the command reads, as text.
pub open spec fn words_read(raw: Seq<Seq<u8>>) -> Seq<Seq<char>> {
    Seq::new(read_count(raw), |i: int| decode_utf8(raw[i]))
}

/// What the console is to do in answer to a command.
#[derive(Debug)]
pub enum ShellReply {
    /// Print nothing.
    Nothing,
    /// Print this text.
    Print(String),
    /// Print the entries of the directory at this path.
    ListDir(String),
}

/// Mathematical value of a reply.
pub enum ReplyView {
    Nothing,
    Print(Seq<char>),
    ListDir(Seq<char>),
}

impl View for ShellReply {
    type V = ReplyView;

    open spec fn view(&self) -> ReplyView {
        match self {
            ShellReply::Nothing => ReplyView::Nothing,
            ShellReply::Print(text) => ReplyView::Print(text@),
            ShellReply::ListDir(path) => ReplyView::ListDir(path@),
        }
    }
}

/// What `echo` prints for its arguments: each followed by one space.
pub open spec fn echo_text(args: Seq<Seq<char>>) -> Seq<char>
    decreases args.len(),
{
    if args.len() == 0 {
        Seq::empty()
    } else {
        echo_text(args.drop_last()) + args.last() + " "@
    }
}

/// The reply to a command, given as its words, in the working directory
/// `cwd`, which is relative to the root.
pub open spec fn reply_to(cwd: Seq<char>, words: Seq<Seq<char>>) -> ReplyView {
    if words.len() == 0 {
        ReplyView::Nothing
    } else if words[0] == "pwd"@ {
        ReplyView::Print("/"@ + cwd)
    } else if words[0] == "cd"@ {
        if words.len() > 1 {
            ReplyView::Print("TODO: cd '"@ + words[1] + "'"@)
        } else {
            ReplyView::Nothing
        }
    } else if words[0] == "ls"@ {
        if words.len() > 1 {
            ReplyView::ListDir(words[1])
        } else {
            ReplyView::ListDir("/"@ + cwd)
        }
    } else if words[0] == "cat"@ {
        ReplyView::Print("TODO: cat"@)
    } else if words[0] == "echo"@ {
        ReplyView::Print(echo_text(words.subrange(1, words.len() as int)))
    } else if words[0] == "help"@ {
        ReplyView::Print("Builtins: pwd, cd, ls, cat, help, echo"@)
    } else {
        ReplyView::Print("Unkown command '"@ + words[0] + "'"@)
    }
}

/// The working directory after a command: `cd` without an argument goes
/// back to the root, and nothing else moves.
pub open spec fn cwd_after(cwd: Seq<char>, words: Seq<Seq<char>>) -> Seq<char> {
    if words.len() == 1 && words[0] == "cd"@ {
        Seq::empty()
    } else {
        cwd
    }
}

/// The state of the command interpreter.
pub struct ShellState {
    /// Current working directory, relative to the root.
    cwd_rel: String,
}

/// True when the word is the given text.
fn word_is(word: &String, text: &str) -> (same: bool)
    ensures
        same == (word@ == text@),
{
    *word == text.to_string()
}

/// How often the parser is asked for a word of the line.
fn limit_of(line: &str) -> (limit: usize)
    ensures
        limit == word_limit(line@),
{
    let n = line.len();
    if n < usize::MAX {
        n + 1
    } else {
        n
    }
}

/// Reads what the parser handed out as far as the command reads it, and
/// turns it into text.
pub fn read_words(raw: &Vec<Vec<u8>>, limit: usize) -> (r: Result<Vec<String>, LineError>)
    ensures
        match r {
            Ok(words) => {
                &&& line_error(byte_views(raw@), limit as nat) is None
                &&& word_views(words@) == words_read(byte_views(raw@))
            },
            Err(e) => line_error(byte_views(raw@), limit as nat) == Some(e),
        },
{
    let ghost views = byte_views(raw@);
    let mut words: Vec<String> = Vec::new();
    if raw.len() == 0 {
        assert(word_views(words@) =~= words_read(views));
        return Ok(words);
    }
    assert(views[0] == raw@[0]@);
    let command = match text_of(&raw[0]) {
        Some(command) => command,
        None => {
            return Err(LineError::Garbled);
        },
    };
    let reads_second = word_is(&command, "cd") || word_is(&command, "ls");
    let reads_all = !reads_second && word_is(&command, "echo");
    let count = if reads_second {
        if raw.len() > 1 {
            2
        } else {
            1
        }
    } else if reads_all {
        raw.len()
    } else {
        1
    };
    words.push(command);
    assert(word_views(words@) =~= Seq::new(1, |j: int| decode_utf8(views[j])));
    let mut i: usize = 1;
    while i < count
        invariant
            1 <= i <= count <= raw@.len(),
            views == byte_views(raw@),
            count == read_count(views),
            forall|j: int| 0 <= j < i ==> valid_utf8(#[trigger] views[j]),
            word_views(words@) == Seq::new(i as nat, |j: int| decode_utf8(views[j])),
        decreases count - i,
    {
        assert(views[i as int] == raw@[i as int]@);
        let ghost before = word_views(words@);
        match text_of(&raw[i]) {
            Some(word) => {
                words.push(word);
                assert(word_views(words@) =~= before.push(decode_utf8(views[i as int])));
            },
            None => {
                return Err(LineError::Garbled);
            },
        }
        i += 1;
        assert(word_views(words@) =~= Seq::new(i as nat, |j: int| decode_utf8(views[j])));
    }
    if reads_all && raw.len() >= limit {
        return Err(LineError::Endless);
    }
    Ok(words)
}

impl ShellState {
    /// The working directory, relative to the root.
    pub closed spec fn cwd(&self) -> Seq<char> {
        self.cwd_rel@
    }

    /// An interpreter whose working directory is the root.
    pub fn new() -> (shell: ShellState)
        ensures
            shell.cwd() == Seq::<char>::empty(),
    {
        ShellState { cwd_rel: String::new() }
    }

    /// The working directory, as an absolute path.
    pub fn working_dir(&self) -> (path: String)
        ensures
            path@ == "/"@ + self.cwd(),
    {
        let mut path = "/".to_string();
        path.push_str(self.cwd_rel.as_str());
        path
    }

    /// Runs a command that has been split into words, and returns what the
    /// console is to do.
    pub fn run_words(&mut self, words: &Vec<String>) -> (reply: ShellReply)
        ensures
            reply@ == reply_to(old(self).cwd(), word_views(words@)),
            final(self).cwd() == cwd_after(old(self).cwd(), word_views(words@)),
    {
        let ghost views = word_views(words@);
        if words.len() == 0 {
            return ShellReply::Nothing;
        }
        assert(views[0] == words@[0]@);
        proof {
            reveal_strlit("pwd");
            reveal_strlit("cd");
            assert("pwd"@.len() != "cd"@.len());
        }
        let command = &words[0];
        if word_is(command, "pwd") {
            ShellReply::Print(self.working_dir())
        } else if word_is(command, "cd") {
            if words.len() > 1 {
                assert(views[1] == words@[1]@);
                let mut text = "TODO: cd '".to_string();
                text.push_str(words[1].as_str());
                text.push_str("'");
                ShellReply::Print(text)
            } else {
                self.cwd_rel = String::new();
                ShellReply::Nothing
            }
        } else if word_is(command, "ls") {
            if words.len() > 1 {
                assert(views[1] == words@[1]@);
                ShellReply::ListDir(words[1].clone())
            } else {
                ShellReply::ListDir(self.working_dir())
            }
        } else if word_is(command, "cat") {
            ShellReply::Print("TODO: cat".to_string())
        } else if word_is(command, "echo") {
            let ghost args = views.subrange(1, views.len() as int);
            let mut text = String::new();
            let mut i: usize = 1;
            assert(args.subrange(0, 0) =~= Seq::<Seq<char>>::empty());
            while i < words.len()
                invariant
                    1 <= i <= words.len(),
                    views == word_views(words@),
                    args == views.subrange(1, views.len() as int),
                    text@ == echo_text(args.subrange(0, i - 1)),
                decreases words.len() - i,
            {
                proof {
                    let done = args.subrange(0, i - 1);
                    let next = args.subrange(0, i as int);
                    assert(next.drop_last() =~= done);
                    assert(next.last() == words@[i as int]@);
                }
                text.push_str(words[i].as_str());
                text.push_str(" ");
                i += 1;
            }
            assert(args.subrange(0, i - 1) =~= args);
            ShellReply::Print(text)
        } else if word_is(command, "help") {
            ShellReply::Print("Builtins: pwd, cd, ls, cat, help, echo".to_string())
        } else {
            let mut text = "Unkown command '".to_string();
            text.push_str(command.as_str());
            text.push_str("'");
            ShellReply::Print(text)
        }
    }

    /// Handles a command line: splits it into words, reads the words that
    /// the command reads, and runs them.
    ///
    /// The words read are text, and a command that reads every word finds
    /// the end of the line.
    pub fn handle_command(&mut self, cmdline: String) -> (reply: ShellReply)
        requires
            line_error(posix_words(cmdline@, word_limit(cmdline@)), word_limit(cmdline@)) is None,
        ensures
            reply@ == reply_to(
                old(self).cwd(),
                words_read(posix_words(cmdline@, word_limit(cmdline@))),
            ),
            final(self).cwd() == cwd_after(
                old(self).cwd(),
                words_read(posix_words(cmdline@, word_limit(cmdline@))),
            ),
    {
        let limit = limit_of(cmdline.as_str());
        let raw = split_words(cmdline.as_str(), limit);
        match read_words(&raw, limit) {
            Ok(words) => self.run_words(&words),
            Err(_) => unreached(),
        }
    }

    /// Handles any command line: answers where `handle_command` answers,
    /// and says why where it does not. A line that gets no answer changes
    /// nothing.
    pub fn try_handle_command(&mut self, cmdline: String) -> (r: Result<ShellReply, LineError>)
        ensures
            match r {
                Ok(reply) => {
                    &&& line_error(
                        posix_words(cmdline@, word_limit(cmdline@)),
                        word_limit(cmdline@),
                    ) is None
                    &&& reply@ == reply_to(
                        old(self).cwd(),
                        words_read(posix_words(cmdline@, word_limit(cmdline@))),
                    )
                    &&& final(self).cwd() == cwd_after(
                        old(self).cwd(),
                        words_read(posix_words(cmdline@, word_limit(cmdline@))),
                    )
                },
                Err(e) => {
                    &&& line_error(
                        posix_words(cmdline@, word_limit(cmdline@)),
                        word_limit(cmdline@),
                    ) == Some(e)
                    &&& final(self).cwd() == old(self).cwd()
                },
            },
    {
        let limit = limit_of(cmdline.as_str());
        let raw = split_words(cmdline.as_str(), limit);
        match read_words(&raw, limit) {
            Ok(_) => Ok(self.handle_command(cmdline)),
            Err(e) => Err(e),
        }
    }
}

} // verus!
