//! The message model and the parser that turns a line of user input into a
//! message, or into the file the message must be built from.
use vstd::prelude::*;
use crate::text::chars_of;

verus! {

/// One unit of chat traffic.
#[derive(Debug, Clone, PartialEq, Eq)]
pub enum Message {
    File { name: String, data: Vec<u8> },
    Photo { data: Vec<u8> },
    Text(String),
    SetUser { username: Option<String> },
    Stop,
}

/// The mathematical value of a `Message`.
pub ghost enum MessageView {
    File { name: Seq<char>, data: Seq<u8> },
    Photo { data: Seq<u8> },
    Text(Seq<char>),
    SetUser { username: Option<Seq<char>> },
    Stop,
}

/// The value of an optional string.
pub open spec fn opt_view(o: Option<String>) -> Option<Seq<char>> {
    match o {
        Some(s) => Some(s@),
        None => None,
    }
}

impl View for Message {
    type V = MessageView;

    open spec fn view(&self) -> MessageView {
        match self {
            Message::File { name, data } => MessageView::File { name: name@, data: data@ },
            Message::Photo { data } => MessageView::Photo { data: data@ },
            Message::Text(t) => MessageView::Text(t@),
            Message::SetUser { username } => MessageView::SetUser { username: opt_view(*username) },
            Message::Stop => MessageView::Stop,
        }
    }
}

/// A copy of an optional string with the same value.
pub fn copy_opt(o: &Option<String>) -> (r: Option<String>)
    ensures
        opt_view(r) == opt_view(*o),
{
    match o {
        Some(s) => Some(s.clone()),
        None => None,
    }
}

/// A copy of a byte buffer with the same contents.
pub fn copy_bytes(b: &Vec<u8>) -> (r: Vec<u8>)
    ensures
        r@ == b@,
{
    let mut out: Vec<u8> = Vec::with_capacity(b.len());
    let mut i: usize = 0;
    while i < b.len()
        invariant
            i <= b@.len(),
            out@ == b@.subrange(0, i as int),
        decreases b@.len() - i,
    {
        out.push(b[i]);
        i = i + 1;
        assert(out@ =~= b@.subrange(0, i as int));
    }
    assert(b@.subrange(0, b@.len() as int) =~= b@);
    out
}

impl Message {
    /// A copy of this message with the same value.
    pub fn copy(&self) -> (r: Message)
        ensures
            r@ == self@,
    {
        match self {
            Message::File { name, data } => Message::File { name: name.clone(), data: copy_bytes(data) },
            Message::Photo { data } => Message::Photo { data: copy_bytes(data) },
            Message::Text(t) => Message::Text(t.clone()),
            Message::SetUser { username } => Message::SetUser { username: copy_opt(username) },
            Message::Stop => Message::Stop,
        }
    }
}

/// Index of the first space at or after `i`, or the length of `s`.
pub open spec fn space_from(s: Seq<char>, i: int) -> int
    decreases s.len() - i,
{
    if i >= s.len() || i < 0 {
        s.len() as int
    } else if s[i] == ' ' {
        i
    } else {
        space_from(s, i + 1)
    }
}

/// The command word of a line: everything before the first space.
pub open spec fn command_of(line: Seq<char>) -> Seq<char> {
    line.subrange(0, space_from(line, 0))
}

/// The argument of a line: everything after the first space, if there is one.
pub open spec fn argument_of(line: Seq<char>) -> Option<Seq<char>> {
    if space_from(line, 0) < line.len() {
        Some(line.subrange(space_from(line, 0) + 1, line.len() as int))
    } else {
        None
    }
}

/// The argument of a line, or nothing when it has none.
pub open spec fn argument_or_empty(line: Seq<char>) -> Seq<char> {
    match argument_of(line) {
        Some(a) => a,
        None => Seq::empty(),
    }
}

/// What a line of input asks for: a message ready to use, or a message to be
/// built from the file at a path.
#[derive(Debug, Clone, PartialEq, Eq)]
pub enum Parsed {
    Ready(Message),
    File(String),
    Image(String),
}

/// The mathematical value of a `Parsed`.
pub ghost enum ParsedView {
    Ready(MessageView),
    File(Seq<char>),
    Image(Seq<char>),
}

impl View for Parsed {
    type V = ParsedView;

    open spec fn view(&self) -> ParsedView {
        match self {
            Parsed::Ready(m) => ParsedView::Ready(m@),
            Parsed::File(p) => ParsedView::File(p@),
            Parsed::Image(p) => ParsedView::Image(p@),
        }
    }
}

/// The meaning of a line of user input. A line that does not start with `.`
/// is text. Otherwise its first word picks the command; a word that names no
/// command leaves the whole line as text.
pub open spec fn parse_spec(line: Seq<char>) -> ParsedView {
    if line.len() == 0 || line[0] != '.' {
        ParsedView::Ready(MessageView::Text(line))
    } else if command_of(line) == ".stop"@ {
        ParsedView::Ready(MessageView::Stop)
    } else if command_of(line) == ".file"@ {
        ParsedView::File(argument_or_empty(line))
    } else if command_of(line) == ".image"@ {
        ParsedView::Image(argument_or_empty(line))
    } else if command_of(line) == ".user"@ {
        ParsedView::Ready(MessageView::SetUser { username: argument_of(line) })
    } else {
        ParsedView::Ready(MessageView::Text(line))
    }
}

impl Message {
    /// Parses a line of user input (see `parse_spec`).
    pub fn parse(line: &str) -> (r: Parsed)
        ensures
            r@ == parse_spec(line@),
    {
        let cs = chars_of(line);
        if cs.len() == 0 || cs[0] != '.' {
            return Parsed::Ready(Message::Text(line.to_string()));
        }
        let mut end: usize = 0;
        while end < cs.len() && cs[end] != ' '
            invariant
                end <= cs@.len(),
                cs@ == line@,
                space_from(line@, 0) == space_from(line@, end as int),
            decreases cs@.len() - end,
        {
            end = end + 1;
        }
        let command = String::from_str(line.substring_char(0, end));
        let argument: Option<String> = if end < cs.len() {
            Some(String::from_str(line.substring_char(end + 1, cs.len())))
        } else {
            None
        };
        assert(command@ == command_of(line@));
        assert(opt_view(argument) == argument_of(line@));
        if command == String::from_str(".stop") {
            Parsed::Ready(Message::Stop)
        } else if command == String::from_str(".file") {
            Parsed::File(match argument { Some(a) => a, None => String::new() })
        } else if command == String::from_str(".image") {
            Parsed::Image(match argument { Some(a) => a, None => String::new() })
        } else if command == String::from_str(".user") {
            Parsed::Ready(Message::SetUser { username: argument })
        } else {
            Parsed::Ready(Message::Text(line.to_string()))
        }
    }
}

proof fn lemma_command_words_differ()
    ensures
        ".user"@ != ".stop"@,
        ".user"@ != ".file"@,
        ".user"@ != ".image"@,
        ".file"@ != ".stop"@,
{
    reveal_strlit(".user");
    reveal_strlit(".stop");
    reveal_strlit(".file");
    reveal_strlit(".image");
    assert(".user"@[1] != ".stop"@[1]);
    assert(".user"@[1] != ".file"@[1]);
    assert(".user"@.len() != ".image"@.len());
    assert(".file"@[1] != ".stop"@[1]);
}

proof fn lemma_space_from_word(s: Seq<char>, end: int, j: int)
    requires
        0 <= j <= end <= s.len(),
        forall|i: int| 0 <= i < end ==> s[i] != ' ',
        end == s.len() || s[end] == ' ',
    ensures
        space_from(s, j) == end,
    decreases end - j,
{
    if j < end {
        lemma_space_from_word(s, end, j + 1);
    }
}

/// The first word of `word + rest` is `word` when `word` holds no space and
/// `rest` is empty or starts with one.
proof fn lemma_command_of_word(word: Seq<char>, rest: Seq<char>)
    requires
        forall|i: int| 0 <= i < word.len() ==> word[i] != ' ',
        rest.len() == 0 || rest[0] == ' ',
    ensures
        space_from(word + rest, 0) == word.len(),
        command_of(word + rest) == word,
        rest.len() > 0 ==> argument_of(word + rest) == Some(rest.subrange(1, rest.len() as int)),
        rest.len() == 0 ==> argument_of(word + rest) is None,
{
    let s = word + rest;
    lemma_space_from_word(s, word.len() as int, 0);
    assert(space_from(s, 0) == word.len());
    assert(s.subrange(0, word.len() as int) =~= word);
    if rest.len() > 0 {
        assert(s.subrange(word.len() as int + 1, s.len() as int) =~= rest.subrange(1, rest.len() as int));
    }
}

/// `.stop` means stop whatever follows it after a space.
pub proof fn lemma_stop_ignores_rest(rest: Seq<char>)
    requires
        rest.len() == 0 || rest[0] == ' ',
    ensures
        parse_spec(".stop"@ + rest) == ParsedView::Ready(MessageView::Stop),
{
    reveal_strlit(".stop");
    lemma_command_of_word(".stop"@, rest);
}

/// `.user` alone clears the user name; `.user <name>` sets it to all that
/// follows the first space.
pub proof fn lemma_user_command(name: Seq<char>)
    ensures
        parse_spec(".user"@) == ParsedView::Ready(MessageView::SetUser { username: None }),
        parse_spec(".user "@ + name) == ParsedView::Ready(MessageView::SetUser { username: Some(name) }),
{
    reveal_strlit(".user");
    reveal_strlit(".user ");
    lemma_command_words_differ();
    lemma_command_of_word(".user"@, Seq::empty());
    assert(".user"@ + Seq::<char>::empty() =~= ".user"@);
    let rest = seq![' '] + name;
    lemma_command_of_word(".user"@, rest);
    assert(".user"@ + rest =~= ".user "@ + name);
    assert(rest.subrange(1, rest.len() as int) =~= name);
}

/// `.file <path>` asks for the file at `path`; when no file is there the
/// result is `FileNotFound` with that same path (see `Message::from_file`).
/// `.file` alone asks for the empty path, which names no file.
pub proof fn lemma_file_command(path: Seq<char>)
    ensures
        parse_spec(".file "@ + path) == ParsedView::File(path),
        parse_spec(".file"@) == ParsedView::File(Seq::empty()),
{
    reveal_strlit(".file");
    reveal_strlit(".file ");
    lemma_command_words_differ();
    lemma_command_of_word(".file"@, Seq::empty());
    assert(".file"@ + Seq::<char>::empty() =~= ".file"@);
    let rest = seq![' '] + path;
    lemma_command_of_word(".file"@, rest);
    assert(".file"@ + rest =~= ".file "@ + path);
    assert(rest.subrange(1, rest.len() as int) =~= path);
}

/// The last component of a path: what follows its last `/`.
pub open spec fn basename_spec(path: Seq<char>) -> Seq<char>
    decreases path.len(),
{
    if path.len() == 0 || path.last() == '/' {
        Seq::empty()
    } else {
        basename_spec(path.drop_last()).push(path.last())
    }
}

proof fn lemma_basename_no_slash(path: Seq<char>)
    ensures
        !basename_spec(path).contains('/'),
    decreases path.len(),
{
    if path.len() == 0 || path.last() == '/' {
    } else {
        lemma_basename_no_slash(path.drop_last());
        let b = basename_spec(path.drop_last());
        assert(forall|i: int| 0 <= i < b.len() ==> b[i] != '/');
        assert(forall|i: int| 0 <= i < b.len() + 1 ==> #[trigger] b.push(path.last())[i] != '/');
    }
}

proof fn lemma_basename_split(path: Seq<char>, i: int)
    requires
        0 <= i <= path.len(),
        forall|j: int| i <= j < path.len() ==> path[j] != '/',
    ensures
        basename_spec(path) == basename_spec(path.subrange(0, i)) + path.subrange(i, path.len() as int),
    decreases path.len() - i,
{
    if i == path.len() {
        assert(path.subrange(0, i) =~= path);
        assert(path.subrange(i, path.len() as int) =~= Seq::<char>::empty());
        assert(basename_spec(path) + Seq::<char>::empty() =~= basename_spec(path));
    } else {
        lemma_basename_split(path.drop_last(), i);
        assert(path.drop_last().subrange(0, i) =~= path.subrange(0, i));
        assert(path.subrange(i, path.len() as int) =~= path.drop_last().subrange(i, path.len() - 1).push(path.last()));
    }
}

/// The file name of `path`: its last component, which holds no `/`.
pub fn basename(path: &str) -> (r: String)
    ensures
        r@ == basename_spec(path@),
        !r@.contains('/'),
{
    let cs = chars_of(path);
    let mut start: usize = cs.len();
    while start > 0 && cs[start - 1] != '/'
        invariant
            start <= cs@.len(),
            cs@ == path@,
            forall|j: int| start <= j < cs@.len() ==> cs@[j] != '/',
        decreases start,
    {
        start = start - 1;
    }
    proof {
        lemma_basename_split(path@, start as int);
        let pre = path@.subrange(0, start as int);
        assert(basename_spec(pre) =~= Seq::<char>::empty());
        lemma_basename_no_slash(path@);
    }
    let r = String::from_str(path.substring_char(start, cs.len()));
    assert(r@ =~= basename_spec(path@));
    r
}

/// What became of reading the file a command names.
#[derive(Debug, Clone, PartialEq, Eq)]
pub enum FileProbe {
    /// No file exists at the path.
    Missing,
    /// The file exists but could not be read.
    Unreadable,
    /// The file's bytes.
    Contents(Vec<u8>),
}

/// Why a line of input could not become a message.
#[derive(Debug, Clone, PartialEq, Eq)]
pub enum MessageError {
    FileNotFound(String),
    FileReadFailed,
    UnsupportedImage,
}

impl MessageError {
    /// The sentence that describes the error to the user.
    pub open spec fn describe_spec(&self) -> Seq<char> {
        match self {
            MessageError::FileNotFound(p) => "File "@ + p@ + " not found."@,
            MessageError::FileReadFailed => "Failed to read from file."@,
            MessageError::UnsupportedImage => "Unsupported image format."@,
        }
    }

    /// A sentence that describes the error to the user.
    pub fn describe(&self) -> (r: String)
        ensures
            r@ == self.describe_spec(),
    {
        match self {
            MessageError::FileNotFound(p) => {
                let mut r = String::from_str("File ");
                r.append(p.as_str());
                r.append(" not found.");
                r
            },
            MessageError::FileReadFailed => String::from_str("Failed to read from file."),
            MessageError::UnsupportedImage => String::from_str("Unsupported image format."),
        }
    }
}

impl Message {
    /// Builds the message for `.file <path>` from what reading the file gave:
    /// a missing file is `FileNotFound` with the path as given, an unreadable
    /// one `FileReadFailed`, and otherwise a `File` named by the path's last
    /// component that carries the file's bytes.
    pub fn from_file(path: &str, probe: FileProbe) -> (r: Result<Message, MessageError>)
        ensures
            probe is Missing ==> (r matches Err(MessageError::FileNotFound(p)) && p@ == path@),
            probe is Unreadable ==> r == Err::<Message, MessageError>(MessageError::FileReadFailed),
            probe matches FileProbe::Contents(data) ==> (r matches Ok(m) && m@ == MessageView::File {
                name: basename_spec(path@),
                data: data@,
            }),
    {
        match probe {
            FileProbe::Missing => Err(MessageError::FileNotFound(path.to_string())),
            FileProbe::Unreadable => Err(MessageError::FileReadFailed),
            FileProbe::Contents(data) => Ok(Message::File { name: basename(path), data }),
        }
    }
}

/// A message together with the name of the user who sent it.
#[derive(Debug, Clone, PartialEq, Eq)]
pub struct UserMessage {
    pub username: Option<String>,
    pub message: Message,
}

/// The mathematical value of a `UserMessage`.
pub ghost struct UserMessageView {
    pub username: Option<Seq<char>>,
    pub message: MessageView,
}

impl View for UserMessage {
    type V = UserMessageView;

    open spec fn view(&self) -> UserMessageView {
        UserMessageView { username: opt_view(self.username), message: self.message@ }
    }
}

impl UserMessage {
    /// A copy of this message with the same value.
    pub fn copy(&self) -> (r: UserMessage)
        ensures
            r@ == self@,
    {
        UserMessage { username: copy_opt(&self.username), message: self.message.copy() }
    }
}

} // verus!
