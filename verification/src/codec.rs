//! The command codec: pure conversions between a [`Command`] value and its
//! pipe-delimited text frame.
//!
//! Wire grammar (one frame, no terminator at this layer):
//! - `Connect|<username>`
//! - `Msg|<sender>|<receiver>|<message-body>`
//!
//! Parsing splits on `|` and inspects the first field as a tag. For `Msg`,
//! everything after the third delimiter is the body: a body containing `|`
//! passes through unharmed instead of being truncated at the next delimiter.
//! Usernames (and the sender/receiver fields) must not contain the delimiter;
//! the encoder does not escape it.

use vstd::prelude::*;

verus! {

/// Represents a user. The only field contains the user's username;
/// uniqueness is enforced by the registry, not by this type.
#[derive(Debug)]
pub struct User(pub String);

impl User {
    pub fn new(username: String) -> (r: Self)
        ensures
            r.0@ == username@,
    {
        User(username)
    }
}

/// One routed message: who sent it, whom it is for, and the body text.
#[derive(Debug)]
pub struct Message {
    pub sender: String,
    pub receiver: String,
    pub message: String,
}

/// One protocol-level request unit exchanged over a connection.
/// - `Connect` registers the given `User` with the server.
/// - `Msg` asks the server to forward a `Message` to another user.
#[derive(Debug)]
pub enum Command {
    Connect(User),
    Msg(Message),
}

/// Returned when a frame's text does not match the command grammar.
#[derive(Debug)]
pub struct CommandParseError;

/// The mathematical value of a [`Command`]: each text field as its
/// character sequence.
pub ghost enum CommandModel {
    Connect { username: Seq<char> },
    Msg { sender: Seq<char>, receiver: Seq<char>, message: Seq<char> },
}

impl View for User {
    type V = Seq<char>;

    open spec fn view(&self) -> Seq<char> {
        self.0@
    }
}

impl View for Command {
    type V = CommandModel;

    open spec fn view(&self) -> CommandModel {
        match self {
            Command::Connect(u) => CommandModel::Connect { username: u.0@ },
            Command::Msg(m) => CommandModel::Msg {
                sender: m.sender@,
                receiver: m.receiver@,
                message: m.message@,
            },
        }
    }
}

/// The frame text that encodes a command.
pub open spec fn spec_encode(c: CommandModel) -> Seq<char> {
    match c {
        CommandModel::Connect { username } => "Connect|"@ + username,
        CommandModel::Msg { sender, receiver, message } => "Msg|"@ + sender + "|"@ + receiver
            + "|"@ + message,
    }
}

/// The position of the first delimiter in `s` at or after `from`,
/// or `s.len()` when no delimiter follows.
pub open spec fn find_delim(s: Seq<char>, from: int) -> int
    recommends
        0 <= from <= s.len(),
    decreases s.len() - from,
{
    if from < 0 || from >= s.len() {
        s.len() as int
    } else if s[from] == '|' {
        from
    } else {
        find_delim(s, from + 1)
    }
}

/// `find_delim` lands between `from` and the end, on a delimiter if on
/// anything, and skips no delimiter on the way.
pub proof fn lemma_find_delim_props(s: Seq<char>, from: int)
    requires
        0 <= from <= s.len(),
    ensures
        from <= find_delim(s, from) <= s.len(),
        forall|j: int| from <= j < find_delim(s, from) ==> s[j] != '|',
        find_delim(s, from) < s.len() ==> s[find_delim(s, from)] == '|',
    decreases s.len() - from,
{
    if from < s.len() && s[from] != '|' {
        lemma_find_delim_props(s, from + 1);
    }
}

/// A position with no delimiter before it (from `from` on) that sits on a
/// delimiter, or at the end, is exactly what `find_delim` returns.
pub proof fn lemma_find_delim_at(s: Seq<char>, from: int, k: int)
    requires
        0 <= from <= k <= s.len(),
        forall|j: int| from <= j < k ==> s[j] != '|',
        k < s.len() ==> s[k] == '|',
    ensures
        find_delim(s, from) == k,
    decreases k - from,
{
    if from < k {
        lemma_find_delim_at(s, from + 1, k);
    }
}

/// The command a frame's text parses to, or `None` when the text does not
/// match the grammar: an unknown or empty tag, a `Connect` with no username
/// field, or a `Msg` with fewer than four fields. Extra fields after a
/// `Connect` username are ignored; everything after a `Msg`'s third
/// delimiter is the body.
pub open spec fn spec_decode(s: Seq<char>) -> Option<CommandModel> {
    let d1 = find_delim(s, 0);
    let tag = s.subrange(0, d1);
    if tag == "Connect"@ {
        if d1 == s.len() {
            None
        } else {
            let d2 = find_delim(s, d1 + 1);
            Some(CommandModel::Connect { username: s.subrange(d1 + 1, d2) })
        }
    } else if tag == "Msg"@ {
        if d1 == s.len() {
            None
        } else {
            let d2 = find_delim(s, d1 + 1);
            if d2 == s.len() {
                None
            } else {
                let d3 = find_delim(s, d2 + 1);
                if d3 == s.len() {
                    None
                } else {
                    Some(
                        CommandModel::Msg {
                            sender: s.subrange(d1 + 1, d2),
                            receiver: s.subrange(d2 + 1, d3),
                            message: s.subrange(d3 + 1, s.len() as int),
                        },
                    )
                }
            }
        }
    } else {
        None
    }
}

/// The position of the first `|` in `s` at or after `from`, or the length
/// of `s` when there is none.
fn find_delim_exec(s: &str, from: usize) -> (r: usize)
    requires
        from <= s@.len(),
    ensures
        r == find_delim(s@, from as int),
{
    let n = s.unicode_len();
    let mut i = from;
    while i < n
        invariant
            from <= i <= n,
            n == s@.len(),
            forall|j: int| from <= j < i ==> s@[j] != '|',
        decreases n - i,
    {
        if s.get_char(i) == '|' {
            proof {
                lemma_find_delim_at(s@, from as int, i as int);
            }
            return i;
        }
        i = i + 1;
    }
    proof {
        lemma_find_delim_at(s@, from as int, n as int);
    }
    n
}

/// Parses one frame's text into a command. Returns `CommandParseError`
/// exactly on the texts that [`spec_decode`] rejects.
pub fn decode(s: &str) -> (r: Result<Command, CommandParseError>)
    ensures
        r is Ok <==> spec_decode(s@) is Some,
        r matches Ok(c) ==> Some(c@) == spec_decode(s@),
{
    let n = s.unicode_len();
    let d1 = find_delim_exec(s, 0);
    proof {
        lemma_find_delim_props(s@, 0);
    }
    let tag = s.substring_char(0, d1).to_owned();
    if tag == String::from_str("Connect") {
        if d1 == n {
            return Err(CommandParseError);
        }
        let d2 = find_delim_exec(s, d1 + 1);
        proof {
            lemma_find_delim_props(s@, d1 + 1);
        }
        let username = s.substring_char(d1 + 1, d2).to_owned();
        Ok(Command::Connect(User::new(username)))
    } else if tag == String::from_str("Msg") {
        if d1 == n {
            return Err(CommandParseError);
        }
        let d2 = find_delim_exec(s, d1 + 1);
        if d2 == n {
            return Err(CommandParseError);
        }
        proof {
            lemma_find_delim_props(s@, d1 + 1);
        }
        let d3 = find_delim_exec(s, d2 + 1);
        if d3 == n {
            return Err(CommandParseError);
        }
        proof {
            lemma_find_delim_props(s@, d2 + 1);
        }
        let sender = s.substring_char(d1 + 1, d2).to_owned();
        let receiver = s.substring_char(d2 + 1, d3).to_owned();
        let message = s.substring_char(d3 + 1, n).to_owned();
        Ok(
            Command::Msg(
                Message { sender, receiver, message },
            ),
        )
    } else {
        Err(CommandParseError)
    }
}

/// No character of `s` is the delimiter.
pub open spec fn delim_free(s: Seq<char>) -> bool {
    forall|i: int| 0 <= i < s.len() ==> s[i] != '|'
}

/// A command whose identity fields avoid the delimiter: the username of a
/// `Connect`, the sender and receiver of a `Msg`. A `Msg` body may contain
/// the delimiter; parsing joins everything after the third delimiter back
/// into the body.
pub open spec fn routable(c: CommandModel) -> bool {
    match c {
        CommandModel::Connect { username } => delim_free(username),
        CommandModel::Msg { sender, receiver, .. } => delim_free(sender) && delim_free(receiver),
    }
}

/// Round trip: decoding the encoding of any command whose identity fields
/// avoid the delimiter reproduces the command, variant and fields alike.
pub proof fn lemma_decode_encode(c: CommandModel)
    requires
        routable(c),
    ensures
        spec_decode(spec_encode(c)) == Some(c),
{
    reveal_strlit("Connect|");
    reveal_strlit("Connect");
    reveal_strlit("Msg|");
    reveal_strlit("Msg");
    reveal_strlit("|");
    let s = spec_encode(c);
    match c {
        CommandModel::Connect { username } => {
            assert(forall|j: int| 0 <= j < 7 ==> s[j] != '|');
            assert(s[7] == '|');
            lemma_find_delim_at(s, 0, 7);
            assert(s.subrange(0, 7) =~= "Connect"@);
            assert(forall|j: int| 8 <= j < s.len() ==> s[j] == username[j - 8]);
            lemma_find_delim_at(s, 8, s.len() as int);
            assert(s.subrange(8, s.len() as int) =~= username);
        },
        CommandModel::Msg { sender, receiver, message } => {
            let sl = sender.len() as int;
            let rl = receiver.len() as int;
            assert(forall|j: int| 0 <= j < 3 ==> s[j] != '|');
            assert(s[3] == '|');
            lemma_find_delim_at(s, 0, 3);
            assert(s.subrange(0, 3) =~= "Msg"@);
            assert(s.subrange(0, 3) != "Connect"@);
            assert(forall|j: int| 4 <= j < 4 + sl ==> s[j] == sender[j - 4]);
            assert(s[4 + sl] == '|');
            lemma_find_delim_at(s, 4, 4 + sl);
            assert(s.subrange(4, 4 + sl) =~= sender);
            assert(forall|j: int| 5 + sl <= j < 5 + sl + rl ==> s[j] == receiver[j - 5 - sl]);
            assert(s[5 + sl + rl] == '|');
            lemma_find_delim_at(s, 5 + sl, 5 + sl + rl);
            assert(s.subrange(5 + sl, 5 + sl + rl) =~= receiver);
            lemma_find_delim_props(s, 6 + sl + rl);
            assert(s.subrange(6 + sl + rl, s.len() as int) =~= message);
        },
    }
}

/// Encodes a command as its pipe-delimited text frame.
pub fn encode(c: &Command) -> (r: String)
    ensures
        r@ == spec_encode(c@),
{
    match c {
        Command::Connect(u) => {
            let mut s = String::from_str("Connect|");
            s.append(u.0.as_str());
            assert(s@ =~= spec_encode(c@));
            s
        },
        Command::Msg(m) => {
            let mut s = String::from_str("Msg|");
            s.append(m.sender.as_str());
            s.append("|");
            s.append(m.receiver.as_str());
            s.append("|");
            s.append(m.message.as_str());
            assert(s@ =~= spec_encode(c@));
            s
        },
    }
}

} // verus!
