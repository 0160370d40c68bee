//! The commands of the interactive prompt, and how a typed line reads as one.
use crate::error::ClipassError;
use vstd::prelude::*;
use vstd::string::{StrSliceExecFns, StringExecFns};

verus! {

/// A command typed at the prompt.
pub enum Command {
    Help,
    List,
    Get(String),
    Update(String),
    New,
    Delete(String),
    Save,
    Quit,
}

/// `c` is white space, as `char::is_whitespace` has it (the Unicode
/// White_Space property).
pub open spec fn is_space(c: char) -> bool {
    let u = c as u32;
    u == 0x20 || (0x09 <= u <= 0x0d) || u == 0x85 || u == 0xa0 || u == 0x1680 || (0x2000 <= u
        <= 0x200a) || u == 0x2028 || u == 0x2029 || u == 0x202f || u == 0x205f || u == 0x3000
}

/// The first position at or after `i` that does not hold white space.
pub open spec fn skip_space(s: Seq<char>, i: int) -> int
    decreases s.len() - i,
{
    if 0 <= i < s.len() && is_space(s[i]) {
        skip_space(s, i + 1)
    } else {
        i
    }
}

/// The first position at or after `i` that holds white space, or the end.
pub open spec fn word_end(s: Seq<char>, i: int) -> int
    decreases s.len() - i,
{
    if 0 <= i < s.len() && !is_space(s[i]) {
        word_end(s, i + 1)
    } else {
        i
    }
}

/// The first word of `s`, empty where there is none.
pub open spec fn first_word(s: Seq<char>) -> Seq<char> {
    let a = skip_space(s, 0);
    s.subrange(a, word_end(s, a))
}

/// The second word of `s`, empty where there is none.
pub open spec fn second_word(s: Seq<char>) -> Seq<char> {
    let b = word_end(s, skip_space(s, 0));
    let c = skip_space(s, b);
    s.subrange(c, word_end(s, c))
}

proof fn lemma_skip_space_bounds(s: Seq<char>, i: int)
    requires
        0 <= i <= s.len(),
    ensures
        i <= skip_space(s, i) <= s.len(),
    decreases s.len() - i,
{
    if i < s.len() && is_space(s[i]) {
        lemma_skip_space_bounds(s, i + 1);
    }
}

proof fn lemma_word_end_bounds(s: Seq<char>, i: int)
    requires
        0 <= i <= s.len(),
    ensures
        i <= word_end(s, i) <= s.len(),
    decreases s.len() - i,
{
    if i < s.len() && !is_space(s[i]) {
        lemma_word_end_bounds(s, i + 1);
    }
}

fn char_is_space(c: char) -> (r: bool)
    ensures
        r == is_space(c),
{
    let u = c as u32;
    u == 0x20 || (0x09 <= u && u <= 0x0d) || u == 0x85 || u == 0xa0 || u == 0x1680 || (0x2000 <= u
        && u <= 0x200a) || u == 0x2028 || u == 0x2029 || u == 0x202f || u == 0x205f || u == 0x3000
}

/// Where the word that starts at or after `i` begins and ends.
fn next_word(s: &str, len: usize, i: usize) -> (r: (usize, usize))
    requires
        len == s@.len(),
        i <= len,
    ensures
        r.0 == skip_space(s@, i as int),
        r.1 == word_end(s@, r.0 as int),
        i <= r.0 <= r.1 <= len,
{
    let mut a = i;
    while a < len && char_is_space(s.get_char(a))
        invariant
            i <= a <= len,
            len == s@.len(),
            skip_space(s@, a as int) == skip_space(s@, i as int),
        decreases len - a,
    {
        a += 1;
    }
    let mut b = a;
    while b < len && !char_is_space(s.get_char(b))
        invariant
            a <= b <= len,
            len == s@.len(),
            word_end(s@, b as int) == word_end(s@, a as int),
        decreases len - b,
    {
        b += 1;
    }
    (a, b)
}

fn invalid(msg: &str) -> (r: ClipassError)
    ensures
        r matches ClipassError::InvalidCommand(m) && m@ == msg@,
{
    ClipassError::InvalidCommand(msg.to_owned())
}

fn is_word(w: &String, lit: &str) -> (r: bool)
    ensures
        r == (w@ == lit@),
{
    *w == lit.to_owned()
}

/// The line that lists entry `id` at the prompt, its value masked.
pub open spec fn listing_line(id: Seq<char>) -> Seq<char> {
    "- "@ + id + ": ******\n"@
}

/// The lines that list the entries `ids`, in order.
pub open spec fn listing_of(ids: Seq<Seq<char>>) -> Seq<char>
    decreases ids.len(),
{
    if ids.len() == 0 {
        Seq::empty()
    } else {
        listing_of(ids.drop_last()) + listing_line(ids.last())
    }
}

/// The text that lists the entries `ids` at the prompt, one line each, with
/// their values masked.
pub fn listing(ids: &Vec<String>) -> (r: String)
    ensures
        r@ == listing_of(ids@.map_values(|s: String| s@)),
{
    let mut out = String::new();
    let mut i: usize = 0;
    while i < ids.len()
        invariant
            i <= ids@.len(),
            out@ == listing_of(ids@.subrange(0, i as int).map_values(|s: String| s@)),
        decreases ids@.len() - i,
    {
        let ghost before = ids@.subrange(0, i as int).map_values(|s: String| s@);
        let ghost after = ids@.subrange(0, i + 1).map_values(|s: String| s@);
        assert(after.drop_last() =~= before);
        out.append("- ");
        out.append(ids[i].as_str());
        out.append(": ******\n");
        i += 1;
    }
    assert(ids@.subrange(0, ids@.len() as int) =~= ids@);
    out
}

impl Command {
    /// Reads a command from a line: its first word names the command, and
    /// `get`, `update` and `delete` take the second word as the entry id.
    /// Words are separated by white space. Fails with `InvalidCommand` where
    /// the line is blank, the first word names no command, or the id is
    /// missing.
    pub fn parse(s: &str) -> (r: Result<Command, ClipassError>)
        ensures
            first_word(s@).len() == 0 ==> (r matches Err(e) && e is InvalidCommand),
            first_word(s@) == "help"@ ==> (r matches Ok(Command::Help)),
            first_word(s@) == "list"@ ==> (r matches Ok(Command::List)),
            first_word(s@) == "new"@ ==> (r matches Ok(Command::New)),
            first_word(s@) == "save"@ ==> (r matches Ok(Command::Save)),
            first_word(s@) == "quit"@ ==> (r matches Ok(Command::Quit)),
            first_word(s@) == "get"@ && second_word(s@).len() == 0 ==> (r matches Err(e) && e is InvalidCommand),
            first_word(s@) == "get"@ && second_word(s@).len() > 0 ==> (r matches Ok(Command::Get(id)) && id@ == second_word(s@)),
            first_word(s@) == "update"@ && second_word(s@).len() == 0 ==> (r matches Err(e) && e is InvalidCommand),
            first_word(s@) == "update"@ && second_word(s@).len() > 0 ==> (r matches Ok(Command::Update(id)) && id@ == second_word(s@)),
            first_word(s@) == "delete"@ && second_word(s@).len() == 0 ==> (r matches Err(e) && e is InvalidCommand),
            first_word(s@) == "delete"@ && second_word(s@).len() > 0 ==> (r matches Ok(Command::Delete(id)) && id@ == second_word(s@)),
            first_word(s@).len() > 0 && first_word(s@) != "help"@ && first_word(s@) != "list"@
                && first_word(s@) != "new"@ && first_word(s@) != "save"@ && first_word(s@) != "quit"@
                && first_word(s@) != "get"@ && first_word(s@) != "update"@ && first_word(s@) != "delete"@
                ==> (r matches Err(ClipassError::InvalidCommand(w)) && w@ == first_word(s@)),
    {
        proof {
            reveal_strlit("help");
            reveal_strlit("list");
            reveal_strlit("new");
            reveal_strlit("save");
            reveal_strlit("quit");
            reveal_strlit("get");
            reveal_strlit("update");
            reveal_strlit("delete");
            assert("help"@.len() == 4 && "help"@[0] == 'h');
            assert("list"@.len() == 4 && "list"@[0] == 'l');
            assert("new"@.len() == 3 && "new"@[0] == 'n');
            assert("save"@.len() == 4 && "save"@[0] == 's');
            assert("quit"@.len() == 4 && "quit"@[0] == 'q');
            assert("get"@.len() == 3 && "get"@[0] == 'g');
            assert("update"@.len() == 6 && "update"@[0] == 'u');
            assert("delete"@.len() == 6 && "delete"@[0] == 'd');
        }
        let len = s.unicode_len();
        let (a, b) = next_word(s, len, 0);
        if a == b {
            assert(first_word(s@).len() == 0);
            return Err(invalid("Empty"));
        }
        let name = s.substring_char(a, b).to_owned();
        let (c, d) = next_word(s, len, b);
        let arg = s.substring_char(c, d).to_owned();
        if is_word(&name, "help") {
            Ok(Command::Help)
        } else if is_word(&name, "list") {
            Ok(Command::List)
        } else if is_word(&name, "new") {
            Ok(Command::New)
        } else if is_word(&name, "save") {
            Ok(Command::Save)
        } else if is_word(&name, "quit") {
            Ok(Command::Quit)
        } else if is_word(&name, "get") {
            if c == d {
                Err(invalid("missing argument for 'get'"))
            } else {
                Ok(Command::Get(arg))
            }
        } else if is_word(&name, "update") {
            if c == d {
                Err(invalid("missing argument for 'update'"))
            } else {
                Ok(Command::Update(arg))
            }
        } else if is_word(&name, "delete") {
            if c == d {
                Err(invalid("missing argument for 'delete'"))
            } else {
                Ok(Command::Delete(arg))
            }
        } else {
            Err(ClipassError::InvalidCommand(name))
        }
    }
}

impl std::str::FromStr for Command {
    type Err = ClipassError;

    fn from_str(s: &str) -> Result<Command, ClipassError> {
        Command::parse(s)
    }
}

} // verus!
