use vstd::prelude::*;
use vstd::utf8::is_ascii_chars;

verus! {

/// What `str::to_lowercase` returns for `s`: its lowercase equivalent under
/// Unicode's `Lowercase` property.
pub uninterp spec fn lowercase(s: Seq<char>) -> Seq<char>;

/// `c` with an ASCII capital letter `A`..`Z` turned into its small letter.
pub open spec fn ascii_lower(c: char) -> char {
    if 'A' <= c && c <= 'Z' {
        ((c as u32) + 32) as char
    } else {
        c
    }
}

/// `s` with every ASCII capital letter turned into its small letter.
pub open spec fn ascii_lowered(s: Seq<char>) -> Seq<char> {
    s.map_values(|c: char| ascii_lower(c))
}

/// Calls `str::to_lowercase`. The contract claims that the result is
/// `lowercase` of the argument, and that for a text of ASCII characters
/// alone it is the text with `A`..`Z` turned into `a`..`z` and every other
/// character kept (the lowercase mapping that Unicode, and so the function,
/// gives those characters).
#[verifier::external_body]
fn to_lowercase(s: &str) -> (r: String)
    ensures
        r@ == lowercase(s@),
        is_ascii_chars(s@) ==> r@ == ascii_lowered(s@),
{
    s.to_lowercase()
}

/// What to do with the log.
#[derive(Clone, Copy, Debug, PartialEq, Eq, Structural)]
pub enum Command {
    /// Count the findings of the pattern's first group.
    Count,
    /// Split the log into one file per key.
    Split,
    /// Cut the lines between two times out of the log.
    Time,
    /// Report the time between start and end lines.
    Diff,
}

/// The command a lowercased name stands for, or the message for a name that
/// stands for none.
pub open spec fn command_of_lowercase(l: Seq<char>) -> Result<Command, Seq<char>> {
    if l == "count"@ {
        Ok(Command::Count)
    } else if l == "split"@ {
        Ok(Command::Split)
    } else if l == "time"@ {
        Ok(Command::Time)
    } else if l == "diff"@ {
        Ok(Command::Diff)
    } else {
        Err(l + " is an invalid command"@)
    }
}

/// The command a name stands for once lowercased, or the message for a name
/// that stands for none.
pub open spec fn command_named(s: Seq<char>) -> Result<Command, Seq<char>> {
    command_of_lowercase(lowercase(s))
}

/// The name of each command as its variant is written (`Count`, `Split`,
/// `Time`, `Diff`), which is also what `Debug` prints.
pub open spec fn variant_name(c: Command) -> Seq<char> {
    match c {
        Command::Count => "Count"@,
        Command::Split => "Split"@,
        Command::Time => "Time"@,
        Command::Diff => "Diff"@,
    }
}

impl Command {
    /// The command that the lowercased name `l` stands for: `count`,
    /// `split`, `time` or `diff`; otherwise the message
    /// `<l> is an invalid command`.
    pub fn from_lowercase(l: &str) -> (r: Result<Command, String>)
        ensures
            match r {
                Ok(c) => command_of_lowercase(l@) == Ok::<Command, Seq<char>>(c),
                Err(m) => command_of_lowercase(l@) == Err::<Command, Seq<char>>(m@),
            },
    {
        let l = l.to_owned();
        if l == String::from_str("count") {
            Ok(Command::Count)
        } else if l == String::from_str("split") {
            Ok(Command::Split)
        } else if l == String::from_str("time") {
            Ok(Command::Time)
        } else if l == String::from_str("diff") {
            Ok(Command::Diff)
        } else {
            Err(l.concat(" is an invalid command"))
        }
    }

    /// The command that `s` names, in any case: `count`, `split`, `time` or
    /// `diff`; otherwise the message `<lowercased s> is an invalid command`.
    /// For an ASCII name, lowercasing turns just `A`..`Z` into `a`..`z`.
    pub fn parse(s: &str) -> (r: Result<Command, String>)
        ensures
            match r {
                Ok(c) => command_named(s@) == Ok::<Command, Seq<char>>(c),
                Err(m) => command_named(s@) == Err::<Command, Seq<char>>(m@),
            },
            is_ascii_chars(s@) ==> command_named(s@) == command_of_lowercase(ascii_lowered(s@)),
    {
        let l = to_lowercase(s);
        Command::from_lowercase(l.as_str())
    }
}

/// For an ASCII name, the command depends on the name's ASCII-lowercased
/// form alone, and lowercasing that form again changes nothing: a name and
/// its lowercase name the same command.
pub proof fn lemma_case_is_ignored(s: Seq<char>)
    requires
        is_ascii_chars(s),
    ensures
        is_ascii_chars(ascii_lowered(s)),
        ascii_lowered(ascii_lowered(s)) == ascii_lowered(s),
        command_of_lowercase(ascii_lowered(ascii_lowered(s))) == command_of_lowercase(
            ascii_lowered(s),
        ),
{
    assert forall|i: int| 0 <= i < ascii_lowered(s).len() implies (#[trigger] ascii_lowered(s)[i]
        as u32) < 128 by {
        let c = s[i];
        assert((c as u32) < 128);
    }
    assert(ascii_lowered(ascii_lowered(s)) =~= ascii_lowered(s));
}

/// The variant name of each command is an ASCII name that parses back to it.
pub proof fn lemma_variant_names_parse(c: Command)
    ensures
        is_ascii_chars(variant_name(c)),
        command_of_lowercase(ascii_lowered(variant_name(c))) == Ok::<Command, Seq<char>>(c),
{
    reveal_strlit("Count");
    reveal_strlit("Split");
    reveal_strlit("Time");
    reveal_strlit("Diff");
    reveal_strlit("count");
    reveal_strlit("split");
    reveal_strlit("time");
    reveal_strlit("diff");
    let l = ascii_lowered(variant_name(c));
    match c {
        Command::Count => {
            assert(l =~= "count"@);
        },
        Command::Split => {
            assert(l =~= "split"@);
            assert(l[0] != "count"@[0]);
        },
        Command::Time => {
            assert(l =~= "time"@);
            assert(l != "count"@);
            assert(l != "split"@);
        },
        Command::Diff => {
            assert(l =~= "diff"@);
            assert(l != "count"@);
            assert(l != "split"@);
            assert(l[0] != "time"@[0]);
        },
    }
}

impl std::str::FromStr for Command {
    type Err = String;

    fn from_str(s: &str) -> (r: Result<Command, String>)
        ensures
            match r {
                Ok(c) => command_named(s@) == Ok::<Command, Seq<char>>(c),
                Err(m) => command_named(s@) == Err::<Command, Seq<char>>(m@),
            },
            is_ascii_chars(s@) ==> command_named(s@) == command_of_lowercase(ascii_lowered(s@)),
    {
        Command::parse(s)
    }
}

impl Default for Command {
    fn default() -> (r: Command)
        ensures
            r == Command::Count,
    {
        Command::Count
    }
}

} // verus!
