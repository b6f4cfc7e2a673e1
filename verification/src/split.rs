use vstd::prelude::*;

use crate::filename::{log_file_key, stem_cuttable, stem_of, MAX_STEM_BYTES};
use vstd::utf8::encode_utf8;
use crate::pattern::{regex_captures, Pattern};

verus! {

/// The text of capture group 1, or the empty text where that group took no
/// part in the match or does not exist.
pub open spec fn group_one_text(groups: Seq<Option<Seq<char>>>) -> Seq<char> {
    if groups.len() > 1 && groups[1] is Some {
        groups[1]->0
    } else {
        Seq::empty()
    }
}

/// Where a line goes, given the file key used last (empty before the first
/// keyed line) and the captures of the key pattern on the line: `Some(None)`
/// to drop it, `Some(Some(k))` to file it under `k`, `None` where the key
/// would have to be cut inside a character.
pub open spec fn route_of(last: Seq<char>, caps: Option<Seq<Option<Seq<char>>>>) -> Option<
    Option<Seq<char>>,
> {
    match caps {
        Some(groups) => {
            let cap = group_one_text(groups);
            if stem_cuttable(cap) {
                Some(Some(stem_of(cap) + ".log"@))
            } else {
                None
            }
        },
        None => if last.len() == 0 {
            Some(None)
        } else {
            Some(Some(last))
        },
    }
}

/// The file key used last once a line has been routed.
pub open spec fn last_after(last: Seq<char>, caps: Option<Seq<Option<Seq<char>>>>) -> Seq<char> {
    match route_of(last, caps) {
        Some(Some(k)) => k,
        _ => last,
    }
}

/// Once a keyed line has been seen, no line is dropped any more: every later
/// line is filed under some key (or refused for an uncuttable key), and a key
/// stays on record.
pub proof fn lemma_no_drop_after_first_key(last: Seq<char>, caps: Option<Seq<Option<Seq<char>>>>)
    requires
        last.len() > 0,
    ensures
        route_of(last, caps) != Some(Option::<Seq<char>>::None),
        last_after(last, caps).len() > 0,
{
    reveal_strlit(".log");
}

/// A keyed line is filed under its key followed by `.log`, and that key
/// becomes the one used last.
pub proof fn lemma_keyed_line_sets_key(last: Seq<char>, groups: Seq<Option<Seq<char>>>)
    requires
        stem_cuttable(group_one_text(groups)),
    ensures
        route_of(last, Some(groups)) == Some(Some(stem_of(group_one_text(groups)) + ".log"@)),
        last_after(last, Some(groups)) == stem_of(group_one_text(groups)) + ".log"@,
{
}

/// A keyed line is filed under the text of its capture group 1 followed by
/// `.log`, whatever later groups the pattern has (where that text fits a
/// file-name stem), and under `.log` alone where group 1 took no part.
pub proof fn lemma_filed_under_group_one(last: Seq<char>, groups: Seq<Option<Seq<char>>>)
    ensures
        groups.len() > 1 && groups[1] is Some && encode_utf8(groups[1]->0).len()
            <= MAX_STEM_BYTES ==> route_of(last, Some(groups)) == Some(
            Some((groups[1]->0) + ".log"@),
        ),
        (groups.len() <= 1 || groups[1] is None) ==> route_of(last, Some(groups)) == Some(
            Some(".log"@),
        ),
{
    reveal_strlit("");
    if groups.len() <= 1 || groups[1] is None {
        assert(encode_utf8(Seq::<char>::empty()) =~= Seq::<u8>::empty());
        assert(Seq::<char>::empty() + ".log"@ =~= ".log"@);
    }
}

/// Why a line could not be routed.
#[derive(Debug, PartialEq, Eq, Structural)]
pub enum SplitError {
    /// The captured key is longer than a file-name stem and its cut point
    /// falls inside a character.
    StemNotCuttable,
}

/// Routes the lines of a log to per-key files. A line matching the key
/// pattern goes to the file of its group-1 text; a line that does not match
/// continues the file used last; lines before the first match are dropped.
pub struct SplitRouter {
    last: String,
}

impl View for SplitRouter {
    type V = Seq<char>;

    /// The file key used last, empty before the first keyed line.
    closed spec fn view(&self) -> Seq<char> {
        self.last@
    }
}

impl SplitRouter {
    /// A router that has seen no keyed line yet.
    pub fn new() -> (r: SplitRouter)
        ensures
            r@ == Seq::<char>::empty(),
    {
        SplitRouter { last: String::new() }
    }

    /// The file key used last, empty before the first keyed line.
    pub fn last_key(&self) -> (r: &str)
        ensures
            r@ == self@,
    {
        self.last.as_str()
    }

    /// Routes a line of which the key pattern found the groups `caps`
    /// (`None` where it did not match).
    pub fn route_captures(&mut self, caps: Option<Vec<Option<String>>>) -> (r: Result<
        Option<String>,
        SplitError,
    >)
        ensures
            match r {
                Ok(o) => route_of(old(self)@, caps.deep_view()) == Some(o.deep_view()),
                Err(_) => route_of(old(self)@, caps.deep_view()) is None,
            },
            final(self)@ == last_after(old(self)@, caps.deep_view()),
    {
        match caps {
            Some(groups) => {
                let ghost gv = groups.deep_view();
                let cap: &str = if groups.len() > 1 {
                    match &groups[1] {
                        Some(s) => s.as_str(),
                        None => "",
                    }
                } else {
                    ""
                };
                proof {
                    reveal_strlit("");
                    if groups.len() > 1 {
                        assert(gv[1] == groups@[1].deep_view());
                    }
                }
                assert(cap@ == group_one_text(gv));
                match log_file_key(cap) {
                    Some(key) => {
                        self.last = key.clone();
                        Ok(Some(key))
                    },
                    None => Err(SplitError::StemNotCuttable),
                }
            },
            None => {
                if self.last.as_str().is_empty() {
                    Ok(None)
                } else {
                    Ok(Some(self.last.clone()))
                }
            },
        }
    }

    /// Routes `line`: matches it against the key pattern `re` and files it as
    /// `route_captures` does.
    pub fn route(&mut self, re: &Pattern, line: &str) -> (r: Result<Option<String>, SplitError>)
        ensures
            match r {
                Ok(o) => route_of(old(self)@, regex_captures(re@, line@)) == Some(o.deep_view()),
                Err(_) => route_of(old(self)@, regex_captures(re@, line@)) is None,
            },
            final(self)@ == last_after(old(self)@, regex_captures(re@, line@)),
    {
        let caps = re.captures(line);
        self.route_captures(caps)
    }
}

} // verus!
