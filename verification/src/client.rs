//! The desktop client's decisions.
//!
//! The client watches the clipboard for pasted character names, asks the
//! statistics endpoint about each, and keeps a character list that incoming
//! results update in place. The windowing, clipboard and HTTP plumbing are
//! not here; this module states what each piece of input does to the list.

use vstd::prelude::*;

use crate::stats_processing::CharacterStats;
use crate::strutil::{dec_str, u64_to_string};

verus! {

/// One looked-up character in the client's list.
#[derive(Clone, Debug)]
pub struct Character {
    pub name: String,
    pub valid: bool,
    pub in_progress: bool,
    pub is_found: bool,
    pub stats: Option<CharacterStats>,
}

impl Character {
    /// The character's name.
    pub fn get_name(&self) -> (r: String)
        ensures
            r@ == self.name@,
    {
        self.name.clone()
    }
}

/// The lines of a text, split at newline or carriage-return-newline endings,
/// with an optional final ending.
pub open spec fn lines_of(s: Seq<char>) -> Seq<Seq<char>> {
    lines_from(s, Seq::empty(), Seq::empty())
}

/// Accumulates lines left to right: `cur` is the unfinished line, `out` the
/// finished ones.
pub open spec fn lines_from(s: Seq<char>, cur: Seq<char>, out: Seq<Seq<char>>) -> Seq<Seq<char>>
    decreases s.len(),
{
    if s.len() == 0 {
        if cur.len() == 0 {
            out
        } else {
            out.push(cur)
        }
    } else if s[0] == '\n' {
        lines_from(
            s.drop_first(),
            Seq::empty(),
            out.push(
                if cur.len() > 0 && cur.last() == '\r' {
                    cur.drop_last()
                } else {
                    cur
                },
            ),
        )
    } else {
        lines_from(s.drop_first(), cur.push(s[0]), out)
    }
}

/// Relies on str::lines: the text split at newline or carriage-return-newline
/// line endings, the final ending optional.
#[verifier::external_body]
fn split_lines(s: &str) -> (r: Vec<String>)
    ensures
        r.deep_view() == lines_of(s@),
{
    s.lines().map(|line| line.to_string()).collect()
}

/// Turns pasted clipboard text into a list of characters to look up, one per
/// line, each initially pending.
pub fn get_characters_from_clipboard(clipboard: &String) -> (r: Vec<Character>)
    ensures
        r@.len() == lines_of(clipboard@).len(),
        forall|j: int|
            0 <= j < r@.len() ==> {
                &&& (#[trigger] r@[j]).name@ == lines_of(clipboard@)[j]
                &&& r@[j].valid
                &&& r@[j].in_progress
                &&& r@[j].is_found
                &&& r@[j].stats is None
            },
{
    let lines = split_lines(clipboard.as_str());
    let n = lines.len();
    let mut characters: Vec<Character> = Vec::new();
    let mut i: usize = 0;
    while i < n
        invariant
            0 <= i <= n == lines@.len(),
            lines.deep_view() == lines_of(clipboard@),
            characters@.len() == i,
            forall|j: int|
                0 <= j < i ==> {
                    &&& (#[trigger] characters@[j]).name@ == lines_of(clipboard@)[j]
                    &&& characters@[j].valid
                    &&& characters@[j].in_progress
                    &&& characters@[j].is_found
                    &&& characters@[j].stats is None
                },
        decreases n - i,
    {
        characters.push(
            Character {
                name: lines[i].clone(),
                valid: true,
                in_progress: true,
                is_found: true,
                stats: None,
            },
        );
        i = i + 1;
    }
    characters
}

/// The statistics endpoint URL of a character name.
pub open spec fn stats_url_of(name: Seq<char>) -> Seq<char> {
    "http://localhost:8000/character_stats/"@ + name
}

/// Builds the statistics endpoint URL of a character name.
pub fn get_character_stats_url(name: &str) -> (r: String)
    ensures
        r@ == stats_url_of(name@),
{
    let mut s = String::from_str("http://localhost:8000/character_stats/");
    s.append(name);
    proof {
        assert(s@ =~= stats_url_of(name@));
    }
    s
}

/// What the statistics endpoint answered for one character.
pub enum StatsReply {
    /// A well-formed statistics body.
    Stats(CharacterStats),
    /// A success status whose body did not decode.
    DecodeFailed,
    /// The character was never seen: an empty result, not a failure.
    NotFound,
    /// Any other status.
    ServerError,
    /// The request never completed.
    NetworkError,
}

/// Settles one character from the decoded body of a success response: a
/// body marks the character found and valid, a decode failure marks it
/// invalid. Either way the lookup is no longer pending.
pub fn deserialize_stats_result(character: Character, decoded: Option<CharacterStats>) -> (r:
    Character)
    ensures
        r.name == character.name,
        !r.in_progress,
        r.is_found,
        decoded matches Some(stats) ==> r.valid && r.stats == Some(stats),
        decoded is None ==> !r.valid && r.stats is None,
{
    match decoded {
        Some(stats) => Character {
            name: character.name,
            valid: true,
            in_progress: false,
            is_found: true,
            stats: Some(stats),
        },
        None => Character {
            name: character.name,
            valid: false,
            in_progress: false,
            is_found: true,
            stats: None,
        },
    }
}

/// Settles one character from the endpoint's reply: a body or decode failure
/// as in `deserialize_stats_result`, a not-found as a valid character that
/// was never seen, and any other failure as invalid.
pub fn get_character_stats(character: Character, reply: StatsReply) -> (r: Character)
    ensures
        r.name == character.name,
        !r.in_progress,
        reply matches StatsReply::Stats(stats) ==> r.valid && r.is_found && r.stats == Some(stats),
        reply is DecodeFailed ==> !r.valid && r.is_found && r.stats is None,
        reply is NotFound ==> r.valid && !r.is_found && r.stats is None,
        reply is ServerError ==> !r.valid && r.is_found && r.stats is None,
        reply is NetworkError ==> !r.valid && r.is_found && r.stats is None,
{
    match reply {
        StatsReply::Stats(stats) => deserialize_stats_result(character, Some(stats)),
        StatsReply::DecodeFailed => deserialize_stats_result(character, None),
        StatsReply::NotFound => Character {
            name: character.name,
            valid: true,
            in_progress: false,
            is_found: false,
            stats: None,
        },
        StatsReply::ServerError => Character {
            name: character.name,
            valid: false,
            in_progress: false,
            is_found: true,
            stats: None,
        },
        StatsReply::NetworkError => Character {
            name: character.name,
            valid: false,
            in_progress: false,
            is_found: true,
            stats: None,
        },
    }
}

/// Renders a character's kill/loss counts for its list row, or nothing while
/// the lookup is pending or failed.
pub fn kill_loss_label(stats: &Option<CharacterStats>) -> (r: String)
    ensures
        stats matches Some(s) ==> r@ == dec_str(s.kill_loss_ratio.kills as nat) + ":"@ + dec_str(
            s.kill_loss_ratio.losses as nat,
        ),
        stats is None ==> r@ == Seq::<char>::empty(),
{
    match stats {
        Some(s) => {
            let mut label = u64_to_string(s.kill_loss_ratio.kills as u64);
            label.append(":");
            let losses = u64_to_string(s.kill_loss_ratio.losses as u64);
            label.append(losses.as_str());
            label
        },
        None => String::new(),
    }
}

/// Renders a character's solo kill/loss counts for its list row.
pub fn solo_kill_loss_label(stats: &Option<CharacterStats>) -> (r: String)
    ensures
        stats matches Some(s) ==> r@ == dec_str(s.solo_kill_loss_ratio.kills as nat) + ":"@
            + dec_str(s.solo_kill_loss_ratio.losses as nat),
        stats is None ==> r@ == Seq::<char>::empty(),
{
    match stats {
        Some(s) => {
            let mut label = u64_to_string(s.solo_kill_loss_ratio.kills as u64);
            label.append(":");
            let losses = u64_to_string(s.solo_kill_loss_ratio.losses as u64);
            label.append(losses.as_str());
            label
        },
        None => String::new(),
    }
}

/// A command the client's user-interface loop delivers.
pub enum ClientCommand {
    /// Empty the character list.
    Clear,
    /// Replace the list with newly pasted characters.
    NewCharacters(Vec<Character>),
    /// Settle the first list entry with this character's name.
    CharacterUpdate(Character),
}

/// The index of the first list entry with this name.
pub open spec fn first_named(s: Seq<Character>, name: Seq<char>) -> Option<int>
    decreases s.len(),
{
    if s.len() == 0 {
        None
    } else if s[0].name@ == name {
        Some(0int)
    } else {
        match first_named(s.drop_first(), name) {
            Some(i) => Some(i + 1),
            None => None,
        }
    }
}

/// A prefix of non-matches followed by a match pins the first index.
proof fn lemma_first_named_at(s: Seq<Character>, name: Seq<char>, i: int)
    requires
        0 <= i < s.len(),
        forall|k: int| 0 <= k < i ==> (#[trigger] s[k]).name@ != name,
        s[i].name@ == name,
    ensures
        first_named(s, name) == Some(i),
    decreases i,
{
    if i > 0 {
        assert forall|k: int|
            0 <= k < i - 1 implies (#[trigger] s.drop_first()[k]).name@ != name by {
            assert(s.drop_first()[k] == s[k + 1]);
        }
        assert(s.drop_first()[i - 1] == s[i]);
        lemma_first_named_at(s.drop_first(), name, i - 1);
    }
}

/// No match anywhere means no first index.
proof fn lemma_first_named_none(s: Seq<Character>, name: Seq<char>)
    requires
        forall|k: int| 0 <= k < s.len() ==> (#[trigger] s[k]).name@ != name,
    ensures
        first_named(s, name) is None,
    decreases s.len(),
{
    if s.len() > 0 {
        assert forall|k: int|
            0 <= k < s.drop_first().len() implies (#[trigger] s.drop_first()[k]).name@ != name by {
            assert(s.drop_first()[k] == s[k + 1]);
        }
        lemma_first_named_none(s.drop_first(), name);
    }
}

/// Applies one user-interface command to the character list: clearing it,
/// replacing it, or settling the first entry that carries the updated
/// character's name. Every known command is handled.
pub fn apply_command(characters: &mut Vec<Character>, cmd: ClientCommand) -> (handled: bool)
    ensures
        handled,
        cmd is Clear ==> final(characters)@ == Seq::<Character>::empty(),
        cmd matches ClientCommand::NewCharacters(list) ==> final(characters)@ == list@,
        cmd matches ClientCommand::CharacterUpdate(ch) ==> match first_named(
            old(characters)@,
            ch.name@,
        ) {
            Some(i) => final(characters)@ == old(characters)@.update(i, ch),
            None => final(characters)@ == old(characters)@,
        },
{
    match cmd {
        ClientCommand::Clear => {
            characters.clear();
            proof {
                assert(characters@ =~= Seq::<Character>::empty());
            }
            true
        },
        ClientCommand::NewCharacters(list) => {
            *characters = list;
            true
        },
        ClientCommand::CharacterUpdate(ch) => {
            let n = characters.len();
            let mut i: usize = 0;
            while i < n
                invariant
                    0 <= i <= n == characters@.len(),
                    cmd == ClientCommand::CharacterUpdate(ch),
                    characters@ == old(characters)@,
                    forall|k: int| 0 <= k < i ==> (#[trigger] characters@[k]).name@ != ch.name@,
                decreases n - i,
            {
                if characters[i].name == ch.name {
                    proof {
                        lemma_first_named_at(characters@, ch.name@, i as int);
                    }
                    let ghost before = characters@;
                    characters.remove(i);
                    characters.insert(i, ch);
                    proof {
                        assert(characters@ =~= before.update(i as int, ch));
                    }
                    return true;
                }
                i = i + 1;
            }
            proof {
                lemma_first_named_none(characters@, ch.name@);
            }
            true
        },
    }
}

} // verus!
