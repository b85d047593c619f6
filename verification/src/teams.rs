//! The six teams a player can join.
use vstd::prelude::*;

use crate::text::string_of;

verus! {

/// A team, named after its colour.
#[derive(PartialEq, Eq, Structural, Clone, Copy, Debug)]
pub enum Team {
    Red,
    Orange,
    Yellow,
    Green,
    Blue,
    Purple,
}

/// The lower-case name of a team.
pub open spec fn team_name(t: Team) -> Seq<char> {
    match t {
        Team::Red => "red"@,
        Team::Orange => "orange"@,
        Team::Yellow => "yellow"@,
        Team::Green => "green"@,
        Team::Blue => "blue"@,
        Team::Purple => "purple"@,
    }
}

/// The team a name denotes, if any.
pub open spec fn team_named(name: Seq<char>) -> Option<Team> {
    if name == "red"@ {
        Some(Team::Red)
    } else if name == "orange"@ {
        Some(Team::Orange)
    } else if name == "yellow"@ {
        Some(Team::Yellow)
    } else if name == "green"@ {
        Some(Team::Green)
    } else if name == "blue"@ {
        Some(Team::Blue)
    } else if name == "purple"@ {
        Some(Team::Purple)
    } else {
        None
    }
}

/// The name of a team.
pub fn team_str(t: Team) -> (r: &'static str)
    ensures
        r@ == team_name(t),
{
    match t {
        Team::Red => "red",
        Team::Orange => "orange",
        Team::Yellow => "yellow",
        Team::Green => "green",
        Team::Blue => "blue",
        Team::Purple => "purple",
    }
}

/// The team named exactly `name` (lower case), if any.
pub fn team_of(name: &str) -> (r: Option<Team>)
    ensures
        r == team_named(name@),
{
    let n = string_of(name);
    if n == string_of("red") {
        Some(Team::Red)
    } else if n == string_of("orange") {
        Some(Team::Orange)
    } else if n == string_of("yellow") {
        Some(Team::Yellow)
    } else if n == string_of("green") {
        Some(Team::Green)
    } else if n == string_of("blue") {
        Some(Team::Blue)
    } else if n == string_of("purple") {
        Some(Team::Purple)
    } else {
        None
    }
}

/// The team names, in the order the server seeds them.
pub fn all_team_names() -> (r: Vec<&'static str>)
    ensures
        r.len() == 6,
        r@[0]@ == team_name(Team::Red),
        r@[1]@ == team_name(Team::Orange),
        r@[2]@ == team_name(Team::Yellow),
        r@[3]@ == team_name(Team::Green),
        r@[4]@ == team_name(Team::Blue),
        r@[5]@ == team_name(Team::Purple),
{
    vec!["red", "orange", "yellow", "green", "blue", "purple"]
}

/// Whether `team` is exactly the name of one of the six teams.
pub fn is_valid_team(team: &str) -> (r: bool)
    ensures
        r == (exists|t: Team| team_name(t) == team@),
{
    let t = team_of(team);
    proof {
        if exists|t: Team| team_name(t) == team@ {
            let t = choose|t: Team| team_name(t) == team@;
            lemma_team_name_roundtrip(t);
        }
        if let Some(x) = t {
            assert(team_name(x) == team@);
        }
    }
    t.is_some()
}

/// Reading a team's name gives the team back.
pub proof fn lemma_team_name_roundtrip(t: Team)
    ensures
        team_named(team_name(t)) == Some(t),
{
    reveal_strlit("red");
    reveal_strlit("orange");
    reveal_strlit("yellow");
    reveal_strlit("green");
    reveal_strlit("blue");
    reveal_strlit("purple");
    assert("red"@.len() == 3);
    assert("blue"@.len() == 4);
    assert("green"@.len() == 5);
    assert("orange"@[0] == 'o');
    assert("yellow"@[0] == 'y');
    assert("purple"@[0] == 'p');
    assert("orange"@.len() == 6 && "yellow"@.len() == 6 && "purple"@.len() == 6);
    assert("orange"@ != "red"@);
    assert("yellow"@ != "red"@ && "yellow"@ != "orange"@);
    assert("green"@ != "red"@ && "green"@ != "orange"@ && "green"@ != "yellow"@);
    assert("blue"@ != "red"@ && "blue"@ != "orange"@ && "blue"@ != "yellow"@ && "blue"@ != "green"@);
    assert("purple"@ != "red"@ && "purple"@ != "orange"@ && "purple"@ != "yellow"@
        && "purple"@ != "green"@ && "purple"@ != "blue"@);
}

} // verus!
