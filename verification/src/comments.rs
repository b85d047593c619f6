//! Team-flavoured commentary on the game.
use vstd::prelude::*;

use crate::teams::{team_named, team_of, Team};
use crate::text::{push_text, string_of};

verus! {

/// The texts of a list of string slices.
pub open spec fn texts_of(v: Seq<&str>) -> Seq<Seq<char>> {
    v.map_values(|s: &str| s@)
}

/// The line a roll picks from a list.
pub open spec fn picked(lines: Seq<Seq<char>>, roll: u32) -> Seq<char> {
    lines[(roll as int) % (lines.len() as int)]
}

/// Picks the line `roll % options.len()`.
pub fn pick_line(options: &Vec<&'static str>, roll: u32) -> (r: String)
    requires
        options.len() > 0,
    ensures
        r@ == picked(texts_of(options@), roll),
{
    let i = (roll as usize) % options.len();
    string_of(options[i])
}

/// The (correct, present, absent) emojis of a theme, for the board.
pub open spec fn theme_emoji_set(team: Option<Team>) -> (Seq<char>, Seq<char>, Seq<char>) {
    match team {
        Some(Team::Red) => ("🔴"@, "🔺"@, "⬛"@),
        Some(Team::Orange) => ("🟠"@, "🔸"@, "⬛"@),
        Some(Team::Yellow) => ("🟡"@, "✨"@, "⬛"@),
        Some(Team::Green) => ("🟢"@, "🌱"@, "⬛"@),
        Some(Team::Blue) => ("🔵"@, "🔹"@, "⬛"@),
        Some(Team::Purple) => ("🟣"@, "💠"@, "⬛"@),
        None => ("🟩"@, "🟨"@, "⬛"@),
    }
}

/// Returns a tuple of (correct, present, absent) emojis for the given theme.
pub fn get_theme_emojis(theme: &str) -> (r: (&'static str, &'static str, &'static str))
    ensures
        (r.0@, r.1@, r.2@) == theme_emoji_set(team_named(theme@)),
{
    match team_of(theme) {
        Some(Team::Red) => ("🔴", "🔺", "⬛"),
        Some(Team::Orange) => ("🟠", "🔸", "⬛"),
        Some(Team::Yellow) => ("🟡", "✨", "⬛"),
        Some(Team::Green) => ("🟢", "🌱", "⬛"),
        Some(Team::Blue) => ("🔵", "🔹", "⬛"),
        Some(Team::Purple) => ("🟣", "💠", "⬛"),
        None => ("🟩", "🟨", "⬛"),
    }
}

/// Comments after a New Game+ guess, by team.
pub open spec fn opponent_taunt_lines(team: Option<Team>) -> Seq<Seq<char>> {
    match team {
        Some(Team::Red) => seq!["SYSTEM OVERLOADED."@, "AI IS WINNING."@, "RESISTANCE IS FUTILE."@],
        Some(Team::Orange) => seq!["AI IS NOT VIBING."@, "IT'S GIVING SYSTEM ERROR."@, "MAIN CHARACTER DEFEATED."@],
        Some(Team::Yellow) => seq!["ERROR 404: LUCK NOT FOUND."@, "DOES NOT COMPUTE."@, "BRAIN.EXE HAS STOPPED WORKING."@],
        Some(Team::Green) => seq!["GAME OVER, MAN."@, "INSERT COIN TO CONTINUE."@, "AI IS SIGMA."@],
        Some(Team::Blue) => seq!["SYSTEM DEMANDS RESPECT."@, "AI IS WORKING OVERTIME."@, "COMPUTERS WERE BETTER BACK THEN."@],
        Some(Team::Purple) => seq!["SYSTEM IS DUSTY."@, "VACUUM TUBES FAILING."@, "TELEGRAPH LINE CUT."@],
        _ => seq!["CALCULATING..."@],
    }
}

/// The lines of [`opponent_taunt_lines`].
pub fn opponent_taunt_options(team: Option<Team>) -> (r: Vec<&'static str>)
    ensures
        texts_of(r@) == opponent_taunt_lines(team),
        r.len() > 0,
{
    match team {
        Some(Team::Red) => {
            let v = vec!["SYSTEM OVERLOADED.", "AI IS WINNING.", "RESISTANCE IS FUTILE."];
            proof { assert(texts_of(v@) =~= opponent_taunt_lines(team)); }
            v
        },
        Some(Team::Orange) => {
            let v = vec!["AI IS NOT VIBING.", "IT'S GIVING SYSTEM ERROR.", "MAIN CHARACTER DEFEATED."];
            proof { assert(texts_of(v@) =~= opponent_taunt_lines(team)); }
            v
        },
        Some(Team::Yellow) => {
            let v = vec!["ERROR 404: LUCK NOT FOUND.", "DOES NOT COMPUTE.", "BRAIN.EXE HAS STOPPED WORKING."];
            proof { assert(texts_of(v@) =~= opponent_taunt_lines(team)); }
            v
        },
        Some(Team::Green) => {
            let v = vec!["GAME OVER, MAN.", "INSERT COIN TO CONTINUE.", "AI IS SIGMA."];
            proof { assert(texts_of(v@) =~= opponent_taunt_lines(team)); }
            v
        },
        Some(Team::Blue) => {
            let v = vec!["SYSTEM DEMANDS RESPECT.", "AI IS WORKING OVERTIME.", "COMPUTERS WERE BETTER BACK THEN."];
            proof { assert(texts_of(v@) =~= opponent_taunt_lines(team)); }
            v
        },
        Some(Team::Purple) => {
            let v = vec!["SYSTEM IS DUSTY.", "VACUUM TUBES FAILING.", "TELEGRAPH LINE CUT."];
            proof { assert(texts_of(v@) =~= opponent_taunt_lines(team)); }
            v
        },
        _ => {
            let v = vec!["CALCULATING..."];
            proof { assert(texts_of(v@) =~= opponent_taunt_lines(team)); }
            v
        },
    }
}

/// Comments on a lost game, by team.
pub open spec fn loss_taunt_lines(team: Option<Team>) -> Seq<Seq<char>> {
    match team {
        Some(Team::Red) => seq!["L NOOB 💀"@, "SKIBIDI TRASH 🚽"@, "ZERO RIZZ 🥶"@, "SKILL ISSUE."@],
        Some(Team::Orange) => seq!["BIG YIKES 😬"@, "NOT THE VIBE 💅"@, "GO TOUCH GRASS 🌿"@, "LITERAL TRASH 🗑️"@],
        Some(Team::Yellow) => seq!["BETTER LUCK NEXT TIME, GENIUS 🧠"@, "ADULTING IS HARD ☕"@, "I CAN'T EVEN 🤦"@, "TRY GOOGLE NEXT TIME 📱"@],
        Some(Team::Green) => seq!["TOTALLY BOGUS 🚫"@, "GAG ME WITH A SPOON 🥄"@, "NOT EVEN CLOSE, DUDE 🛹"@, "MAJOR BUMMER 😤"@],
        Some(Team::Blue) => seq!["BACK TO DRAWING BOARD."@, "NEEDS MORE ELBOW GREASE."@, "NOT HACKING IT."@],
        Some(Team::Purple) => seq!["LOST IN THE MAIL."@, "BETTER LUCK NEXT DECADE."@, "RADIO SILENCE."@],
        _ => seq!["TOTAL BARF BAG."@],
    }
}

/// The lines of [`loss_taunt_lines`].
pub fn loss_taunt_options(team: Option<Team>) -> (r: Vec<&'static str>)
    ensures
        texts_of(r@) == loss_taunt_lines(team),
        r.len() > 0,
{
    match team {
        Some(Team::Red) => {
            let v = vec!["L NOOB 💀", "SKIBIDI TRASH 🚽", "ZERO RIZZ 🥶", "SKILL ISSUE."];
            proof { assert(texts_of(v@) =~= loss_taunt_lines(team)); }
            v
        },
        Some(Team::Orange) => {
            let v = vec!["BIG YIKES 😬", "NOT THE VIBE 💅", "GO TOUCH GRASS 🌿", "LITERAL TRASH 🗑️"];
            proof { assert(texts_of(v@) =~= loss_taunt_lines(team)); }
            v
        },
        Some(Team::Yellow) => {
            let v = vec!["BETTER LUCK NEXT TIME, GENIUS 🧠", "ADULTING IS HARD ☕", "I CAN'T EVEN 🤦", "TRY GOOGLE NEXT TIME 📱"];
            proof { assert(texts_of(v@) =~= loss_taunt_lines(team)); }
            v
        },
        Some(Team::Green) => {
            let v = vec!["TOTALLY BOGUS 🚫", "GAG ME WITH A SPOON 🥄", "NOT EVEN CLOSE, DUDE 🛹", "MAJOR BUMMER 😤"];
            proof { assert(texts_of(v@) =~= loss_taunt_lines(team)); }
            v
        },
        Some(Team::Blue) => {
            let v = vec!["BACK TO DRAWING BOARD.", "NEEDS MORE ELBOW GREASE.", "NOT HACKING IT."];
            proof { assert(texts_of(v@) =~= loss_taunt_lines(team)); }
            v
        },
        Some(Team::Purple) => {
            let v = vec!["LOST IN THE MAIL.", "BETTER LUCK NEXT DECADE.", "RADIO SILENCE."];
            proof { assert(texts_of(v@) =~= loss_taunt_lines(team)); }
            v
        },
        _ => {
            let v = vec!["TOTAL BARF BAG."];
            proof { assert(texts_of(v@) =~= loss_taunt_lines(team)); }
            v
        },
    }
}

/// Comments on a won game, by team.
pub open spec fn win_cheer_lines(team: Option<Team>) -> Seq<Seq<char>> {
    match team {
        Some(Team::Red) => seq!["W RIZZ 🥶"@, "GOAT STATUS 🐐"@, "NO CAP 🔥"@, "POGGERS."@],
        Some(Team::Orange) => seq!["LITERAL CHILLS 🥶"@, "MAIN CHARACTER ENERGY ✨"@, "SLAY QUEEN 💅"@, "VIBE CHECK PASSED ✅"@],
        Some(Team::Yellow) => seq!["BIG BRAIN ENERGY 🧠"@, "YOU ACTUALLY DID IT 🙃"@, "AVOCADO TOAST FOR YOU 🥑"@, "SIRI, I'M A GENIUS 📱"@],
        Some(Team::Green) => seq!["TOTALLY TUBULAR 🏄"@, "RADICAL DEPARTURE 🛹"@, "STAY GOLDEN ✨"@, "LIKE, TOTALLY! 🤙"@],
        Some(Team::Blue) => seq!["BINGO."@, "ON THE MONEY."@, "HARD WORK PAYS OFF."@, "PULLING BOOTSTRAPS."@],
        Some(Team::Purple) => seq!["EXTRA RATIONS FOR YOU."@, "BULLY FOR YOU."@, "A FINE JOB."@, "TOP BRASS."@],
        _ => seq!["HACKER!"@, "GOD MODE."@],
    }
}

/// The lines of [`win_cheer_lines`].
pub fn win_cheer_options(team: Option<Team>) -> (r: Vec<&'static str>)
    ensures
        texts_of(r@) == win_cheer_lines(team),
        r.len() > 0,
{
    match team {
        Some(Team::Red) => {
            let v = vec!["W RIZZ 🥶", "GOAT STATUS 🐐", "NO CAP 🔥", "POGGERS."];
            proof { assert(texts_of(v@) =~= win_cheer_lines(team)); }
            v
        },
        Some(Team::Orange) => {
            let v = vec!["LITERAL CHILLS 🥶", "MAIN CHARACTER ENERGY ✨", "SLAY QUEEN 💅", "VIBE CHECK PASSED ✅"];
            proof { assert(texts_of(v@) =~= win_cheer_lines(team)); }
            v
        },
        Some(Team::Yellow) => {
            let v = vec!["BIG BRAIN ENERGY 🧠", "YOU ACTUALLY DID IT 🙃", "AVOCADO TOAST FOR YOU 🥑", "SIRI, I'M A GENIUS 📱"];
            proof { assert(texts_of(v@) =~= win_cheer_lines(team)); }
            v
        },
        Some(Team::Green) => {
            let v = vec!["TOTALLY TUBULAR 🏄", "RADICAL DEPARTURE 🛹", "STAY GOLDEN ✨", "LIKE, TOTALLY! 🤙"];
            proof { assert(texts_of(v@) =~= win_cheer_lines(team)); }
            v
        },
        Some(Team::Blue) => {
            let v = vec!["BINGO.", "ON THE MONEY.", "HARD WORK PAYS OFF.", "PULLING BOOTSTRAPS."];
            proof { assert(texts_of(v@) =~= win_cheer_lines(team)); }
            v
        },
        Some(Team::Purple) => {
            let v = vec!["EXTRA RATIONS FOR YOU.", "BULLY FOR YOU.", "A FINE JOB.", "TOP BRASS."];
            proof { assert(texts_of(v@) =~= win_cheer_lines(team)); }
            v
        },
        _ => {
            let v = vec!["HACKER!", "GOD MODE."];
            proof { assert(texts_of(v@) =~= win_cheer_lines(team)); }
            v
        },
    }
}

/// Comments on a guess that neither wins nor loses, by team.
pub open spec fn guess_quip_lines(team: Option<Team>) -> Seq<Seq<char>> {
    match team {
        Some(Team::Red) => seq!["BET."@, "FR FR."@, "SUS."@, "LET HIM COOK."@, "LOWKEY GOOD."@],
        Some(Team::Orange) => seq!["GIVING..."@, "IT'S THE GUESS FOR ME."@, "RENT FREE."@, "I OOP."@, "VALID."@],
        Some(Team::Yellow) => seq!["IF YOU SAY SO..."@, "SURE, JAN."@, "STILL AT IT?"@, "LITERALLY THIS."@],
        Some(Team::Green) => seq!["GNARLY."@, "WICKED."@, "RIGHTEOUS."@, "GROOVY."@, "CHILL PILL."@],
        Some(Team::Blue) => seq!["NEAT."@, "SWELL."@, "DANDY."@, "PEACHY."@, "HOKEY."@],
        Some(Team::Purple) => seq!["SPLENDID."@, "JOLLY GOOD."@, "CAPITAL."@, "SMASHING."@, "SPIFFING."@],
        _ => seq!["GNARLY."@, "WICKED."@, "RIGHTEOUS."@, "GROOVY."@],
    }
}

/// The lines of [`guess_quip_lines`].
pub fn guess_quip_options(team: Option<Team>) -> (r: Vec<&'static str>)
    ensures
        texts_of(r@) == guess_quip_lines(team),
        r.len() > 0,
{
    match team {
        Some(Team::Red) => {
            let v = vec!["BET.", "FR FR.", "SUS.", "LET HIM COOK.", "LOWKEY GOOD."];
            proof { assert(texts_of(v@) =~= guess_quip_lines(team)); }
            v
        },
        Some(Team::Orange) => {
            let v = vec!["GIVING...", "IT'S THE GUESS FOR ME.", "RENT FREE.", "I OOP.", "VALID."];
            proof { assert(texts_of(v@) =~= guess_quip_lines(team)); }
            v
        },
        Some(Team::Yellow) => {
            let v = vec!["IF YOU SAY SO...", "SURE, JAN.", "STILL AT IT?", "LITERALLY THIS."];
            proof { assert(texts_of(v@) =~= guess_quip_lines(team)); }
            v
        },
        Some(Team::Green) => {
            let v = vec!["GNARLY.", "WICKED.", "RIGHTEOUS.", "GROOVY.", "CHILL PILL."];
            proof { assert(texts_of(v@) =~= guess_quip_lines(team)); }
            v
        },
        Some(Team::Blue) => {
            let v = vec!["NEAT.", "SWELL.", "DANDY.", "PEACHY.", "HOKEY."];
            proof { assert(texts_of(v@) =~= guess_quip_lines(team)); }
            v
        },
        Some(Team::Purple) => {
            let v = vec!["SPLENDID.", "JOLLY GOOD.", "CAPITAL.", "SMASHING.", "SPIFFING."];
            proof { assert(texts_of(v@) =~= guess_quip_lines(team)); }
            v
        },
        _ => {
            let v = vec!["GNARLY.", "WICKED.", "RIGHTEOUS.", "GROOVY."];
            proof { assert(texts_of(v@) =~= guess_quip_lines(team)); }
            v
        },
    }
}

/// The comment on a guess: in New Game+ a taunt; otherwise a jeer on a
/// loss, a cheer on a win (marked when hard mode is on) and a quip on any
/// other guess; the line is picked by `roll` from the theme's list.
pub open spec fn comment_for(
    is_win: bool,
    is_loss: bool,
    is_hard: bool,
    is_ng: bool,
    theme: Seq<char>,
    roll: u32,
) -> Seq<char> {
    let t = team_named(theme);
    if is_ng {
        picked(opponent_taunt_lines(t), roll)
    } else if is_loss {
        picked(loss_taunt_lines(t), roll)
    } else if is_win {
        picked(win_cheer_lines(t), roll) + if is_hard {
            " (HARD MODE ⚡)"@
        } else {
            Seq::empty()
        }
    } else {
        picked(guess_quip_lines(t), roll)
    }
}

/// Returns the snarky comment for the game state and team theme, the line
/// being picked by `roll` (see [`comment_for`]).
pub fn get_80s_comment(
    _guess_count: usize,
    is_win: bool,
    is_loss: bool,
    is_hard: bool,
    is_ng: bool,
    theme: &str,
    roll: u32,
) -> (r: String)
    ensures
        r@ == comment_for(is_win, is_loss, is_hard, is_ng, theme@, roll),
{
    let t = team_of(theme);
    if is_ng {
        return pick_line(&opponent_taunt_options(t), roll);
    }
    if is_loss {
        return pick_line(&loss_taunt_options(t), roll);
    }
    if is_win {
        let mut msg = pick_line(&win_cheer_options(t), roll);
        if is_hard {
            push_text(&mut msg, " (HARD MODE ⚡)");
        } else {
            proof {
                assert(msg@ + Seq::<char>::empty() == msg@);
            }
        }
        return msg;
    }
    pick_line(&guess_quip_options(t), roll)
}

} // verus!
