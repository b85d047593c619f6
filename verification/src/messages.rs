//! The game's themed remarks on player actions.
use vstd::prelude::*;

use crate::comments::texts_of;
use crate::teams::Team;

verus! {

/// Comments on a guess that is not in the word lists, by team.
pub open spec fn not_a_word_lines(team: Option<Team>) -> Seq<Seq<char>> {
    match team {
        Some(Team::Red) => seq!["NOT A WORD BLUD 💀"@, "SKIBIDI SPELLING 🚽"@, "LITERALLY NOT A WORD 🚫"@],
        Some(Team::Orange) => seq!["NOT A WORD, BESTIE 💅"@, "YIKES SPELLING 😬"@, "WE LOVE A MADE UP WORD 🤡"@],
        Some(Team::Yellow) => seq!["DICTIONARY SAYS NO 📚"@, "I CAN'T EVEN READ THAT 🤦"@, "SIRI WHAT IS THAT WORD? 📱"@],
        Some(Team::Green) => seq!["BOGUS WORD 🚫"@, "AS IF ✋"@, "FAKE NEWS 🗞️"@],
        Some(Team::Blue) => seq!["NOT IN WEBSTER'S 📖"@, "LEARN TO SPELL 🏫"@, "BACK TO SCHOOL 🎒"@],
        Some(Team::Purple) => seq!["POPPYCOCK 🎩"@, "BALDERDASH 🧐"@, "HOGWASH 📰"@],
        _ => seq!["NOT A WORD."@],
    }
}

/// The lines of [`not_a_word_lines`].
pub fn not_a_word_options(team: Option<Team>) -> (r: Vec<&'static str>)
    ensures
        texts_of(r@) == not_a_word_lines(team),
        r.len() > 0,
{
    match team {
        Some(Team::Red) => {
            let v = vec!["NOT A WORD BLUD 💀", "SKIBIDI SPELLING 🚽", "LITERALLY NOT A WORD 🚫"];
            proof { assert(texts_of(v@) =~= not_a_word_lines(team)); }
            v
        },
        Some(Team::Orange) => {
            let v = vec!["NOT A WORD, BESTIE 💅", "YIKES SPELLING 😬", "WE LOVE A MADE UP WORD 🤡"];
            proof { assert(texts_of(v@) =~= not_a_word_lines(team)); }
            v
        },
        Some(Team::Yellow) => {
            let v = vec!["DICTIONARY SAYS NO 📚", "I CAN'T EVEN READ THAT 🤦", "SIRI WHAT IS THAT WORD? 📱"];
            proof { assert(texts_of(v@) =~= not_a_word_lines(team)); }
            v
        },
        Some(Team::Green) => {
            let v = vec!["BOGUS WORD 🚫", "AS IF ✋", "FAKE NEWS 🗞️"];
            proof { assert(texts_of(v@) =~= not_a_word_lines(team)); }
            v
        },
        Some(Team::Blue) => {
            let v = vec!["NOT IN WEBSTER'S 📖", "LEARN TO SPELL 🏫", "BACK TO SCHOOL 🎒"];
            proof { assert(texts_of(v@) =~= not_a_word_lines(team)); }
            v
        },
        Some(Team::Purple) => {
            let v = vec!["POPPYCOCK 🎩", "BALDERDASH 🧐", "HOGWASH 📰"];
            proof { assert(texts_of(v@) =~= not_a_word_lines(team)); }
            v
        },
        _ => {
            let v = vec!["NOT A WORD."];
            proof { assert(texts_of(v@) =~= not_a_word_lines(team)); }
            v
        },
    }
}

/// Comments on a guess that breaks a hard-mode hint, by team.
pub open spec fn hard_mode_rejected_lines(team: Option<Team>) -> Seq<Seq<char>> {
    match team {
        Some(Team::Red) => seq!["SKIBIDI ERROR 🚨"@, "THAT AINT IT 🙅"@, "AI DETECTS CAP 🧢"@],
        Some(Team::Orange) => seq!["NOT VERY MINDFUL 🛑"@, "YIKES 😬"@, "WE LOVE A RULE FOLLOWER 📜"@],
        Some(Team::Yellow) => seq!["READ THE RULES DUMMY 📖"@, "THAT'S A NO FROM ME 🚫"@, "SIRI HOW DO I PLAY? 📱"@],
        Some(Team::Green) => seq!["BOGUS GUESS 🚫"@, "AS IF ✋"@, "READ THE MANUAL 📖"@],
        Some(Team::Blue) => seq!["FOLLOW THE RULES SONNY 👴"@, "IN MY DAY WE READ 📰"@, "RESPECT THE HARD MODE ⚡"@],
        Some(Team::Purple) => seq!["POPPYCOCK 🎩"@, "BALDERDASH 🧐"@, "HOGWASH 📰"@],
        _ => seq!["INVALID GUESS."@],
    }
}

/// The lines of [`hard_mode_rejected_lines`].
pub fn hard_mode_rejected_options(team: Option<Team>) -> (r: Vec<&'static str>)
    ensures
        texts_of(r@) == hard_mode_rejected_lines(team),
        r.len() > 0,
{
    match team {
        Some(Team::Red) => {
            let v = vec!["SKIBIDI ERROR 🚨", "THAT AINT IT 🙅", "AI DETECTS CAP 🧢"];
            proof { assert(texts_of(v@) =~= hard_mode_rejected_lines(team)); }
            v
        },
        Some(Team::Orange) => {
            let v = vec!["NOT VERY MINDFUL 🛑", "YIKES 😬", "WE LOVE A RULE FOLLOWER 📜"];
            proof { assert(texts_of(v@) =~= hard_mode_rejected_lines(team)); }
            v
        },
        Some(Team::Yellow) => {
            let v = vec!["READ THE RULES DUMMY 📖", "THAT'S A NO FROM ME 🚫", "SIRI HOW DO I PLAY? 📱"];
            proof { assert(texts_of(v@) =~= hard_mode_rejected_lines(team)); }
            v
        },
        Some(Team::Green) => {
            let v = vec!["BOGUS GUESS 🚫", "AS IF ✋", "READ THE MANUAL 📖"];
            proof { assert(texts_of(v@) =~= hard_mode_rejected_lines(team)); }
            v
        },
        Some(Team::Blue) => {
            let v = vec!["FOLLOW THE RULES SONNY 👴", "IN MY DAY WE READ 📰", "RESPECT THE HARD MODE ⚡"];
            proof { assert(texts_of(v@) =~= hard_mode_rejected_lines(team)); }
            v
        },
        Some(Team::Purple) => {
            let v = vec!["POPPYCOCK 🎩", "BALDERDASH 🧐", "HOGWASH 📰"];
            proof { assert(texts_of(v@) =~= hard_mode_rejected_lines(team)); }
            v
        },
        _ => {
            let v = vec!["INVALID GUESS."];
            proof { assert(texts_of(v@) =~= hard_mode_rejected_lines(team)); }
            v
        },
    }
}

/// Comments when New Game+ is asked for before the daily game is done, by team.
pub open spec fn new_game_plus_locked_lines(team: Option<Team>) -> Seq<Seq<char>> {
    match team {
        Some(Team::Red) => seq!["FINISH THE DAILY FIRST BLUD 🛑"@, "LITERALLY NOT UNLOCKED 🔒"@, "ONE THING AT A TIME ⏳"@, "NO CAP BEAT THE DAILY 🧢"@, "SKIBIDI IMPATIENCE 🚽"@],
        Some(Team::Orange) => seq!["ACCESS DENIED BESTIE 🙅"@, "NOT YET CHAMP 🏆"@, "WE LOVE AN EAGER QUEEN 👑"@, "BEAT THE DAILY TO UNLOCK 🔓"@, "WALK BEFORE YOU RUN 🚶"@],
        Some(Team::Yellow) => seq!["FINISH THE DAILY GAME FIRST, GENIUS 🧠"@, "ADULTING MEANS FINISHING TASKS 📋"@, "ONE THING AT A TIME ☝️"@, "EAGER, ARE WE? 👀"@, "DO THE DAILY FIRST 📅"@],
        Some(Team::Green) => seq!["CHILL OUT 🧊"@, "TAKE A BREATH 🧘"@, "BEAT THE DAILY FIRST, DUDE ✌️"@, "NOT YET 🛑"@, "PATIENCE ⏳"@],
        Some(Team::Blue) => seq!["IN MY DAY WE FINISHED CHORES 🧹"@, "HOLD YOUR HORSES 🐎"@, "ONE STEP AT A TIME 👣"@, "BEAT THE DAILY TO UNLOCK 🗝️"@, "NOT YET ✋"@],
        _ => seq!["FINISH THE DAILY GAME FIRST, GENIUS 🧠"@],
    }
}

/// The lines of [`new_game_plus_locked_lines`].
pub fn new_game_plus_locked_options(team: Option<Team>) -> (r: Vec<&'static str>)
    ensures
        texts_of(r@) == new_game_plus_locked_lines(team),
        r.len() > 0,
{
    match team {
        Some(Team::Red) => {
            let v = vec!["FINISH THE DAILY FIRST BLUD 🛑", "LITERALLY NOT UNLOCKED 🔒", "ONE THING AT A TIME ⏳", "NO CAP BEAT THE DAILY 🧢", "SKIBIDI IMPATIENCE 🚽"];
            proof { assert(texts_of(v@) =~= new_game_plus_locked_lines(team)); }
            v
        },
        Some(Team::Orange) => {
            let v = vec!["ACCESS DENIED BESTIE 🙅", "NOT YET CHAMP 🏆", "WE LOVE AN EAGER QUEEN 👑", "BEAT THE DAILY TO UNLOCK 🔓", "WALK BEFORE YOU RUN 🚶"];
            proof { assert(texts_of(v@) =~= new_game_plus_locked_lines(team)); }
            v
        },
        Some(Team::Yellow) => {
            let v = vec!["FINISH THE DAILY GAME FIRST, GENIUS 🧠", "ADULTING MEANS FINISHING TASKS 📋", "ONE THING AT A TIME ☝️", "EAGER, ARE WE? 👀", "DO THE DAILY FIRST 📅"];
            proof { assert(texts_of(v@) =~= new_game_plus_locked_lines(team)); }
            v
        },
        Some(Team::Green) => {
            let v = vec!["CHILL OUT 🧊", "TAKE A BREATH 🧘", "BEAT THE DAILY FIRST, DUDE ✌️", "NOT YET 🛑", "PATIENCE ⏳"];
            proof { assert(texts_of(v@) =~= new_game_plus_locked_lines(team)); }
            v
        },
        Some(Team::Blue) => {
            let v = vec!["IN MY DAY WE FINISHED CHORES 🧹", "HOLD YOUR HORSES 🐎", "ONE STEP AT A TIME 👣", "BEAT THE DAILY TO UNLOCK 🗝️", "NOT YET ✋"];
            proof { assert(texts_of(v@) =~= new_game_plus_locked_lines(team)); }
            v
        },
        _ => {
            let v = vec!["FINISH THE DAILY GAME FIRST, GENIUS 🧠"];
            proof { assert(texts_of(v@) =~= new_game_plus_locked_lines(team)); }
            v
        },
    }
}

/// Comments when New Game+ starts, by team.
pub open spec fn new_game_plus_started_lines(team: Option<Team>) -> Seq<Seq<char>> {
    match team {
        Some(Team::Red) => seq!["SYSTEM BREACHED 🔓"@, "NO ESCAPE 🚫"@, "IT'S OVER FOR YOU 💀"@],
        Some(Team::Orange) => seq!["NEW GAME+ ENABLED 💅"@, "GIVING HARD MODE 😬"@, "PROTOCOL INITIALIZED 🤖"@],
        Some(Team::Yellow) => seq!["NEW GAME+ ENABLED 🎮"@, "PROTOCOL INITIALIZED ⚙️"@, "GOOD LUCK 🍀"@],
        Some(Team::Green) => seq!["NEW GAME+ 🕹️"@, "PREPARE YOURSELF 😤"@, "MAXIMUM EFFORT 💪"@],
        Some(Team::Blue) => seq!["NEW GAME+ ENABLED 📺"@, "PROTOCOL INITIALIZED 📠"@, "BACK TO WORK 💼"@],
        _ => seq!["NEW GAME+ ENABLED 🕹️"@, "PROTOCOL INITIALIZED ⚙️"@],
    }
}

/// The lines of [`new_game_plus_started_lines`].
pub fn new_game_plus_started_options(team: Option<Team>) -> (r: Vec<&'static str>)
    ensures
        texts_of(r@) == new_game_plus_started_lines(team),
        r.len() > 0,
{
    match team {
        Some(Team::Red) => {
            let v = vec!["SYSTEM BREACHED 🔓", "NO ESCAPE 🚫", "IT'S OVER FOR YOU 💀"];
            proof { assert(texts_of(v@) =~= new_game_plus_started_lines(team)); }
            v
        },
        Some(Team::Orange) => {
            let v = vec!["NEW GAME+ ENABLED 💅", "GIVING HARD MODE 😬", "PROTOCOL INITIALIZED 🤖"];
            proof { assert(texts_of(v@) =~= new_game_plus_started_lines(team)); }
            v
        },
        Some(Team::Yellow) => {
            let v = vec!["NEW GAME+ ENABLED 🎮", "PROTOCOL INITIALIZED ⚙️", "GOOD LUCK 🍀"];
            proof { assert(texts_of(v@) =~= new_game_plus_started_lines(team)); }
            v
        },
        Some(Team::Green) => {
            let v = vec!["NEW GAME+ 🕹️", "PREPARE YOURSELF 😤", "MAXIMUM EFFORT 💪"];
            proof { assert(texts_of(v@) =~= new_game_plus_started_lines(team)); }
            v
        },
        Some(Team::Blue) => {
            let v = vec!["NEW GAME+ ENABLED 📺", "PROTOCOL INITIALIZED 📠", "BACK TO WORK 💼"];
            proof { assert(texts_of(v@) =~= new_game_plus_started_lines(team)); }
            v
        },
        _ => {
            let v = vec!["NEW GAME+ ENABLED 🕹️", "PROTOCOL INITIALIZED ⚙️"];
            proof { assert(texts_of(v@) =~= new_game_plus_started_lines(team)); }
            v
        },
    }
}

/// Comments when the player joins a team, by team joined.
pub open spec fn join_team_lines(team: Option<Team>) -> Seq<Seq<char>> {
    match team {
        Some(Team::Red) => seq!["SKIBIDI 🚽"@, "NO CAP 🧢"@, "GOAT STATUS 🐐"@, "W RIZZ 🥶"@],
        Some(Team::Orange) => seq!["VIBE CHECK 💅"@, "MAIN CHARACTER ENERGY ✨"@, "TOUCH GRASS 🌿"@],
        Some(Team::Yellow) => seq!["ADULTING IS HARD ☕"@, "PUPPERCINO VIBES 🐶"@],
        Some(Team::Green) => seq!["WHATEVER 🙄"@, "AS IF ✋"@],
        Some(Team::Blue) => seq!["BACK IN MY DAY... 👴"@, "RESPECT YOUR ELDERS 🧐"@],
        Some(Team::Purple) => seq!["NONSENSE AND TOMFOOLERY 🗞️"@, "GREAT DEPRESSION SURVIVOR 📻"@],
        _ => seq!["JOINING TEAM."@],
    }
}

/// The lines of [`join_team_lines`].
pub fn join_team_options(team: Option<Team>) -> (r: Vec<&'static str>)
    ensures
        texts_of(r@) == join_team_lines(team),
        r.len() > 0,
{
    match team {
        Some(Team::Red) => {
            let v = vec!["SKIBIDI 🚽", "NO CAP 🧢", "GOAT STATUS 🐐", "W RIZZ 🥶"];
            proof { assert(texts_of(v@) =~= join_team_lines(team)); }
            v
        },
        Some(Team::Orange) => {
            let v = vec!["VIBE CHECK 💅", "MAIN CHARACTER ENERGY ✨", "TOUCH GRASS 🌿"];
            proof { assert(texts_of(v@) =~= join_team_lines(team)); }
            v
        },
        Some(Team::Yellow) => {
            let v = vec!["ADULTING IS HARD ☕", "PUPPERCINO VIBES 🐶"];
            proof { assert(texts_of(v@) =~= join_team_lines(team)); }
            v
        },
        Some(Team::Green) => {
            let v = vec!["WHATEVER 🙄", "AS IF ✋"];
            proof { assert(texts_of(v@) =~= join_team_lines(team)); }
            v
        },
        Some(Team::Blue) => {
            let v = vec!["BACK IN MY DAY... 👴", "RESPECT YOUR ELDERS 🧐"];
            proof { assert(texts_of(v@) =~= join_team_lines(team)); }
            v
        },
        Some(Team::Purple) => {
            let v = vec!["NONSENSE AND TOMFOOLERY 🗞️", "GREAT DEPRESSION SURVIVOR 📻"];
            proof { assert(texts_of(v@) =~= join_team_lines(team)); }
            v
        },
        _ => {
            let v = vec!["JOINING TEAM."];
            proof { assert(texts_of(v@) =~= join_team_lines(team)); }
            v
        },
    }
}

/// Comments when hard mode is toggled during New Game+.
pub open spec fn hard_mode_forced_lines() -> Seq<Seq<char>> {
    seq!["NO ESCAPE FROM THE SYSTEM."@, "MANDATORY HARD MODE."@, "SUCK IT UP, BUTTERCUP."@, "YOU ASKED FOR THIS."@, "AI DOES NOT ALLOW COWARDICE."@]
}

/// The lines of [`hard_mode_forced_lines`].
pub fn hard_mode_forced_options() -> (r: Vec<&'static str>)
    ensures
        texts_of(r@) == hard_mode_forced_lines(),
        r.len() > 0,
{
    let v = vec!["NO ESCAPE FROM THE SYSTEM.", "MANDATORY HARD MODE.", "SUCK IT UP, BUTTERCUP.", "YOU ASKED FOR THIS.", "AI DOES NOT ALLOW COWARDICE."];
    proof { assert(texts_of(v@) =~= hard_mode_forced_lines()); }
    v
}

/// Comments when hard mode is switched on.
pub open spec fn hard_mode_on_lines() -> Seq<Seq<char>> {
    seq!["A GLUTTON FOR PUNISHMENT."@, "OH, YOU THINK YOU'RE SMART?"@, "BRING THE PAIN."@, "HARD MODE ENGAGED."@, "NO MERCY."@, "PREPARE TO SUFFER."@, "FINALLY, A CHALLENGE."@]
}

/// The lines of [`hard_mode_on_lines`].
pub fn hard_mode_on_options() -> (r: Vec<&'static str>)
    ensures
        texts_of(r@) == hard_mode_on_lines(),
        r.len() > 0,
{
    let v = vec!["A GLUTTON FOR PUNISHMENT.", "OH, YOU THINK YOU'RE SMART?", "BRING THE PAIN.", "HARD MODE ENGAGED.", "NO MERCY.", "PREPARE TO SUFFER.", "FINALLY, A CHALLENGE."];
    proof { assert(texts_of(v@) =~= hard_mode_on_lines()); }
    v
}

/// Comments when hard mode is switched off.
pub open spec fn hard_mode_off_lines() -> Seq<Seq<char>> {
    seq!["COWARD."@, "TOO HARD FOR YOU?"@, "BACK TO BABY MODE."@, "COPPING OUT ALREADY?"@, "WEAK AURA."@, "I EXPECTED BETTER."@, "EASY MODE ENGAGED."@]
}

/// The lines of [`hard_mode_off_lines`].
pub fn hard_mode_off_options() -> (r: Vec<&'static str>)
    ensures
        texts_of(r@) == hard_mode_off_lines(),
        r.len() > 0,
{
    let v = vec!["COWARD.", "TOO HARD FOR YOU?", "BACK TO BABY MODE.", "COPPING OUT ALREADY?", "WEAK AURA.", "I EXPECTED BETTER.", "EASY MODE ENGAGED."];
    proof { assert(texts_of(v@) =~= hard_mode_off_lines()); }
    v
}

/// Comments when hard mode is toggled after the first guess.
pub open spec fn hard_mode_too_late_lines() -> Seq<Seq<char>> {
    seq!["TOO LATE TO CHANGE NOW."@, "YOU MADE YOUR BED."@, "NO BACKING OUT MID-GAME."@, "COMMITTED TO THIS PATH."@, "NICE TRY."@]
}

/// The lines of [`hard_mode_too_late_lines`].
pub fn hard_mode_too_late_options() -> (r: Vec<&'static str>)
    ensures
        texts_of(r@) == hard_mode_too_late_lines(),
        r.len() > 0,
{
    let v = vec!["TOO LATE TO CHANGE NOW.", "YOU MADE YOUR BED.", "NO BACKING OUT MID-GAME.", "COMMITTED TO THIS PATH.", "NICE TRY."];
    proof { assert(texts_of(v@) =~= hard_mode_too_late_lines()); }
    v
}

/// Comments when sharing is asked for before the daily game is done.
pub open spec fn share_locked_lines() -> Seq<Seq<char>> {
    seq!["FINISH THE GAME FIRST."@, "EARN IT."@, "NOTHING TO SHARE YET."@, "NICE TRY."@]
}

/// The lines of [`share_locked_lines`].
pub fn share_locked_options() -> (r: Vec<&'static str>)
    ensures
        texts_of(r@) == share_locked_lines(),
        r.len() > 0,
{
    let v = vec!["FINISH THE GAME FIRST.", "EARN IT.", "NOTHING TO SHARE YET.", "NICE TRY."];
    proof { assert(texts_of(v@) =~= share_locked_lines()); }
    v
}

} // verus!
