//! Which lines of the leaderboard are shown, and under which numbers.
//!
//! The board is a list of scores, best first. The player is not on it: the
//! player's line goes in where the player's score would stand.

use vstd::prelude::*;

verus! {

/// How many lines a board shows from its top when the player is among them.
pub const TOP_LINES: usize = 10;

/// How many lines a board shows from its top when the player is further down.
pub const HEAD_LINES: usize = 3;

/// How many places above and below the player a board shows when the player
/// is further down.
pub const AROUND_PLAYER: usize = 2;

/// A line of the board.
#[derive(Clone, Copy, PartialEq, Eq, Structural, Debug)]
pub enum LeaderboardLine {
    /// The player's own line, under the number of the player's place.
    Own { number: usize },
    /// The score at `index` of the board, under `number`.
    Entry { number: usize, index: usize },
    /// Lines are left out here.
    Gap,
}

/// The last index of a window that is meant to end at `last_index`, on a board
/// of `len` scores: the window does not reach beyond the board.
pub open spec fn window_last(last_index: usize, len: usize) -> int {
    if len == 0 {
        0
    } else if last_index < len - 1 {
        last_index as int
    } else {
        len - 1
    }
}

/// Whether the player's line stands in the window at or before index `i`.
pub open spec fn player_is_in(start: int, i: int, player_index: int) -> bool {
    start <= player_index <= i
}

/// The lines that index `i` of a window from `start` to `last` gives: the
/// player's line if the player stands at `i`, then the score at `i`. The last
/// score of a window gives way where the player stands before it. Scores that
/// come after the player's line are numbered one further.
pub open spec fn lines_at(i: int, start: int, last: int, player_index: int, len: int) -> Seq<
    LeaderboardLine,
> {
    let own = if i == player_index {
        seq![LeaderboardLine::Own { number: (i + 1) as usize }]
    } else {
        Seq::<LeaderboardLine>::empty()
    };
    let entry = if len > 0 && !(i == last && player_index < last) {
        seq![
            LeaderboardLine::Entry {
                number: (if player_is_in(start, i, player_index) {
                    i + 2
                } else {
                    i + 1
                }) as usize,
                index: i as usize,
            },
        ]
    } else {
        Seq::<LeaderboardLine>::empty()
    };
    own + entry
}

/// The lines that the indices from `start` up to, but not including, `upto`
/// give, in a window from `start` to `last`.
pub open spec fn window_lines(start: int, upto: int, last: int, player_index: int, len: int) -> Seq<
    LeaderboardLine,
>
    decreases upto - start,
{
    if upto <= start {
        Seq::empty()
    } else {
        window_lines(start, upto - 1, last, player_index, len) + lines_at(
            upto - 1,
            start,
            last,
            player_index,
            len,
        )
    }
}

/// The line that closes a window which reaches the end of the board, where
/// the player stands below every score.
pub open spec fn closing_lines(last: int, player_index: int, len: int) -> Seq<LeaderboardLine> {
    if len > 0 && player_index == len && last == len - 1 {
        seq![LeaderboardLine::Own { number: (player_index + 1) as usize }]
    } else {
        Seq::empty()
    }
}

/// The lines of the window from `start_index` to `last_index` of a board of
/// `len` scores, with the player standing at `player_index`.
pub open spec fn entries_between(
    start_index: usize,
    last_index: usize,
    player_index: usize,
    len: usize,
) -> Seq<LeaderboardLine> {
    window_lines(
        start_index as int,
        window_last(last_index, len) + 1,
        window_last(last_index, len),
        player_index as int,
        len as int,
    ) + closing_lines(window_last(last_index, len), player_index as int, len as int)
}

/// The number under which a line is shown; a gap has none.
pub open spec fn number_of(line: LeaderboardLine) -> int {
    match line {
        LeaderboardLine::Own { number } => number as int,
        LeaderboardLine::Entry { number, .. } => number as int,
        LeaderboardLine::Gap => 0,
    }
}

/// How many lines the indices from `start` up to, but not including, `upto`
/// give.
pub open spec fn window_count(start: int, upto: int, last: int, player_index: int, len: int)
    -> int {
    if upto <= start {
        0
    } else if len <= 0 {
        if start <= player_index < upto {
            1
        } else {
            0
        }
    } else {
        (upto - start) + (if start <= player_index < upto {
            1int
        } else {
            0int
        }) - (if upto == last + 1 && player_index < last {
            1int
        } else {
            0int
        })
    }
}

/// The lines of a window are numbered one after the other, from the number
/// of the window's first place; and every score they name is on the board.
pub proof fn lemma_window_is_numbered(start: int, upto: int, last: int, player_index: int, len: int)
    requires
        0 <= start,
        upto <= last + 1,
        0 <= player_index,
        0 <= len,
        0 <= last,
        len > 0 ==> last <= len - 1,
        len == 0 ==> last == 0,
        last + 2 <= usize::MAX,
    ensures
        window_lines(start, upto, last, player_index, len).len() == window_count(
            start,
            upto,
            last,
            player_index,
            len,
        ),
        forall|k: int|
            0 <= k < window_lines(start, upto, last, player_index, len).len() ==> ({
                let line = #[trigger] window_lines(start, upto, last, player_index, len)[k];
                &&& line !is Gap
                &&& number_of(line) == start + 1 + k
                &&& line matches LeaderboardLine::Entry { index, .. } ==> start <= index < len
                    && index < upto
                &&& line is Own ==> number_of(line) == player_index + 1
            }),
    decreases upto - start,
{
    if upto > start {
        lemma_window_is_numbered(start, upto - 1, last, player_index, len);
        let before = window_lines(start, upto - 1, last, player_index, len);
        let here = lines_at(upto - 1, start, last, player_index, len);
        let all = window_lines(start, upto, last, player_index, len);
        assert(all == before + here);
        assert forall|k: int| 0 <= k < all.len() implies {
            let line = #[trigger] all[k];
            &&& line !is Gap
            &&& number_of(line) == start + 1 + k
            &&& line matches LeaderboardLine::Entry { index, .. } ==> start <= index < len && index
                < upto
            &&& line is Own ==> number_of(line) == player_index + 1
        } by {
            if k < before.len() {
                assert(all[k] == before[k]);
            } else {
                assert(all[k] == here[k - before.len()]);
            }
        }
    }
}

/// The lines of the window from `start_index` to `last_index` of a board of
/// `len` scores, with the player standing at `player_index`.
pub fn add_leaderboard_entry(
    start_index: usize,
    last_index: usize,
    player_index: usize,
    len: usize,
) -> (lines: Vec<LeaderboardLine>)
    requires
        len < usize::MAX - 1,
        player_index < usize::MAX,
    ensures
        lines@ == entries_between(start_index, last_index, player_index, len),
{
    let last: usize = if len == 0 {
        0
    } else if last_index < len - 1 {
        last_index
    } else {
        len - 1
    };
    let mut lines: Vec<LeaderboardLine> = Vec::new();
    let mut i: usize = start_index;
    while i <= last
        invariant
            last == window_last(last_index, len),
            last < usize::MAX - 1,
            player_index < usize::MAX,
            start_index <= i,
            i <= last + 1 || i == start_index,
            lines@ == window_lines(
                start_index as int,
                i as int,
                last as int,
                player_index as int,
                len as int,
            ),
        decreases last + 1 - i,
    {
        if i == player_index {
            lines.push(LeaderboardLine::Own { number: i + 1 });
        }
        if len > 0 && !(i == last && player_index < last) {
            let number: usize = if start_index <= player_index && player_index <= i {
                i + 2
            } else {
                i + 1
            };
            lines.push(LeaderboardLine::Entry { number, index: i });
        }
        proof {
            assert(lines@ =~= window_lines(
                start_index as int,
                i + 1,
                last as int,
                player_index as int,
                len as int,
            ));
        }
        i += 1;
    }
    if len > 0 && player_index == len && last == len - 1 {
        lines.push(LeaderboardLine::Own { number: player_index + 1 });
    }
    proof {
        assert(lines@ =~= entries_between(start_index, last_index, player_index, len));
    }
    lines
}

/// Every score that a window names is on the board.
pub proof fn lemma_window_names_only_scores(
    start_index: usize,
    last_index: usize,
    player_index: usize,
    len: usize,
    k: int,
)
    requires
        len < usize::MAX - 1,
        0 <= k < entries_between(start_index, last_index, player_index, len).len(),
    ensures
        (entries_between(start_index, last_index, player_index, len)[k] matches LeaderboardLine::Entry {
            index,
            ..
        } ==> index < len),
        entries_between(start_index, last_index, player_index, len)[k] !is Gap,
{
    let last = window_last(last_index, len);
    let window = window_lines(start_index as int, last + 1, last, player_index as int, len as int);
    lemma_window_is_numbered(start_index as int, last + 1, last, player_index as int, len as int);
    if k < window.len() {
        assert(entries_between(start_index, last_index, player_index, len)[k] == window[k]);
    }
}

/// Every score that a board names is among its scores.
pub proof fn lemma_board_names_only_scores(player_index: usize, len: usize, k: int)
    requires
        len < usize::MAX - 1,
        player_index <= len,
        0 <= k < board_lines(player_index, len).len(),
    ensures
        (board_lines(player_index, len)[k] matches LeaderboardLine::Entry { index, .. } ==> index
            < len),
{
    if player_index < TOP_LINES {
        lemma_window_names_only_scores(0, (TOP_LINES - 1) as usize, player_index, len, k);
    } else {
        let head = entries_between(0, (HEAD_LINES - 1) as usize, player_index, len);
        let around = entries_between(
            (player_index - AROUND_PLAYER) as usize,
            (player_index + AROUND_PLAYER) as usize,
            player_index,
            len,
        );
        if k < head.len() {
            lemma_window_names_only_scores(0, (HEAD_LINES - 1) as usize, player_index, len, k);
            assert(board_lines(player_index, len)[k] == head[k]);
        } else if k == head.len() {
            assert(board_lines(player_index, len)[k] == LeaderboardLine::Gap);
        } else {
            lemma_window_names_only_scores(
                (player_index - AROUND_PLAYER) as usize,
                (player_index + AROUND_PLAYER) as usize,
                player_index,
                len,
                k - head.len() - 1,
            );
            assert(board_lines(player_index, len)[k] == around[k - head.len() - 1]);
        }
    }
}

/// The lines of a board of `len` scores with the player at `player_index`:
/// the top of the board if the player stands there; else the head of the
/// board, a gap, and the places around the player.
pub open spec fn board_lines(player_index: usize, len: usize) -> Seq<LeaderboardLine> {
    if player_index < TOP_LINES {
        entries_between(0, (TOP_LINES - 1) as usize, player_index, len)
    } else {
        entries_between(0, (HEAD_LINES - 1) as usize, player_index, len) + seq![
            LeaderboardLine::Gap,
        ] + entries_between(
            (player_index - AROUND_PLAYER) as usize,
            (player_index + AROUND_PLAYER) as usize,
            player_index,
            len,
        )
    }
}

/// Works out the lines of a board of `len` scores with the player at
/// `player_index`.
pub fn system_display_leaderboard(player_index: usize, len: usize) -> (lines: Vec<LeaderboardLine>)
    requires
        len < usize::MAX - 1,
        player_index <= len,
    ensures
        lines@ == board_lines(player_index, len),
{
    if player_index < TOP_LINES {
        add_leaderboard_entry(0, TOP_LINES - 1, player_index, len)
    } else {
        let mut lines = add_leaderboard_entry(0, HEAD_LINES - 1, player_index, len);
        lines.push(LeaderboardLine::Gap);
        let mut around = add_leaderboard_entry(
            player_index - AROUND_PLAYER,
            player_index + AROUND_PLAYER,
            player_index,
            len,
        );
        lines.append(&mut around);
        lines
    }
}

/// Whether the board is to be worked out anew: its scores have changed, or
/// the player's score has and there are scores to compare it with.
pub fn needs_new_lines(board_changed: bool, score_changed: bool, len: usize) -> (anew: bool)
    ensures
        anew == (board_changed || (score_changed && len > 0)),
{
    board_changed || (score_changed && len > 0)
}

} // verus!
