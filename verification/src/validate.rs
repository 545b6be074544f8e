//! Checking a game list before it is saved: IDs are unique, launch files
//! are `.mra` or `.mgl` files, and they exist.
use vstd::prelude::*;
use crate::config::{GameEntry, GamesConfig};
use crate::text::{concat2, concat3, str_eq};

verus! {

/// What `std::path::Path::extension` gives for a path: the part of the
/// file name after its last `.`, if there is one.
pub uninterp spec fn file_extension(path: Seq<char>) -> Option<Seq<char>>;

/// `Path::extension` of `path` (a UTF-8 path's extension is UTF-8, so
/// turning it into a `String` loses nothing).  The result is the named
/// `file_extension` of the path.
#[verifier::external_body]
pub(crate) fn path_extension(path: &str) -> (e: Option<String>)
    ensures
        match e {
            Some(s) => file_extension(path@) == Some(s@),
            None => file_extension(path@) is None,
        },
{
    std::path::Path::new(path).extension().and_then(|x| x.to_str()).map(|x| x.to_string())
}

/// `Path::exists` of `path`: whether something is on disk there.  It
/// depends on the file system, so nothing is promised of the result.
#[verifier::external_body]
fn path_exists(path: &str) -> bool {
    std::path::Path::new(path).exists()
}

/// Whether an extension names a launchable file.
pub open spec fn launchable_extension(ext: Option<Seq<char>>) -> bool {
    ext == Some("mra"@) || ext == Some("mgl"@)
}

/// Whether game `i`'s ID already occurs among the games before it.
pub open spec fn repeats_earlier_id(games: Seq<GameEntry>, i: int) -> bool {
    exists|j: int| 0 <= j < i && #[trigger] games[j].id@ == games[i].id@
}

/// The error for the first game, from `i` on, that fails a check: a
/// repeated ID, then a launch file of another type, then a missing
/// launch file.  `exts[k]` is the extension of game `k`'s launch path and
/// `present[k]` whether that file exists.
pub open spec fn first_problem(
    games: Seq<GameEntry>,
    exts: Seq<Option<Seq<char>>>,
    present: Seq<bool>,
    i: int,
) -> Option<Seq<char>>
    decreases games.len() - i,
{
    if i < 0 || i >= games.len() {
        None
    } else if repeats_earlier_id(games, i) {
        Some("Duplicate game ID: "@ + games[i].id@)
    } else if !launchable_extension(exts[i]) {
        Some("Invalid launch file extension for "@ + games[i].id@ + ": "@ + games[i].launch@)
    } else if !present[i] {
        Some("Launch file not found for "@ + games[i].id@ + ": "@ + games[i].launch@)
    } else {
        first_problem(games, exts, present, i + 1)
    }
}

/// `Ok` when no game fails a check, else the error of the first one that does.
pub open spec fn check_result(problem: Option<Seq<char>>, r: Result<(), String>) -> bool {
    match problem {
        None => r is Ok,
        Some(m) => r matches Err(e) && e@ == m,
    }
}

/// Whether game `i`'s ID occurs among the games before it.
fn id_seen_before(games: &Vec<GameEntry>, i: usize) -> (r: bool)
    requires
        i < games@.len(),
    ensures
        r == repeats_earlier_id(games@, i as int),
{
    let mut j: usize = 0;
    while j < i
        invariant
            i < games@.len(),
            j <= i,
            forall|k: int| 0 <= k < j ==> games@[k].id@ != games@[i as int].id@,
        decreases i - j,
    {
        if str_eq(games[j].id.as_str(), games[i].id.as_str()) {
            return true;
        }
        j += 1;
    }
    false
}

/// Validate a game list, given the extension of each launch path and
/// whether each launch file exists.
pub fn validate_games_with(
    config: &GamesConfig,
    extensions: &Vec<Option<String>>,
    present: &Vec<bool>,
) -> (r: Result<(), String>)
    requires
        extensions@.len() == config.games@.len(),
        present@.len() == config.games@.len(),
    ensures
        check_result(
            first_problem(
                config.games@,
                Seq::new(extensions@.len(), |k: int| opt_view(extensions@[k])),
                present@,
                0,
            ),
            r,
        ),
{
    let ghost games = config.games@;
    let ghost exts = Seq::new(extensions@.len(), |k: int| opt_view(extensions@[k]));
    let n = config.games.len();
    let mut i: usize = 0;
    while i < n
        invariant
            n == games.len(),
            games == config.games@,
            exts == Seq::new(extensions@.len(), |k: int| opt_view(extensions@[k])),
            extensions@.len() == n,
            present@.len() == n,
            i <= n,
            first_problem(games, exts, present@, 0) == first_problem(games, exts, present@, i as int),
        decreases n - i,
    {
        let game = &config.games[i];
        if id_seen_before(&config.games, i) {
            return Err(concat2("Duplicate game ID: ", game.id.as_str()));
        }
        let ok_ext = match &extensions[i] {
            Some(e) => {
                proof {
                    reveal_strlit("mra");
                    reveal_strlit("mgl");
                }
                str_eq(e.as_str(), "mra") || str_eq(e.as_str(), "mgl")
            },
            None => false,
        };
        if !ok_ext {
            let head = concat3("Invalid launch file extension for ", game.id.as_str(), ": ");
            return Err(concat2(head.as_str(), game.launch.as_str()));
        }
        if !present[i] {
            let head = concat3("Launch file not found for ", game.id.as_str(), ": ");
            return Err(concat2(head.as_str(), game.launch.as_str()));
        }
        i += 1;
    }
    Ok(())
}

/// The extension of each game's launch path.
pub open spec fn launch_extensions(games: Seq<GameEntry>) -> Seq<Option<Seq<char>>> {
    Seq::new(games.len(), |k: int| file_extension(games[k].launch@))
}

/// The characters of an optional string.
pub open spec fn opt_view(s: Option<String>) -> Option<Seq<char>> {
    match s {
        Some(x) => Some(x@),
        None => None,
    }
}

/// Validate a game list before saving.  Checks that IDs are unique, launch
/// paths end in `.mra` or `.mgl`, and launch files exist.  Whether a file
/// exists is read from disk, so the result is stated for what the disk
/// said of each file.
pub fn validate_games(config: &GamesConfig) -> (r: Result<(), String>)
    ensures
        exists|on_disk: Seq<bool>|
            on_disk.len() == config.games@.len() && check_result(
                #[trigger] first_problem(
                    config.games@,
                    launch_extensions(config.games@),
                    on_disk,
                    0,
                ),
                r,
            ),
{
    let n = config.games.len();
    let mut extensions: Vec<Option<String>> = Vec::new();
    let mut present: Vec<bool> = Vec::new();
    let mut i: usize = 0;
    while i < n
        invariant
            n == config.games@.len(),
            i <= n,
            extensions@.len() == i,
            present@.len() == i,
            forall|k: int|
                0 <= k < i ==> opt_view(#[trigger] extensions@[k]) == file_extension(
                    config.games@[k].launch@,
                ),
        decreases n - i,
    {
        let launch = config.games[i].launch.as_str();
        extensions.push(path_extension(launch));
        present.push(path_exists(launch));
        i += 1;
    }
    let r = validate_games_with(config, &extensions, &present);
    proof {
        let _ = first_problem(
            config.games@,
            launch_extensions(config.games@),
            present@,
            0,
        );
        assert(Seq::new(extensions@.len(), |k: int| opt_view(extensions@[k])) =~= launch_extensions(
            config.games@,
        ));
    }
    r
}


/// Game `k` passes every check.
pub open spec fn game_passes(
    games: Seq<GameEntry>,
    exts: Seq<Option<Seq<char>>>,
    present: Seq<bool>,
    k: int,
) -> bool {
    !repeats_earlier_id(games, k) && launchable_extension(exts[k]) && present[k]
}

/// A list that passes has, for every game, an ID not used before it and a
/// launch file of a launchable type that exists.
pub proof fn lemma_passing_list_is_sound(
    games: Seq<GameEntry>,
    exts: Seq<Option<Seq<char>>>,
    present: Seq<bool>,
    i: int,
)
    requires
        0 <= i <= games.len(),
        exts.len() == games.len(),
        present.len() == games.len(),
        first_problem(games, exts, present, i) is None,
    ensures
        forall|k: int| i <= k < games.len() ==> #[trigger] game_passes(games, exts, present, k),
    decreases games.len() - i,
{
    if i < games.len() {
        assert(game_passes(games, exts, present, i));
        lemma_passing_list_is_sound(games, exts, present, i + 1);
    }
}

/// In a list that passes, no two games share an ID.
pub proof fn lemma_passing_list_unique_ids(
    games: Seq<GameEntry>,
    exts: Seq<Option<Seq<char>>>,
    present: Seq<bool>,
)
    requires
        exts.len() == games.len(),
        present.len() == games.len(),
        first_problem(games, exts, present, 0) is None,
    ensures
        forall|j: int, k: int| 0 <= j < k < games.len() ==> #[trigger] games[j].id@ != #[trigger] games[k].id@,
{
    lemma_passing_list_is_sound(games, exts, present, 0);
    assert forall|j: int, k: int| 0 <= j < k < games.len() implies #[trigger] games[j].id@
        != #[trigger] games[k].id@ by {
        assert(game_passes(games, exts, present, k));
    }
}


/// The games whose launch file is present, in their order; `present[k]`
/// says whether game `k`'s launch file exists.
pub open spec fn kept_games(games: Seq<GameEntry>, present: Seq<bool>) -> Seq<GameEntry>
    decreases games.len(),
{
    if games.len() == 0 {
        seq![]
    } else {
        let rest = kept_games(games.drop_last(), present);
        if present[games.len() - 1] {
            rest.push(games.last())
        } else {
            rest
        }
    }
}

/// Keep the games whose launch file exists, in their order; `present[k]`
/// says whether game `k`'s launch file exists.
pub fn keep_launchable(games: Vec<GameEntry>, present: &Vec<bool>) -> (r: Vec<GameEntry>)
    requires
        present@.len() == games@.len(),
    ensures
        r@ == kept_games(games@, present@),
{
    let ghost all = games@;
    let n = games.len();
    let mut rest = games;
    let mut out: Vec<GameEntry> = Vec::new();
    let mut i: usize = 0;
    assert(all.take(0) =~= Seq::<GameEntry>::empty());
    assert(all.skip(0) =~= all);
    while i < n
        invariant
            n == all.len(),
            present@.len() == n,
            i <= n,
            out@ == kept_games(all.take(i as int), present@),
            rest@ == all.skip(i as int),
        decreases n - i,
    {
        let g = rest.remove(0);
        proof {
            assert(all.skip(i as int)[0] == all[i as int]);
            assert(all.skip(i as int).remove(0) =~= all.skip(i + 1));
            assert(all.take(i + 1).drop_last() =~= all.take(i as int));
            assert(all.take(i + 1).last() == all[i as int]);
        }
        if present[i] {
            out.push(g);
        }
        i += 1;
    }
    proof {
        assert(all.take(n as int) =~= all);
    }
    out
}

/// The games kept are exactly those whose launch file is present, each
/// with its position in the list it was taken from.
pub proof fn lemma_kept_games_are_present(games: Seq<GameEntry>, present: Seq<bool>)
    requires
        present.len() == games.len(),
    ensures
        kept_games(games, present).len() <= games.len(),
        forall|g: GameEntry| #[trigger] kept_games(games, present).contains(g) ==> exists|k: int|
            0 <= k < games.len() && present[k] && games[k] == g,
        forall|k: int|
            0 <= k < games.len() && present[k] ==> kept_games(games, present).contains(
                #[trigger] games[k],
            ),
    decreases games.len(),
{
    if games.len() > 0 {
        let init = games.drop_last();
        lemma_kept_games_are_present(init, present.drop_last());
        assert forall|k: int| 0 <= k < init.len() implies present.drop_last()[k] == present[k] by {}
        assert(kept_games(init, present.drop_last()) == kept_games(init, present)) by {
            lemma_kept_games_prefix(init, present.drop_last(), present);
        }
        let r = kept_games(games, present);
        let rest = kept_games(init, present);
        assert forall|g: GameEntry| #[trigger] r.contains(g) implies exists|k: int|
            0 <= k < games.len() && present[k] && games[k] == g by {
            let j = choose|j: int| 0 <= j < r.len() && r[j] == g;
            if j < rest.len() {
                assert(rest[j] == g);
                assert(rest.contains(g));
                let k = choose|k: int| 0 <= k < init.len() && present.drop_last()[k] && init[k] == g;
                assert(games[k] == g);
            } else {
                assert(games[games.len() - 1] == g);
            }
        }
        assert forall|k: int| 0 <= k < games.len() && present[k] implies r.contains(
            #[trigger] games[k],
        ) by {
            if k < init.len() {
                assert(present.drop_last()[k]);
                assert(init[k] == games[k]);
                assert(rest.contains(games[k]));
                let j = choose|j: int| 0 <= j < rest.len() && rest[j] == games[k];
                assert(r[j] == games[k]);
            } else {
                assert(r[r.len() - 1] == games[k]);
            }
        }
    }
}

/// Only the flags of the games in the list matter.
proof fn lemma_kept_games_prefix(games: Seq<GameEntry>, p: Seq<bool>, q: Seq<bool>)
    requires
        games.len() <= p.len(),
        games.len() <= q.len(),
        forall|k: int| 0 <= k < games.len() ==> p[k] == q[k],
    ensures
        kept_games(games, p) == kept_games(games, q),
    decreases games.len(),
{
    if games.len() > 0 {
        lemma_kept_games_prefix(games.drop_last(), p, q);
    }
}

} // verus!
