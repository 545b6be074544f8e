//! Configuration and state records: the game list, the UI settings, and the
//! recently-played list with its update rule.
use vstd::prelude::*;
use crate::text::{concat2, decimal, decimal_string, str_eq};

verus! {

/// The curated game list (`games.json`).
#[derive(Clone, Debug)]
pub struct GamesConfig {
    pub schema: u32,
    pub games: Vec<GameEntry>,
}

/// One game of the list.
#[derive(Clone, Debug)]
pub struct GameEntry {
    pub id: String,
    pub name: String,
    pub system: String,
    pub launch: String,
    pub art: String,
}

/// A display resolution in pixels.
#[derive(Clone, Copy, Debug)]
pub struct Resolution {
    pub width: u32,
    pub height: u32,
}

/// UI settings (`settings.json`).
#[derive(Clone, Debug)]
pub struct Settings {
    pub schema: u32,
    pub title: String,
    pub boot_delay_seconds: u32,
    pub admin_server: bool,
    pub admin_port: u16,
    pub columns: u32,
    pub resolution: Resolution,
}

/// Launcher state kept between runs (`state.json`).
#[derive(Clone, Debug)]
pub struct State {
    pub schema: u32,
    pub recently_played: Vec<String>,
}

/// The only schema version the configuration files may carry.
pub const SUPPORTED_SCHEMA: u32 = 1;

/// How many entries the recently-played list keeps.
pub const RECENT_LIMIT: usize = 5;

pub fn default_resolution() -> (r: Resolution)
    ensures
        r.width == 1920,
        r.height == 1080,
{
    Resolution { width: 1920, height: 1080 }
}

pub fn default_title() -> (t: String)
    ensures
        t@ == "GAME TIME!"@,
{
    String::from_str("GAME TIME!")
}

pub fn default_boot_delay() -> (d: u32)
    ensures
        d == 3,
{
    3
}

pub fn default_admin_port() -> (p: u16)
    ensures
        p == 8080,
{
    8080
}

pub fn default_columns() -> (c: u32)
    ensures
        c == 3,
{
    3
}

impl Default for Settings {
    fn default() -> (s: Settings)
        ensures
            s.schema == 1,
            s.title@ == "GAME TIME!"@,
            s.boot_delay_seconds == 3,
            !s.admin_server,
            s.admin_port == 8080,
            s.columns == 3,
            s.resolution.width == 1920,
            s.resolution.height == 1080,
    {
        Settings {
            schema: 1,
            title: default_title(),
            boot_delay_seconds: default_boot_delay(),
            admin_server: false,
            admin_port: default_admin_port(),
            columns: default_columns(),
            resolution: default_resolution(),
        }
    }
}

impl Default for State {
    fn default() -> (s: State)
        ensures
            s.schema == 1,
            s.recently_played@.len() == 0,
    {
        State { schema: 1, recently_played: Vec::new() }
    }
}

/// The message for a settings file of an unsupported schema version.
pub open spec fn settings_schema_message(schema: u32) -> Seq<char> {
    "Unsupported settings schema version: "@ + decimal(schema as nat)
}

/// The message for a games file of an unsupported schema version.
pub open spec fn games_schema_message(schema: u32) -> Seq<char> {
    "Unsupported games config schema version: "@ + decimal(schema as nat)
}

impl Settings {
    /// Accept freshly parsed settings only if they carry the supported schema version.
    pub fn checked(self) -> (r: Result<Settings, String>)
        ensures
            self.schema == SUPPORTED_SCHEMA ==> r == Ok::<Settings, String>(self),
            self.schema != SUPPORTED_SCHEMA ==> (r matches Err(m) && m@ == settings_schema_message(
                self.schema,
            )),
    {
        if self.schema != SUPPORTED_SCHEMA {
            let n = decimal_string(self.schema as u64);
            return Err(concat2("Unsupported settings schema version: ", n.as_str()));
        }
        Ok(self)
    }
}

impl GamesConfig {
    /// Accept a freshly parsed game list only if it carries the supported schema version.
    pub fn checked(self) -> (r: Result<GamesConfig, String>)
        ensures
            self.schema == SUPPORTED_SCHEMA ==> r == Ok::<GamesConfig, String>(self),
            self.schema != SUPPORTED_SCHEMA ==> (r matches Err(m) && m@ == games_schema_message(
                self.schema,
            )),
    {
        if self.schema != SUPPORTED_SCHEMA {
            let n = decimal_string(self.schema as u64);
            return Err(concat2("Unsupported games config schema version: ", n.as_str()));
        }
        Ok(self)
    }
}

/// At most the first `RECENT_LIMIT` entries of `s`.
pub open spec fn keep_recent(s: Seq<Seq<char>>) -> Seq<Seq<char>> {
    if s.len() <= RECENT_LIMIT {
        s
    } else {
        s.take(RECENT_LIMIT as int)
    }
}

/// The recently-played list after playing `id`: `id` moves to (or enters at)
/// the front, every other entry keeps its relative order, and the list is
/// cut to `RECENT_LIMIT` entries.
pub open spec fn recent_after_play(list: Seq<Seq<char>>, id: Seq<char>) -> Seq<Seq<char>> {
    keep_recent(seq![id] + list.filter(other_than(id)))
}

/// The test "is not `id`".
pub open spec fn other_than(id: Seq<char>) -> spec_fn(Seq<char>) -> bool {
    |s: Seq<char>| s != id
}

/// Entry `i` of the new list: the played game first, then the old list
/// without it.
proof fn lemma_recent_index(list: Seq<Seq<char>>, id: Seq<char>)
    ensures
        ({
            let f = list.filter(other_than(id));
            let r = recent_after_play(list, id);
            &&& r.len() == if f.len() + 1 <= RECENT_LIMIT {
                f.len() + 1int
            } else {
                RECENT_LIMIT as int
            }
            &&& r[0] == id
            &&& forall|i: int| 1 <= i < r.len() ==> #[trigger] r[i] == f[i - 1]
        }),
{
}


/// Playing a game puts it first, and the list never grows past `RECENT_LIMIT`.
pub proof fn lemma_record_play_front(list: Seq<Seq<char>>, id: Seq<char>)
    ensures
        1 <= recent_after_play(list, id).len() <= RECENT_LIMIT,
        recent_after_play(list, id)[0] == id,
{
}

/// The played game occurs exactly once: no entry after the first is that game.
pub proof fn lemma_record_play_once(list: Seq<Seq<char>>, id: Seq<char>)
    ensures
        forall|i: int|
            1 <= i < recent_after_play(list, id).len() ==> #[trigger] recent_after_play(
                list,
                id,
            )[i] != id,
{
    let ne = other_than(id);
    lemma_recent_index(list, id);
    let f = list.filter(ne);
    let r = recent_after_play(list, id);
    assert forall|i: int| 1 <= i < r.len() implies #[trigger] r[i] != id by {
        assert(r[i] == f[i - 1]);
        list.lemma_filter_pred(ne, i - 1);
    }
}

/// Every entry but the first is, in order, the old list without the played
/// game: the other games keep their relative order.
pub proof fn lemma_record_play_keeps_order(list: Seq<Seq<char>>, id: Seq<char>)
    ensures
        ({
            let r = recent_after_play(list, id);
            r.subrange(1, r.len() as int) == list.filter(other_than(id)).take(
                r.len() - 1,
            )
        }),
{
    let r = recent_after_play(list, id);
    let f = list.filter(other_than(id));
    lemma_recent_index(list, id);
    assert(r.subrange(1, r.len() as int) =~= f.take(r.len() - 1));
}

/// Filtering keeps a list free of duplicates.
proof fn lemma_filter_no_duplicates(s: Seq<Seq<char>>, p: spec_fn(Seq<char>) -> bool)
    requires
        s.no_duplicates(),
    ensures
        s.filter(p).no_duplicates(),
    decreases s.len(),
{
    reveal(Seq::filter);
    if s.len() > 0 {
        let init = s.drop_last();
        assert(init.no_duplicates());
        lemma_filter_no_duplicates(init, p);
        if p(s.last()) {
            assert(!init.contains(s.last()));
            if init.filter(p).contains(s.last()) {
                let k = choose|k: int| 0 <= k < init.filter(p).len() && init.filter(p)[k] == s.last();
                init.lemma_filter_contains_rev(p, s.last());
            }
        }
    }
}

/// A recently-played list free of duplicates stays free of duplicates.
pub proof fn lemma_record_play_no_duplicates(list: Seq<Seq<char>>, id: Seq<char>)
    requires
        list.no_duplicates(),
    ensures
        recent_after_play(list, id).no_duplicates(),
{
    let ne = other_than(id);
    lemma_recent_index(list, id);
    let f = list.filter(ne);
    lemma_filter_no_duplicates(list, ne);
    lemma_record_play_once(list, id);
    let a = seq![id] + f;
    let r = recent_after_play(list, id);
    assert forall|i: int, j: int| 0 <= i < r.len() && 0 <= j < r.len() && i != j implies r[i]
        != r[j] by {
        if i == 0 {
            assert(r[j] != id);
        } else if j == 0 {
            assert(r[i] != id);
        } else {
            assert(r[i] == f[i - 1] && r[j] == f[j - 1]);
        }
    }
}

/// Playing the same game twice in a row is the same as playing it once.
pub proof fn lemma_record_play_idempotent(list: Seq<Seq<char>>, id: Seq<char>)
    ensures
        recent_after_play(recent_after_play(list, id), id) == recent_after_play(list, id),
{
    let ne = other_than(id);
    lemma_recent_index(list, id);
    let f = list.filter(ne);
    let r = recent_after_play(list, id);
    lemma_record_play_once(list, id);
    let rest = r.drop_first();
    assert forall|i: int| 0 <= i < rest.len() implies ne(#[trigger] rest[i]) by {
        assert(rest[i] == r[i + 1]);
    }
    assert(r =~= seq![id] + rest);
    lemma_filter_all(rest, ne);
    seq![id].lemma_filter_prepend(id, ne);
    assert(seq![id] + rest == seq![id].add(rest));
    Seq::filter_distributes_over_add(seq![id], rest, ne);
    reveal(Seq::filter);
    assert(seq![id].filter(ne) =~= Seq::<Seq<char>>::empty()) by {
        assert(seq![id].drop_last() =~= Seq::<Seq<char>>::empty());
    }
    assert(r.filter(ne) =~= rest);
    assert(seq![id] + r.filter(ne) =~= r);
}

/// Filtering by a predicate that every element meets changes nothing.
proof fn lemma_filter_all(s: Seq<Seq<char>>, p: spec_fn(Seq<char>) -> bool)
    requires
        forall|i: int| 0 <= i < s.len() ==> p(#[trigger] s[i]),
    ensures
        s.filter(p) == s,
    decreases s.len(),
{
    reveal(Seq::filter);
    if s.len() > 0 {
        lemma_filter_all(s.drop_last(), p);
        assert(s.drop_last().push(s.last()) =~= s);
    } else {
        assert(s.filter(p) =~= s);
    }
}

impl State {
    /// Record that `game_id` was played.
    pub fn record_play(&mut self, game_id: &str)
        ensures
            final(self).schema == old(self).schema,
            final(self).recently_played.deep_view() == recent_after_play(
                old(self).recently_played.deep_view(),
                game_id@,
            ),
    {
        let ghost list = self.recently_played.deep_view();
        let ghost id = game_id@;
        let ghost ne = other_than(id);
        let mut kept: Vec<String> = Vec::new();
        kept.push(String::from_str(game_id));
        let n = self.recently_played.len();
        let mut j: usize = 0;
        proof {
            assert(list.take(0) =~= Seq::<Seq<char>>::empty());
            assert(kept.deep_view() =~= keep_recent(seq![id] + list.take(0).filter(ne)));
        }
        while j < n
            invariant
                n == self.recently_played@.len(),
                list == self.recently_played.deep_view(),
                id == game_id@,
                ne == other_than(id),
                j <= n,
                kept.deep_view() == keep_recent(seq![id] + list.take(j as int).filter(ne)),
            decreases n - j,
        {
            let entry = &self.recently_played[j];
            let ghost before = kept.deep_view();
            let ghost f = list.take(j as int).filter(ne);
            let ghost a = seq![id] + f;
            proof {
                let t = list.take(j as int);
                assert(list.take(j + 1) =~= t.push(list[j as int]));
                t.lemma_filter_push(list[j as int], ne);
                assert(list[j as int] == entry@);
                assert(before.len() == kept@.len());
            }
            if !str_eq(entry.as_str(), game_id) && kept.len() < RECENT_LIMIT {
                kept.push(entry.clone());
                proof {
                    assert(kept.deep_view() =~= before.push(entry@));
                    assert(a.len() < RECENT_LIMIT);
                    assert(a.push(entry@) =~= seq![id] + f.push(entry@));
                }
            } else {
                proof {
                    if entry@ != id {
                        assert(a.len() >= RECENT_LIMIT);
                        assert(a.push(entry@) =~= seq![id] + f.push(entry@));
                        assert(keep_recent(a.push(entry@)) =~= keep_recent(a));
                    }
                }
            }
            j += 1;
        }
        proof {
            assert(list.take(n as int) =~= list);
        }
        self.recently_played = kept;
    }
}

} // verus!
