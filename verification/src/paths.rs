//! Where the launcher keeps its files.
//!
//! Paths are held as strings.  Joining follows the Unix path rules: an
//! absolute component replaces what came before, and a relative one is
//! appended after a `/` unless the base is empty or already ends in `/`.
use vstd::prelude::*;
use crate::text::{concat2, concat3};

verus! {

/// `rel` joined onto `base` as a Unix path.
pub open spec fn joined(base: Seq<char>, rel: Seq<char>) -> Seq<char> {
    if rel.len() > 0 && rel[0] == '/' {
        rel
    } else if base.len() > 0 && base.last() != '/' {
        base + seq!['/'] + rel
    } else {
        base + rel
    }
}

/// `rel` joined onto `base` as a Unix path.
pub fn join(base: &str, rel: &str) -> (p: String)
    ensures
        p@ == joined(base@, rel@),
{
    proof {
        reveal_strlit("/");
    }
    let rel_len = rel.unicode_len();
    if rel_len > 0 && rel.get_char(0) == '/' {
        return String::from_str(rel);
    }
    let base_len = base.unicode_len();
    if base_len > 0 && base.get_char(base_len - 1) != '/' {
        concat3(base, "/", rel)
    } else {
        concat2(base, rel)
    }
}

/// The launcher's directory layout, rooted at `base`.
pub struct GrandmaPaths {
    pub base: String,
}

impl GrandmaPaths {
    pub fn new(base: &str) -> (p: GrandmaPaths)
        ensures
            p.base@ == base@,
    {
        GrandmaPaths { base: String::from_str(base) }
    }

    /// Standard MiSTer deployment paths.
    pub fn mister() -> (p: GrandmaPaths)
        ensures
            p.base@ == "/media/fat/grandma_launcher"@,
    {
        Self::new("/media/fat/grandma_launcher")
    }

    pub fn games_json(&self) -> (p: String)
        ensures
            p@ == joined(self.base@, "games.json"@),
    {
        join(self.base.as_str(), "games.json")
    }

    pub fn games_json_bak(&self) -> (p: String)
        ensures
            p@ == joined(self.base@, "games.json.bak"@),
    {
        join(self.base.as_str(), "games.json.bak")
    }

    pub fn settings_json(&self) -> (p: String)
        ensures
            p@ == joined(self.base@, "settings.json"@),
    {
        join(self.base.as_str(), "settings.json")
    }

    pub fn state_json(&self) -> (p: String)
        ensures
            p@ == joined(self.base@, "state.json"@),
    {
        join(self.base.as_str(), "state.json")
    }

    pub fn log_file(&self) -> (p: String)
        ensures
            p@ == joined(self.base@, "grandma.log"@),
    {
        join(self.base.as_str(), "grandma.log")
    }

    pub fn boxart_dir(&self) -> (p: String)
        ensures
            p@ == joined(self.base@, "assets/boxart"@),
    {
        join(self.base.as_str(), "assets/boxart")
    }

    pub fn placeholder_art(&self) -> (p: String)
        ensures
            p@ == joined(self.base@, "assets/placeholder.png"@),
    {
        join(self.base.as_str(), "assets/placeholder.png")
    }

    pub fn font_file(&self) -> (p: String)
        ensures
            p@ == joined(self.base@, "assets/font.ttf"@),
    {
        join(self.base.as_str(), "assets/font.ttf")
    }

    /// The file whose presence keeps the supervisor from starting anything.
    pub fn kill_switch() -> (p: String)
        ensures
            p@ == "/media/fat/grandma_launcher.disabled"@,
    {
        String::from_str("/media/fat/grandma_launcher.disabled")
    }

    /// The command FIFO of the MiSTer main binary.
    pub fn mister_cmd() -> (p: String)
        ensures
            p@ == "/dev/MiSTer_cmd"@,
    {
        String::from_str("/dev/MiSTer_cmd")
    }

    pub fn arcade_dir() -> (p: String)
        ensures
            p@ == "/media/fat/_Arcade"@,
    {
        String::from_str("/media/fat/_Arcade")
    }

    /// The executable `name` in the `bin` directory.
    pub fn bin_path(&self, name: &str) -> (p: String)
        ensures
            p@ == joined(joined(self.base@, "bin"@), name@),
    {
        let bin = join(self.base.as_str(), "bin");
        join(bin.as_str(), name)
    }

    /// Where the box art named in a game entry lives: an absolute path is
    /// taken as it is, a relative one is relative to `base`.
    pub fn art_path(&self, art: &str) -> (p: String)
        ensures
            p@ == joined(self.base@, art@),
            art@.len() > 0 && art@[0] == '/' ==> p@ == art@,
    {
        if art.unicode_len() > 0 && art.get_char(0) == '/' {
            String::from_str(art)
        } else {
            join(self.base.as_str(), art)
        }
    }
}


/// A relative path joined onto a non-empty base lies inside the base: the
/// result starts with the base followed by a separator.
pub proof fn lemma_relative_stays_under_base(base: Seq<char>, rel: Seq<char>)
    requires
        base.len() > 0,
        !(rel.len() > 0 && rel[0] == '/'),
    ensures
        crate::text::has_prefix(joined(base, rel), base),
        joined(base, rel).len() >= base.len() + rel.len(),
        joined(base, rel).skip(joined(base, rel).len() - rel.len()) == rel,
{
    let j = joined(base, rel);
    assert(j.subrange(0, base.len() as int) =~= base);
    assert(j.skip(j.len() - rel.len()) =~= rel);
}

/// An absolute path joined onto any base is itself.
pub proof fn lemma_absolute_replaces(base: Seq<char>, rel: Seq<char>)
    requires
        rel.len() > 0 && rel[0] == '/',
    ensures
        joined(base, rel) == rel,
{
}

} // verus!
