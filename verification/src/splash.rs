//! The splash screen's lookup of the device's address on the local network.
use vstd::prelude::*;
use crate::text::{has_prefix, starts_with};

verus! {

/// Whether `c` has the Unicode `White_Space` property (what
/// `char::is_whitespace` tests, and `str::trim` removes).
pub open spec fn is_white_space(c: char) -> bool {
    let u = c as u32;
    (0x9 <= u && u <= 0xd) || u == 0x20 || u == 0x85 || u == 0xa0 || u == 0x1680 || (0x2000 <= u
        && u <= 0x200a) || u == 0x2028 || u == 0x2029 || u == 0x202f || u == 0x205f || u == 0x3000
}

/// `s` without its leading whitespace.
pub open spec fn trim_start_ws(s: Seq<char>) -> Seq<char>
    decreases s.len(),
{
    if s.len() > 0 && is_white_space(s[0]) {
        trim_start_ws(s.drop_first())
    } else {
        s
    }
}

/// `s` without its trailing whitespace.
pub open spec fn trim_end_ws(s: Seq<char>) -> Seq<char>
    decreases s.len(),
{
    if s.len() > 0 && is_white_space(s.last()) {
        trim_end_ws(s.drop_last())
    } else {
        s
    }
}

/// `s` without leading and trailing whitespace, as `str::trim` gives it.
pub open spec fn trimmed_of(s: Seq<char>) -> Seq<char> {
    trim_end_ws(trim_start_ws(s))
}

/// A line without the `\r` of a `\r\n` ending.
pub open spec fn strip_cr(line: Seq<char>) -> Seq<char> {
    if line.len() > 0 && line.last() == '\r' {
        line.drop_last()
    } else {
        line
    }
}

/// The lines of `s` from position `i` on, the current line having started
/// at `start`: a line ends at each `\n` (and a `\r` just before it is
/// dropped); the last line needs no ending and keeps a final `\r`; text
/// that ends with `\n` has no empty line after it.
pub open spec fn lines_scan(s: Seq<char>, start: int, i: int) -> Seq<Seq<char>>
    decreases s.len() - i,
{
    if i >= s.len() {
        if start < s.len() {
            seq![s.subrange(start, s.len() as int)]
        } else {
            seq![]
        }
    } else if s[i] == '\n' {
        seq![strip_cr(s.subrange(start, i))] + lines_scan(s, i + 1, i + 1)
    } else {
        lines_scan(s, start, i + 1)
    }
}

/// The lines of a text, as `str::lines` gives them.
pub open spec fn lines_of(s: Seq<char>) -> Seq<Seq<char>> {
    lines_scan(s, 0, 0)
}

/// Whether `c` is whitespace.
fn is_ws(c: char) -> (r: bool)
    ensures
        r == is_white_space(c),
{
    let u = c as u32;
    (0x9 <= u && u <= 0xd) || u == 0x20 || u == 0x85 || u == 0xa0 || u == 0x1680 || (0x2000 <= u
        && u <= 0x200a) || u == 0x2028 || u == 0x2029 || u == 0x202f || u == 0x205f || u == 0x3000
}

/// `s` without leading and trailing whitespace.
fn trim_ws(s: &str) -> (r: String)
    ensures
        r@ == trimmed_of(s@),
{
    let n = s.unicode_len();
    let mut i: usize = 0;
    assert(s@.skip(0) =~= s@);
    while i < n && is_ws(s.get_char(i))
        invariant
            n == s@.len(),
            i <= n,
            trim_start_ws(s@) == trim_start_ws(s@.skip(i as int)),
        decreases n - i,
    {
        assert(s@.skip(i as int).drop_first() =~= s@.skip(i + 1));
        i += 1;
    }
    assert(trim_start_ws(s@) == s@.skip(i as int));
    let mut j: usize = n;
    assert(s@.subrange(i as int, n as int) =~= s@.skip(i as int));
    while j > i && is_ws(s.get_char(j - 1))
        invariant
            n == s@.len(),
            i <= j <= n,
            trim_end_ws(s@.skip(i as int)) == trim_end_ws(s@.subrange(i as int, j as int)),
        decreases j,
    {
        assert(s@.subrange(i as int, j as int).drop_last() =~= s@.subrange(i as int, j - 1));
        j -= 1;
    }
    String::from_str(s.substring_char(i, j))
}

/// The lines of `s`, each as a `String`.
fn split_lines(s: &str) -> (r: Vec<String>)
    ensures
        r.deep_view() == lines_of(s@),
{
    let n = s.unicode_len();
    let mut out: Vec<String> = Vec::new();
    let mut start: usize = 0;
    let mut i: usize = 0;
    while i < n
        invariant
            n == s@.len(),
            start <= i <= n,
            lines_of(s@) == out.deep_view() + lines_scan(s@, start as int, i as int),
        decreases n - i,
    {
        if s.get_char(i) == '\n' {
            let raw = s.substring_char(start, i);
            let k = raw.unicode_len();
            let line = if k > 0 && raw.get_char(k - 1) == '\r' {
                String::from_str(raw.substring_char(0, k - 1))
            } else {
                String::from_str(raw)
            };
            proof {
                assert(line@ =~= strip_cr(s@.subrange(start as int, i as int)));
            }
            let ghost before = out.deep_view();
            out.push(line);
            proof {
                assert(out.deep_view() =~= before.push(line@));
                assert(before + lines_scan(s@, start as int, i as int) =~= out.deep_view()
                    + lines_scan(s@, i + 1, i + 1));
            }
            start = i + 1;
        }
        i += 1;
    }
    if start < n {
        let ghost before = out.deep_view();
        let last = String::from_str(s.substring_char(start, n));
        out.push(last);
        proof {
            assert(out.deep_view() =~= before.push(s@.subrange(start as int, n as int)));
            assert(before + lines_scan(s@, start as int, n as int) =~= out.deep_view());
        }
    } else {
        assert(out.deep_view() + lines_scan(s@, start as int, n as int) =~= out.deep_view());
    }
    out
}

/// `s` with every leading copy of `p` removed.
pub open spec fn strip_leading(s: Seq<char>, p: Seq<char>) -> Seq<char>
    decreases s.len(),
{
    if p.len() > 0 && has_prefix(s, p) {
        strip_leading(s.skip(p.len() as int), p)
    } else {
        s
    }
}

/// `s` with every leading copy of `p` removed.
fn trim_start_matches(s: &str, p: &str) -> (r: String)
    ensures
        r@ == strip_leading(s@, p@),
{
    let n = s.unicode_len();
    let m = p.unicode_len();
    let mut rest = String::from_str(s);
    let mut i: usize = 0;
    assert(s@.skip(0) =~= s@);
    while m > 0 && starts_with(rest.as_str(), p)
        invariant
            n == s@.len(),
            m == p@.len(),
            i <= n,
            rest@ == s@.skip(i as int),
            strip_leading(s@, p@) == strip_leading(rest@, p@),
        decreases n - i,
    {
        let next = rest.as_str().substring_char(m, n - i);
        assert(next@ =~= s@.skip(i + m));
        rest = String::from_str(next);
        i = i + m;
    }
    rest
}

/// Whether a line of the routing table names a private address the
/// device has: one in 192.168.x.x or 10.x.x.x.
pub open spec fn names_local_address(line: Seq<char>) -> bool {
    has_prefix(line, "|-- 192.168."@) || has_prefix(line, "|-- 10."@)
}

/// The address named by the first matching line from `i` on, or "unknown".
pub open spec fn address_from(lines: Seq<Seq<char>>, i: int) -> Seq<char>
    decreases lines.len() - i,
{
    if i < 0 || i >= lines.len() {
        "unknown"@
    } else if names_local_address(trimmed_of(lines[i])) {
        strip_leading(trimmed_of(lines[i]), "|-- "@)
    } else {
        address_from(lines, i + 1)
    }
}

/// The device's local IP address read off the kernel's routing table
/// (`/proc/net/fib_trie`), or "unknown".
pub fn local_ip_from_fib_trie(content: &str) -> (ip: String)
    ensures
        ip@ == address_from(lines_of(content@), 0),
{
    let lines = split_lines(content);
    let ghost ls = lines_of(content@);
    let n = lines.len();
    let mut i: usize = 0;
    while i < n
        invariant
            n == ls.len(),
            ls == lines_of(content@),
            lines.deep_view() == ls,
            i <= n,
            address_from(ls, 0) == address_from(ls, i as int),
        decreases n - i,
    {
        assert(lines@[i as int]@ == ls[i as int]);
        let trimmed = trim_ws(lines[i].as_str());
        if starts_with(trimmed.as_str(), "|-- 192.168.") || starts_with(trimmed.as_str(), "|-- 10.") {
            let r = trim_start_matches(trimmed.as_str(), "|-- ");
            return r;
        }
        i += 1;
    }
    String::from_str("unknown")
}


/// What the splash does next during its countdown.
#[derive(Debug, Clone, Copy, PartialEq, Eq, Structural)]
pub enum SplashStep {
    /// The countdown is over: exit with code 0, so the launcher starts.
    Proceed,
    /// A key arrived: exit with code 1, back to the MiSTer menu.
    Escape,
    /// Keep waiting.
    Wait,
}

/// The countdown's length in milliseconds for a delay of `seconds`.
pub fn delay_ms(seconds: u32) -> (ms: u64)
    ensures
        ms == seconds * 1000,
{
    seconds as u64 * 1000
}

/// One step of the splash countdown: `elapsed_ms` since it started, a
/// countdown of `delay_ms`, and `key_bytes` bytes just read from the
/// terminal (zero when there is no terminal).  The countdown ending wins
/// over a key.
pub fn splash_step(elapsed_ms: u64, delay_ms: u64, key_bytes: usize) -> (s: SplashStep)
    ensures
        s == if elapsed_ms >= delay_ms {
            SplashStep::Proceed
        } else if key_bytes > 0 {
            SplashStep::Escape
        } else {
            SplashStep::Wait
        },
{
    if elapsed_ms >= delay_ms {
        SplashStep::Proceed
    } else if key_bytes > 0 {
        SplashStep::Escape
    } else {
        SplashStep::Wait
    }
}

/// The exit code the splash ends with after a step that ends it: 0 to go
/// on to the launcher, 1 to escape to the MiSTer menu.
pub fn splash_exit_code(s: SplashStep) -> (code: u8)
    requires
        s != SplashStep::Wait,
    ensures
        s == SplashStep::Proceed ==> code == 0,
        s == SplashStep::Escape ==> code == 1,
{
    match s {
        SplashStep::Escape => 1,
        _ => 0,
    }
}

/// The exit code the splash ends with is the one the supervisor reads:
/// proceeding starts the launcher and escaping leaves to the menu.
pub proof fn lemma_splash_codes_agree(s: SplashStep, code: u8)
    requires
        s != SplashStep::Wait,
        s == SplashStep::Proceed ==> code == 0,
        s == SplashStep::Escape ==> code == 1,
    ensures
        s == SplashStep::Proceed ==> crate::supervisor::splash_outcome_of(Some(code as i32))
            == crate::supervisor::SplashOutcome::Proceed,
        s == SplashStep::Escape ==> crate::supervisor::splash_outcome_of(Some(code as i32))
            == crate::supervisor::SplashOutcome::EscapeToMenu,
{
}

} // verus!
