//! The debug-console command grammar: one line of text becomes one
//! `DebugCommand`. Reading lines from stdin and applying commands to the
//! world happen elsewhere.

use vstd::prelude::*;
use vstd::string::*;

use crate::items::{
    added_contents, contents_weight, default_instance, instance_weight, item_fungible, item_from_key, ItemInstance, ItemKind, Pack,
};
use crate::needs::{needs_with, NeedKind, Needs};
use crate::text::{
    owned, parse_i32_str, parse_signed, parse_unsigned, parse_unsigned_str, split_white, str_eq,
    words,
};
use crate::world::BanditTier;

verus! {

#[derive(Debug)]
pub enum DebugCommand {
    Help,
    SetTime(u8, u8),
    AdvanceSecs(u32),
    SetNeed(NeedKind, u8),
    Teleport(i32, i32),
    /// Put `count` of `kind` into the player's pack (capacity permitting).
    Give(ItemKind, u16),
    /// Rebuild the world; `Some(seed)` pins the seed.
    NewWorld(Option<u64>),
    /// Toggle walking through blockers with needs frozen.
    Godmode,
    /// Spawn one bandit of the tier a few tiles east of the player.
    SpawnBandit(BanditTier),
    /// Anything else; holds the raw line (empty for a blank line).
    Unknown(String),
}

/// Side effects the world cannot apply itself.
#[derive(Debug)]
pub enum DebugSideEffect {
    /// Rebuild the world, from this seed or a fresh one.
    NewWorld(Option<u64>),
    /// Print the command list.
    ShowHelp,
    /// Roll a loadout for a bandit of this tier and drop it beside the
    /// player (see `bandit_spawn_x`).
    SpawnBandit(BanditTier),
    /// Report a line that is no command.
    Unknown(String),
}

/// The content of a `DebugCommand`, with the unknown line read as
/// characters.
pub enum CommandRecord {
    Help,
    SetTime(u8, u8),
    AdvanceSecs(u32),
    SetNeed(NeedKind, u8),
    Teleport(i32, i32),
    Give(ItemKind, u16),
    NewWorld(Option<u64>),
    Godmode,
    SpawnBandit(BanditTier),
    Unknown(Seq<char>),
}

impl View for DebugCommand {
    type V = CommandRecord;

    open spec fn view(&self) -> CommandRecord {
        match self {
            DebugCommand::Help => CommandRecord::Help,
            DebugCommand::SetTime(h, m) => CommandRecord::SetTime(*h, *m),
            DebugCommand::AdvanceSecs(s) => CommandRecord::AdvanceSecs(*s),
            DebugCommand::SetNeed(k, v) => CommandRecord::SetNeed(*k, *v),
            DebugCommand::Teleport(x, y) => CommandRecord::Teleport(*x, *y),
            DebugCommand::Give(k, n) => CommandRecord::Give(*k, *n),
            DebugCommand::NewWorld(s) => CommandRecord::NewWorld(*s),
            DebugCommand::Godmode => CommandRecord::Godmode,
            DebugCommand::SpawnBandit(t) => CommandRecord::SpawnBandit(*t),
            DebugCommand::Unknown(s) => CommandRecord::Unknown(s@),
        }
    }
}

/// Index of the first ':' in `s` at or after `i`, or -1.
pub open spec fn colon_from(s: Seq<char>, i: nat) -> int
    decreases s.len() - i,
{
    if i >= s.len() {
        -1
    } else if s[i as int] == ':' {
        i as int
    } else {
        colon_from(s, i + 1)
    }
}

/// `HH:MM` split at the first ':', each side a `u8`, hours below 24 and
/// minutes below 60.
pub open spec fn hm_spec(s: Seq<char>) -> Option<(u8, u8)> {
    let k = colon_from(s, 0);
    if k < 0 {
        None
    } else {
        match (parse_unsigned(s.take(k), false, 255), parse_unsigned(s.skip(k + 1), false, 255)) {
            (Some(h), Some(m)) => if h < 24 && m < 60 {
                Some((h as u8, m as u8))
            } else {
                None
            },
            _ => None,
        }
    }
}

/// A seed in decimal, or in hexadecimal after "0x" / "0X".
pub open spec fn seed_spec(s: Seq<char>) -> Option<int> {
    if s.len() >= 2 && s[0] == '0' && (s[1] == 'x' || s[1] == 'X') {
        parse_unsigned(s.skip(2), true, u64::MAX as int)
    } else {
        parse_unsigned(s, false, u64::MAX as int)
    }
}

pub open spec fn need_for_word(w: Seq<char>) -> Option<NeedKind> {
    if w == "thirst"@ || w == "t"@ {
        Some(NeedKind::Thirst)
    } else if w == "hunger"@ || w == "h"@ {
        Some(NeedKind::Hunger)
    } else if w == "sleep"@ || w == "s"@ {
        Some(NeedKind::Sleep)
    } else if w == "warmth"@ || w == "w"@ {
        Some(NeedKind::Warmth)
    } else {
        None
    }
}

pub open spec fn tier_for_word(w: Seq<char>) -> Option<BanditTier> {
    if w == "yeoman"@ || w == "y"@ {
        Some(BanditTier::Yeoman)
    } else if w == "sergeant"@ || w == "s"@ {
        Some(BanditTier::Sergeant)
    } else if w == "knight"@ || w == "k"@ {
        Some(BanditTier::Knight)
    } else {
        None
    }
}

/// The command a console line stands for. Words are separated by white
/// space; a line that fits no form is `Unknown` holding the raw line, and
/// a blank line is `Unknown` holding nothing.
pub open spec fn command_spec(raw: Seq<char>) -> CommandRecord {
    let w = words(raw);
    let unknown = CommandRecord::Unknown(raw);
    if w.len() == 0 {
        CommandRecord::Unknown(Seq::empty())
    } else if w.len() == 1 && (w[0] == "help"@ || w[0] == "?"@ || w[0] == "h"@) {
        CommandRecord::Help
    } else if w.len() == 2 && w[0] == "time"@ {
        match hm_spec(w[1]) {
            Some(p) => CommandRecord::SetTime(p.0, p.1),
            None => unknown,
        }
    } else if w.len() == 2 && w[0] == "advance"@ {
        match parse_unsigned(w[1], false, u32::MAX as int) {
            Some(v) => CommandRecord::AdvanceSecs(v as u32),
            None => unknown,
        }
    } else if w.len() == 3 && w[0] == "need"@ {
        match need_for_word(w[1]) {
            Some(k) => match parse_unsigned(w[2], false, 255) {
                Some(v) => CommandRecord::SetNeed(
                    k,
                    if v > 100 {
                        100u8
                    } else {
                        v as u8
                    },
                ),
                None => unknown,
            },
            None => unknown,
        }
    } else if w.len() == 3 && w[0] == "tp"@ {
        match (
            parse_signed(w[1], i32::MIN as int, i32::MAX as int),
            parse_signed(w[2], i32::MIN as int, i32::MAX as int),
        ) {
            (Some(x), Some(y)) => CommandRecord::Teleport(x as i32, y as i32),
            _ => unknown,
        }
    } else if w.len() == 3 && w[0] == "give"@ {
        match item_from_key(w[1]) {
            Some(k) => match parse_unsigned(w[2], false, u16::MAX as int) {
                Some(n) => CommandRecord::Give(
                    k,
                    if n < 1 {
                        1u16
                    } else {
                        n as u16
                    },
                ),
                None => unknown,
            },
            None => unknown,
        }
    } else if w.len() == 1 && w[0] == "newworld"@ {
        CommandRecord::NewWorld(None)
    } else if w.len() == 2 && w[0] == "newworld"@ {
        match seed_spec(w[1]) {
            Some(s) => CommandRecord::NewWorld(Some(s as u64)),
            None => unknown,
        }
    } else if w.len() == 1 && (w[0] == "god"@ || w[0] == "godmode"@) {
        CommandRecord::Godmode
    } else if w.len() == 2 && w[0] == "spawn"@ {
        match tier_for_word(w[1]) {
            Some(t) => CommandRecord::SpawnBandit(t),
            None => unknown,
        }
    } else {
        unknown
    }
}

/// Parses `HH:MM`.
pub fn parse_hm(s: &str) -> (r: Option<(u8, u8)>)
    ensures
        r == hm_spec(s@),
{
    let n = s.unicode_len();
    let mut k: usize = 0;
    while k < n && s.get_char(k) != ':'
        invariant
            n == s@.len(),
            k <= n,
            colon_from(s@, 0) == colon_from(s@, k as nat),
        decreases n - k,
    {
        k += 1;
    }
    if k == n {
        return None;
    }
    let h = s.substring_char(0, k);
    let m = s.substring_char(k + 1, n);
    proof {
        assert(h@ =~= s@.take(k as int));
        assert(m@ =~= s@.skip(k + 1));
    }
    let hv = parse_unsigned_str(h, false, 255);
    let mv = parse_unsigned_str(m, false, 255);
    match (hv, mv) {
        (Some(hh), Some(mm)) => {
            if hh < 24 && mm < 60 {
                Some((hh as u8, mm as u8))
            } else {
                None
            }
        },
        _ => None,
    }
}

/// Parses a seed literal in decimal (`12345`) or hexadecimal
/// (`0xDEADBEEF`).
pub fn parse_seed(s: &str) -> (r: Option<u64>)
    ensures
        match r {
            Some(v) => seed_spec(s@) == Some(v as int),
            None => seed_spec(s@) is None,
        },
{
    let n = s.unicode_len();
    if n >= 2 && s.get_char(0) == '0' && (s.get_char(1) == 'x' || s.get_char(1) == 'X') {
        let rest = s.substring_char(2, n);
        proof {
            assert(rest@ =~= s@.skip(2));
        }
        parse_unsigned_str(rest, true, u64::MAX)
    } else {
        parse_unsigned_str(s, false, u64::MAX)
    }
}

fn need_word(w: &str) -> (r: Option<NeedKind>)
    ensures
        r == need_for_word(w@),
{
    if str_eq(w, "thirst") || str_eq(w, "t") {
        Some(NeedKind::Thirst)
    } else if str_eq(w, "hunger") || str_eq(w, "h") {
        Some(NeedKind::Hunger)
    } else if str_eq(w, "sleep") || str_eq(w, "s") {
        Some(NeedKind::Sleep)
    } else if str_eq(w, "warmth") || str_eq(w, "w") {
        Some(NeedKind::Warmth)
    } else {
        None
    }
}

fn tier_word(w: &str) -> (r: Option<BanditTier>)
    ensures
        r == tier_for_word(w@),
{
    if str_eq(w, "yeoman") || str_eq(w, "y") {
        Some(BanditTier::Yeoman)
    } else if str_eq(w, "sergeant") || str_eq(w, "s") {
        Some(BanditTier::Sergeant)
    } else if str_eq(w, "knight") || str_eq(w, "k") {
        Some(BanditTier::Knight)
    } else {
        None
    }
}

/// Parses one console line.
pub fn parse_command(raw: &str) -> (r: DebugCommand)
    ensures
        r@ == command_spec(raw@),
{
    let parts = split_white(raw);
    let ghost w = words(raw@);
    proof {
        assert(parts@.len() == w.len());
        assert(forall|i: int| 0 <= i < parts@.len() ==> #[trigger] parts@[i]@ == w[i]);
    }
    let n = parts.len();
    if n == 0 {
        return DebugCommand::Unknown(String::new());
    }
    let first = parts[0];
    if n == 1 && (str_eq(first, "help") || str_eq(first, "?") || str_eq(first, "h")) {
        return DebugCommand::Help;
    }
    if n == 2 && str_eq(first, "time") {
        return match parse_hm(parts[1]) {
            Some((h, m)) => DebugCommand::SetTime(h, m),
            None => DebugCommand::Unknown(owned(raw)),
        };
    }
    if n == 2 && str_eq(first, "advance") {
        return match parse_unsigned_str(parts[1], false, u32::MAX as u64) {
            Some(v) => DebugCommand::AdvanceSecs(v as u32),
            None => DebugCommand::Unknown(owned(raw)),
        };
    }
    if n == 3 && str_eq(first, "need") {
        let kind = match need_word(parts[1]) {
            Some(k) => k,
            None => {
                return DebugCommand::Unknown(owned(raw));
            },
        };
        return match parse_unsigned_str(parts[2], false, 255) {
            Some(v) => DebugCommand::SetNeed(kind, if v > 100 { 100 } else { v as u8 }),
            None => DebugCommand::Unknown(owned(raw)),
        };
    }
    if n == 3 && str_eq(first, "tp") {
        return match (parse_i32_str(parts[1]), parse_i32_str(parts[2])) {
            (Some(x), Some(y)) => DebugCommand::Teleport(x, y),
            _ => DebugCommand::Unknown(owned(raw)),
        };
    }
    if n == 3 && str_eq(first, "give") {
        let kind = match ItemKind::from_save_key(parts[1]) {
            Some(k) => k,
            None => {
                return DebugCommand::Unknown(owned(raw));
            },
        };
        return match parse_unsigned_str(parts[2], false, u16::MAX as u64) {
            Some(c) => DebugCommand::Give(kind, if c < 1 { 1 } else { c as u16 }),
            None => DebugCommand::Unknown(owned(raw)),
        };
    }
    if n == 1 && str_eq(first, "newworld") {
        return DebugCommand::NewWorld(None);
    }
    if n == 2 && str_eq(first, "newworld") {
        return match parse_seed(parts[1]) {
            Some(s) => DebugCommand::NewWorld(Some(s)),
            None => DebugCommand::Unknown(owned(raw)),
        };
    }
    if n == 1 && (str_eq(first, "god") || str_eq(first, "godmode")) {
        return DebugCommand::Godmode;
    }
    if n == 2 && str_eq(first, "spawn") {
        return match tier_word(parts[1]) {
            Some(t) => DebugCommand::SpawnBandit(t),
            None => DebugCommand::Unknown(owned(raw)),
        };
    }
    DebugCommand::Unknown(owned(raw))
}

// ---------------------------------------------------------------------
// Applying commands
// ---------------------------------------------------------------------

/// The clock at `h:m` of the day (of `day_len` seconds) that `clock`
/// falls in; earlier than `clock` when that day is already past `h:m`.
pub open spec fn time_of_day(clock: u64, day_len: u64, h: u8, m: u8) -> int {
    (clock / day_len) * day_len + h * 3600 + m * 60
}

/// `time h:m`: the clock moved to `h:m` of its current day.
pub fn time_of_day_clock(clock: u64, day_len: u64, h: u8, m: u8) -> (r: u64)
    requires
        h < 24,
        m < 60,
        day_len > 0,
        time_of_day(clock, day_len, h, m) <= u64::MAX,
    ensures
        r == time_of_day(clock, day_len, h, m),
{
    let day_offset = clock / day_len * day_len;
    day_offset + h as u64 * 3600 + m as u64 * 60
}

/// `advance n`: the clock moved on `secs` seconds, stopping at the
/// largest clock value.
pub fn advanced_clock(clock: u64, secs: u32) -> (r: u64)
    ensures
        r == if clock + secs > u64::MAX {
            u64::MAX as int
        } else {
            clock + secs
        },
{
    clock.saturating_add(secs as u64)
}

/// Giving unique items one at a time to a pack holding `c` with
/// capacity `cap`: the pack's contents after up to `n` of `kind`, and how
/// many went in; the first that does not fit stops the rest.
pub open spec fn give_uniques(c: Seq<ItemInstance>, cap: u32, kind: ItemKind, n: nat) -> (Seq<ItemInstance>, nat)
    decreases n,
{
    if n == 0 {
        (c, 0)
    } else {
        let inst = default_instance(kind, 1);
        if contents_weight(c) + instance_weight(inst) > cap {
            (c, 0)
        } else {
            let (c2, a) = give_uniques(added_contents(c, inst), cap, kind, (n - 1) as nat);
            (c2, a + 1)
        }
    }
}

/// `give kind count` on a pack holding `c` with capacity `cap`: a
/// fungible kind goes in as one stack of `count`, all or nothing; a
/// unique kind goes in one item at a time (see `give_uniques`). The
/// pack's contents after, and how many were added.
pub open spec fn give_result(c: Seq<ItemInstance>, cap: u32, kind: ItemKind, count: u16) -> (Seq<ItemInstance>, nat) {
    if item_fungible(kind) {
        let inst = default_instance(kind, count);
        if contents_weight(c) + instance_weight(inst) > cap {
            (c, 0)
        } else {
            (added_contents(c, inst), count as nat)
        }
    } else {
        give_uniques(c, cap, kind, count as nat)
    }
}

/// Puts `count` of `kind` into `pack` as `give` does (see
/// `give_result`) and returns how many went in.
pub fn give_into_pack(pack: &mut Pack, kind: ItemKind, count: u16) -> (added: u32)
    ensures
        final(pack).capacity_g == old(pack).capacity_g,
        final(pack).contents@ == give_result(old(pack).contents@, old(pack).capacity_g, kind, count).0,
        added == give_result(old(pack).contents@, old(pack).capacity_g, kind, count).1,
{
    let mut added: u32 = 0;
    if kind.is_fungible() {
        let inst = kind.make_default_instance(count);
        if pack.try_add(inst).is_ok() {
            added = count as u32;
        }
    } else {
        let ghost c0 = pack.contents@;
        let ghost cap = pack.capacity_g;
        let mut i: u16 = 0;
        while i < count
            invariant
                i <= count,
                added == i,
                pack.capacity_g == cap,
                cap == old(pack).capacity_g,
                c0 == old(pack).contents@,
                !item_fungible(kind),
                give_uniques(c0, cap, kind, count as nat).0 == give_uniques(pack.contents@, cap, kind, (count - i) as nat).0,
                give_uniques(c0, cap, kind, count as nat).1 == give_uniques(pack.contents@, cap, kind, (count - i) as nat).1
                    + i,
            ensures
                pack.capacity_g == cap,
                give_uniques(c0, cap, kind, count as nat).0 == pack.contents@,
                give_uniques(c0, cap, kind, count as nat).1 == added,
            decreases count - i,
        {
            let inst = kind.make_default_instance(1);
            let ghost before = pack.contents@;
            if pack.try_add(inst).is_err() {
                break;
            }
            proof {
                assert(((count - i) - 1) as nat == (count - (i + 1)) as nat);
            }
            added += 1;
            i += 1;
        }
    }
    added
}

/// The parts of the game a debug command can change.
pub struct DebugTarget {
    /// Game clock, in seconds.
    pub clock_seconds: u64,
    /// Length of a game day, in seconds.
    pub day_len: u64,
    /// The player's need meters.
    pub needs: Needs,
    /// The player's world cell.
    pub player: (i32, i32),
    /// The player's pack.
    pub pack: Pack,
    /// Walking through blockers with needs frozen.
    pub godmode: bool,
}

/// The inputs `apply_debug_command` takes: a `time` command names a real
/// time of day, in a day of positive length, that the clock can hold.
pub open spec fn debug_command_ok(t: DebugTarget, c: CommandRecord) -> bool {
    c matches CommandRecord::SetTime(h, m) ==> h < 24 && m < 60 && t.day_len > 0 && time_of_day(
        t.clock_seconds,
        t.day_len,
        h,
        m,
    ) <= u64::MAX
}

/// Applies `cmd` to `t`: `time` moves the clock within its day, `advance`
/// moves it on (stopping at the largest clock), `need` sets a meter,
/// `tp` moves the player, `give` fills the pack as `give_into_pack` does,
/// `god` toggles godmode, and `newworld` asks the caller to rebuild the
/// world. `help`, `spawn` and a non-empty unknown line change nothing
/// here either: they hand the caller printing the help, spawning the
/// bandit and reporting the line.
pub fn apply_debug_command(t: &mut DebugTarget, cmd: DebugCommand) -> (r: Option<DebugSideEffect>)
    requires
        debug_command_ok(*old(t), cmd@),
    ensures
        final(t).day_len == old(t).day_len,
        final(t).clock_seconds == match cmd@ {
            CommandRecord::SetTime(h, m) => time_of_day(old(t).clock_seconds, old(t).day_len, h, m),
            CommandRecord::AdvanceSecs(s) => if old(t).clock_seconds + s > u64::MAX {
                u64::MAX as int
            } else {
                old(t).clock_seconds + s
            },
            _ => old(t).clock_seconds as int,
        },
        final(t).needs == match cmd@ {
            CommandRecord::SetNeed(k, v) => needs_with(old(t).needs, k, v),
            _ => old(t).needs,
        },
        final(t).player == match cmd@ {
            CommandRecord::Teleport(x, y) => (x, y),
            _ => old(t).player,
        },
        final(t).pack.capacity_g == old(t).pack.capacity_g,
        final(t).pack.contents@ == match cmd@ {
            CommandRecord::Give(k, n) => give_result(old(t).pack.contents@, old(t).pack.capacity_g, k, n).0,
            _ => old(t).pack.contents@,
        },
        final(t).godmode == if cmd@ is Godmode {
            !old(t).godmode
        } else {
            old(t).godmode
        },
        match cmd@ {
            CommandRecord::NewWorld(s) => r matches Some(DebugSideEffect::NewWorld(s2)) && s2 == s,
            CommandRecord::Help => r matches Some(DebugSideEffect::ShowHelp),
            CommandRecord::SpawnBandit(tier) => r matches Some(DebugSideEffect::SpawnBandit(t2)) && t2 == tier,
            CommandRecord::Unknown(line) => if line.len() == 0 {
                r is None
            } else {
                r matches Some(DebugSideEffect::Unknown(l2)) && l2@ == line
            },
            _ => r is None,
        },
{
    match cmd {
        DebugCommand::SetTime(h, m) => {
            t.clock_seconds = time_of_day_clock(t.clock_seconds, t.day_len, h, m);
            None
        },
        DebugCommand::AdvanceSecs(secs) => {
            t.clock_seconds = advanced_clock(t.clock_seconds, secs);
            None
        },
        DebugCommand::SetNeed(kind, value) => {
            t.needs.set(kind, value);
            None
        },
        DebugCommand::Teleport(x, y) => {
            t.player = (x, y);
            None
        },
        DebugCommand::Give(kind, count) => {
            let _added = give_into_pack(&mut t.pack, kind, count);
            None
        },
        DebugCommand::NewWorld(seed) => Some(DebugSideEffect::NewWorld(seed)),
        DebugCommand::Godmode => {
            t.godmode = !t.godmode;
            None
        },
        DebugCommand::Help => Some(DebugSideEffect::ShowHelp),
        DebugCommand::SpawnBandit(tier) => Some(DebugSideEffect::SpawnBandit(tier)),
        DebugCommand::Unknown(line) => if line.as_str().is_empty() {
            None
        } else {
            Some(DebugSideEffect::Unknown(line))
        },
    }
}

/// Column a spawned bandit lands on, on the player's row: the first of
/// columns `px + 3` to `px + 14` that `walkable` marks (entry `k` stands
/// for column `px + 3 + k`), or `px + 3` when none is.
pub open spec fn spawn_x(px: i32, walkable: Seq<bool>) -> int {
    if exists|k: int| 0 <= k < 12 && k < walkable.len() && walkable[k] {
        px + 3 + choose|k: int| 0 <= k < 12 && k < walkable.len() && walkable[k] && forall|j: int| 0 <= j < k ==> !walkable[j]
    } else {
        px + 3
    }
}

/// The column `spawn` drops a bandit on: see `spawn_x`.
pub fn bandit_spawn_x(px: i32, walkable: &Vec<bool>) -> (r: i32)
    requires
        px + 14 <= i32::MAX,
    ensures
        r == spawn_x(px, walkable@),
{
    let mut k: usize = 0;
    while k < 12 && k < walkable.len()
        invariant
            k <= 12,
            px + 14 <= i32::MAX,
            forall|j: int| 0 <= j < k ==> j < walkable@.len() && !walkable@[j],
        decreases 12 - k,
    {
        if walkable[k] {
            proof {
                let kk = k as int;
                assert(0 <= kk < 12 && kk < walkable@.len() && walkable@[kk] && forall|j: int| 0 <= j < kk ==> !walkable@[j]);
                let c = choose|c: int| 0 <= c < 12 && c < walkable@.len() && walkable@[c] && forall|j: int| 0 <= j < c ==> !walkable@[j];
                if c < kk {
                } else if c > kk {
                    assert(!walkable@[kk]);
                }
            }
            return px + 3 + k as i32;
        }
        k += 1;
    }
    proof {
        assert(!exists|c: int| 0 <= c < 12 && c < walkable@.len() && walkable@[c]);
    }
    px + 3
}

/// A two-word `spawn W` line spawns a yeoman for `yeoman` or `y`, a
/// sergeant for `sergeant` or `s`, and a knight for `knight` or `k`:
/// the tier words name distinct tiers, and any other word is no command.
pub proof fn law_spawn_tier_words(raw: Seq<char>)
    requires
        words(raw).len() == 2,
        words(raw)[0] == "spawn"@,
    ensures
        (words(raw)[1] == "yeoman"@ || words(raw)[1] == "y"@) ==> command_spec(raw) == CommandRecord::SpawnBandit(
            BanditTier::Yeoman,
        ),
        (words(raw)[1] == "sergeant"@ || words(raw)[1] == "s"@) ==> command_spec(raw) == CommandRecord::SpawnBandit(
            BanditTier::Sergeant,
        ),
        (words(raw)[1] == "knight"@ || words(raw)[1] == "k"@) ==> command_spec(raw) == CommandRecord::SpawnBandit(
            BanditTier::Knight,
        ),
        !(words(raw)[1] == "yeoman"@ || words(raw)[1] == "y"@ || words(raw)[1] == "sergeant"@ || words(raw)[1] == "s"@
            || words(raw)[1] == "knight"@ || words(raw)[1] == "k"@) ==> command_spec(raw) == CommandRecord::Unknown(raw),
{
    reveal_strlit("help");
    reveal_strlit("?");
    reveal_strlit("h");
    reveal_strlit("god");
    reveal_strlit("godmode");
    reveal_strlit("spawn");
    reveal_strlit("time");
    reveal_strlit("advance");
    reveal_strlit("need");
    reveal_strlit("tp");
    reveal_strlit("give");
    reveal_strlit("newworld");
    reveal_strlit("yeoman");
    reveal_strlit("y");
    reveal_strlit("sergeant");
    reveal_strlit("s");
    reveal_strlit("knight");
    reveal_strlit("k");
    assert("yeoman"@[0] != "knight"@[0]);
    assert("y"@[0] != "s"@[0]);
    assert("y"@[0] != "k"@[0]);
    assert("s"@[0] != "k"@[0]);
    assert("sergeant"@ != "yeoman"@ && "sergeant"@ != "y"@ && "s"@ != "yeoman"@ && "s"@ != "y"@);
    assert("knight"@ != "yeoman"@ && "knight"@ != "y"@ && "k"@ != "yeoman"@ && "k"@ != "y"@);
    assert("knight"@ != "sergeant"@ && "knight"@ != "s"@ && "k"@ != "sergeant"@ && "k"@ != "s"@);
    let w0 = words(raw)[0];
    assert(w0.len() == 5);
    assert("time"@.len() == 4 && "advance"@.len() == 7 && "need"@.len() == 4 && "tp"@.len() == 2);
    assert("give"@.len() == 4 && "newworld"@.len() == 8 && "god"@.len() == 3 && "godmode"@.len() == 7);
    assert(command_spec(raw) == match tier_for_word(words(raw)[1]) {
        Some(t) => CommandRecord::SpawnBandit(t),
        None => CommandRecord::Unknown(raw),
    });
}

} // verus!
