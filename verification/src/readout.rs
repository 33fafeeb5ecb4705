//! The HUD snapshot document: every readout the page draws, assembled into
//! the JSON object its `updateHud` expects, field names and order included.
//!
//! Measured quantities (fractions, timers, opacities) arrive already rendered
//! at the precision the page is sent; everything the document decides (which
//! card is up, whether the loadout chips go out, which special is fitted, how
//! each torpedo tube reads, the wave floor) is decided here.

use vstd::prelude::*;
use crate::input::{string_key_spec, InputMethod, ThrustState};
use crate::progress::Career;
use crate::session::{GameState, Outcome};

verus! {

// ------------------------------------------------------------- numbers

/// The character of a decimal digit.
pub open spec fn digit_char(d: int) -> char {
    if d == 0 {
        '0'
    } else if d == 1 {
        '1'
    } else if d == 2 {
        '2'
    } else if d == 3 {
        '3'
    } else if d == 4 {
        '4'
    } else if d == 5 {
        '5'
    } else if d == 6 {
        '6'
    } else if d == 7 {
        '7'
    } else if d == 8 {
        '8'
    } else {
        '9'
    }
}

/// `n` written in decimal, without leading zeros.
pub open spec fn decimal(n: nat) -> Seq<char>
    decreases n,
{
    if n < 10 {
        seq![digit_char(n as int)]
    } else {
        decimal(n / 10) + seq![digit_char((n % 10) as int)]
    }
}

/// A signed `n` in decimal, with a leading minus when negative.
pub open spec fn signed_decimal(n: int) -> Seq<char> {
    if n < 0 {
        seq!['-'] + decimal((-n) as nat)
    } else {
        decimal(n as nat)
    }
}

fn push_digit(j: &mut String, d: u64)
    requires
        d < 10,
    ensures
        final(j)@ == old(j)@ + seq![digit_char(d as int)],
{
    let s = if d == 0 {
        "0"
    } else if d == 1 {
        "1"
    } else if d == 2 {
        "2"
    } else if d == 3 {
        "3"
    } else if d == 4 {
        "4"
    } else if d == 5 {
        "5"
    } else if d == 6 {
        "6"
    } else if d == 7 {
        "7"
    } else if d == 8 {
        "8"
    } else {
        "9"
    };
    proof {
        reveal_strlit("0");
        reveal_strlit("1");
        reveal_strlit("2");
        reveal_strlit("3");
        reveal_strlit("4");
        reveal_strlit("5");
        reveal_strlit("6");
        reveal_strlit("7");
        reveal_strlit("8");
        reveal_strlit("9");
        assert(s@ =~= seq![digit_char(d as int)]);
    }
    j.append(s);
}

/// Append `n` in decimal.
pub fn push_decimal(j: &mut String, n: u64)
    ensures
        final(j)@ == old(j)@ + decimal(n as nat),
    decreases n,
{
    if n >= 10 {
        push_decimal(j, n / 10);
        push_digit(j, n % 10);
        proof {
            assert(final(j)@ =~= old(j)@ + decimal(n as nat));
        }
    } else {
        push_digit(j, n);
    }
}

/// Append a signed `n` in decimal.
pub fn push_signed(j: &mut String, n: i64)
    ensures
        final(j)@ == old(j)@ + signed_decimal(n as int),
{
    if n < 0 {
        j.append("-");
        let magnitude: u64 = (-(n + 1)) as u64 + 1;
        push_decimal(j, magnitude);
        proof {
            reveal_strlit("-");
            assert(final(j)@ =~= old(j)@ + signed_decimal(n as int));
        }
    } else {
        push_decimal(j, n as u64);
    }
}

/// `true` or `false`, as JSON writes them.
pub open spec fn bool_text(b: bool) -> Seq<char> {
    if b {
        "true"@
    } else {
        "false"@
    }
}

fn push_bool(j: &mut String, b: bool)
    ensures
        final(j)@ == old(j)@ + bool_text(b),
{
    if b {
        j.append("true");
    } else {
        j.append("false");
    }
}

// ------------------------------------------------------------- readouts

/// One slot's chips on the title card: which option is chosen and the
/// string-table ids of all of them.
pub struct SlotChips {
    pub chosen: usize,
    pub options: Vec<String>,
}

/// The three slots' chips.
pub struct LoadoutChips {
    pub broadside: SlotChips,
    pub battery: SlotChips,
    pub special: SlotChips,
}

/// A cooldown: seconds left (already floored at zero) and the full duration.
pub struct Cooldown {
    pub remaining: String,
    pub duration: String,
}

/// A magazine: rounds stored and its capacity.
#[derive(Debug, Clone, Copy, PartialEq, Eq, Structural)]
pub struct Magazine {
    pub count: u32,
    pub max: u32,
}

/// The torpedo special: its stores, and its tube row as whole tubes ready out
/// of the tubes fitted, with the reload progress of the next one.
pub struct TorpedoReadout {
    pub magazine: Magazine,
    pub ready: u32,
    pub tubes_max: u32,
    pub progress: String,
}

/// The two shield banks' charges, as fractions.
pub struct ShieldReadout {
    pub fore: String,
    pub aft: String,
}

/// The player ship's own readouts.
pub struct ShipReadout {
    pub x: i64,
    pub y: i64,
    pub hull: String,
    /// `None` when the hull carries no shields.
    pub shield: Option<ShieldReadout>,
    pub helm: ThrustState,
    pub speed: String,
    pub agility: String,
    /// The battery slot's charge, when a battery is fitted.
    pub battery: Option<String>,
    /// The port and starboard reloads, when a broadside is fitted.
    pub broadside: Option<(Cooldown, Cooldown)>,
    pub torpedoes: Option<TorpedoReadout>,
    pub microwarp: Option<Cooldown>,
    pub barrels: Option<Magazine>,
    pub torpedo_locks: u32,
}

/// Everything one HUD frame reports.
pub struct HudReadout {
    pub state: GameState,
    pub loadout: LoadoutChips,
    pub aim_battery: String,
    pub wave: u32,
    pub enemies_remaining: u32,
    pub plunder: u32,
    pub career: Career,
    pub paused: bool,
    pub ai_pilot: bool,
    pub boarding_active: bool,
    pub boarding_progress: String,
    pub input_method: InputMethod,
    pub outcome: Outcome,
    pub controls_open: bool,
    pub ring_opacity: String,
    /// Absent before a run starts and after it ends.
    pub ship: Option<ShipReadout>,
}

// ------------------------------------------------------------- the document

/// The full-screen card the HUD shows.
pub open spec fn screen_text(state: GameState) -> Seq<char> {
    match state {
        GameState::Loading | GameState::Menu => "start"@,
        GameState::Playing => "playing"@,
        GameState::GameOver => "gameover"@,
    }
}

pub open spec fn quoted_ids(ids: Seq<String>) -> Seq<char>
    decreases ids.len(),
{
    if ids.len() == 0 {
        Seq::empty()
    } else if ids.len() == 1 {
        "\""@ + ids[0]@ + "\""@
    } else {
        quoted_ids(ids.drop_last()) + ","@ + "\""@ + ids.last()@ + "\""@
    }
}

pub open spec fn slot_json(name: Seq<char>, chips: SlotChips) -> Seq<char> {
    "\""@ + name + "\":{\"chosen\":"@ + decimal(chips.chosen as nat) + ",\"options\":["@
        + quoted_ids(chips.options@) + "]}"@
}

pub open spec fn loadout_json(chips: LoadoutChips) -> Seq<char> {
    ",\"loadout\":{"@ + slot_json("broadside"@, chips.broadside) + ","@ + slot_json(
        "battery"@,
        chips.battery,
    ) + ","@ + slot_json("special"@, chips.special) + "}"@
}

pub open spec fn input_method_text(m: InputMethod) -> Seq<char> {
    match m {
        InputMethod::KeyboardMouse => "kbm"@,
        InputMethod::Gamepad => "gamepad"@,
    }
}

pub open spec fn outcome_text(o: Outcome) -> Seq<char> {
    match o {
        Outcome::InProgress => "in_progress"@,
        Outcome::Cleared => "cleared"@,
        Outcome::PlayerDestroyed => "destroyed"@,
    }
}

/// A key followed by its value.
#[verifier::opaque]
pub open spec fn kv(key: Seq<char>, value: Seq<char>) -> Seq<char> {
    key + value
}

/// `t` in double quotes.
pub open spec fn quoted(t: Seq<char>) -> Seq<char> {
    "\""@ + t + "\""@
}

/// The career tally on the title card.
pub open spec fn career_json(c: Career) -> Seq<char> {
    kv(",\"career\":{\"runs\":"@, decimal(c.runs as nat)) + kv(
        ",\"victories\":"@,
        decimal(c.victories as nat),
    ) + kv(",\"deepestWave\":"@, decimal(c.deepest_wave as nat)) + kv(
        ",\"plunder\":"@,
        decimal(c.ships_boarded as nat),
    ) + "}"@
}

/// The wave the banner shows: never below the first.
pub open spec fn wave_floor(wave: u32) -> nat {
    if wave > 1 {
        wave as nat
    } else {
        1
    }
}

/// The encounter's tallies.
pub open spec fn tally_json(r: HudReadout) -> Seq<char> {
    kv(",\"aimBattery\":"@, r.aim_battery@) + kv(",\"wave\":"@, decimal(wave_floor(r.wave))) + kv(
        ",\"enemiesRemaining\":"@,
        decimal(r.enemies_remaining as nat),
    ) + kv(",\"plunder\":"@, decimal(r.plunder as nat)) + career_json(r.career)
}

/// The boarding gauge.
pub open spec fn boarding_json(active: bool, progress: Seq<char>) -> Seq<char> {
    kv(",\"boarding\":{\"active\":"@, bool_text(active)) + kv(",\"progress\":"@, progress) + "}"@
}

/// The session's switches and states.
pub open spec fn flags_json(r: HudReadout) -> Seq<char> {
    kv(",\"paused\":"@, bool_text(r.paused)) + kv(",\"aiPilot\":"@, bool_text(r.ai_pilot))
        + boarding_json(r.boarding_active, r.boarding_progress@) + kv(
        ",\"inputMethod\":"@,
        quoted(input_method_text(r.input_method)),
    ) + kv(",\"outcome\":"@, quoted(outcome_text(r.outcome))) + kv(
        ",\"controlsOpen\":"@,
        bool_text(r.controls_open),
    ) + kv(",\"ringOpacity\":"@, r.ring_opacity@)
}

/// The session and encounter readouts, sent whether or not there is a ship.
pub open spec fn session_json(r: HudReadout) -> Seq<char> {
    tally_json(r) + flags_json(r)
}

pub open spec fn cooldown_json(name: Seq<char>, c: Cooldown) -> Seq<char> {
    ",\""@ + name + "\":{\"remaining\":"@ + c.remaining@ + ",\"duration\":"@ + c.duration@ + "}"@
}

/// Which special the ship flies, as the page names it: the torpedoes if
/// fitted, else the microwarp, else the barrels, else none.
pub open spec fn special_text(s: ShipReadout) -> Seq<char> {
    if s.torpedoes is Some {
        "torpedoes"@
    } else if s.microwarp is Some {
        "microwarp"@
    } else if s.barrels is Some {
        "barrels"@
    } else {
        "none"@
    }
}

/// Tube `i` of the row.
pub open spec fn tube_json(i: int, t: TorpedoReadout) -> Seq<char> {
    if i < t.ready {
        "{\"state\":\"ready\"}"@
    } else if i == t.ready && t.ready < t.tubes_max {
        "{\"state\":\"loading\",\"progress\":"@ + t.progress@ + "}"@
    } else {
        "{\"state\":\"empty\"}"@
    }
}

/// The first `n` tubes, comma-separated.
pub open spec fn tubes_json(n: int, t: TorpedoReadout) -> Seq<char>
    decreases n,
{
    if n <= 0 {
        Seq::empty()
    } else if n == 1 {
        tube_json(0, t)
    } else {
        tubes_json(n - 1, t) + ","@ + tube_json(n - 1, t)
    }
}

pub open spec fn magazine_json(name: Seq<char>, m: Magazine) -> Seq<char> {
    ",\""@ + name + "\":{\"count\":"@ + decimal(m.count as nat) + ",\"max\":"@ + decimal(
        m.max as nat,
    ) + "}"@
}

pub open spec fn shield_json(s: Option<ShieldReadout>) -> Seq<char> {
    match s {
        Some(sh) => ",\"shield\":{\"fitted\":"@ + "true"@ + ",\"fore\":"@ + sh.fore@ + ",\"aft\":"@
            + sh.aft@ + "}"@,
        None => ",\"shield\":{\"fitted\":"@ + "false"@ + ",\"fore\":"@ + "0.0000"@ + ",\"aft\":"@
            + "0.0000"@ + "}"@,
    }
}

/// Where the ship is on the plane.
pub open spec fn coords_json(x: i64, y: i64) -> Seq<char> {
    kv(",\"coords\":{\"x\":"@, signed_decimal(x as int)) + kv(",\"y\":"@, signed_decimal(y as int))
        + "}"@
}

/// The helm notch and what it is costing.
pub open spec fn sail_json(s: ShipReadout) -> Seq<char> {
    kv(",\"sail\":{\"helm\":"@, quoted(string_key_spec(s.helm))) + kv(",\"speed\":"@, s.speed@)
        + kv(",\"agility\":"@, s.agility@) + "}"@
}

#[verifier::opaque]
pub open spec fn battery_json(b: Option<String>) -> Seq<char> {
    match b {
        Some(b) => kv(",\"boostBattery\":"@, b@),
        None => Seq::empty(),
    }
}

#[verifier::opaque]
pub open spec fn broadside_json(b: Option<(Cooldown, Cooldown)>) -> Seq<char> {
    match b {
        Some((port, starboard)) => cooldown_json("portCd"@, port) + cooldown_json(
            "starboardCd"@,
            starboard,
        ),
        None => Seq::empty(),
    }
}

#[verifier::opaque]
pub open spec fn microwarp_json(c: Option<Cooldown>) -> Seq<char> {
    match c {
        Some(c) => cooldown_json("microwarpCd"@, c),
        None => Seq::empty(),
    }
}

#[verifier::opaque]
pub open spec fn barrels_json(m: Option<Magazine>) -> Seq<char> {
    match m {
        Some(m) => magazine_json("barrelMagazine"@, m),
        None => Seq::empty(),
    }
}

#[verifier::opaque]
pub open spec fn torpedoes_json(t: Option<TorpedoReadout>) -> Seq<char> {
    match t {
        Some(t) => magazine_json("torpedoMagazine"@, t.magazine) + ",\"torpedoes\":["@ + tubes_json(
            t.tubes_max as int,
            t,
        ) + "]"@,
        None => Seq::empty(),
    }
}

/// The fitted kit: the battery gauge, the broadside reloads, which special is
/// fitted and that special's own readout.
pub open spec fn kit_json(s: ShipReadout) -> Seq<char> {
    battery_json(s.battery) + broadside_json(s.broadside) + kv(
        ",\"special\":"@,
        quoted(special_text(s)),
    ) + microwarp_json(s.microwarp) + barrels_json(s.barrels) + torpedoes_json(s.torpedoes)
}

/// The ship's own readouts.
pub open spec fn ship_json(s: ShipReadout) -> Seq<char> {
    coords_json(s.x, s.y) + kv(",\"hull\":"@, s.hull@) + shield_json(s.shield) + sail_json(s)
        + kit_json(s) + kv(",\"torpedoLocks\":"@, decimal(s.torpedo_locks as nat))
}

/// The whole snapshot document. The loadout chips go out on the title card
/// only, and the ship's readouts only while there is a ship.
pub open spec fn hud_json_spec(r: HudReadout) -> Seq<char> {
    "{"@ + "\"screen\":\""@ + screen_text(r.state) + "\""@ + (if screen_text(r.state) == "start"@ {
        loadout_json(r.loadout)
    } else {
        Seq::empty()
    }) + session_json(r) + match r.ship {
        Some(s) => ship_json(s),
        None => Seq::empty(),
    } + "}"@
}

// ------------------------------------------------------------- assembly

fn push_quoted_ids(j: &mut String, ids: &Vec<String>)
    ensures
        final(j)@ == old(j)@ + quoted_ids(ids@),
{
    let ghost start = j@;
    let mut i: usize = 0;
    while i < ids.len()
        invariant
            i <= ids@.len(),
            j@ == start + quoted_ids(ids@.subrange(0, i as int)),
        decreases ids@.len() - i,
    {
        let ghost prev = j@;
        if i > 0 {
            j.append(",");
        }
        j.append("\"");
        j.append(ids[i].as_str());
        j.append("\"");
        proof {
            let pre = ids@.subrange(0, i + 1);
            assert(pre.drop_last() =~= ids@.subrange(0, i as int));
            assert(pre.last() == ids@[i as int]);
            if i == 0 {
                assert(pre[0] == ids@[0]);
            }
            assert(j@ =~= start + quoted_ids(pre));
        }
        i = i + 1;
    }
    proof {
        assert(ids@.subrange(0, ids@.len() as int) =~= ids@);
    }
}

fn push_slot(j: &mut String, name: &str, chips: &SlotChips)
    ensures
        final(j)@ == old(j)@ + slot_json(name@, *chips),
{
    j.append("\"");
    j.append(name);
    j.append("\":{\"chosen\":");
    push_decimal(j, chips.chosen as u64);
    j.append(",\"options\":[");
    push_quoted_ids(j, &chips.options);
    j.append("]}");
    proof {
        assert(final(j)@ =~= old(j)@ + slot_json(name@, *chips));
    }
}

fn push_loadout(j: &mut String, chips: &LoadoutChips)
    ensures
        final(j)@ == old(j)@ + loadout_json(*chips),
{
    j.append(",\"loadout\":{");
    push_slot(j, "broadside", &chips.broadside);
    j.append(",");
    push_slot(j, "battery", &chips.battery);
    j.append(",");
    push_slot(j, "special", &chips.special);
    j.append("}");
    proof {
        assert(final(j)@ =~= old(j)@ + loadout_json(*chips));
    }
}

pub(crate) fn push_kv(j: &mut String, key: &str, value: &str)
    ensures
        final(j)@ == old(j)@ + kv(key@, value@),
{
    j.append(key);
    j.append(value);
    proof {
        reveal(kv);
        assert(final(j)@ =~= old(j)@ + kv(key@, value@));
    }
}

pub(crate) fn push_kv_number(j: &mut String, key: &str, n: u64)
    ensures
        final(j)@ == old(j)@ + kv(key@, decimal(n as nat)),
{
    j.append(key);
    push_decimal(j, n);
    proof {
        reveal(kv);
        assert(final(j)@ =~= old(j)@ + kv(key@, decimal(n as nat)));
    }
}

pub(crate) fn push_kv_bool(j: &mut String, key: &str, b: bool)
    ensures
        final(j)@ == old(j)@ + kv(key@, bool_text(b)),
{
    j.append(key);
    push_bool(j, b);
    proof {
        reveal(kv);
        assert(final(j)@ =~= old(j)@ + kv(key@, bool_text(b)));
    }
}

fn push_kv_quoted(j: &mut String, key: &str, text: &str)
    ensures
        final(j)@ == old(j)@ + kv(key@, quoted(text@)),
{
    j.append(key);
    j.append("\"");
    j.append(text);
    j.append("\"");
    proof {
        reveal(kv);
        assert(final(j)@ =~= old(j)@ + kv(key@, quoted(text@)));
    }
}

fn push_career(j: &mut String, c: &Career)
    ensures
        final(j)@ == old(j)@ + career_json(*c),
{
    push_kv_number(j, ",\"career\":{\"runs\":", c.runs as u64);
    push_kv_number(j, ",\"victories\":", c.victories as u64);
    push_kv_number(j, ",\"deepestWave\":", c.deepest_wave as u64);
    push_kv_number(j, ",\"plunder\":", c.ships_boarded);
    j.append("}");
    proof {
        assert(final(j)@ =~= old(j)@ + career_json(*c));
    }
}

fn push_tally(j: &mut String, r: &HudReadout)
    ensures
        final(j)@ == old(j)@ + tally_json(*r),
{
    push_kv(j, ",\"aimBattery\":", r.aim_battery.as_str());
    let wave = if r.wave > 1 {
        r.wave
    } else {
        1
    };
    push_kv_number(j, ",\"wave\":", wave as u64);
    push_kv_number(j, ",\"enemiesRemaining\":", r.enemies_remaining as u64);
    push_kv_number(j, ",\"plunder\":", r.plunder as u64);
    push_career(j, &r.career);
    proof {
        assert(final(j)@ =~= old(j)@ + tally_json(*r));
    }
}

fn push_flags(j: &mut String, r: &HudReadout)
    ensures
        final(j)@ == old(j)@ + flags_json(*r),
{
    push_kv_bool(j, ",\"paused\":", r.paused);
    push_kv_bool(j, ",\"aiPilot\":", r.ai_pilot);
    let ghost before_boarding = j@;
    push_kv_bool(j, ",\"boarding\":{\"active\":", r.boarding_active);
    push_kv(j, ",\"progress\":", r.boarding_progress.as_str());
    j.append("}");
    proof {
        assert(j@ =~= before_boarding + boarding_json(r.boarding_active, r.boarding_progress@));
    }
    push_kv_quoted(j, ",\"inputMethod\":", r.input_method.wire_name());
    push_kv_quoted(j, ",\"outcome\":", r.outcome.wire_name());
    push_kv_bool(j, ",\"controlsOpen\":", r.controls_open);
    push_kv(j, ",\"ringOpacity\":", r.ring_opacity.as_str());
    proof {
        assert(final(j)@ =~= old(j)@ + flags_json(*r));
    }
}

fn push_session(j: &mut String, r: &HudReadout)
    ensures
        final(j)@ == old(j)@ + session_json(*r),
{
    push_tally(j, r);
    push_flags(j, r);
    proof {
        assert(final(j)@ =~= old(j)@ + session_json(*r));
    }
}

fn push_cooldown(j: &mut String, name: &str, c: &Cooldown)
    ensures
        final(j)@ == old(j)@ + cooldown_json(name@, *c),
{
    j.append(",\"");
    j.append(name);
    j.append("\":{\"remaining\":");
    j.append(c.remaining.as_str());
    j.append(",\"duration\":");
    j.append(c.duration.as_str());
    j.append("}");
    proof {
        assert(final(j)@ =~= old(j)@ + cooldown_json(name@, *c));
    }
}

fn push_magazine(j: &mut String, name: &str, m: Magazine)
    ensures
        final(j)@ == old(j)@ + magazine_json(name@, m),
{
    j.append(",\"");
    j.append(name);
    j.append("\":{\"count\":");
    push_decimal(j, m.count as u64);
    j.append(",\"max\":");
    push_decimal(j, m.max as u64);
    j.append("}");
    proof {
        assert(final(j)@ =~= old(j)@ + magazine_json(name@, m));
    }
}

fn push_tubes(j: &mut String, t: &TorpedoReadout)
    ensures
        final(j)@ == old(j)@ + tubes_json(t.tubes_max as int, *t),
{
    let ghost start = j@;
    let mut i: u32 = 0;
    while i < t.tubes_max
        invariant
            i <= t.tubes_max,
            j@ == start + tubes_json(i as int, *t),
        decreases t.tubes_max - i,
    {
        let ghost prev = j@;
        if i > 0 {
            j.append(",");
        }
        if i < t.ready {
            j.append("{\"state\":\"ready\"}");
        } else if i == t.ready && t.ready < t.tubes_max {
            j.append("{\"state\":\"loading\",\"progress\":");
            j.append(t.progress.as_str());
            j.append("}");
        } else {
            j.append("{\"state\":\"empty\"}");
        }
        proof {
            assert(j@ =~= start + tubes_json(i + 1, *t));
        }
        i = i + 1;
    }
}

fn push_shield(j: &mut String, s: &Option<ShieldReadout>)
    ensures
        final(j)@ == old(j)@ + shield_json(*s),
{
    j.append(",\"shield\":{\"fitted\":");
    match s {
        Some(sh) => {
            j.append("true");
            j.append(",\"fore\":");
            j.append(sh.fore.as_str());
            j.append(",\"aft\":");
            j.append(sh.aft.as_str());
        },
        None => {
            j.append("false");
            j.append(",\"fore\":");
            j.append("0.0000");
            j.append(",\"aft\":");
            j.append("0.0000");
        },
    }
    j.append("}");
    proof {
        assert(final(j)@ =~= old(j)@ + shield_json(*s));
    }
}

fn push_signed_kv(j: &mut String, key: &str, n: i64)
    ensures
        final(j)@ == old(j)@ + kv(key@, signed_decimal(n as int)),
{
    j.append(key);
    push_signed(j, n);
    proof {
        reveal(kv);
        assert(final(j)@ =~= old(j)@ + kv(key@, signed_decimal(n as int)));
    }
}

fn push_sail(j: &mut String, s: &ShipReadout)
    ensures
        final(j)@ == old(j)@ + sail_json(*s),
{
    push_kv_quoted(j, ",\"sail\":{\"helm\":", s.helm.string_key());
    push_kv(j, ",\"speed\":", s.speed.as_str());
    push_kv(j, ",\"agility\":", s.agility.as_str());
    j.append("}");
    proof {
        assert(final(j)@ =~= old(j)@ + sail_json(*s));
    }
}

fn push_battery(j: &mut String, b: &Option<String>)
    ensures
        final(j)@ == old(j)@ + battery_json(*b),
{
    reveal(battery_json);
    if let Some(b) = b {
        push_kv(j, ",\"boostBattery\":", b.as_str());
    } else {
        assert(j@ =~= old(j)@ + battery_json(None));
    }
}

fn push_broadside(j: &mut String, b: &Option<(Cooldown, Cooldown)>)
    ensures
        final(j)@ == old(j)@ + broadside_json(*b),
{
    reveal(broadside_json);
    if let Some((port, starboard)) = b {
        push_cooldown(j, "portCd", port);
        push_cooldown(j, "starboardCd", starboard);
        assert(j@ =~= old(j)@ + broadside_json(*b));
    } else {
        assert(j@ =~= old(j)@ + broadside_json(*b));
    }
}

fn push_microwarp(j: &mut String, c: &Option<Cooldown>)
    ensures
        final(j)@ == old(j)@ + microwarp_json(*c),
{
    reveal(microwarp_json);
    if let Some(c) = c {
        push_cooldown(j, "microwarpCd", c);
    } else {
        assert(j@ =~= old(j)@ + microwarp_json(None));
    }
}

fn push_barrels(j: &mut String, m: Option<Magazine>)
    ensures
        final(j)@ == old(j)@ + barrels_json(m),
{
    reveal(barrels_json);
    if let Some(m) = m {
        push_magazine(j, "barrelMagazine", m);
    } else {
        assert(j@ =~= old(j)@ + barrels_json(None));
    }
}

fn push_torpedoes(j: &mut String, t: &Option<TorpedoReadout>)
    ensures
        final(j)@ == old(j)@ + torpedoes_json(*t),
{
    reveal(torpedoes_json);
    if let Some(t) = t {
        push_magazine(j, "torpedoMagazine", t.magazine);
        j.append(",\"torpedoes\":[");
        push_tubes(j, t);
        j.append("]");
        assert(j@ =~= old(j)@ + torpedoes_json(Some(*t)));
    } else {
        assert(j@ =~= old(j)@ + torpedoes_json(None));
    }
}

fn push_kit(j: &mut String, s: &ShipReadout)
    ensures
        final(j)@ == old(j)@ + kit_json(*s),
{
    push_battery(j, &s.battery);
    push_broadside(j, &s.broadside);
    let special = if s.torpedoes.is_some() {
        "torpedoes"
    } else if s.microwarp.is_some() {
        "microwarp"
    } else if s.barrels.is_some() {
        "barrels"
    } else {
        "none"
    };
    push_kv_quoted(j, ",\"special\":", special);
    push_microwarp(j, &s.microwarp);
    push_barrels(j, s.barrels);
    push_torpedoes(j, &s.torpedoes);
    proof {
        assert(final(j)@ =~= old(j)@ + kit_json(*s));
    }
}

fn push_ship(j: &mut String, s: &ShipReadout)
    ensures
        final(j)@ == old(j)@ + ship_json(*s),
{
    let ghost o = j@;
    push_signed_kv(j, ",\"coords\":{\"x\":", s.x);
    push_signed_kv(j, ",\"y\":", s.y);
    j.append("}");
    proof {
        assert(j@ =~= o + coords_json(s.x, s.y));
    }
    push_kv(j, ",\"hull\":", s.hull.as_str());
    push_shield(j, &s.shield);
    push_sail(j, s);
    push_kit(j, s);
    push_kv_number(j, ",\"torpedoLocks\":", s.torpedo_locks as u64);
    proof {
        assert(final(j)@ =~= old(j)@ + ship_json(*s));
    }
}

/// Assemble the snapshot document for one HUD frame.
pub fn hud_json(r: &HudReadout) -> (json: String)
    ensures
        json@ == hud_json_spec(*r),
{
    let mut j = String::new();
    j.append("{");
    j.append("\"screen\":\"");
    let screen = r.state.screen();
    j.append(screen);
    j.append("\"");
    let on_title_card = match r.state {
        GameState::Loading | GameState::Menu => true,
        _ => false,
    };
    proof {
        reveal_strlit("start");
        reveal_strlit("playing");
        reveal_strlit("gameover");
        assert(on_title_card == (screen_text(r.state) == "start"@));
    }
    if on_title_card {
        push_loadout(&mut j, &r.loadout);
    }
    push_session(&mut j, r);
    if let Some(s) = &r.ship {
        push_ship(&mut j, s);
    }
    j.append("}");
    proof {
        assert(j@ =~= hud_json_spec(*r));
    }
    j
}

/// The panel switch as the document writes it: the key, then `true` exactly
/// when the controls panel is open, then the next key.
pub open spec fn controls_segment(open: bool) -> Seq<char> {
    ",\"controlsOpen\":"@ + (if open {
        "true"@
    } else {
        "false"@
    }) + ",\"ringOpacity\":"@
}

/// The document reports the controls panel as it is: for every readout, it
/// carries the `controlsOpen` key followed by `true` exactly when the panel is
/// open, whatever the pause and the other switches say.
pub proof fn law_the_document_reports_the_controls_panel(r: HudReadout)
    ensures
        exists|a: Seq<char>, b: Seq<char>|
            hud_json_spec(r) == a + controls_segment(r.controls_open) + b,
{
    let f = flags_head(r);
    lemma_flags_carry_the_controls_panel(r);
    let head = "{"@ + "\"screen\":\""@ + screen_text(r.state) + "\""@ + (if screen_text(r.state)
        == "start"@ {
        loadout_json(r.loadout)
    } else {
        Seq::empty()
    });
    let ship = match r.ship {
        Some(s) => ship_json(s),
        None => Seq::empty(),
    };
    assert(hud_json_spec(r) == head + (tally_json(r) + flags_json(r)) + ship + "}"@);
    assert(hud_json_spec(r) =~= (head + tally_json(r) + f) + controls_segment(r.controls_open) + (
    r.ring_opacity@ + ship + "}"@));
}

/// The session switches written before the panel's.
spec fn flags_head(r: HudReadout) -> Seq<char> {
    kv(",\"paused\":"@, bool_text(r.paused)) + kv(",\"aiPilot\":"@, bool_text(r.ai_pilot))
        + boarding_json(r.boarding_active, r.boarding_progress@) + kv(
        ",\"inputMethod\":"@,
        quoted(input_method_text(r.input_method)),
    ) + kv(",\"outcome\":"@, quoted(outcome_text(r.outcome)))
}

proof fn lemma_flags_carry_the_controls_panel(r: HudReadout)
    ensures
        flags_json(r) == flags_head(r) + controls_segment(r.controls_open) + r.ring_opacity@,
{
    reveal(kv);
    assert(flags_json(r) =~= flags_head(r) + controls_segment(r.controls_open) + r.ring_opacity@);
}

/// Pausing or resuming touches nothing of the controls panel: the document
/// of a readout that differs only in its pause flag reports the panel as the
/// readout has it.
pub proof fn law_pausing_leaves_the_controls_panel(r: HudReadout, paused: bool)
    ensures
        exists|a: Seq<char>, b: Seq<char>|
            hud_json_spec(HudReadout { paused, ..r }) == a + controls_segment(r.controls_open) + b,
{
    law_the_document_reports_the_controls_panel(HudReadout { paused, ..r });
}

} // verus!
