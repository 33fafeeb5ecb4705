//! The status-ring payload: each ship's ring entry, the per-frame array of
//! them handed to the page, and the change gate that keeps a still scene from
//! repainting.
//!
//! The projection onto the screen happens where the camera lives; its results
//! arrive already rendered, as fractions of the viewport. What each ring shows,
//! and in what shape, is decided here.

use vstd::prelude::*;
use crate::hud::{next_seq, publish_json};
use crate::readout::{bool_text, decimal, kv, push_kv, push_kv_bool, push_kv_number, ShieldReadout};

verus! {

/// The per-frame ring payload, separate from the HUD snapshot because it
/// changes whenever a ship or the camera moves.
pub struct RingSnapshot {
    pub json: String,
    /// Bumped only when `json` actually differs.
    pub seq: u64,
}

impl Default for RingSnapshot {
    fn default() -> (s: RingSnapshot)
        ensures
            s.json@ == Seq::<char>::empty(),
            s.seq == 0,
    {
        RingSnapshot { json: String::new(), seq: 0 }
    }
}

impl RingSnapshot {
    /// Take this frame's payload, moving `seq` on only when something moved.
    pub fn publish(&mut self, json: String)
        ensures
            old(self).json@ == json@ ==> final(self).json@ == old(self).json@ && final(self).seq
                == old(self).seq,
            old(self).json@ != json@ ==> final(self).json@ == json@ && final(self).seq
                == next_seq(old(self).seq),
    {
        publish_json(&mut self.json, &mut self.seq, json);
    }
}

/// `entries` joined by commas.
pub open spec fn joined(entries: Seq<Seq<char>>) -> Seq<char>
    decreases entries.len(),
{
    if entries.len() == 0 {
        Seq::empty()
    } else if entries.len() == 1 {
        entries[0]
    } else {
        joined(entries.drop_last()) + seq![','] + entries.last()
    }
}

/// The JSON array of the ships' ring entries, in the order given.
pub fn ring_payload(entries: &Vec<String>) -> (json: String)
    ensures
        json@ == seq!['['] + joined(entries@.map_values(|e: String| e@)) + seq![']'],
{
    let ghost views = entries@.map_values(|e: String| e@);
    let mut j = String::new();
    j.append("[");
    proof {
        reveal_strlit("[");
        reveal_strlit("]");
    }
    let mut i: usize = 0;
    while i < entries.len()
        invariant
            i <= entries@.len(),
            views == entries@.map_values(|e: String| e@),
            j@ == seq!['['] + joined(views.subrange(0, i as int)),
        decreases entries@.len() - i,
    {
        let ghost prev = j@;
        if i > 0 {
            j.append(",");
        }
        j.append(entries[i].as_str());
        proof {
            reveal_strlit(",");
            let pre = views.subrange(0, i + 1);
            assert(pre.drop_last() =~= views.subrange(0, i as int));
            assert(pre.last() == entries@[i as int]@);
            if i > 0 {
                assert(joined(pre) == joined(pre.drop_last()) + seq![','] + pre.last());
            } else {
                assert(joined(pre) == pre.last());
            }
            assert(j@ =~= seq!['['] + joined(pre));
        }
        i = i + 1;
    }
    j.append("]");
    proof {
        assert(views.subrange(0, entries@.len() as int) =~= views);
    }
    j
}

/// A point on screen, as the page is sent it: fractions of the viewport.
pub struct ScreenPoint {
    pub x: String,
    pub y: String,
}

/// One broadside bank's band on the player's ring.
pub struct BankBand {
    pub ready: bool,
    /// The bank's half-arc.
    pub arc: String,
    /// How far through its reload the bank is.
    pub loaded: String,
}

/// The torpedo tubes' band on the player's ring.
pub struct TubeBand {
    pub max: u32,
    pub ready: u32,
    /// The reload progress of the tube being loaded.
    pub loading: String,
}

/// One ship's ring: where it lands on screen and what it shows.
pub struct RingEntry {
    /// Stable for the ship's whole life, so the page keeps one element per ship.
    pub id: u32,
    /// The player's own ship.
    pub me: bool,
    /// Crippled: a prize to board, not a threat.
    pub prize: bool,
    /// Where the ship's centre lands.
    pub o: ScreenPoint,
    /// Where a world +X offset of one ring radius lands, relative to `o`.
    pub x: ScreenPoint,
    /// The same for world -Y.
    pub y: ScreenPoint,
    /// The bow's direction in ring-local degrees.
    pub h: String,
    pub hull: String,
    /// Present only when the hull has shields fitted.
    pub shield: Option<ShieldReadout>,
    /// The port and starboard bands, when a broadside is fitted.
    pub banks: Option<(BankBand, BankBand)>,
    pub tubes: Option<TubeBand>,
}

/// A point as a two-element JSON array.
pub open spec fn point_json(p: ScreenPoint) -> Seq<char> {
    "["@ + p.x@ + ","@ + p.y@ + "]"@
}

pub open spec fn bank_json(key: Seq<char>, b: BankBand) -> Seq<char> {
    kv(",\""@ + key + "\":{\"ready\":"@, bool_text(b.ready)) + kv(",\"arc\":"@, b.arc@) + kv(
        ",\"loaded\":"@,
        b.loaded@,
    ) + "}"@
}

pub open spec fn tubes_band_json(t: TubeBand) -> Seq<char> {
    kv(",\"tubes\":{\"max\":"@, decimal(t.max as nat)) + kv(",\"ready\":"@, decimal(t.ready as nat))
        + kv(",\"loading\":"@, t.loading@) + "}"@
}

/// The bands only the player's ring carries: the broadside banks and the
/// tubes. Another ship's ring carries none, so a wave of enemies does not bury
/// the aim beams in arcs and pips.
pub open spec fn bands_json(e: RingEntry) -> Seq<char> {
    if e.me {
        (match e.banks {
            Some((port, stbd)) => bank_json("port"@, port) + bank_json("stbd"@, stbd),
            None => Seq::empty(),
        }) + match e.tubes {
            Some(t) => tubes_band_json(t),
            None => Seq::empty(),
        }
    } else {
        Seq::empty()
    }
}

/// Shields, when the hull carries any: none fitted and both flat must not
/// look alike.
pub open spec fn ring_shield_json(s: Option<ShieldReadout>) -> Seq<char> {
    match s {
        Some(sh) => kv(",\"shield\":{\"fore\":"@, sh.fore@) + kv(",\"aft\":"@, sh.aft@) + "}"@,
        None => Seq::empty(),
    }
}

/// The head of an entry: identity, placement and hull.
pub open spec fn placement_json(e: RingEntry) -> Seq<char> {
    kv("{\"id\":"@, decimal(e.id as nat)) + kv(",\"me\":"@, bool_text(e.me)) + kv(
        ",\"prize\":"@,
        bool_text(e.prize),
    ) + kv(",\"o\":"@, point_json(e.o)) + kv(",\"x\":"@, point_json(e.x)) + kv(
        ",\"y\":"@,
        point_json(e.y),
    ) + kv(",\"h\":"@, e.h@) + kv(",\"hull\":"@, e.hull@)
}

/// One ship's ring as the JSON object the page reads.
pub open spec fn ring_entry_spec(e: RingEntry) -> Seq<char> {
    placement_json(e) + ring_shield_json(e.shield) + bands_json(e) + "}"@
}

fn point_text(p: &ScreenPoint) -> (t: String)
    ensures
        t@ == point_json(*p),
{
    let mut t = String::new();
    t.append("[");
    t.append(p.x.as_str());
    t.append(",");
    t.append(p.y.as_str());
    t.append("]");
    proof {
        assert(t@ =~= point_json(*p));
    }
    t
}

fn push_placement(j: &mut String, e: &RingEntry)
    ensures
        final(j)@ == old(j)@ + placement_json(*e),
{
    push_kv_number(j, "{\"id\":", e.id as u64);
    push_kv_bool(j, ",\"me\":", e.me);
    push_kv_bool(j, ",\"prize\":", e.prize);
    let o = point_text(&e.o);
    push_kv(j, ",\"o\":", o.as_str());
    let x = point_text(&e.x);
    push_kv(j, ",\"x\":", x.as_str());
    let y = point_text(&e.y);
    push_kv(j, ",\"y\":", y.as_str());
    push_kv(j, ",\"h\":", e.h.as_str());
    push_kv(j, ",\"hull\":", e.hull.as_str());
    proof {
        assert(final(j)@ =~= old(j)@ + placement_json(*e));
    }
}

fn push_bank(j: &mut String, key: &str, b: &BankBand)
    ensures
        final(j)@ == old(j)@ + bank_json(key@, *b),
{
    let mut head = String::new();
    head.append(",\"");
    head.append(key);
    head.append("\":{\"ready\":");
    push_kv_bool(j, head.as_str(), b.ready);
    push_kv(j, ",\"arc\":", b.arc.as_str());
    push_kv(j, ",\"loaded\":", b.loaded.as_str());
    j.append("}");
    proof {
        assert(head@ =~= ",\""@ + key@ + "\":{\"ready\":"@);
        assert(final(j)@ =~= old(j)@ + bank_json(key@, *b));
    }
}

fn push_bands(j: &mut String, e: &RingEntry)
    ensures
        final(j)@ == old(j)@ + bands_json(*e),
{
    if !e.me {
        assert(j@ =~= old(j)@ + bands_json(*e));
        return;
    }
    let ghost o = j@;
    if let Some((port, stbd)) = &e.banks {
        push_bank(j, "port", port);
        push_bank(j, "stbd", stbd);
    }
    let ghost mid = j@;
    assert(mid =~= o + match e.banks {
        Some((port, stbd)) => bank_json("port"@, port) + bank_json("stbd"@, stbd),
        None => Seq::empty(),
    });
    if let Some(t) = &e.tubes {
        push_kv_number(j, ",\"tubes\":{\"max\":", t.max as u64);
        push_kv_number(j, ",\"ready\":", t.ready as u64);
        push_kv(j, ",\"loading\":", t.loading.as_str());
        j.append("}");
    }
    proof {
        assert(j@ =~= mid + match e.tubes {
            Some(t) => tubes_band_json(t),
            None => Seq::empty(),
        });
        assert(final(j)@ =~= old(j)@ + bands_json(*e));
    }
}

/// One ship's ring entry, ready to join into the payload.
pub fn ring_entry(e: &RingEntry) -> (json: String)
    ensures
        json@ == ring_entry_spec(*e),
{
    let mut j = String::new();
    push_placement(&mut j, e);
    let ghost after_placement = j@;
    if let Some(sh) = &e.shield {
        push_kv(&mut j, ",\"shield\":{\"fore\":", sh.fore.as_str());
        push_kv(&mut j, ",\"aft\":", sh.aft.as_str());
        j.append("}");
    }
    proof {
        assert(j@ =~= after_placement + ring_shield_json(e.shield));
    }
    push_bands(&mut j, e);
    j.append("}");
    proof {
        assert(j@ =~= ring_entry_spec(*e));
    }
    j
}

/// The gun and tube bands are the player's alone: another ship's ring is its
/// placement, hull and shields, whatever that ship carries.
pub proof fn law_only_the_players_ring_has_bands(e: RingEntry)
    requires
        !e.me,
    ensures
        ring_entry_spec(e) == placement_json(e) + ring_shield_json(e.shield) + "}"@,
{
    assert(placement_json(e) + ring_shield_json(e.shield) + bands_json(e) =~= placement_json(e)
        + ring_shield_json(e.shield));
}

/// One bank's band as the page reads it: the side's key, whether the bank is
/// ready, its half-arc and how far it has reloaded.
pub open spec fn band_text(side: Seq<char>, b: BankBand) -> Seq<char> {
    ",\""@ + side + "\":{\"ready\":"@ + (if b.ready {
        "true"@
    } else {
        "false"@
    }) + ",\"arc\":"@ + b.arc@ + ",\"loaded\":"@ + b.loaded@ + "}"@
}

proof fn lemma_bank_json_is_band_text(side: Seq<char>, b: BankBand)
    ensures
        bank_json(side, b) == band_text(side, b),
{
    reveal(kv);
    assert(bank_json(side, b) =~= band_text(side, b));
}

/// The player's ring always shows its broadsides when a broadside is fitted:
/// right after the placement and shields come the port band and then the
/// starboard band, whatever the tubes hold, and the entry closes after them.
pub proof fn law_the_players_ring_shows_both_banks(e: RingEntry, port: BankBand, stbd: BankBand)
    requires
        e.me,
        e.banks == Some((port, stbd)),
    ensures
        exists|rest: Seq<char>|
            ring_entry_spec(e) == placement_json(e) + ring_shield_json(e.shield) + band_text(
                "port"@,
                port,
            ) + band_text("stbd"@, stbd) + rest + "}"@,
{
    lemma_bank_json_is_band_text("port"@, port);
    lemma_bank_json_is_band_text("stbd"@, stbd);
    let rest = match e.tubes {
        Some(t) => tubes_band_json(t),
        None => Seq::empty(),
    };
    assert(ring_entry_spec(e) =~= placement_json(e) + ring_shield_json(e.shield) + band_text(
        "port"@,
        port,
    ) + band_text("stbd"@, stbd) + rest + "}"@);
}

/// The player's tube band: how many tubes, how many are ready, and the
/// reload progress of the one being loaded.
pub open spec fn tube_band_text(t: TubeBand) -> Seq<char> {
    ",\"tubes\":{\"max\":"@ + decimal(t.max as nat) + ",\"ready\":"@ + decimal(t.ready as nat)
        + ",\"loading\":"@ + t.loading@ + "}"@
}

/// The player's ring always shows its tubes when torpedoes are fitted: the
/// tube band is the last thing before the entry closes, whether or not a
/// broadside is fitted too.
pub proof fn law_the_players_ring_shows_its_tubes(e: RingEntry, t: TubeBand)
    requires
        e.me,
        e.tubes == Some(t),
    ensures
        exists|head: Seq<char>| ring_entry_spec(e) == head + tube_band_text(t) + "}"@,
{
    reveal(kv);
    let banks = match e.banks {
        Some((port, stbd)) => bank_json("port"@, port) + bank_json("stbd"@, stbd),
        None => Seq::empty(),
    };
    assert(tubes_band_json(t) =~= tube_band_text(t));
    assert(ring_entry_spec(e) =~= (placement_json(e) + ring_shield_json(e.shield) + banks)
        + tube_band_text(t) + "}"@);
}

} // verus!
