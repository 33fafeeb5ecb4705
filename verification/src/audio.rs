//! The sound side's decisions: the stable names the web shim plays by, how
//! many copies of one sound may stack in a frame, when the boarding chime and
//! the ability cues fire, and the WAV container the synthesised samples are
//! shipped in.

use vstd::prelude::*;

verus! {

/// The sound effects the game can play.
#[derive(Debug, Clone, Copy, PartialEq, Eq, Structural)]
pub enum Sound {
    Broadside,
    Hit,
    Explosion,
    Board,
    /// The boost drive lighting up.
    Boost,
    /// A microwarp discharging.
    Warp,
    /// Bracing: the crew slamming the shutters down.
    Brace,
    /// Hull integrity critical: a slow, unwelcome pulse.
    HullWarning,
}

/// The name the WebAudio shim knows a sound by.
pub open spec fn sound_name(sound: Sound) -> Seq<char> {
    match sound {
        Sound::Broadside => "broadside"@,
        Sound::Hit => "hit"@,
        Sound::Explosion => "explosion"@,
        Sound::Board => "board"@,
        Sound::Boost => "boost"@,
        Sound::Warp => "warp"@,
        Sound::Brace => "brace"@,
        Sound::HullWarning => "hullwarn"@,
    }
}

impl Sound {
    /// Stable name passed to the WebAudio shim on the web.
    pub fn name(self) -> (r: &'static str)
        ensures
            r@ == sound_name(self),
    {
        match self {
            Sound::Broadside => "broadside",
            Sound::Hit => "hit",
            Sound::Explosion => "explosion",
            Sound::Board => "board",
            Sound::Boost => "boost",
            Sound::Warp => "warp",
            Sound::Brace => "brace",
            Sound::HullWarning => "hullwarn",
        }
    }
}

/// No two sounds share a name, so the shim never plays one for another.
pub proof fn law_sound_names_are_distinct(a: Sound, b: Sound)
    requires
        a != b,
    ensures
        sound_name(a) != sound_name(b),
{
    reveal_strlit("broadside");
    reveal_strlit("hit");
    reveal_strlit("explosion");
    reveal_strlit("board");
    reveal_strlit("boost");
    reveal_strlit("warp");
    reveal_strlit("brace");
    reveal_strlit("hullwarn");
    if sound_name(a) == sound_name(b) {
        assert(sound_name(a)[0] == sound_name(b)[0]);
        assert(sound_name(a)[1] == sound_name(b)[1]);
        assert(sound_name(a)[2] == sound_name(b)[2]);
    }
}

/// At most this many of the same sound in one frame: a volley landing together
/// should thicken the hit, not clip into a click.
pub const MAX_STACK: usize = 3;

/// How many of `events` simultaneous triggers of one sound are played.
pub fn stacked(events: usize) -> (n: usize)
    ensures
        n == if events < MAX_STACK { events } else { MAX_STACK },
{
    if events < MAX_STACK {
        events
    } else {
        MAX_STACK
    }
}

/// The boarding chime: it sounds when the tally of ships boarded has risen
/// since the last frame, and the tally seen is remembered either way.
pub fn board_chime(last_seen: &mut u32, ships_boarded: u32) -> (play: bool)
    ensures
        play == (ships_boarded > *old(last_seen)),
        *final(last_seen) == ships_boarded,
{
    let play = ships_boarded > *last_seen;
    *last_seen = ships_boarded;
    play
}

/// Which of the player's own cues fire this frame: each is keyed off the
/// rising edge of its state, not the state itself.
pub struct AbilityCues {
    pub boost: bool,
    pub brace: bool,
}

/// Compare this frame's boost and brace states with the last frame's, and
/// remember this frame's. With no ship the memory is cleared so a respawn
/// does not fire a stale edge.
pub fn ability_cues(was: &mut (bool, bool), ship: Option<(bool, bool)>) -> (cues: AbilityCues)
    ensures
        match ship {
            Some((boosting, bracing)) => {
                &&& cues.boost == (boosting && !old(was).0)
                &&& cues.brace == (bracing && !old(was).1)
                &&& *final(was) == (boosting, bracing)
            },
            None => !cues.boost && !cues.brace && *final(was) == (false, false),
        },
{
    match ship {
        Some((boosting, bracing)) => {
            let cues = AbilityCues { boost: boosting && !was.0, brace: bracing && !was.1 };
            *was = (boosting, bracing);
            cues
        },
        None => {
            *was = (false, false);
            AbilityCues { boost: false, brace: false }
        },
    }
}

/// The synthesiser's sample rate, in Hz.
pub const RATE: u32 = 22050;

/// `x` as two little-endian bytes.
pub open spec fn le16(x: int) -> Seq<u8> {
    seq![(x % 256) as u8, ((x / 256) % 256) as u8]
}

/// `x` as four little-endian bytes.
pub open spec fn le32(x: int) -> Seq<u8> {
    seq![
        (x % 256) as u8,
        ((x / 256) % 256) as u8,
        ((x / 65536) % 256) as u8,
        ((x / 16777216) % 256) as u8,
    ]
}

/// A 16-bit sample's two's-complement bit pattern, as an unsigned number.
pub open spec fn sample_bits(s: i16) -> int {
    if s < 0 {
        s + 65536
    } else {
        s as int
    }
}

/// The 44-byte header of a mono 16-bit PCM WAV at [`RATE`] holding `n`
/// samples.
pub open spec fn wav_header(n: int) -> Seq<u8> {
    seq![82u8, 73u8, 70u8, 70u8] + le32(36 + 2 * n) + seq![87u8, 65u8, 86u8, 69u8] + seq![
        102u8,
        109u8,
        116u8,
        32u8,
    ] + le32(16) + le16(1) + le16(1) + le32(RATE as int) + le32(2 * RATE) + le16(2) + le16(16)
        + seq![100u8, 97u8, 116u8, 97u8] + le32(2 * n)
}

/// The WAV file of a sample buffer: the header, then each sample as two
/// little-endian bytes.
pub open spec fn is_wav_of(bytes: Seq<u8>, samples: Seq<i16>) -> bool {
    &&& bytes.len() == 44 + 2 * samples.len()
    &&& bytes.subrange(0, 44) == wav_header(samples.len() as int)
    &&& forall|i: int|
        0 <= i < samples.len() ==> #[trigger] bytes.subrange(44 + 2 * i, 46 + 2 * i) == le16(
            sample_bits(samples[i]),
        )
}

fn push_le16(v: &mut Vec<u8>, x: u16)
    ensures
        final(v)@ == old(v)@ + le16(x as int),
{
    v.push((x % 256) as u8);
    v.push((x / 256) as u8);
    proof {
        assert(final(v)@ =~= old(v)@ + le16(x as int));
    }
}

fn push_le32(v: &mut Vec<u8>, x: u32)
    ensures
        final(v)@ == old(v)@ + le32(x as int),
{
    v.push((x % 256) as u8);
    v.push(((x / 256) % 256) as u8);
    v.push(((x / 65536) % 256) as u8);
    v.push((x / 16777216) as u8);
    proof {
        assert(final(v)@ =~= old(v)@ + le32(x as int));
    }
}

/// Encode mono 16-bit samples as a PCM WAV byte buffer at [`RATE`].
pub fn wav_from_pcm(samples: &[i16]) -> (wav: Vec<u8>)
    requires
        36 + 2 * samples@.len() <= u32::MAX,
    ensures
        is_wav_of(wav@, samples@),
{
    let n = samples.len();
    let data_len = (n * 2) as u32;
    let mut v: Vec<u8> = Vec::new();
    v.push(82u8);
    v.push(73u8);
    v.push(70u8);
    v.push(70u8);
    push_le32(&mut v, 36 + data_len);
    v.push(87u8);
    v.push(65u8);
    v.push(86u8);
    v.push(69u8);
    v.push(102u8);
    v.push(109u8);
    v.push(116u8);
    v.push(32u8);
    push_le32(&mut v, 16);
    push_le16(&mut v, 1);
    push_le16(&mut v, 1);
    push_le32(&mut v, RATE);
    push_le32(&mut v, RATE * 2);
    push_le16(&mut v, 2);
    push_le16(&mut v, 16);
    v.push(100u8);
    v.push(97u8);
    v.push(116u8);
    v.push(97u8);
    push_le32(&mut v, data_len);
    assert(v@ =~= wav_header(n as int));
    let ghost header = v@;
    let mut i: usize = 0;
    while i < n
        invariant
            n == samples@.len(),
            i <= n,
            v@.len() == 44 + 2 * i,
            v@.subrange(0, 44) == header,
            header == wav_header(n as int),
            forall|j: int|
                0 <= j < i ==> #[trigger] v@.subrange(44 + 2 * j, 46 + 2 * j) == le16(
                    sample_bits(samples@[j]),
                ),
        decreases n - i,
    {
        let s = samples[i];
        let bits: u16 = if s < 0 {
            (s as i32 + 65536) as u16
        } else {
            s as u16
        };
        let ghost before = v@;
        push_le16(&mut v, bits);
        proof {
            assert(v@.subrange(0, 44) =~= before.subrange(0, 44));
            assert forall|j: int| 0 <= j < i + 1 implies #[trigger] v@.subrange(
                44 + 2 * j,
                46 + 2 * j,
            ) == le16(sample_bits(samples@[j])) by {
                if j < i {
                    assert(v@.subrange(44 + 2 * j, 46 + 2 * j) =~= before.subrange(
                        44 + 2 * j,
                        46 + 2 * j,
                    ));
                } else {
                    assert(v@.subrange(44 + 2 * j, 46 + 2 * j) =~= le16(bits as int));
                }
            }
        }
        i = i + 1;
    }
    v
}

} // verus!
