//! The HUD bridge's pure half: the page-to-host action vocabulary and its
//! parser, the escaping that carries JSON into a JavaScript literal, the
//! change-gated snapshot, and the pieces of the readout that are decisions
//! rather than drawing.

use vstd::prelude::*;
use crate::paths;
use crate::text::{
    chars_of, find_char, lines, strip_cr, find_in, parse_usize, parse_usize_in, range_eq, replace_all,
    replace_str, segs, split, split_bounds, trim, trim_bounds,
};

verus! {

/// Which loadout slot a menu chip is talking about.
#[derive(Debug, Clone, Copy, PartialEq, Eq, Structural)]
pub enum Slot {
    Broadside,
    Battery,
    Special,
}

/// The slot a wire name stands for.
pub open spec fn slot_of(name: Seq<char>) -> Option<Slot> {
    if name == "broadside"@ {
        Some(Slot::Broadside)
    } else if name == "battery"@ {
        Some(Slot::Battery)
    } else if name == "special"@ {
        Some(Slot::Special)
    } else {
        None
    }
}

/// An action coming *from* the HUD: a chip on the title card being clicked.
#[derive(Debug, Clone, PartialEq)]
pub enum HudAction {
    /// Cast off: begin the run with whatever is currently selected.
    StartRun,
    /// Switch which scenario the next run lays out.
    SelectScenario(&'static str),
    /// Fit `option` into `slot`.
    SelectSlot { slot: Slot, option: usize },
    /// Run it back, from the game-over card.
    Restart,
    /// Something the host does not recognise, kept so a mismatch shows up in
    /// a log instead of as silence.
    Unknown(String),
}

/// A [`HudAction`] with its text taken as characters.
pub enum ActionView {
    StartRun,
    SelectScenario(Seq<char>),
    SelectSlot(Slot, usize),
    Restart,
    Unknown(Seq<char>),
}

impl View for HudAction {
    type V = ActionView;

    open spec fn view(&self) -> ActionView {
        match self {
            HudAction::StartRun => ActionView::StartRun,
            HudAction::SelectScenario(p) => ActionView::SelectScenario(p@),
            HudAction::SelectSlot { slot, option } => ActionView::SelectSlot(*slot, *option),
            HudAction::Restart => ActionView::Restart,
            HudAction::Unknown(raw) => ActionView::Unknown(raw@),
        }
    }
}

pub open spec fn opt_view(a: Option<HudAction>) -> Option<ActionView> {
    match a {
        Some(a) => Some(a@),
        None => None,
    }
}

/// What the `key=value` pairs of one line have said so far.
pub struct PairState {
    pub slot: Option<Slot>,
    pub option: Option<usize>,
    pub name: Option<Seq<char>>,
}

/// One `key=value` pair folded in. A pair without `=` is skipped, an unknown
/// key is ignored, and a later pair overrides an earlier one for the same key
/// (including with nothing, when its value does not read).
pub open spec fn apply_pair(st: PairState, pair: Seq<char>) -> PairState {
    match find_char(pair, '=') {
        None => st,
        Some(k) => {
            let key = pair.take(k);
            let value = pair.skip(k + 1);
            if key == "slot"@ {
                PairState { slot: slot_of(value), ..st }
            } else if key == "option"@ {
                PairState { option: parse_usize(value), ..st }
            } else if key == "name"@ {
                PairState { name: Some(value), ..st }
            } else {
                st
            }
        },
    }
}

/// All the pairs of a line folded in, left to right.
pub open spec fn fold_pairs(pairs: Seq<Seq<char>>) -> PairState
    decreases pairs.len(),
{
    if pairs.len() == 0 {
        PairState { slot: None, option: None, name: None }
    } else {
        apply_pair(fold_pairs(pairs.drop_last()), pairs.last())
    }
}

/// What one drained line (`action|key=value|key=value`) asks for: nothing for
/// a blank line, otherwise the named action, or `Unknown` carrying the trimmed
/// line when the name or its payload is not one the host knows.
pub open spec fn parse_action_spec(line: Seq<char>) -> Option<ActionView> {
    let t = trim(line);
    if t.len() == 0 {
        None
    } else {
        let parts = split(t, '|');
        let action = parts[0];
        let st = fold_pairs(parts.skip(1));
        Some(
            if action == "start_run"@ {
                ActionView::StartRun
            } else if action == "restart"@ {
                ActionView::Restart
            } else if action == "select_scenario"@ {
                match st.name {
                    Some(n) => if n == "skirmish"@ {
                        ActionView::SelectScenario(paths::SKIRMISH@)
                    } else if n == "test_range"@ {
                        ActionView::SelectScenario(paths::TEST_RANGE@)
                    } else {
                        ActionView::Unknown(t)
                    },
                    None => ActionView::Unknown(t),
                }
            } else if action == "select_slot"@ {
                match (st.slot, st.option) {
                    (Some(slot), Some(option)) => ActionView::SelectSlot(slot, option),
                    _ => ActionView::Unknown(t),
                }
            } else {
                ActionView::Unknown(t)
            },
        )
    }
}

/// The actions of a batch of lines, blank lines dropped.
pub open spec fn actions_spec(lines: Seq<Seq<char>>) -> Seq<ActionView>
    decreases lines.len(),
{
    if lines.len() == 0 {
        Seq::empty()
    } else {
        let prev = actions_spec(lines.drop_last());
        match parse_action_spec(lines.last()) {
            Some(a) => prev.push(a),
            None => prev,
        }
    }
}

pub open spec fn views(actions: Seq<HudAction>) -> Seq<ActionView> {
    actions.map_values(|a: HudAction| a@)
}

/// A page can only ever name a scenario, never hand over a path: every
/// scenario switch a line can ask for is one of the two known files.
pub proof fn law_the_page_never_names_a_path(line: Seq<char>)
    ensures
        parse_action_spec(line) matches Some(ActionView::SelectScenario(p)) ==> p == paths::SKIRMISH@
            || p == paths::TEST_RANGE@,
{
}

/// Nothing the page sends is swallowed: a line is an action exactly when it
/// is not blank, and one the host does not act on comes back as `Unknown`,
/// carrying the line.
pub proof fn law_every_line_is_answered(line: Seq<char>)
    ensures
        parse_action_spec(line) is None <==> trim(line).len() == 0,
        parse_action_spec(line) matches Some(ActionView::Unknown(t)) ==> t == trim(line),
{
}

/// A batch yields one action per line that is not blank, in order.
pub proof fn law_one_action_per_line(lines: Seq<Seq<char>>)
    ensures
        actions_spec(lines).len() == lines.filter(|l: Seq<char>| trim(l).len() > 0).len(),
    decreases lines.len(),
{
    reveal(Seq::filter);
    if lines.len() > 0 {
        law_one_action_per_line(lines.drop_last());
        law_every_line_is_answered(lines.last());
    }
}

/// The slot named by `v[lo..hi]`.
fn slot_in(v: &Vec<char>, lo: usize, hi: usize) -> (r: Option<Slot>)
    requires
        lo <= hi <= v@.len(),
    ensures
        r == slot_of(v@.subrange(lo as int, hi as int)),
{
    if range_eq(v, lo, hi, "broadside") {
        Some(Slot::Broadside)
    } else if range_eq(v, lo, hi, "battery") {
        Some(Slot::Battery)
    } else if range_eq(v, lo, hi, "special") {
        Some(Slot::Special)
    } else {
        None
    }
}

impl Slot {
    /// The slot a wire name stands for.
    pub fn parse(name: &str) -> (r: Option<Slot>)
        ensures
            r == slot_of(name@),
    {
        let v = chars_of(name);
        proof {
            assert(v@.subrange(0, v@.len() as int) =~= v@);
        }
        slot_in(&v, 0, v.len())
    }
}

/// The action on the line `text[lo..hi]` (counted in characters).
fn parse_range(text: &str, v: &Vec<char>, lo: usize, hi: usize) -> (r: Option<HudAction>)
    requires
        v@ == text@,
        lo <= hi <= v@.len(),
    ensures
        opt_view(r) == parse_action_spec(v@.subrange(lo as int, hi as int)),
{
    let ghost line = v@.subrange(lo as int, hi as int);
    let (a, b) = trim_bounds(v, lo, hi);
    let ghost t = v@.subrange(a as int, b as int);
    if a == b {
        return None;
    }
    let parts = split_bounds(v, a, b, '|');
    let ghost ps = segs(v@, parts@);
    let mut slot: Option<Slot> = None;
    let mut option: Option<usize> = None;
    let mut name: Option<(usize, usize)> = None;
    let mut k: usize = 1;
    proof {
        assert(ps.subrange(1, 1) =~= Seq::<Seq<char>>::empty());
    }
    while k < parts.len()
        invariant
            1 <= k <= parts@.len(),
            ps == segs(v@, parts@),
            ps == split(t, '|'),
            forall|j: int| 0 <= j < parts@.len() ==> a <= (#[trigger] parts@[j]).0 <= parts@[j].1 <= b,
            b <= v@.len(),
            ({
                let st = fold_pairs(ps.subrange(1, k as int));
                &&& st.slot == slot
                &&& st.option == option
                &&& st.name == (match name {
                    Some(nb) => Some(v@.subrange(nb.0 as int, nb.1 as int)),
                    None => None,
                })
            }),
            match name {
                Some(nb) => nb.0 <= nb.1 <= v@.len(),
                None => true,
            },
        decreases parts@.len() - k,
    {
        let (s, e) = parts[k];
        let ghost pair = v@.subrange(s as int, e as int);
        proof {
            assert(ps[k as int] == pair);
            assert(ps.subrange(1, k + 1).drop_last() =~= ps.subrange(1, k as int));
            assert(ps.subrange(1, k + 1).last() == pair);
        }
        let q = find_in(v, s, e, '=');
        if q < e {
            proof {
                assert(pair.take(q - s) =~= v@.subrange(s as int, q as int));
                assert(pair.skip(q - s + 1) =~= v@.subrange(q + 1, e as int));
            }
            if range_eq(v, s, q, "slot") {
                slot = slot_in(v, q + 1, e);
            } else if range_eq(v, s, q, "option") {
                option = parse_usize_in(v, q + 1, e);
            } else if range_eq(v, s, q, "name") {
                name = Some((q + 1, e));
            }
        }
        k = k + 1;
    }
    proof {
        assert(ps.subrange(1, parts@.len() as int) =~= ps.skip(1));
        assert(ps[0] == v@.subrange(parts@[0].0 as int, parts@[0].1 as int));
    }
    let (p0, p1) = parts[0];
    if range_eq(v, p0, p1, "start_run") {
        Some(HudAction::StartRun)
    } else if range_eq(v, p0, p1, "restart") {
        Some(HudAction::Restart)
    } else if range_eq(v, p0, p1, "select_scenario") {
        match name {
            Some((n0, n1)) => {
                if range_eq(v, n0, n1, "skirmish") {
                    Some(HudAction::SelectScenario(paths::SKIRMISH))
                } else if range_eq(v, n0, n1, "test_range") {
                    Some(HudAction::SelectScenario(paths::TEST_RANGE))
                } else {
                    Some(HudAction::Unknown(text.substring_char(a, b).to_string()))
                }
            },
            None => Some(HudAction::Unknown(text.substring_char(a, b).to_string())),
        }
    } else if range_eq(v, p0, p1, "select_slot") {
        match (slot, option) {
            (Some(s), Some(o)) => Some(HudAction::SelectSlot { slot: s, option: o }),
            _ => Some(HudAction::Unknown(text.substring_char(a, b).to_string())),
        }
    } else {
        Some(HudAction::Unknown(text.substring_char(a, b).to_string()))
    }
}

/// Parse one drained line, `action|key=value|key=value`, into an action.
///
/// Total: a blank line is no action, and anything the host does not
/// recognise comes back as `Unknown` with the trimmed line.
pub fn parse_hud_action(line: &str) -> (r: Option<HudAction>)
    ensures
        opt_view(r) == parse_action_spec(line@),
{
    let v = chars_of(line);
    proof {
        assert(v@.subrange(0, v@.len() as int) =~= v@);
    }
    parse_range(line, &v, 0, v.len())
}

/// Parse a whole drained batch: one action per line, blank lines dropped.
pub fn parse_hud_actions(text: &str) -> (r: Vec<HudAction>)
    ensures
        views(r@) == actions_spec(lines(text@)),
{
    let v = chars_of(text);
    let mut out: Vec<HudAction> = Vec::new();
    let mut start: usize = 0;
    let mut i: usize = 0;
    let ghost mut done: Seq<Seq<char>> = Seq::empty();
    proof {
        assert(v@.take(0) =~= Seq::<char>::empty());
        assert(v@.subrange(0, 0) =~= Seq::<char>::empty());
        assert(done.push(v@.subrange(0, 0)) =~= seq![Seq::<char>::empty()]);
        assert(views(out@) =~= Seq::<ActionView>::empty());
        assert(done.map_values(|p: Seq<char>| strip_cr(p)) =~= Seq::<Seq<char>>::empty());
    }
    while i < v.len()
        invariant
            start <= i <= v@.len(),
            v@ == text@,
            split(v@.take(i as int), '\n') == done.push(v@.subrange(start as int, i as int)),
            views(out@) == actions_spec(done.map_values(|p: Seq<char>| strip_cr(p))),
        decreases v@.len() - i,
    {
        let ghost t = v@.take(i as int);
        let ghost t2 = v@.take(i + 1);
        proof {
            assert(t2.drop_last() =~= t);
            assert(t2.last() == v@[i as int]);
        }
        if v[i] == '\n' {
            let end = if i > start && v[i - 1] == '\r' {
                i - 1
            } else {
                i
            };
            let ghost seg = v@.subrange(start as int, i as int);
            proof {
                assert(strip_cr(seg) =~= v@.subrange(start as int, end as int));
            }
            let ghost old_out = views(out@);
            let ghost old_done = done;
            match parse_range(text, &v, start, end) {
                Some(a) => {
                    out.push(a);
                    proof {
                        assert(views(out@) =~= old_out.push(a@));
                    }
                },
                None => {},
            }
            proof {
                done = done.push(seg);
                assert(done.map_values(|p: Seq<char>| strip_cr(p)) =~= old_done.map_values(
                    |p: Seq<char>| strip_cr(p),
                ).push(strip_cr(seg)));
                assert(done.map_values(|p: Seq<char>| strip_cr(p)).drop_last()
                    =~= old_done.map_values(|p: Seq<char>| strip_cr(p)));
                assert(v@.subrange(i + 1, i + 1) =~= Seq::<char>::empty());
            }
            start = i + 1;
        } else {
            proof {
                assert(v@.subrange(start as int, i as int).push(v@[i as int]) =~= v@.subrange(
                    start as int,
                    i + 1,
                ));
                assert(done.push(v@.subrange(start as int, i as int)).update(
                    done.len() as int,
                    v@.subrange(start as int, i + 1),
                ) =~= done.push(v@.subrange(start as int, i + 1)));
            }
        }
        i = i + 1;
    }
    let ghost parts = split(text@, '\n');
    proof {
        assert(v@.take(v@.len() as int) =~= v@);
        assert(parts.drop_last() =~= done);
    }
    if start < v.len() {
        let ghost old_out = views(out@);
        let ghost body = done.map_values(|p: Seq<char>| strip_cr(p));
        match parse_range(text, &v, start, v.len()) {
            Some(a) => {
                out.push(a);
                proof {
                    assert(views(out@) =~= old_out.push(a@));
                }
            },
            None => {},
        }
        proof {
            assert(body.push(parts.last()).drop_last() =~= body);
        }
    }
    out
}

// ------------------------------------------------------- JavaScript literal

/// How one character is written inside a single-quoted JavaScript literal.
pub open spec fn escape_char(c: char) -> Seq<char> {
    if c == '\\' {
        seq!['\\', '\\']
    } else if c == '\'' {
        seq!['\\', '\'']
    } else if c == '\n' {
        seq!['\\', 'n']
    } else if c == '\r' {
        seq!['\\', 'r']
    } else {
        seq![c]
    }
}

/// `s` escaped for embedding in a single-quoted JavaScript literal.
pub open spec fn escape_js(s: Seq<char>) -> Seq<char>
    decreases s.len(),
{
    if s.len() == 0 {
        Seq::empty()
    } else {
        escape_js(s.drop_last()) + escape_char(s.last())
    }
}

/// Reading an escaped literal back: a backslash and the character after it
/// stand for one character.
pub open spec fn unescape_js(t: Seq<char>) -> Seq<char>
    decreases t.len(),
{
    if t.len() == 0 {
        Seq::empty()
    } else if t[0] == '\\' && t.len() >= 2 {
        let c = if t[1] == 'n' {
            '\n'
        } else if t[1] == 'r' {
            '\r'
        } else {
            t[1]
        };
        seq![c] + unescape_js(t.skip(2))
    } else {
        seq![t[0]] + unescape_js(t.drop_first())
    }
}

pub open spec fn needs_escape(c: char) -> bool {
    c == '\\' || c == '\'' || c == '\n' || c == '\r'
}

/// Escape a string for embedding in a single-quoted JavaScript literal: the
/// backslash and the quote are escaped, and a raw line break (a syntax error
/// inside a literal) is written as its escape.
pub fn js_string_literal(raw: &str) -> (out: String)
    ensures
        out@ == escape_js(raw@),
{
    let v = chars_of(raw);
    let mut out = String::new();
    let mut run: usize = 0;
    let mut i: usize = 0;
    proof {
        assert(v@.take(0) =~= Seq::<char>::empty());
        assert(v@.subrange(0, 0) =~= Seq::<char>::empty());
        assert(out@ + v@.subrange(0, 0) =~= escape_js(v@.take(0)));
    }
    while i < v.len()
        invariant
            run <= i <= v@.len(),
            v@ == raw@,
            out@ == escape_js(v@.take(run as int)),
            out@ + v@.subrange(run as int, i as int) == escape_js(v@.take(i as int)),
        decreases v@.len() - i,
    {
        let c = v[i];
        let ghost before = escape_js(v@.take(i as int));
        proof {
            assert(v@.take(i + 1).drop_last() =~= v@.take(i as int));
            assert(v@.take(i + 1).last() == c);
        }
        let esc: Option<&str> = if c == '\\' {
            Some("\\\\")
        } else if c == '\'' {
            Some("\\'")
        } else if c == '\n' {
            Some("\\n")
        } else if c == '\r' {
            Some("\\r")
        } else {
            None
        };
        match esc {
            Some(e) => {
                proof {
                    reveal_strlit("\\\\");
                    reveal_strlit("\\'");
                    reveal_strlit("\\n");
                    reveal_strlit("\\r");
                    assert(e@ =~= escape_char(c));
                }
                let ghost o = out@;
                out.append(raw.substring_char(run, i));
                out.append(e);
                proof {
                    assert(out@ =~= o + v@.subrange(run as int, i as int) + escape_char(c));
                    assert(v@.subrange(i + 1, i + 1) =~= Seq::<char>::empty());
                    assert(out@ + v@.subrange(i + 1, i + 1) =~= out@);
                }
                run = i + 1;
            },
            None => {
                proof {
                    assert(escape_char(c) =~= seq![c]);
                    assert(out@ + v@.subrange(run as int, i + 1) =~= out@ + v@.subrange(
                        run as int,
                        i as int,
                    ) + seq![c]);
                }
            },
        }
        i = i + 1;
    }
    let ghost o = out@;
    out.append(raw.substring_char(run, v.len()));
    proof {
        assert(v@.take(v@.len() as int) =~= v@);
    }
    out
}

proof fn lemma_escape_concat(a: Seq<char>, b: Seq<char>)
    ensures
        escape_js(a + b) == escape_js(a) + escape_js(b),
    decreases b.len(),
{
    if b.len() == 0 {
        assert(a + b =~= a);
        assert(escape_js(a) + escape_js(b) =~= escape_js(a));
    } else {
        lemma_escape_concat(a, b.drop_last());
        assert((a + b).drop_last() =~= a + b.drop_last());
        assert((a + b).last() == b.last());
        assert(escape_js(a) + escape_js(b.drop_last()) + escape_char(b.last()) =~= escape_js(a)
            + (escape_js(b.drop_last()) + escape_char(b.last())));
    }
}

/// Escaping loses nothing: reading an escaped literal back gives exactly the
/// text that was escaped, whatever it held.
pub proof fn law_js_literal_round_trips(s: Seq<char>)
    ensures
        unescape_js(escape_js(s)) == s,
    decreases s.len(),
{
    if s.len() > 0 {
        let c = s[0];
        let r = s.drop_first();
        assert(s =~= seq![c] + r);
        lemma_escape_concat(seq![c], r);
        assert(seq![c].drop_last() =~= Seq::<char>::empty());
        assert(seq![c].last() == c);
        assert(escape_js(Seq::<char>::empty()) == Seq::<char>::empty());
        assert(escape_js(seq![c]) == escape_js(seq![c].drop_last()) + escape_char(c));
        assert(escape_js(seq![c]) =~= escape_char(c));
        let t = escape_char(c) + escape_js(r);
        law_js_literal_round_trips(r);
        if needs_escape(c) {
            assert(t.skip(2) =~= escape_js(r));
        } else {
            assert(t.drop_first() =~= escape_js(r));
        }
        assert(unescape_js(t) =~= s);
    }
}

/// An escaped literal never holds a raw line break, and every quote in it
/// follows a backslash.
pub proof fn law_js_literal_is_one_line(s: Seq<char>)
    ensures
        forall|i: int|
            0 <= i < escape_js(s).len() ==> #[trigger] escape_js(s)[i] != '\n' && escape_js(s)[i]
                != '\r',
        forall|i: int|
            0 <= i < escape_js(s).len() && #[trigger] escape_js(s)[i] == '\'' ==> i > 0
                && escape_js(s)[i - 1] == '\\',
    decreases s.len(),
{
    if s.len() > 0 {
        law_js_literal_is_one_line(s.drop_last());
        let p = escape_js(s.drop_last());
        let e = escape_char(s.last());
        assert(escape_js(s) == p + e);
        assert forall|i: int| 0 <= i < (p + e).len() implies #[trigger] (p + e)[i] != '\n' && (p
            + e)[i] != '\r' by {
            if i >= p.len() {
                assert((p + e)[i] == e[i - p.len()]);
            }
        }
        assert forall|i: int| 0 <= i < (p + e).len() && #[trigger] (p + e)[i] == '\'' implies i
            > 0 && (p + e)[i - 1] == '\\' by {
            if i >= p.len() {
                assert((p + e)[i] == e[i - p.len()]);
                if i > p.len() {
                    assert((p + e)[i - 1] == e[i - 1 - p.len()]);
                }
            } else {
                assert((p + e)[i - 1] == p[i - 1]);
            }
        }
    }
}

// ------------------------------------------------------------- snapshot

/// The most recent HUD state, serialized to the JSON shape the page expects.
/// `seq` moves whenever the snapshot changes, so a transport can skip
/// re-pushing an identical frame.
pub struct HudSnapshot {
    pub json: String,
    pub seq: u64,
}

/// The sequence number after `seq`, wrapping at the top of the range.
pub open spec fn next_seq(seq: u64) -> u64 {
    if seq == u64::MAX {
        0
    } else {
        (seq + 1) as u64
    }
}

/// Replace `json` with `next` and move `seq` on, but only when the text
/// actually differs.
pub fn publish_json(json: &mut String, seq: &mut u64, next: String)
    ensures
        old(json)@ == next@ ==> final(json)@ == old(json)@ && *final(seq) == *old(seq),
        old(json)@ != next@ ==> final(json)@ == next@ && *final(seq) == next_seq(*old(seq)),
{
    if !(next == *json) {
        *json = next;
        *seq = seq.wrapping_add(1);
    }
}

impl Default for HudSnapshot {
    fn default() -> (s: HudSnapshot)
        ensures
            s.json@ == Seq::<char>::empty(),
            s.seq == 0,
    {
        HudSnapshot { json: String::new(), seq: 0 }
    }
}

impl HudSnapshot {
    /// Take a freshly built snapshot, bumping `seq` only if it differs from the
    /// one held.
    pub fn publish(&mut self, json: String)
        ensures
            old(self).json@ == json@ ==> final(self).json@ == old(self).json@ && final(self).seq
                == old(self).seq,
            old(self).json@ != json@ ==> final(self).json@ == json@ && final(self).seq
                == next_seq(old(self).seq),
    {
        publish_json(&mut self.json, &mut self.seq, json);
    }
}

// ------------------------------------------------------------ readouts

/// One torpedo tube as the HUD draws it.
#[derive(Debug, Clone, Copy, PartialEq, Eq, Structural)]
pub enum TubeState {
    Ready,
    Loading,
    Empty,
}

/// The state of tube `i` when `ready` tubes are loaded out of `tubes_max`:
/// the loaded ones first, then the one being reloaded, then the empty rest.
pub open spec fn tube_state(i: int, ready: int, tubes_max: int) -> TubeState {
    if i < ready {
        TubeState::Ready
    } else if i == ready && ready < tubes_max {
        TubeState::Loading
    } else {
        TubeState::Empty
    }
}

/// The tube row, one state per tube.
pub fn tube_states(ready: u32, tubes_max: u32) -> (row: Vec<TubeState>)
    ensures
        row@.len() == tubes_max,
        forall|i: int| 0 <= i < tubes_max ==> #[trigger] row@[i] == tube_state(
            i,
            ready as int,
            tubes_max as int,
        ),
{
    let mut row: Vec<TubeState> = Vec::new();
    let mut i: u32 = 0;
    while i < tubes_max
        invariant
            i <= tubes_max,
            row@.len() == i,
            forall|j: int| 0 <= j < i ==> #[trigger] row@[j] == tube_state(
                j,
                ready as int,
                tubes_max as int,
            ),
        decreases tubes_max - i,
    {
        let state = if i < ready {
            TubeState::Ready
        } else if i == ready && ready < tubes_max {
            TubeState::Loading
        } else {
            TubeState::Empty
        };
        row.push(state);
        i = i + 1;
    }
    row
}

// ------------------------------------------------------------- pixels

/// One straight-alpha channel from a premultiplied one: scaled back up by the
/// alpha and capped at full intensity.
pub open spec fn unpremul_channel(c: u8, a: u8) -> u8 {
    let x = (c as int * 255) / (a as int);
    if x > 255 {
        255
    } else {
        x as u8
    }
}

/// A premultiplied BGRA pixel as straight-alpha RGBA. A fully transparent
/// pixel is all zeros.
pub open spec fn unpremultiply_spec(b: u8, g: u8, r: u8, a: u8) -> Seq<u8> {
    if a == 0 {
        seq![0u8, 0u8, 0u8, 0u8]
    } else {
        seq![unpremul_channel(r, a), unpremul_channel(g, a), unpremul_channel(b, a), a]
    }
}

fn unpremul(c: u8, a: u8) -> (out: u8)
    requires
        a > 0,
    ensures
        out == unpremul_channel(c, a),
{
    let x = (c as u16 * 255) / a as u16;
    if x > 255 {
        255
    } else {
        x as u8
    }
}

/// Convert one premultiplied BGRA pixel into straight-alpha RGBA.
pub fn unpremultiply(b: u8, g: u8, r: u8, a: u8) -> (rgba: [u8; 4])
    ensures
        rgba@ == unpremultiply_spec(b, g, r, a),
{
    if a == 0 {
        let out = [0u8, 0u8, 0u8, 0u8];
        proof {
            assert(out@ =~= unpremultiply_spec(b, g, r, a));
        }
        out
    } else {
        let out = [unpremul(r, a), unpremul(g, a), unpremul(b, a), a];
        proof {
            assert(out@ =~= unpremultiply_spec(b, g, r, a));
        }
        out
    }
}

/// The straight-alpha RGBA that pixel (`x`, `y`) of a premultiplied BGRA
/// surface with rows `row_bytes` apart becomes.
pub open spec fn surface_pixel(pixels: Seq<u8>, row_bytes: int, y: int, x: int) -> Seq<u8> {
    let si = y * row_bytes + x * 4;
    unpremultiply_spec(pixels[si], pixels[si + 1], pixels[si + 2], pixels[si + 3])
}

/// Byte `k` of pixel (`x`, `y`) in a tightly packed RGBA image `w` wide.
pub open spec fn image_byte(dst: Seq<u8>, w: int, y: int, x: int, k: int) -> u8 {
    dst[y * w * 4 + x * 4 + k]
}

/// Pixel (`x`, `y`) is read from its own four bytes: the pixel's bytes start
/// `y` rows and `4 * x` bytes into the surface, blue, green, red, alpha.
pub proof fn law_each_pixel_reads_its_own_bytes(pixels: Seq<u8>, row_bytes: int, y: int, x: int)
    ensures
        surface_pixel(pixels, row_bytes, y, x) == unpremultiply_spec(
            pixels[y * row_bytes + 4 * x],
            pixels[y * row_bytes + 4 * x + 1],
            pixels[y * row_bytes + 4 * x + 2],
            pixels[y * row_bytes + 4 * x + 3],
        ),
{
}

/// Two surfaces that agree on the four bytes of pixel (`x`, `y`) give that
/// pixel the same colour, whatever their other pixels hold.
pub proof fn law_a_pixel_depends_on_its_bytes_alone(
    p: Seq<u8>,
    q: Seq<u8>,
    row_bytes: int,
    y: int,
    x: int,
)
    requires
        p[y * row_bytes + 4 * x] == q[y * row_bytes + 4 * x],
        p[y * row_bytes + 4 * x + 1] == q[y * row_bytes + 4 * x + 1],
        p[y * row_bytes + 4 * x + 2] == q[y * row_bytes + 4 * x + 2],
        p[y * row_bytes + 4 * x + 3] == q[y * row_bytes + 4 * x + 3],
    ensures
        surface_pixel(p, row_bytes, y, x) == surface_pixel(q, row_bytes, y, x),
{
    law_each_pixel_reads_its_own_bytes(p, row_bytes, y, x);
    law_each_pixel_reads_its_own_bytes(q, row_bytes, y, x);
}

/// An opaque pixel keeps its colour: only the channel order changes, from
/// blue-green-red to red-green-blue. A fully transparent one is all zeros.
pub proof fn law_opaque_pixels_keep_their_colour(b: u8, g: u8, r: u8)
    ensures
        unpremultiply_spec(b, g, r, 255) == seq![r, g, b, 255u8],
        unpremultiply_spec(b, g, r, 0) == seq![0u8, 0u8, 0u8, 0u8],
{
    assert((r as int * 255) / 255 == r as int);
    assert((g as int * 255) / 255 == g as int);
    assert((b as int * 255) / 255 == b as int);
    assert(unpremultiply_spec(b, g, r, 255) =~= seq![r, g, b, 255u8]);
}

proof fn lemma_cell_before(w: int, yy: int, xx: int, y: int, x: int)
    by (nonlinear_arith)
    requires
        0 <= xx < w,
        0 <= x,
        0 <= yy,
        yy < y || (yy == y && xx < x),
    ensures
        yy * w * 4 + xx * 4 + 3 < y * w * 4 + x * 4,
{
}

proof fn lemma_cell_bounds(w: int, h: int, y: int, x: int)
    by (nonlinear_arith)
    requires
        0 <= y < h,
        0 <= x < w,
    ensures
        0 <= y * w,
        y * w <= y * w * 4,
        0 <= y * w * 4 + x * 4,
        y * w * 4 + x * 4 + 4 <= h * w * 4,
{
}

proof fn lemma_source_bounds(row_bytes: int, w: int, h: int, y: int, x: int)
    by (nonlinear_arith)
    requires
        0 <= y < h,
        0 <= x < w,
        0 <= row_bytes,
    ensures
        0 <= y * row_bytes + x * 4,
        y * row_bytes + x * 4 + 4 <= (h - 1) * row_bytes + w * 4,
{
}

/// Copy a premultiplied BGRA surface (rows `row_bytes` apart) into a tightly
/// packed straight-alpha RGBA image `w` by `h`, converting every pixel; bytes
/// of `dst` past the image are left alone.
pub fn copy_unpremultiplied(
    pixels: &[u8],
    row_bytes: usize,
    w: usize,
    h: usize,
    dst: &mut Vec<u8>,
)
    requires
        h > 0 && w > 0 ==> (h - 1) * row_bytes + w * 4 <= pixels@.len(),
        h * w * 4 <= old(dst)@.len(),
    ensures
        final(dst)@.len() == old(dst)@.len(),
        forall|y: int, x: int, k: int|
            0 <= y < h && 0 <= x < w && 0 <= k < 4 ==> #[trigger] image_byte(
                final(dst)@,
                w as int,
                y,
                x,
                k,
            ) == surface_pixel(pixels@, row_bytes as int, y, x)[k],
        forall|y: int, x: int, k: int|
            0 <= y < h && 0 <= x < w && 0 <= k < 4 ==> #[trigger] image_byte(
                final(dst)@,
                w as int,
                y,
                x,
                k,
            ) == unpremultiply_spec(
                pixels@[y * row_bytes + 4 * x],
                pixels@[y * row_bytes + 4 * x + 1],
                pixels@[y * row_bytes + 4 * x + 2],
                pixels@[y * row_bytes + 4 * x + 3],
            )[k],
        forall|i: int| h * w * 4 <= i < old(dst)@.len() ==> #[trigger] final(dst)@[i] == old(dst)@[i],
{
    if w == 0 {
        return;
    }
    let ghost orig = dst@;
    let plen = pixels.len();
    let dlen = dst.len();
    let mut y: usize = 0;
    while y < h
        invariant
            0 < w,
            y <= h,
            h > 0 ==> (h - 1) * row_bytes + w * 4 <= pixels@.len(),
            plen == pixels@.len(),
            dlen == orig.len(),
            h * w * 4 <= orig.len(),
            dst@.len() == orig.len(),
            forall|yy: int, xx: int, k: int|
                0 <= yy < y && 0 <= xx < w && 0 <= k < 4 ==> #[trigger] image_byte(
                    dst@,
                    w as int,
                    yy,
                    xx,
                    k,
                ) == surface_pixel(pixels@, row_bytes as int, yy, xx)[k],
            forall|i: int| y * w * 4 <= i < orig.len() ==> #[trigger] dst@[i] == orig[i],
        decreases h - y,
    {
        let mut x: usize = 0;
        while x < w
            invariant
                0 < w,
                y < h,
                x <= w,
                (h - 1) * row_bytes + w * 4 <= pixels@.len(),
                plen == pixels@.len(),
                dlen == orig.len(),
                h * w * 4 <= orig.len(),
                dst@.len() == orig.len(),
                forall|yy: int, xx: int, k: int|
                    0 <= k < 4 && 0 <= xx < w && 0 <= yy && (yy < y || (yy == y && xx < x))
                        ==> #[trigger] image_byte(dst@, w as int, yy, xx, k) == surface_pixel(
                        pixels@,
                        row_bytes as int,
                        yy,
                        xx,
                    )[k],
                forall|i: int| y * w * 4 + x * 4 <= i < orig.len() ==> #[trigger] dst@[i] == orig[i],
            decreases w - x,
        {
            proof {
                lemma_source_bounds(row_bytes as int, w as int, h as int, y as int, x as int);
                lemma_cell_bounds(w as int, h as int, y as int, x as int);
            }
            let si = y * row_bytes + x * 4;
            let di = y * w * 4 + x * 4;
            let rgba = unpremultiply(pixels[si], pixels[si + 1], pixels[si + 2], pixels[si + 3]);
            let ghost before = dst@;
            dst.set(di, rgba[0]);
            dst.set(di + 1, rgba[1]);
            dst.set(di + 2, rgba[2]);
            dst.set(di + 3, rgba[3]);
            proof {
                assert forall|yy: int, xx: int, k: int|
                    0 <= k < 4 && 0 <= xx < w && 0 <= yy && (yy < y || (yy == y && xx < x + 1))
                        implies #[trigger] image_byte(dst@, w as int, yy, xx, k) == surface_pixel(
                        pixels@,
                        row_bytes as int,
                        yy,
                        xx,
                    )[k] by {
                    if yy == y && xx == x {
                        assert(image_byte(dst@, w as int, yy, xx, k) == rgba@[k]);
                    } else {
                        lemma_cell_before(w as int, yy, xx, y as int, x as int);
                        assert(image_byte(dst@, w as int, yy, xx, k) == image_byte(
                            before,
                            w as int,
                            yy,
                            xx,
                            k,
                        ));
                    }
                }
            }
            x = x + 1;
        }
        proof {
            assert(y * w * 4 + w * 4 == (y + 1) * w * 4) by (nonlinear_arith);
        }
        y = y + 1;
    }
}

// ------------------------------------------------------------ transport

/// The script that hands a payload to one of the page's entry points, the
/// payload carried as an escaped single-quoted literal.
pub open spec fn apply_script(entry: Seq<char>, json: Seq<char>) -> Seq<char> {
    "window."@ + entry + "('"@ + escape_js(json) + "')"@
}

fn script_for(entry: &str, json: &str) -> (script: String)
    ensures
        script@ == apply_script(entry@, json@),
{
    let mut script = String::new();
    script.append("window.");
    script.append(entry);
    script.append("('");
    let esc = js_string_literal(json);
    script.append(esc.as_str());
    script.append("')");
    proof {
        assert(script@ =~= apply_script(entry@, json@));
    }
    script
}

/// The script that pushes a HUD snapshot into the page.
pub fn apply_hud_script(json: &str) -> (script: String)
    ensures
        script@ == apply_script("__applyHud"@, json@),
{
    script_for("__applyHud", json)
}

/// The script that pushes a ring payload into the page.
pub fn apply_rings_script(json: &str) -> (script: String)
    ensures
        script@ == apply_script("__applyRings"@, json@),
{
    script_for("__applyRings", json)
}

/// Where the page pulls in its bridge script.
pub open spec fn bridge_tag() -> Seq<char> {
    "<script src=\"bridge.js\"></script>"@
}

/// The HUD page made self-contained: the bridge script inlined where the page
/// links it, and the string table handed to `__applyStrings` just before the
/// body closes, so nothing has to be resolved from disk.
pub open spec fn hud_document_spec(html: Seq<char>, bridge: Seq<char>, table: Seq<char>) -> Seq<char> {
    replace_all(
        replace_all(html, bridge_tag(), "<script>"@ + bridge + "</script>"@),
        "</body>"@,
        "<script>window.__applyStrings('"@ + escape_js(table) + "');</script></body>"@,
    )
}

/// Build the self-contained HUD page from the page, its bridge script and the
/// string table's JSON.
pub fn hud_document(html: &str, bridge: &str, table_json: &str) -> (doc: String)
    ensures
        doc@ == hud_document_spec(html@, bridge@, table_json@),
{
    let mut inline_bridge = String::new();
    inline_bridge.append("<script>");
    inline_bridge.append(bridge);
    inline_bridge.append("</script>");
    let with_bridge = replace_str(html, "<script src=\"bridge.js\"></script>", inline_bridge.as_str());
    let mut strings = String::new();
    strings.append("<script>window.__applyStrings('");
    let table = js_string_literal(table_json);
    strings.append(table.as_str());
    strings.append("');</script></body>");
    let doc = replace_str(with_bridge.as_str(), "</body>", strings.as_str());
    doc
}

/// What the native transport remembers between frames: the size the view and
/// its texture were made at, and the last snapshot and ring payload the page
/// was handed.
#[derive(Debug, Clone, Copy, PartialEq, Eq, Structural)]
pub struct HudPort {
    pub width: usize,
    pub height: usize,
    pub last_seq: u64,
    pub last_ring_seq: u64,
}

/// Whether a payload needs pushing: only when its sequence has moved since the
/// last one pushed. The sequence is remembered either way.
pub fn seq_moved(last: &mut u64, seq: u64) -> (push: bool)
    ensures
        push == (seq != *old(last)),
        *final(last) == seq,
{
    let push = seq != *last;
    *last = seq;
    push
}

impl HudPort {
    /// A port for a view made `width` by `height` (each at least one pixel),
    /// that has been handed nothing yet.
    pub fn new(width: usize, height: usize) -> (p: HudPort)
        ensures
            p.width == if width > 1 { width } else { 1 },
            p.height == if height > 1 { height } else { 1 },
            p.last_seq == 0,
            p.last_ring_seq == 0,
    {
        HudPort {
            width: if width > 1 { width } else { 1 },
            height: if height > 1 { height } else { 1 },
            last_seq: 0,
            last_ring_seq: 0,
        }
    }

    /// Follow the window to a new size. Returns whether the view must be
    /// resized; when it must, the next frame repaints into the reshaped buffer,
    /// so both payloads are pushed again.
    pub fn resize(&mut self, width: usize, height: usize) -> (changed: bool)
        ensures
            ({
                let w = if width > 1 { width } else { 1 };
                let h = if height > 1 { height } else { 1 };
                &&& changed == (w != old(self).width || h != old(self).height)
                &&& changed ==> *final(self) == (HudPort { width: w, height: h, last_seq: 0, last_ring_seq: 0 })
                &&& !changed ==> *final(self) == *old(self)
            }),
    {
        let w = if width > 1 { width } else { 1 };
        let h = if height > 1 { height } else { 1 };
        if w == self.width && h == self.height {
            return false;
        }
        self.width = w;
        self.height = h;
        self.last_seq = 0;
        self.last_ring_seq = 0;
        true
    }

    /// Whether this frame's HUD snapshot must be pushed.
    pub fn take_snapshot(&mut self, seq: u64) -> (push: bool)
        ensures
            push == (seq != old(self).last_seq),
            *final(self) == (HudPort { last_seq: seq, ..*old(self) }),
    {
        seq_moved(&mut self.last_seq, seq)
    }

    /// Whether this frame's ring payload must be pushed.
    pub fn take_rings(&mut self, seq: u64) -> (push: bool)
        ensures
            push == (seq != old(self).last_ring_seq),
            *final(self) == (HudPort { last_ring_seq: seq, ..*old(self) }),
    {
        seq_moved(&mut self.last_ring_seq, seq)
    }
}

} // verus!
