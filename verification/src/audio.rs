//! The time label of the audio player: elapsed and total time, as
//! `mm:ss/mm:ss`, or `hh:mm:ss/hh:mm:ss` once the total reaches an hour.

use vstd::prelude::*;
use vstd::string::StringExecFns;

use rustc_hash::FxHashMap;

use crate::animation::{merge_spec, AnimationSchedule};
use crate::element_id::{create_unique_element_id, IdCounter};
use crate::store::{
    add_new_children, all_new, keeps_all, lemma_keeps_all_step, lemma_settled_kept, same_node, settled, DynElement,
    RetainedElements,
};

verus! {

/// The character of a decimal digit.
pub open spec fn digit_char(d: nat) -> char {
    if d == 0 {
        '0'
    } else if d == 1 {
        '1'
    } else if d == 2 {
        '2'
    } else if d == 3 {
        '3'
    } else if d == 4 {
        '4'
    } else if d == 5 {
        '5'
    } else if d == 6 {
        '6'
    } else if d == 7 {
        '7'
    } else if d == 8 {
        '8'
    } else {
        '9'
    }
}

/// The decimal digits of `n`, without leading zeros.
pub open spec fn decimal(n: nat) -> Seq<char>
    decreases n,
{
    if n < 10 {
        seq![digit_char(n)]
    } else {
        decimal(n / 10).push(digit_char(n % 10))
    }
}

/// The decimal digits of `n`, padded with zeros to two.
pub open spec fn pad2(n: nat) -> Seq<char> {
    if n < 10 {
        seq!['0', digit_char(n)]
    } else {
        decimal(n)
    }
}

/// `h:m:s` with each part padded to two digits.
pub open spec fn clock3(h: nat, m: nat, s: nat) -> Seq<char> {
    pad2(h) + seq![':'] + pad2(m) + seq![':'] + pad2(s)
}

/// `m:s` with each part padded to two digits.
pub open spec fn clock2(m: nat, s: nat) -> Seq<char> {
    pad2(m) + seq![':'] + pad2(s)
}

/// The time label for `current` of `total` seconds.
pub open spec fn time_label(current: nat, total: nat) -> Seq<char> {
    if total / 3600 > 0 {
        clock3(current / 3600, (current % 3600) / 60, current % 60) + seq!['/'] + clock3(
            total / 3600,
            (total % 3600) / 60,
            total % 60,
        )
    } else {
        clock2((current % 3600) / 60, current % 60) + seq!['/'] + clock2((total % 3600) / 60, total % 60)
    }
}

fn digit_str(d: u32) -> (r: &'static str)
    requires
        d < 10,
    ensures
        r@ == seq![digit_char(d as nat)],
{
    if d == 0 {
        proof {
            reveal_strlit("0");
        }
        "0"
    } else if d == 1 {
        proof {
            reveal_strlit("1");
        }
        "1"
    } else if d == 2 {
        proof {
            reveal_strlit("2");
        }
        "2"
    } else if d == 3 {
        proof {
            reveal_strlit("3");
        }
        "3"
    } else if d == 4 {
        proof {
            reveal_strlit("4");
        }
        "4"
    } else if d == 5 {
        proof {
            reveal_strlit("5");
        }
        "5"
    } else if d == 6 {
        proof {
            reveal_strlit("6");
        }
        "6"
    } else if d == 7 {
        proof {
            reveal_strlit("7");
        }
        "7"
    } else if d == 8 {
        proof {
            reveal_strlit("8");
        }
        "8"
    } else {
        proof {
            reveal_strlit("9");
        }
        "9"
    }
}

/// Appends the decimal digits of `n`.
fn push_decimal(s: &mut String, n: u32)
    ensures
        final(s)@ == old(s)@ + decimal(n as nat),
    decreases n,
{
    if n < 10 {
        s.append(digit_str(n));
    } else {
        push_decimal(s, n / 10);
        s.append(digit_str(n % 10));
        assert(decimal(n as nat) == decimal((n / 10) as nat).push(digit_char((n % 10) as nat)));
        assert(s@ =~= old(s)@ + decimal(n as nat));
    }
}

/// Appends the decimal digits of a wide `n`.
pub(crate) fn push_decimal_wide(s: &mut String, n: u128)
    ensures
        final(s)@ == old(s)@ + decimal(n as nat),
    decreases n,
{
    if n < 10 {
        s.append(digit_str(n as u32));
    } else {
        push_decimal_wide(s, n / 10);
        s.append(digit_str((n % 10) as u32));
        assert(decimal(n as nat) == decimal((n / 10) as nat).push(digit_char((n % 10) as nat)));
        assert(s@ =~= old(s)@ + decimal(n as nat));
    }
}

/// Appends the digits of `n`, padded with zeros to two.
fn push_pad2(s: &mut String, n: u32)
    ensures
        final(s)@ == old(s)@ + pad2(n as nat),
{
    if n < 10 {
        proof {
            reveal_strlit("0");
        }
        s.append("0");
        s.append(digit_str(n));
        assert(s@ =~= old(s)@ + pad2(n as nat));
    } else {
        push_decimal(s, n);
    }
}

fn push_sep(s: &mut String, colon: bool)
    ensures
        final(s)@ == old(s)@ + (if colon {
            seq![':']
        } else {
            seq!['/']
        }),
{
    if colon {
        proof {
            reveal_strlit(":");
        }
        s.append(":");
    } else {
        proof {
            reveal_strlit("/");
        }
        s.append("/");
    }
}

/// The audio player's time label: elapsed and total time split into hours,
/// minutes and seconds, each padded to two digits; hours are shown for both
/// when the total reaches an hour.
pub fn format_time(current_time: u32, total_time: u32) -> (r: String)
    ensures
        r@ == time_label(current_time as nat, total_time as nat),
{
    let mut s = String::new();
    if total_time / 3600 > 0 {
        push_pad2(&mut s, current_time / 3600);
        push_sep(&mut s, true);
        push_pad2(&mut s, (current_time % 3600) / 60);
        push_sep(&mut s, true);
        push_pad2(&mut s, current_time % 60);
        push_sep(&mut s, false);
        push_pad2(&mut s, total_time / 3600);
        push_sep(&mut s, true);
        push_pad2(&mut s, (total_time % 3600) / 60);
        push_sep(&mut s, true);
        push_pad2(&mut s, total_time % 60);
    } else {
        push_pad2(&mut s, (current_time % 3600) / 60);
        push_sep(&mut s, true);
        push_pad2(&mut s, current_time % 60);
        push_sep(&mut s, false);
        push_pad2(&mut s, (total_time % 3600) / 60);
        push_sep(&mut s, true);
        push_pad2(&mut s, total_time % 60);
    }
    assert(s@ =~= time_label(current_time as nat, total_time as nat));
    s
}

/// Minutes and seconds always take two digits each, so a label under an
/// hour is eleven characters long, `mm:ss/mm:ss`, with its separators at
/// fixed places.
pub proof fn lemma_short_label_shape(current: nat, total: nat)
    requires
        total < 3600,
    ensures
        time_label(current, total).len() == 11,
        time_label(current, total)[2] == ':',
        time_label(current, total)[5] == '/',
        time_label(current, total)[8] == ':',
{
    lemma_pad2_two_digits((current % 3600) / 60);
    lemma_pad2_two_digits(current % 60);
    lemma_pad2_two_digits((total % 3600) / 60);
    lemma_pad2_two_digits(total % 60);
}

/// A number below a hundred pads to exactly two digits.
pub proof fn lemma_pad2_two_digits(n: nat)
    requires
        n < 100,
    ensures
        pad2(n).len() == 2,
{
    if n >= 10 {
        assert(decimal(n / 10).len() == 1);
    }
}

/// How often the player refreshes its time label while playing, in
/// nanoseconds.
pub const AUDIO_UI_UPDATE_INTERVAL_NANOS: u64 = 250_000_000;

/// An effect of pressing the play button.
#[derive(Clone, Copy, Debug, PartialEq, Eq, Structural)]
pub enum PlayerAction {
    /// Name the button for assistive technology: `true` for "pause",
    /// `false` for "play".
    LabelPause(bool),
    /// Show the pause icon (`true`) or the play icon (`false`).
    ShowPauseIcon(bool),
    PlaySound,
    StopSound,
    /// Refresh the time label from now on, asking for animation frames.
    StartProgress,
    /// Stop refreshing the time label.
    StopProgress,
}

/// Pressing the play button pauses a playing sound and plays a paused one;
/// the button's label and icon show what the next press does. Without a
/// loaded sound only the button changes (and, when pausing, the refresh
/// stops).
pub open spec fn toggle_spec(playing: bool, has_sound: bool) -> Seq<PlayerAction> {
    if playing {
        seq![PlayerAction::LabelPause(false), PlayerAction::ShowPauseIcon(false)] + (if has_sound {
            seq![PlayerAction::StopSound]
        } else {
            Seq::empty()
        }) + seq![PlayerAction::StopProgress]
    } else {
        seq![PlayerAction::LabelPause(true), PlayerAction::ShowPauseIcon(true)] + (if has_sound {
            seq![PlayerAction::PlaySound, PlayerAction::StartProgress]
        } else {
            Seq::empty()
        })
    }
}

/// The effects of pressing the play button.
pub fn toggle_actions(playing: bool, has_sound: bool) -> (r: Vec<PlayerAction>)
    ensures
        r@ == toggle_spec(playing, has_sound),
{
    let mut v: Vec<PlayerAction> = Vec::new();
    if playing {
        v.push(PlayerAction::LabelPause(false));
        v.push(PlayerAction::ShowPauseIcon(false));
        if has_sound {
            v.push(PlayerAction::StopSound);
        }
        v.push(PlayerAction::StopProgress);
    } else {
        v.push(PlayerAction::LabelPause(true));
        v.push(PlayerAction::ShowPauseIcon(true));
        if has_sound {
            v.push(PlayerAction::PlaySound);
            v.push(PlayerAction::StartProgress);
        }
    }
    assert(v@ =~= toggle_spec(playing, has_sound));
    v
}

/// When the player's time label is next refreshed, in nanoseconds.
#[derive(Clone, Copy, Debug, PartialEq, Eq, Structural)]
pub struct ProgressTimer {
    pub next_ui_update: Option<u64>,
}

impl ProgressTimer {
    /// Refreshing starts at once.
    pub fn start(&mut self, now: u64)
        ensures
            final(self).next_ui_update == Some(now),
    {
        self.next_ui_update = Some(now);
    }

    /// Refreshing stops.
    pub fn stop(&mut self)
        ensures
            final(self).next_ui_update is None,
    {
        self.next_ui_update = None;
    }

    /// Whether a refresh is due at `now`.
    pub fn is_due(&self, now: u64) -> (r: bool)
        ensures
            r == (self.next_ui_update matches Some(t) && now >= t),
    {
        match self.next_ui_update {
            Some(t) => now >= t,
            None => false,
        }
    }

    /// After a refresh at `now`: refreshing stops when the sound ended, and
    /// is otherwise due again one interval later.
    pub fn after_refresh(&mut self, now: u64, ended: bool)
        requires
            ended || now + AUDIO_UI_UPDATE_INTERVAL_NANOS <= u64::MAX,
        ensures
            final(self).next_ui_update == (if ended {
                None
            } else {
                Some((now + AUDIO_UI_UPDATE_INTERVAL_NANOS) as u64)
            }),
    {
        self.next_ui_update = if ended {
            None
        } else {
            Some(now + AUDIO_UI_UPDATE_INTERVAL_NANOS)
        };
    }

    /// The player's animation schedule: that of its style animations, or the
    /// next refresh if that comes first.
    pub fn schedule(&self, style_schedule: AnimationSchedule) -> (r: AnimationSchedule)
        ensures
            r == match self.next_ui_update {
                Some(t) => merge_spec(style_schedule, AnimationSchedule::At(t)),
                None => style_schedule,
            },
    {
        match self.next_ui_update {
            Some(t) => style_schedule.merge(AnimationSchedule::At(t)),
            None => style_schedule,
        }
    }
}

/// The play button always shows what its next press does: after a press
/// that starts playing it reads "pause", after one that pauses it reads
/// "play".
pub proof fn lemma_button_shows_next_press(playing: bool, has_sound: bool)
    ensures
        toggle_spec(playing, has_sound)[0] == PlayerAction::LabelPause(!playing),
        toggle_spec(playing, has_sound)[1] == PlayerAction::ShowPauseIcon(!playing),
{
}

/// The elements of an audio player, and its state.
pub struct AudioTree {
    /// Whether the sound is playing.
    pub playing: bool,
    /// Whether the controls are shown.
    pub controls: bool,
    /// The text of the time label.
    pub label: String,
    pub root: DynElement,
    pub play_button: DynElement,
    pub play_icon: DynElement,
    pub track: DynElement,
    pub time_label: DynElement,
    pub volume_icon: DynElement,
    pub volume_track: DynElement,
}

/// Builds an audio player for a sound of `total_seconds`: the player holds
/// its play button, which holds the play icon, then its track, time label,
/// volume icon and volume slider, in this order; every element is new and
/// the elements already in the store are left alike. The player starts
/// paused, with its controls shown and the time label at zero of the total.
pub fn build_audio_player(
    elements: &mut RetainedElements,
    by_internal_id: &mut FxHashMap<u64, DynElement>,
    ids: &mut IdCounter,
    total_seconds: u32,
) -> (r: AudioTree)
    requires
        old(elements).wf(),
        old(elements).nodes().len() + 7 < 0xffff_fffeu64,
    ensures
        final(elements).wf(),
        final(elements).spec_id() == old(elements).spec_id(),
        !old(elements).nodes().dom().contains(r.root.slot()),
        settled(*final(elements), r.root, seq![r.play_button, r.track, r.time_label, r.volume_icon, r.volume_track]),
        settled(*final(elements), r.play_button, seq![r.play_icon]),
        settled(*final(elements), r.play_icon, Seq::<DynElement>::empty()),
        settled(*final(elements), r.track, Seq::<DynElement>::empty()),
        settled(*final(elements), r.time_label, Seq::<DynElement>::empty()),
        settled(*final(elements), r.volume_icon, Seq::<DynElement>::empty()),
        settled(*final(elements), r.volume_track, Seq::<DynElement>::empty()),
        !r.playing,
        r.controls,
        r.label@ == time_label(0, total_seconds as nat),
        keeps_all(*old(elements), *final(elements)),
        final(elements).parent_of(r.root) is None,
        final(elements).node(r.root).window is None,
        all_new(*old(elements), seq![r.root, r.play_button, r.play_icon, r.track, r.time_label, r.volume_icon, r.volume_track]),
{
    let ghost s0 = *elements;
    let root_id = create_unique_element_id(ids);
    let root = elements.insert(root_id, by_internal_id);
    let ghost s1 = *elements;
    let kids = add_new_children(elements, by_internal_id, ids, root, 5);
    let ghost s2 = *elements;
    let play_button = kids[0];
    assert(!s1.nodes().dom().contains(kids@[0].slot()));
    let icon = add_new_children(elements, by_internal_id, ids, play_button, 1);
    let ghost s3 = *elements;
    let label = format_time(0, total_seconds);
    let r = AudioTree {
        playing: false,
        controls: true,
        label,
        root,
        play_button,
        play_icon: icon[0],
        track: kids[1],
        time_label: kids[2],
        volume_icon: kids[3],
        volume_track: kids[4],
    };
    proof {
        assert(s1.nodes().dom().contains(root.slot()));
        assert(!s1.nodes().dom().contains(kids@[0].slot()));
        assert(Seq::<DynElement>::empty() + kids@ =~= seq![r.play_button, r.track, r.time_label, r.volume_icon, r.volume_track]);
        assert(Seq::<DynElement>::empty() + icon@ =~= seq![r.play_icon]);
        lemma_settled_kept(s2, s3, play_button, root, seq![r.play_button, r.track, r.time_label, r.volume_icon, r.volume_track]);
        assert forall|i: int| 1 <= i < 5 implies settled(s3, #[trigger] kids@[i], Seq::<DynElement>::empty()) by {
            assert(!s1.nodes().dom().contains(kids@[i].slot()));
            lemma_settled_kept(s2, s3, play_button, kids@[i], Seq::<DynElement>::empty());
        }
        assert(!s2.nodes().dom().contains(icon@[0].slot()));
        assert(settled(s3, kids@[1], Seq::<DynElement>::empty()));
        assert(settled(s3, kids@[2], Seq::<DynElement>::empty()));
        assert(settled(s3, kids@[3], Seq::<DynElement>::empty()));
        assert(settled(s3, kids@[4], Seq::<DynElement>::empty()));
        assert forall|k: u64| #![trigger s1.nodes()[k]] s0.nodes().dom().contains(k) implies same_node(s1.nodes()[k], s0.nodes()[k]) by {
            assert(k != root.slot());
        }
        assert(keeps_all(s0, s1));
        lemma_keeps_all_step(s0, s1, s2, root);
        let r2 = s2.nodes()[root.slot()];
        let r3 = s3.nodes()[root.slot()];
        lemma_keeps_all_step(s0, s2, s3, play_button);
        let all = seq![r.root, r.play_button, r.play_icon, r.track, r.time_label, r.volume_icon, r.volume_track];
        assert forall|i: int| 0 <= i < 5 implies !s0.nodes().dom().contains(#[trigger] kids@[i].slot()) by {
            assert(!s1.nodes().dom().contains(kids@[i].slot()));
        }
        assert forall|i: int| 0 <= i < 7 implies !s0.nodes().dom().contains(#[trigger] all[i].slot()) by {}
    }
    r
}

} // verus!
