//! The header row: title badge and playback state.

use vstd::prelude::*;

use crate::config;
use crate::text::{decimal, push_padded, string_of};

verus! {

/// Whether the LIVE dot is lit at `now`. It blinks, one state per
/// `LIVE_BLINK_MS`, counting whole steps away from zero.
pub open spec fn spec_live_dot_on(now: int) -> bool {
    ((if now < 0 { -now } else { now }) / config::LIVE_BLINK_MS as int) % 2 == 0
}

/// Whether the LIVE dot is lit at `now`.
pub fn live_dot_on(now: i64) -> (r: bool)
    ensures
        r == spec_live_dot_on(now as int),
{
    let magnitude: i128 = if now < 0 { -(now as i128) } else { now as i128 };
    (magnitude / config::LIVE_BLINK_MS as i128) % 2 == 0
}

/// " [i/n]": where the current track sits in the playlist, counting from
/// one, shown only when there is more than one track.
pub open spec fn spec_track_badge(index: nat, count: nat) -> Option<Seq<char>> {
    if count > 1 {
        Some(seq![' ', '['] + decimal(index + 1) + seq!['/'] + decimal(count) + seq![']'])
    } else {
        None
    }
}

/// The track badge beside the title, if there is more than one track.
pub fn track_badge(index: usize, count: usize) -> (r: Option<String>)
    requires
        index < usize::MAX,
    ensures
        match r {
            Some(s) => spec_track_badge(index as nat, count as nat) == Some(s@),
            None => spec_track_badge(index as nat, count as nat) is None,
        },
{
    if count <= 1 {
        return None;
    }
    let mut out: Vec<char> = Vec::new();
    out.push(' ');
    out.push('[');
    push_padded(&mut out, (index + 1) as u64, 0);
    out.push('/');
    push_padded(&mut out, count as u64, 0);
    out.push(']');
    proof {
        assert(crate::text::padded((index + 1) as nat, 0) == decimal((index + 1) as nat));
        assert(crate::text::padded(count as nat, 0) == decimal(count as nat));
        assert(out@ == seq![' ', '['] + decimal(index as nat + 1) + seq!['/'] + decimal(count as nat)
            + seq![']']);
    }
    Some(string_of(&out))
}

/// The LIVE dot blinks with a steady beat: it is lit for the first
/// `LIVE_BLINK_MS` of the song, every further `LIVE_BLINK_MS` flips it, and
/// it blinks the same way before the start as after it.
pub proof fn lemma_live_dot_blinks(now: int)
    ensures
        0 <= now < config::LIVE_BLINK_MS ==> spec_live_dot_on(now),
        now >= 0 ==> spec_live_dot_on(now + config::LIVE_BLINK_MS) == !spec_live_dot_on(now),
        spec_live_dot_on(-now) == spec_live_dot_on(now),
{
    let b = config::LIVE_BLINK_MS as int;
    if now >= 0 {
        vstd::arithmetic::div_mod::lemma_div_plus_one(now, b);
        vstd::arithmetic::div_mod::lemma_add_mod_noop(now / b, 1, 2);
    }
    if 0 <= now < b {
        vstd::arithmetic::div_mod::lemma_basic_div(now, b);
    }
}

} // verus!
