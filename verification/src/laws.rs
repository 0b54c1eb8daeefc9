//! The laws the mixer obeys, stated over [`MixerView`] and proved from the
//! transition functions that the operations' contracts are written in.
//!
//! Each public proof function here is part of the library's statement: it
//! records a guarantee that relates several operations, beyond what any one
//! operation's own contract says.

use vstd::prelude::*;
use crate::mixer::{
    chan_effective_bp, channel_index, default_channel, has_channel, lemma_channel_index_unique,
    lemma_set_chan, master_actions, play_actions, stop_actions, stop_all_actions,
    BackendActionView, Channel, ChannelState, MixerView,
};

verus! {

/// The channel looked up under an id carries that id.
pub proof fn lemma_chan_id(v: MixerView, id: u32)
    ensures
        v.chan(id).id == id,
{
    if has_channel(v.entries, id) {
        let i = channel_index(v.entries, id);
        assert(0 <= i < v.entries.len() && v.entries[i].id == id);
    }
}

/// Replacing the channel under one id twice is the same as replacing it
/// once with the second value.
pub proof fn lemma_set_chan_twice(v: MixerView, id: u32, a: Channel, b: Channel)
    requires
        v.wf(),
        a.id == id,
        b.id == id,
    ensures
        v.set_chan(id, a).set_chan(id, b) == v.set_chan(id, b),
{
    let v1 = v.set_chan(id, a);
    lemma_set_chan(v, id, a);
    if has_channel(v.entries, id) {
        let i = channel_index(v.entries, id);
        assert(0 <= i < v.entries.len() && v.entries[i].id == id);
        lemma_channel_index_unique(v1.entries, id, i);
        assert(v1.set_chan(id, b).entries =~= v.set_chan(id, b).entries);
        assert(v1.set_chan(id, b) =~~= v.set_chan(id, b));
    } else {
        let i = v.entries.len() as int;
        lemma_channel_index_unique(v1.entries, id, i);
        assert(v1.set_chan(id, b).entries =~= v.set_chan(id, b).entries);
        assert(v1.set_chan(id, b) =~~= v.set_chan(id, b));
    }
}

/// Law: starting a channel is idempotent. After one start the channel
/// plays, a second start changes nothing and asks the backend for nothing,
/// so two starts leave exactly the one voice of the first.
pub proof fn lemma_play_idempotent(v: MixerView, id: u32)
    requires
        v.wf(),
    ensures
        v.play_tr(id).wf(),
        v.play_tr(id).chan(id).state == ChannelState::Playing,
        v.play_tr(id).play_tr(id) == v.play_tr(id),
        play_actions(v.play_tr(id), id) == Seq::<BackendActionView>::empty(),
{
    let c = v.chan(id);
    if c.state != ChannelState::Playing {
        lemma_chan_id(v, id);
        lemma_set_chan(
            v,
            id,
            Channel {
                id: c.id,
                volume_pct: c.volume_pct,
                muted: c.muted,
                state: ChannelState::Playing,
            },
        );
    }
}

/// Law: stopping a channel that has no voice — in particular an id that was
/// never started — changes nothing and asks the backend for nothing.
pub proof fn lemma_stop_absent_noop(v: MixerView, id: u32)
    requires
        v.chan(id).state == ChannelState::Absent,
    ensures
        v.stop_tr(id) == v,
        stop_actions(v, id) == Seq::<BackendActionView>::empty(),
{
}

/// Law: storing a volume and starting the channel commute. Setting the
/// volume and then starting reaches exactly the state of starting and then
/// setting the volume, so both orders converge to the same effective
/// volume.
pub proof fn lemma_set_volume_play_commute(v: MixerView, id: u32, percent: u32)
    requires
        v.wf(),
    ensures
        v.set_volume_tr(id, percent).play_tr(id) == v.play_tr(id).set_volume_tr(id, percent),
{
    let c = v.chan(id);
    lemma_chan_id(v, id);
    let cv = Channel { id, volume_pct: percent, muted: c.muted, state: c.state };
    if c.state == ChannelState::Playing {
        lemma_set_chan(v, id, cv);
    } else {
        let cp = Channel {
            id,
            volume_pct: c.volume_pct,
            muted: c.muted,
            state: ChannelState::Playing,
        };
        let cvp = Channel { id, volume_pct: percent, muted: c.muted, state: ChannelState::Playing };
        lemma_set_chan(v, id, cv);
        lemma_set_chan(v, id, cp);
        lemma_set_chan_twice(v, id, cv, cvp);
        lemma_set_chan_twice(v, id, cp, cvp);
    }
}

/// Law: muting forces the effective volume to zero whatever the stored and
/// master volumes are; unmuting restores stored volume times master.
pub proof fn lemma_mute_forces_silence(v: MixerView, id: u32)
    requires
        v.wf(),
    ensures
        chan_effective_bp(v.mute_tr(id, true).chan(id), v.mute_tr(id, true).master_pct) == 0,
        chan_effective_bp(v.mute_tr(id, false).chan(id), v.mute_tr(id, false).master_pct) == v.chan(
            id,
        ).volume_pct * v.master_pct,
{
    let c = v.chan(id);
    lemma_chan_id(v, id);
    lemma_set_chan(v, id, Channel { id, volume_pct: c.volume_pct, muted: true, state: c.state });
    lemma_set_chan(v, id, Channel { id, volume_pct: c.volume_pct, muted: false, state: c.state });
}

/// Law: a reset reaches the state of a fresh mixer — every channel back in
/// its default state, master volume 100% — and a second reset changes
/// nothing and asks the backend for nothing. Only the loaded catalog
/// survives a reset.
pub proof fn lemma_reset_all_fresh(v: MixerView)
    ensures
        v.reset_tr().wf(),
        v.reset_tr().entries == MixerView::init().entries,
        v.reset_tr().master_pct == MixerView::init().master_pct,
        forall|id: u32| v.reset_tr().chan(id) == default_channel(id),
        v.reset_tr().reset_tr() == v.reset_tr(),
        stop_all_actions(v.reset_tr().entries) == Seq::<BackendActionView>::empty(),
{
    assert forall|id: u32| v.reset_tr().chan(id) == default_channel(id) by {
        assert(!has_channel(Seq::<Channel>::empty(), id));
    }
    assert(v.reset_tr().reset_tr() =~~= v.reset_tr());
}

/// Law: a new master volume scales every unmuted channel's effective volume
/// to stored volume times the new master, so the ratio between any two
/// unmuted channels' effective volumes is the ratio of their stored
/// volumes.
pub proof fn lemma_master_scales_proportionally(v: MixerView, id1: u32, id2: u32, percent: u32)
    requires
        v.wf(),
        !v.chan(id1).muted,
        !v.chan(id2).muted,
    ensures
        chan_effective_bp(v.set_master_tr(percent).chan(id1), v.set_master_tr(percent).master_pct)
            == v.chan(id1).volume_pct * percent,
        chan_effective_bp(v.set_master_tr(percent).chan(id2), v.set_master_tr(percent).master_pct)
            == v.chan(id2).volume_pct * percent,
        chan_effective_bp(v.set_master_tr(percent).chan(id1), percent) * v.chan(id2).volume_pct
            == chan_effective_bp(v.set_master_tr(percent).chan(id2), percent) * v.chan(
            id1,
        ).volume_pct,
{
    let e1 = v.chan(id1).volume_pct;
    let e2 = v.chan(id2).volume_pct;
    assert((e1 * percent) * e2 == (e2 * percent) * e1) by (nonlinear_arith);
}

/// Law: a master volume change retunes every channel that owns a voice,
/// paused ones included: the action list carries, for each such channel, a
/// retune to its effective volume under the new master.
pub proof fn lemma_master_actions_cover(s: Seq<Channel>, percent: u32, i: int)
    requires
        0 <= i < s.len(),
        s[i].state != ChannelState::Absent,
    ensures
        master_actions(s, percent).contains(
            BackendActionView::SetVoiceVolume {
                id: s[i].id,
                volume_bp: chan_effective_bp(s[i], percent) as u64,
            },
        ),
    decreases s.len(),
{
    let a = BackendActionView::SetVoiceVolume {
        id: s[i].id,
        volume_bp: chan_effective_bp(s[i], percent) as u64,
    };
    let prefix = master_actions(s.drop_last(), percent);
    if i == s.len() - 1 {
        assert(master_actions(s, percent)[prefix.len() as int] == a);
    } else {
        lemma_master_actions_cover(s.drop_last(), percent, i);
        let j = choose|j: int| 0 <= j < prefix.len() && prefix[j] == a;
        assert(master_actions(s, percent)[j] == a);
    }
}

/// Law: a reset destroys every voice: the action list carries a stop for
/// each channel that owned one.
pub proof fn lemma_reset_actions_cover(s: Seq<Channel>, i: int)
    requires
        0 <= i < s.len(),
        s[i].state != ChannelState::Absent,
    ensures
        stop_all_actions(s).contains(BackendActionView::StopVoice { id: s[i].id }),
    decreases s.len(),
{
    let a = BackendActionView::StopVoice { id: s[i].id };
    let prefix = stop_all_actions(s.drop_last());
    if i == s.len() - 1 {
        assert(stop_all_actions(s)[prefix.len() as int] == a);
    } else {
        lemma_reset_actions_cover(s.drop_last(), i);
        let j = choose|j: int| 0 <= j < prefix.len() && prefix[j] == a;
        assert(stop_all_actions(s)[j] == a);
    }
}

} // verus!
