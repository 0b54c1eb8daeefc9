//! The channel registry and mixer controller.
//!
//! [`AudioPlayer`] holds the per-channel state (stored volume, mute flag,
//! transport state) and the master volume. Each operation updates the
//! registry and returns the [`BackendAction`]s an unverified playback layer
//! must apply to its voices so that they match the new state. Volumes are
//! held as integer percentages; the value pushed to a voice is the effective
//! volume in basis points (stored percent times master percent), zero while
//! muted.

use vstd::prelude::*;
use crate::catalog::{
    SoundCatalog, SourceSpec, SourceSpecView, opt_catalog_view, resolve_spec, resolve_source,
    SoundCategoryView,
};

verus! {

/// Transport state of one channel.
///
/// `Absent` means no voice exists for the channel; `Playing` and `Paused`
/// mean a voice exists and is audible or held, respectively.
#[derive(Clone, Copy, PartialEq, Eq, Structural, Debug)]
pub enum ChannelState {
    Absent,
    Playing,
    Paused,
}

/// One channel of the registry. A voice exists for the channel exactly when
/// `state` is not `Absent`.
#[derive(Clone, Copy, PartialEq, Eq, Structural, Debug)]
pub struct Channel {
    /// The id under which callers address this channel.
    pub id: u32,
    /// Stored volume as a percentage; 100 means full volume. Values above
    /// 100 are accepted and scale the source beyond unity, as the stored
    /// volume is never clamped.
    pub volume_pct: u32,
    /// While set, the effective volume is forced to zero.
    pub muted: bool,
    /// Transport state; `Absent` channels keep their volume and mute flag.
    pub state: ChannelState,
}

/// The state a channel has before any operation touched it: half volume,
/// unmuted, no voice.
pub open spec fn default_channel(id: u32) -> Channel {
    Channel { id, volume_pct: 50, muted: false, state: ChannelState::Absent }
}

/// Whether some entry of `s` carries the id.
pub open spec fn has_channel(s: Seq<Channel>, id: u32) -> bool {
    exists|i: int| 0 <= i < s.len() && s[i].id == id
}

/// The index of the entry carrying `id` (meaningful only under
/// [`wf_entries`], which makes it unique).
pub open spec fn channel_index(s: Seq<Channel>, id: u32) -> int {
    choose|i: int| 0 <= i < s.len() && s[i].id == id
}

/// No two entries share an id.
pub open spec fn wf_entries(s: Seq<Channel>) -> bool {
    forall|i: int, j: int|
        0 <= i < s.len() && 0 <= j < s.len() && i != j ==> s[i].id != s[j].id
}

/// Effective volume in basis points: what a voice is told to play at.
/// Zero while muted, otherwise the stored percentage scaled by the master
/// percentage (so 100% of 100% is 10000 basis points, unity gain).
pub open spec fn effective_volume_bp(volume_pct: u32, muted: bool, master_pct: u32) -> int {
    if muted {
        0
    } else {
        volume_pct * master_pct
    }
}

/// Effective volume of a channel entry under a given master volume.
pub open spec fn chan_effective_bp(c: Channel, master_pct: u32) -> int {
    effective_volume_bp(c.volume_pct, c.muted, master_pct)
}

/// Mathematical image of the whole mixer: the registry entries in order,
/// the master volume and the loaded catalog.
#[verifier::ext_equal]
pub ghost struct MixerView {
    pub entries: Seq<Channel>,
    pub master_pct: u32,
    pub catalog: Option<Seq<SoundCategoryView>>,
}

impl MixerView {
    /// The state of a freshly constructed mixer.
    pub open spec fn init() -> MixerView {
        MixerView { entries: Seq::empty(), master_pct: 100, catalog: None }
    }

    /// Registry well-formedness: one entry per id.
    pub open spec fn wf(self) -> bool {
        wf_entries(self.entries)
    }

    /// The channel under `id`: its registry entry, or the default state for
    /// an id no operation has touched yet.
    pub open spec fn chan(self, id: u32) -> Channel {
        if has_channel(self.entries, id) {
            self.entries[channel_index(self.entries, id)]
        } else {
            default_channel(id)
        }
    }

    /// The mixer with the channel under `id` replaced by `c`: entries are
    /// updated in place, an untouched id is materialized at the end.
    pub open spec fn set_chan(self, id: u32, c: Channel) -> MixerView {
        if has_channel(self.entries, id) {
            MixerView {
                entries: self.entries.update(channel_index(self.entries, id), c),
                master_pct: self.master_pct,
                catalog: self.catalog,
            }
        } else {
            MixerView {
                entries: self.entries.push(c),
                master_pct: self.master_pct,
                catalog: self.catalog,
            }
        }
    }

    /// Effect of `play_sound` on the registry: a channel that is already
    /// `Playing` is left alone; any other state becomes `Playing`.
    pub open spec fn play_tr(self, id: u32) -> MixerView {
        let c = self.chan(id);
        if c.state == ChannelState::Playing {
            self
        } else {
            self.set_chan(
                id,
                Channel {
                    id: c.id,
                    volume_pct: c.volume_pct,
                    muted: c.muted,
                    state: ChannelState::Playing,
                },
            )
        }
    }

    /// Effect of `stop_sound`: a channel with a voice loses it and becomes
    /// `Absent`; its stored volume and mute flag persist.
    pub open spec fn stop_tr(self, id: u32) -> MixerView {
        let c = self.chan(id);
        if c.state == ChannelState::Absent {
            self
        } else {
            self.set_chan(
                id,
                Channel {
                    id: c.id,
                    volume_pct: c.volume_pct,
                    muted: c.muted,
                    state: ChannelState::Absent,
                },
            )
        }
    }

    /// Effect of `set_volume`: the stored percentage is replaced; nothing
    /// else of the channel changes.
    pub open spec fn set_volume_tr(self, id: u32, percent: u32) -> MixerView {
        let c = self.chan(id);
        self.set_chan(
            id,
            Channel { id: c.id, volume_pct: percent, muted: c.muted, state: c.state },
        )
    }

    /// Effect of `mute_sound`: the mute flag is replaced.
    pub open spec fn mute_tr(self, id: u32, muted: bool) -> MixerView {
        let c = self.chan(id);
        self.set_chan(
            id,
            Channel { id: c.id, volume_pct: c.volume_pct, muted, state: c.state },
        )
    }

    /// Effect of `set_master_volume` on the registry: only the master
    /// percentage changes.
    pub open spec fn set_master_tr(self, percent: u32) -> MixerView {
        MixerView { entries: self.entries, master_pct: percent, catalog: self.catalog }
    }

    /// Effect of `set_all_playing`: every paused channel resumes; channels
    /// without a voice stay absent, a voice is never created here.
    pub open spec fn play_all_tr(self) -> MixerView {
        MixerView {
            entries: self.entries.map_values(|c: Channel| resume_channel(c)),
            master_pct: self.master_pct,
            catalog: self.catalog,
        }
    }

    /// Effect of `set_all_paused`: every playing channel is held.
    pub open spec fn pause_all_tr(self) -> MixerView {
        MixerView {
            entries: self.entries.map_values(|c: Channel| pause_channel(c)),
            master_pct: self.master_pct,
            catalog: self.catalog,
        }
    }

    /// Effect of `reset_all`: every voice is destroyed, every channel is
    /// back to its default state and the master volume is 100%. The loaded
    /// catalog is kept, as loading is independent of playback state.
    pub open spec fn reset_tr(self) -> MixerView {
        MixerView { entries: Seq::empty(), master_pct: 100, catalog: self.catalog }
    }

    /// Effect of `load_sound_catalog`: the stored catalog is replaced.
    pub open spec fn load_catalog_tr(self, cats: Seq<SoundCategoryView>) -> MixerView {
        MixerView { entries: self.entries, master_pct: self.master_pct, catalog: Some(cats) }
    }
}

/// A paused channel set back to playing; any other channel unchanged.
pub open spec fn resume_channel(c: Channel) -> Channel {
    if c.state == ChannelState::Paused {
        Channel { id: c.id, volume_pct: c.volume_pct, muted: c.muted, state: ChannelState::Playing }
    } else {
        c
    }
}

/// A playing channel put on hold; any other channel unchanged.
pub open spec fn pause_channel(c: Channel) -> Channel {
    if c.state == ChannelState::Playing {
        Channel { id: c.id, volume_pct: c.volume_pct, muted: c.muted, state: ChannelState::Paused }
    } else {
        c
    }
}

/// Mathematical image of a [`BackendAction`].
pub ghost enum BackendActionView {
    CreateVoice { id: u32, source: SourceSpecView, volume_bp: u64 },
    SetVoiceVolume { id: u32, volume_bp: u64 },
    ResumeVoice { id: u32 },
    PauseVoice { id: u32 },
    StopVoice { id: u32 },
}

/// One instruction to the playback layer. `volume_bp` is the effective
/// volume in basis points; the layer divides by 10000 for its amplitude.
#[derive(Debug, PartialEq)]
pub enum BackendAction {
    /// Create a looping voice for `id` from `source` at the given volume,
    /// replacing any voice the channel still owns.
    CreateVoice { id: u32, source: SourceSpec, volume_bp: u64 },
    /// Retune the existing voice of `id`.
    SetVoiceVolume { id: u32, volume_bp: u64 },
    /// Resume the paused voice of `id`.
    ResumeVoice { id: u32 },
    /// Hold the playing voice of `id`.
    PauseVoice { id: u32 },
    /// Stop and destroy the voice of `id`.
    StopVoice { id: u32 },
}

impl View for BackendAction {
    type V = BackendActionView;

    open spec fn view(&self) -> BackendActionView {
        match self {
            BackendAction::CreateVoice { id, source, volume_bp } => BackendActionView::CreateVoice {
                id: *id,
                source: source@,
                volume_bp: *volume_bp,
            },
            BackendAction::SetVoiceVolume { id, volume_bp } => BackendActionView::SetVoiceVolume {
                id: *id,
                volume_bp: *volume_bp,
            },
            BackendAction::ResumeVoice { id } => BackendActionView::ResumeVoice { id: *id },
            BackendAction::PauseVoice { id } => BackendActionView::PauseVoice { id: *id },
            BackendAction::StopVoice { id } => BackendActionView::StopVoice { id: *id },
        }
    }
}

/// The views of a sequence of backend actions.
pub open spec fn views_of(s: Seq<BackendAction>) -> Seq<BackendActionView> {
    s.map_values(|a: BackendAction| a@)
}

/// Actions of `play_sound`: none when the channel already plays, else one
/// voice creation from the resolved source at the channel's current
/// effective volume.
pub open spec fn play_actions(v: MixerView, id: u32) -> Seq<BackendActionView> {
    let c = v.chan(id);
    if c.state == ChannelState::Playing {
        Seq::empty()
    } else {
        seq![
            BackendActionView::CreateVoice {
                id,
                source: resolve_spec(v.catalog, id),
                volume_bp: chan_effective_bp(c, v.master_pct) as u64,
            },
        ]
    }
}

/// Actions of `stop_sound`: none for an absent channel, else the voice is
/// destroyed.
pub open spec fn stop_actions(v: MixerView, id: u32) -> Seq<BackendActionView> {
    if v.chan(id).state == ChannelState::Absent {
        Seq::empty()
    } else {
        seq![BackendActionView::StopVoice { id }]
    }
}

/// Actions of `set_volume`: a channel with a voice is retuned to the
/// effective volume of the new percentage; an absent channel only stores it.
pub open spec fn set_volume_actions(v: MixerView, id: u32, percent: u32) -> Seq<
    BackendActionView,
> {
    let c = v.chan(id);
    if c.state == ChannelState::Absent {
        Seq::empty()
    } else {
        seq![
            BackendActionView::SetVoiceVolume {
                id,
                volume_bp: effective_volume_bp(percent, c.muted, v.master_pct) as u64,
            },
        ]
    }
}

/// Actions of `mute_sound`: a channel with a voice is retuned under the new
/// mute flag.
pub open spec fn mute_actions(v: MixerView, id: u32, muted: bool) -> Seq<BackendActionView> {
    let c = v.chan(id);
    if c.state == ChannelState::Absent {
        Seq::empty()
    } else {
        seq![
            BackendActionView::SetVoiceVolume {
                id,
                volume_bp: effective_volume_bp(c.volume_pct, muted, v.master_pct) as u64,
            },
        ]
    }
}

/// Actions of `set_master_volume` over the registry entries in order: every
/// channel with a voice is retuned to its effective volume under the new
/// master percentage.
pub open spec fn master_actions(s: Seq<Channel>, percent: u32) -> Seq<BackendActionView>
    decreases s.len(),
{
    if s.len() == 0 {
        Seq::empty()
    } else {
        master_actions(s.drop_last(), percent) + (if s.last().state != ChannelState::Absent {
            seq![
                BackendActionView::SetVoiceVolume {
                    id: s.last().id,
                    volume_bp: chan_effective_bp(s.last(), percent) as u64,
                },
            ]
        } else {
            Seq::empty()
        })
    }
}

/// Actions of `set_all_playing` over the entries in order: one resume per
/// paused channel.
pub open spec fn resume_actions(s: Seq<Channel>) -> Seq<BackendActionView>
    decreases s.len(),
{
    if s.len() == 0 {
        Seq::empty()
    } else {
        resume_actions(s.drop_last()) + (if s.last().state == ChannelState::Paused {
            seq![BackendActionView::ResumeVoice { id: s.last().id }]
        } else {
            Seq::empty()
        })
    }
}

/// Actions of `set_all_paused` over the entries in order: one pause per
/// playing channel.
pub open spec fn pause_actions(s: Seq<Channel>) -> Seq<BackendActionView>
    decreases s.len(),
{
    if s.len() == 0 {
        Seq::empty()
    } else {
        pause_actions(s.drop_last()) + (if s.last().state == ChannelState::Playing {
            seq![BackendActionView::PauseVoice { id: s.last().id }]
        } else {
            Seq::empty()
        })
    }
}

/// Actions of `reset_all` over the entries in order: every voice is
/// destroyed.
pub open spec fn stop_all_actions(s: Seq<Channel>) -> Seq<BackendActionView>
    decreases s.len(),
{
    if s.len() == 0 {
        Seq::empty()
    } else {
        stop_all_actions(s.drop_last()) + (if s.last().state != ChannelState::Absent {
            seq![BackendActionView::StopVoice { id: s.last().id }]
        } else {
            Seq::empty()
        })
    }
}

/// The mixer: channel registry, master volume and the optional catalog.
pub struct AudioPlayer {
    channels: Vec<Channel>,
    master_pct: u32,
    catalog: Option<SoundCatalog>,
}

impl View for AudioPlayer {
    type V = MixerView;

    closed spec fn view(&self) -> MixerView {
        MixerView {
            entries: self.channels@,
            master_pct: self.master_pct,
            catalog: opt_catalog_view(self.catalog),
        }
    }
}

impl AudioPlayer {
    /// A fresh mixer: no channels, master volume 100%, no catalog.
    pub fn new() -> (player: AudioPlayer)
        ensures
            player@ == MixerView::init(),
            player@.wf(),
    {
        let player = AudioPlayer { channels: Vec::new(), master_pct: 100, catalog: None };
        proof {
            assert(player@ =~~= MixerView::init());
        }
        player
    }

    /// The index of the registry entry for `id`, if the id has been touched
    /// before.
    fn find_channel(&self, id: u32) -> (r: Option<usize>)
        ensures
            match r {
                Some(i) => i < self@.entries.len() && self@.entries[i as int].id == id,
                None => !has_channel(self@.entries, id),
            },
    {
        let n = self.channels.len();
        let mut k: usize = 0;
        while k < n
            invariant
                k <= n,
                n == self.channels@.len(),
                forall|j: int| 0 <= j < k ==> self.channels@[j].id != id,
            decreases n - k,
        {
            if self.channels[k].id == id {
                return Some(k);
            }
            k += 1;
        }
        None
    }

    /// Starts the channel. A channel that already plays is left untouched
    /// and no action is produced (starting is idempotent); otherwise the
    /// channel becomes `Playing` and one voice is created from the resolved
    /// source at the channel's current effective volume. An id never seen
    /// before is materialized with default volume and mute first.
    pub fn play_sound(&mut self, id: u32) -> (actions: Vec<BackendAction>)
        requires
            old(self)@.wf(),
        ensures
            final(self)@.wf(),
            final(self)@ == old(self)@.play_tr(id),
            views_of(actions@) == play_actions(old(self)@, id),
    {
        let found = self.find_channel(id);
        match found {
            Some(i) => {
                let c = self.channels[i];
                proof {
                    lemma_channel_index_unique(self@.entries, id, i as int);
                    assert(self@.chan(id) == c);
                }
                if matches!(c.state, ChannelState::Playing) {
                    let actions: Vec<BackendAction> = Vec::new();
                    proof {
                        assert(views_of(actions@) =~= play_actions(self@, id));
                    }
                    actions
                } else {
                    let bp = effective_bp(c.volume_pct, c.muted, self.master_pct);
                    let source = resolve_source(&self.catalog, id);
                    let c2 = Channel {
                        id: c.id,
                        volume_pct: c.volume_pct,
                        muted: c.muted,
                        state: ChannelState::Playing,
                    };
                    self.channels[i] = c2;
                    let mut actions: Vec<BackendAction> = Vec::new();
                    actions.push(BackendAction::CreateVoice { id, source, volume_bp: bp });
                    proof {
                        lemma_set_chan(old(self)@, id, c2);
                        assert(self@ =~~= old(self)@.set_chan(id, c2));
                        assert(self@ =~~= old(self)@.play_tr(id));
                        assert(views_of(actions@) =~= play_actions(old(self)@, id));
                    }
                    actions
                }
            },
            None => {
                let bp = effective_bp(50, false, self.master_pct);
                let source = resolve_source(&self.catalog, id);
                let c2 = Channel {
                    id,
                    volume_pct: 50,
                    muted: false,
                    state: ChannelState::Playing,
                };
                self.channels.push(c2);
                let mut actions: Vec<BackendAction> = Vec::new();
                actions.push(BackendAction::CreateVoice { id, source, volume_bp: bp });
                proof {
                    lemma_set_chan(old(self)@, id, c2);
                    assert(old(self)@.chan(id) == default_channel(id));
                    assert(self@ =~~= old(self)@.set_chan(id, c2));
                    assert(self@ =~~= old(self)@.play_tr(id));
                    assert(views_of(actions@) =~= play_actions(old(self)@, id));
                }
                actions
            },
        }
    }

    /// Stops the channel. A channel without a voice is left untouched and
    /// no action is produced, so stopping an id never started succeeds as a
    /// no-op; otherwise the voice is destroyed and the channel becomes
    /// `Absent` while its stored volume and mute flag persist.
    pub fn stop_sound(&mut self, id: u32) -> (actions: Vec<BackendAction>)
        requires
            old(self)@.wf(),
        ensures
            final(self)@.wf(),
            final(self)@ == old(self)@.stop_tr(id),
            views_of(actions@) == stop_actions(old(self)@, id),
    {
        let found = self.find_channel(id);
        match found {
            Some(i) => {
                let c = self.channels[i];
                proof {
                    lemma_channel_index_unique(self@.entries, id, i as int);
                    assert(self@.chan(id) == c);
                }
                if matches!(c.state, ChannelState::Absent) {
                    let actions: Vec<BackendAction> = Vec::new();
                    proof {
                        assert(views_of(actions@) =~= stop_actions(self@, id));
                    }
                    actions
                } else {
                    let c2 = Channel {
                        id: c.id,
                        volume_pct: c.volume_pct,
                        muted: c.muted,
                        state: ChannelState::Absent,
                    };
                    self.channels[i] = c2;
                    let mut actions: Vec<BackendAction> = Vec::new();
                    actions.push(BackendAction::StopVoice { id });
                    proof {
                        lemma_set_chan(old(self)@, id, c2);
                        assert(self@ =~~= old(self)@.set_chan(id, c2));
                        assert(self@ =~~= old(self)@.stop_tr(id));
                        assert(views_of(actions@) =~= stop_actions(old(self)@, id));
                    }
                    actions
                }
            },
            None => {
                let actions: Vec<BackendAction> = Vec::new();
                proof {
                    assert(self@.chan(id) == default_channel(id));
                    assert(views_of(actions@) =~= stop_actions(self@, id));
                }
                actions
            },
        }
    }

    /// Stores a new volume percentage for the channel. The value is taken
    /// as given and never clamped, so a percentage above 100 amplifies. A
    /// channel that owns a voice is retuned at once to the effective volume
    /// of the new percentage; an absent channel only keeps it for the next
    /// start.
    pub fn set_volume(&mut self, id: u32, percent: u32) -> (actions: Vec<BackendAction>)
        requires
            old(self)@.wf(),
        ensures
            final(self)@.wf(),
            final(self)@ == old(self)@.set_volume_tr(id, percent),
            views_of(actions@) == set_volume_actions(old(self)@, id, percent),
    {
        let found = self.find_channel(id);
        match found {
            Some(i) => {
                let c = self.channels[i];
                proof {
                    lemma_channel_index_unique(self@.entries, id, i as int);
                    assert(self@.chan(id) == c);
                }
                let c2 = Channel {
                    id: c.id,
                    volume_pct: percent,
                    muted: c.muted,
                    state: c.state,
                };
                self.channels[i] = c2;
                let mut actions: Vec<BackendAction> = Vec::new();
                if !matches!(c.state, ChannelState::Absent) {
                    let bp = effective_bp(percent, c.muted, self.master_pct);
                    actions.push(BackendAction::SetVoiceVolume { id, volume_bp: bp });
                }
                proof {
                    lemma_set_chan(old(self)@, id, c2);
                    assert(self@ =~~= old(self)@.set_chan(id, c2));
                    assert(self@ =~~= old(self)@.set_volume_tr(id, percent));
                    assert(views_of(actions@) =~= set_volume_actions(old(self)@, id, percent));
                }
                actions
            },
            None => {
                let c2 = Channel {
                    id,
                    volume_pct: percent,
                    muted: false,
                    state: ChannelState::Absent,
                };
                self.channels.push(c2);
                let actions: Vec<BackendAction> = Vec::new();
                proof {
                    lemma_set_chan(old(self)@, id, c2);
                    assert(old(self)@.chan(id) == default_channel(id));
                    assert(self@ =~~= old(self)@.set_chan(id, c2));
                    assert(self@ =~~= old(self)@.set_volume_tr(id, percent));
                    assert(views_of(actions@) =~= set_volume_actions(old(self)@, id, percent));
                }
                actions
            },
        }
    }

    /// Stores the mute flag for the channel. A channel that owns a voice is
    /// retuned at once: to zero when muted, back to its stored volume under
    /// the master volume when unmuted.
    pub fn mute_sound(&mut self, id: u32, is_muted: bool) -> (actions: Vec<BackendAction>)
        requires
            old(self)@.wf(),
        ensures
            final(self)@.wf(),
            final(self)@ == old(self)@.mute_tr(id, is_muted),
            views_of(actions@) == mute_actions(old(self)@, id, is_muted),
    {
        let found = self.find_channel(id);
        match found {
            Some(i) => {
                let c = self.channels[i];
                proof {
                    lemma_channel_index_unique(self@.entries, id, i as int);
                    assert(self@.chan(id) == c);
                }
                let c2 = Channel {
                    id: c.id,
                    volume_pct: c.volume_pct,
                    muted: is_muted,
                    state: c.state,
                };
                self.channels[i] = c2;
                let mut actions: Vec<BackendAction> = Vec::new();
                if !matches!(c.state, ChannelState::Absent) {
                    let bp = effective_bp(c.volume_pct, is_muted, self.master_pct);
                    actions.push(BackendAction::SetVoiceVolume { id, volume_bp: bp });
                }
                proof {
                    lemma_set_chan(old(self)@, id, c2);
                    assert(self@ =~~= old(self)@.set_chan(id, c2));
                    assert(self@ =~~= old(self)@.mute_tr(id, is_muted));
                    assert(views_of(actions@) =~= mute_actions(old(self)@, id, is_muted));
                }
                actions
            },
            None => {
                let c2 = Channel {
                    id,
                    volume_pct: 50,
                    muted: is_muted,
                    state: ChannelState::Absent,
                };
                self.channels.push(c2);
                let actions: Vec<BackendAction> = Vec::new();
                proof {
                    lemma_set_chan(old(self)@, id, c2);
                    assert(old(self)@.chan(id) == default_channel(id));
                    assert(self@ =~~= old(self)@.set_chan(id, c2));
                    assert(self@ =~~= old(self)@.mute_tr(id, is_muted));
                    assert(views_of(actions@) =~= mute_actions(old(self)@, id, is_muted));
                }
                actions
            },
        }
    }

    /// Replaces the stored catalog. Channels and voices are untouched: an
    /// active voice keeps the source it was created from, and the new
    /// catalog is consulted only by later starts.
    pub fn load_sound_catalog(&mut self, catalog: SoundCatalog)
        requires
            old(self)@.wf(),
        ensures
            final(self)@.wf(),
            final(self)@ == old(self)@.load_catalog_tr(catalog@),
    {
        let ghost cats = catalog@;
        self.catalog = Some(catalog);
        proof {
            assert(self@ =~~= old(self)@.load_catalog_tr(cats));
        }
    }

    /// Stores a new master volume percentage and retunes every channel that
    /// owns a voice — paused ones included — to its effective volume under
    /// the new master, in registry order.
    pub fn set_master_volume(&mut self, percent: u32) -> (actions: Vec<BackendAction>)
        requires
            old(self)@.wf(),
        ensures
            final(self)@.wf(),
            final(self)@ == old(self)@.set_master_tr(percent),
            views_of(actions@) == master_actions(old(self)@.entries, percent),
    {
        let mut actions: Vec<BackendAction> = Vec::new();
        let n = self.channels.len();
        let mut k: usize = 0;
        proof {
            assert(self.channels@.take(0) =~= Seq::<Channel>::empty());
            assert(views_of(actions@) =~= master_actions(self.channels@.take(0), percent));
        }
        while k < n
            invariant
                k <= n,
                n == self.channels@.len(),
                *self == *old(self),
                views_of(actions@) == master_actions(self.channels@.take(k as int), percent),
            decreases n - k,
        {
            let c = self.channels[k];
            if !matches!(c.state, ChannelState::Absent) {
                let bp = effective_bp(c.volume_pct, c.muted, percent);
                actions.push(BackendAction::SetVoiceVolume { id: c.id, volume_bp: bp });
            }
            proof {
                let s = self.channels@;
                assert(s.take(k as int + 1).drop_last() =~= s.take(k as int));
                assert(s.take(k as int + 1).last() == c);
                assert(views_of(actions@) =~= master_actions(s.take(k as int + 1), percent));
            }
            k += 1;
        }
        self.master_pct = percent;
        proof {
            assert(old(self)@.entries.take(n as int) =~= old(self)@.entries);
            assert(self@ =~~= old(self)@.set_master_tr(percent));
        }
        actions
    }

    /// Resumes every paused channel, in registry order. Channels without a
    /// voice are untouched: this never starts a channel that was stopped or
    /// never played.
    pub fn set_all_playing(&mut self) -> (actions: Vec<BackendAction>)
        requires
            old(self)@.wf(),
        ensures
            final(self)@.wf(),
            final(self)@ == old(self)@.play_all_tr(),
            views_of(actions@) == resume_actions(old(self)@.entries),
    {
        let mut actions: Vec<BackendAction> = Vec::new();
        let n = self.channels.len();
        let mut k: usize = 0;
        proof {
            assert(old(self)@.entries.take(0) =~= Seq::<Channel>::empty());
            assert(views_of(actions@) =~= resume_actions(old(self)@.entries.take(0)));
        }
        while k < n
            invariant
                k <= n,
                n == self.channels@.len(),
                n == old(self)@.entries.len(),
                self.master_pct == old(self).master_pct,
                self.catalog == old(self).catalog,
                forall|j: int|
                    0 <= j < k ==> self.channels@[j] == resume_channel(old(self)@.entries[j]),
                forall|j: int| k <= j < n ==> self.channels@[j] == old(self)@.entries[j],
                views_of(actions@) == resume_actions(old(self)@.entries.take(k as int)),
            decreases n - k,
        {
            let c = self.channels[k];
            if matches!(c.state, ChannelState::Paused) {
                let c2 = Channel {
                    id: c.id,
                    volume_pct: c.volume_pct,
                    muted: c.muted,
                    state: ChannelState::Playing,
                };
                self.channels[k] = c2;
                actions.push(BackendAction::ResumeVoice { id: c.id });
            }
            proof {
                let s = old(self)@.entries;
                assert(s.take(k as int + 1).drop_last() =~= s.take(k as int));
                assert(s.take(k as int + 1).last() == s[k as int]);
                assert(views_of(actions@) =~= resume_actions(s.take(k as int + 1)));
            }
            k += 1;
        }
        proof {
            assert(old(self)@.entries.take(n as int) =~= old(self)@.entries);
            assert(self.channels@ =~= old(self)@.entries.map_values(
                |c: Channel| resume_channel(c),
            ));
            assert(self@ =~~= old(self)@.play_all_tr());
            assert forall|i: int, j: int|
                0 <= i < self@.entries.len() && 0 <= j < self@.entries.len() && i
                    != j implies self@.entries[i].id != self@.entries[j].id by {
                assert(self@.entries[i].id == old(self)@.entries[i].id);
                assert(self@.entries[j].id == old(self)@.entries[j].id);
            }
        }
        actions
    }

    /// Pauses every playing channel, in registry order. The voices stay
    /// allocated and keep their position, ready to be resumed.
    pub fn set_all_paused(&mut self) -> (actions: Vec<BackendAction>)
        requires
            old(self)@.wf(),
        ensures
            final(self)@.wf(),
            final(self)@ == old(self)@.pause_all_tr(),
            views_of(actions@) == pause_actions(old(self)@.entries),
    {
        let mut actions: Vec<BackendAction> = Vec::new();
        let n = self.channels.len();
        let mut k: usize = 0;
        proof {
            assert(old(self)@.entries.take(0) =~= Seq::<Channel>::empty());
            assert(views_of(actions@) =~= pause_actions(old(self)@.entries.take(0)));
        }
        while k < n
            invariant
                k <= n,
                n == self.channels@.len(),
                n == old(self)@.entries.len(),
                self.master_pct == old(self).master_pct,
                self.catalog == old(self).catalog,
                forall|j: int|
                    0 <= j < k ==> self.channels@[j] == pause_channel(old(self)@.entries[j]),
                forall|j: int| k <= j < n ==> self.channels@[j] == old(self)@.entries[j],
                views_of(actions@) == pause_actions(old(self)@.entries.take(k as int)),
            decreases n - k,
        {
            let c = self.channels[k];
            if matches!(c.state, ChannelState::Playing) {
                let c2 = Channel {
                    id: c.id,
                    volume_pct: c.volume_pct,
                    muted: c.muted,
                    state: ChannelState::Paused,
                };
                self.channels[k] = c2;
                actions.push(BackendAction::PauseVoice { id: c.id });
            }
            proof {
                let s = old(self)@.entries;
                assert(s.take(k as int + 1).drop_last() =~= s.take(k as int));
                assert(s.take(k as int + 1).last() == s[k as int]);
                assert(views_of(actions@) =~= pause_actions(s.take(k as int + 1)));
            }
            k += 1;
        }
        proof {
            assert(old(self)@.entries.take(n as int) =~= old(self)@.entries);
            assert(self.channels@ =~= old(self)@.entries.map_values(
                |c: Channel| pause_channel(c),
            ));
            assert(self@ =~~= old(self)@.pause_all_tr());
            assert forall|i: int, j: int|
                0 <= i < self@.entries.len() && 0 <= j < self@.entries.len() && i
                    != j implies self@.entries[i].id != self@.entries[j].id by {
                assert(self@.entries[i].id == old(self)@.entries[i].id);
                assert(self@.entries[j].id == old(self)@.entries[j].id);
            }
        }
        actions
    }

    /// Destroys every voice and clears all per-channel state back to the
    /// defaults; the master volume is 100% again. Only the loaded catalog
    /// survives. Calling it again is a no-op that produces no actions.
    pub fn reset_all(&mut self) -> (actions: Vec<BackendAction>)
        requires
            old(self)@.wf(),
        ensures
            final(self)@.wf(),
            final(self)@ == old(self)@.reset_tr(),
            views_of(actions@) == stop_all_actions(old(self)@.entries),
    {
        let mut actions: Vec<BackendAction> = Vec::new();
        let n = self.channels.len();
        let mut k: usize = 0;
        proof {
            assert(self.channels@.take(0) =~= Seq::<Channel>::empty());
            assert(views_of(actions@) =~= stop_all_actions(self.channels@.take(0)));
        }
        while k < n
            invariant
                k <= n,
                n == self.channels@.len(),
                *self == *old(self),
                views_of(actions@) == stop_all_actions(self.channels@.take(k as int)),
            decreases n - k,
        {
            let c = self.channels[k];
            if !matches!(c.state, ChannelState::Absent) {
                actions.push(BackendAction::StopVoice { id: c.id });
            }
            proof {
                let s = self.channels@;
                assert(s.take(k as int + 1).drop_last() =~= s.take(k as int));
                assert(s.take(k as int + 1).last() == c);
                assert(views_of(actions@) =~= stop_all_actions(s.take(k as int + 1)));
            }
            k += 1;
        }
        self.channels = Vec::new();
        self.master_pct = 100;
        proof {
            assert(old(self)@.entries.take(n as int) =~= old(self)@.entries);
            assert(self@ =~~= old(self)@.reset_tr());
        }
        actions
    }

    /// The master volume percentage.
    pub fn master_volume_pct(&self) -> (percent: u32)
        ensures
            percent == self@.master_pct,
    {
        self.master_pct
    }

    /// The channel's stored volume percentage; 50 for an untouched id.
    pub fn volume_pct(&self, id: u32) -> (percent: u32)
        requires
            self@.wf(),
        ensures
            percent == self@.chan(id).volume_pct,
    {
        let c = self.channel(id);
        c.volume_pct
    }

    /// The channel's mute flag; false for an untouched id.
    pub fn is_muted(&self, id: u32) -> (muted: bool)
        requires
            self@.wf(),
        ensures
            muted == self@.chan(id).muted,
    {
        let c = self.channel(id);
        c.muted
    }

    /// The channel's transport state; `Absent` for an untouched id.
    pub fn channel_state(&self, id: u32) -> (state: ChannelState)
        requires
            self@.wf(),
        ensures
            state == self@.chan(id).state,
    {
        let c = self.channel(id);
        c.state
    }

    /// The channel's effective volume in basis points: what its voice is
    /// (or, were it started now, would be) told to play at.
    pub fn effective_volume_of(&self, id: u32) -> (bp: u64)
        requires
            self@.wf(),
        ensures
            bp == chan_effective_bp(self@.chan(id), self@.master_pct),
    {
        let c = self.channel(id);
        effective_bp(c.volume_pct, c.muted, self.master_pct)
    }

    /// The channel under an id: its registry entry, or the default state
    /// for an id no operation has touched.
    fn channel(&self, id: u32) -> (c: Channel)
        requires
            self@.wf(),
        ensures
            c == self@.chan(id),
    {
        let found = self.find_channel(id);
        match found {
            Some(i) => {
                let c = self.channels[i];
                proof {
                    lemma_channel_index_unique(self@.entries, id, i as int);
                }
                c
            },
            None => Channel { id, volume_pct: 50, muted: false, state: ChannelState::Absent },
        }
    }
}

/// In a well-formed registry, any entry carrying an id is the entry
/// [`channel_index`] picks.
pub proof fn lemma_channel_index_unique(s: Seq<Channel>, id: u32, i: int)
    requires
        wf_entries(s),
        0 <= i < s.len(),
        s[i].id == id,
    ensures
        has_channel(s, id),
        channel_index(s, id) == i,
{
    assert(has_channel(s, id));
    let j = channel_index(s, id);
    assert(0 <= j < s.len() && s[j].id == id);
    if i != j {
        assert(s[i].id != s[j].id);
    }
}

/// How [`MixerView::set_chan`] acts on the registry: it preserves
/// well-formedness, stores exactly the given channel under its id, leaves
/// every other channel alone, and touches neither master volume nor catalog.
pub proof fn lemma_set_chan(v: MixerView, id: u32, c: Channel)
    requires
        v.wf(),
        c.id == id,
    ensures
        v.set_chan(id, c).wf(),
        v.set_chan(id, c).chan(id) == c,
        forall|other: u32| other != id ==> v.set_chan(id, c).chan(other) == v.chan(other),
        v.set_chan(id, c).master_pct == v.master_pct,
        v.set_chan(id, c).catalog == v.catalog,
{
    let s = v.entries;
    let s2 = v.set_chan(id, c).entries;
    if has_channel(s, id) {
        let i = channel_index(s, id);
        assert(0 <= i < s.len() && s[i].id == id);
        assert(forall|a: int| 0 <= a < s2.len() ==> s2[a].id == s[a].id);
        assert(wf_entries(s2));
        lemma_channel_index_unique(s2, id, i);
        assert(v.set_chan(id, c).chan(id) == c);
        assert forall|other: u32| other != id implies v.set_chan(id, c).chan(other) == v.chan(
            other,
        ) by {
            if has_channel(s2, other) {
                let j = channel_index(s2, other);
                assert(0 <= j < s2.len() && s2[j].id == other);
                assert(j != i);
                lemma_channel_index_unique(s, other, j);
                lemma_channel_index_unique(s2, other, j);
            } else {
                if has_channel(s, other) {
                    let j = channel_index(s, other);
                    assert(0 <= j < s.len() && s[j].id == other);
                    assert(s2[j].id == other);
                }
            }
        }
    } else {
        let i = s.len() as int;
        assert(forall|a: int| 0 <= a < s.len() ==> s[a].id != id);
        assert(wf_entries(s2));
        lemma_channel_index_unique(s2, id, i);
        assert(v.set_chan(id, c).chan(id) == c);
        assert forall|other: u32| other != id implies v.set_chan(id, c).chan(other) == v.chan(
            other,
        ) by {
            if has_channel(s2, other) {
                let j = channel_index(s2, other);
                assert(0 <= j < s2.len() && s2[j].id == other);
                assert(j != i);
                lemma_channel_index_unique(s, other, j);
                lemma_channel_index_unique(s2, other, j);
            } else {
                if has_channel(s, other) {
                    let j = channel_index(s, other);
                    assert(0 <= j < s.len() && s[j].id == other);
                    assert(s2[j].id == other);
                }
            }
        }
    }
}

/// Computes the effective volume in basis points without overflow: the
/// product of two percentages held as `u32` always fits in a `u64`.
pub fn effective_bp(volume_pct: u32, muted: bool, master_pct: u32) -> (bp: u64)
    ensures
        bp == effective_volume_bp(volume_pct, muted, master_pct),
{
    if muted {
        0
    } else {
        proof {
            assert((volume_pct as int) * (master_pct as int) <= 0xffff_ffff * 0xffff_ffff)
                by (nonlinear_arith)
                requires
                    volume_pct <= 0xffff_ffffu32,
                    master_pct <= 0xffff_ffffu32,
            ;
        }
        (volume_pct as u64) * (master_pct as u64)
    }
}

} // verus!
