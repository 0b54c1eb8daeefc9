use soundboard_mixer::catalog::{SoundCatalog, SoundCategory, SoundItem, SourceSpec};
use soundboard_mixer::mixer::{AudioPlayer, BackendAction, ChannelState};

fn catalog_with(entries: Vec<(u32, &str, &str)>) -> SoundCatalog {
    let mut by_category: Vec<SoundCategory> = Vec::new();
    for (id, filename, category) in entries {
        let item = SoundItem {
            id,
            name: format!("sound {}", id),
            filename: filename.to_string(),
            category: category.to_string(),
        };
        match by_category.iter_mut().find(|c| c.name == category) {
            Some(cat) => cat.sounds.push(item),
            None => by_category.push(SoundCategory {
                name: category.to_string(),
                sounds: vec![item],
            }),
        }
    }
    SoundCatalog { categories: by_category }
}

#[test]
fn play_twice_keeps_one_voice() {
    let mut p = AudioPlayer::new();
    let first = p.play_sound(9);
    assert_eq!(first.len(), 1);
    assert!(matches!(first[0], BackendAction::CreateVoice { id: 9, .. }));
    assert_eq!(p.channel_state(9), ChannelState::Playing);

    let second = p.play_sound(9);
    assert!(second.is_empty());
    assert_eq!(p.channel_state(9), ChannelState::Playing);
}

#[test]
fn play_uses_defaults_for_new_channel() {
    let mut p = AudioPlayer::new();
    let actions = p.play_sound(5);
    assert_eq!(
        actions,
        vec![BackendAction::CreateVoice {
            id: 5,
            source: SourceSpec::Tone { frequency_hz: 350 },
            volume_bp: 5000,
        }]
    );
}

#[test]
fn stop_on_never_played_id_is_noop() {
    let mut p = AudioPlayer::new();
    let actions = p.stop_sound(123);
    assert!(actions.is_empty());
    assert_eq!(p.channel_state(123), ChannelState::Absent);
}

#[test]
fn stop_destroys_voice_but_keeps_settings() {
    let mut p = AudioPlayer::new();
    p.set_volume(3, 70);
    p.mute_sound(3, true);
    p.play_sound(3);
    let actions = p.stop_sound(3);
    assert_eq!(actions, vec![BackendAction::StopVoice { id: 3 }]);
    assert_eq!(p.channel_state(3), ChannelState::Absent);
    assert_eq!(p.volume_pct(3), 70);
    assert!(p.is_muted(3));

    let replay = p.play_sound(3);
    assert_eq!(replay.len(), 1);
    assert!(matches!(
        replay[0],
        BackendAction::CreateVoice { id: 3, volume_bp: 0, .. }
    ));
}

#[test]
fn volume_then_play_equals_play_then_volume() {
    let mut p = AudioPlayer::new();
    p.set_volume(7, 80);
    p.play_sound(7);

    let mut q = AudioPlayer::new();
    q.play_sound(7);
    q.set_volume(7, 80);

    assert_eq!(p.effective_volume_of(7), 8000);
    assert_eq!(q.effective_volume_of(7), 8000);
    assert_eq!(p.channel_state(7), q.channel_state(7));
    assert_eq!(p.volume_pct(7), q.volume_pct(7));
}

#[test]
fn set_volume_on_playing_channel_pushes_effective_volume() {
    let mut p = AudioPlayer::new();
    p.play_sound(2);
    let actions = p.set_volume(2, 25);
    assert_eq!(
        actions,
        vec![BackendAction::SetVoiceVolume { id: 2, volume_bp: 2500 }]
    );
}

#[test]
fn set_volume_on_absent_channel_only_stores() {
    let mut p = AudioPlayer::new();
    let actions = p.set_volume(2, 25);
    assert!(actions.is_empty());
    assert_eq!(p.volume_pct(2), 25);
}

#[test]
fn volume_above_hundred_is_not_clamped() {
    let mut p = AudioPlayer::new();
    p.play_sound(1);
    let actions = p.set_volume(1, 250);
    assert_eq!(
        actions,
        vec![BackendAction::SetVoiceVolume { id: 1, volume_bp: 25000 }]
    );
    assert_eq!(p.volume_pct(1), 250);
}

#[test]
fn mute_forces_silence_and_unmute_restores() {
    let mut p = AudioPlayer::new();
    p.set_volume(4, 80);
    p.set_master_volume(50);
    p.play_sound(4);

    let muted = p.mute_sound(4, true);
    assert_eq!(muted, vec![BackendAction::SetVoiceVolume { id: 4, volume_bp: 0 }]);
    assert_eq!(p.effective_volume_of(4), 0);

    let unmuted = p.mute_sound(4, false);
    assert_eq!(
        unmuted,
        vec![BackendAction::SetVoiceVolume { id: 4, volume_bp: 4000 }]
    );
    assert_eq!(p.effective_volume_of(4), 4000);
}

#[test]
fn mute_on_absent_channel_only_stores_flag() {
    let mut p = AudioPlayer::new();
    let actions = p.mute_sound(11, true);
    assert!(actions.is_empty());
    assert!(p.is_muted(11));
    assert_eq!(p.channel_state(11), ChannelState::Absent);
}

#[test]
fn master_volume_preserves_ratios() {
    let mut p = AudioPlayer::new();
    p.set_volume(1, 80);
    p.set_volume(2, 40);
    p.play_sound(1);
    p.play_sound(2);

    let actions = p.set_master_volume(50);
    assert_eq!(
        actions,
        vec![
            BackendAction::SetVoiceVolume { id: 1, volume_bp: 4000 },
            BackendAction::SetVoiceVolume { id: 2, volume_bp: 2000 },
        ]
    );
    assert_eq!(p.effective_volume_of(1), 4000);
    assert_eq!(p.effective_volume_of(2), 2000);
    assert_eq!(p.master_volume_pct(), 50);
}

#[test]
fn master_volume_skips_absent_but_not_paused_channels() {
    let mut p = AudioPlayer::new();
    p.set_volume(1, 60);
    p.play_sound(2);
    p.set_all_paused();

    let actions = p.set_master_volume(10);
    assert_eq!(
        actions,
        vec![BackendAction::SetVoiceVolume { id: 2, volume_bp: 500 }]
    );
}

#[test]
fn pause_all_and_play_all_round_trip() {
    let mut p = AudioPlayer::new();
    p.play_sound(1);
    p.play_sound(2);
    p.stop_sound(2);
    p.set_volume(3, 30);

    let paused = p.set_all_paused();
    assert_eq!(paused, vec![BackendAction::PauseVoice { id: 1 }]);
    assert_eq!(p.channel_state(1), ChannelState::Paused);
    assert_eq!(p.channel_state(2), ChannelState::Absent);
    assert_eq!(p.channel_state(3), ChannelState::Absent);

    let paused_again = p.set_all_paused();
    assert!(paused_again.is_empty());

    let resumed = p.set_all_playing();
    assert_eq!(resumed, vec![BackendAction::ResumeVoice { id: 1 }]);
    assert_eq!(p.channel_state(1), ChannelState::Playing);
    assert_eq!(p.channel_state(2), ChannelState::Absent);

    let resumed_again = p.set_all_playing();
    assert!(resumed_again.is_empty());
}

#[test]
fn play_all_never_starts_stopped_channels() {
    let mut p = AudioPlayer::new();
    p.play_sound(8);
    p.stop_sound(8);
    let actions = p.set_all_playing();
    assert!(actions.is_empty());
    assert_eq!(p.channel_state(8), ChannelState::Absent);
}

#[test]
fn play_on_paused_channel_recreates_voice() {
    let mut p = AudioPlayer::new();
    p.play_sound(6);
    p.set_all_paused();
    assert_eq!(p.channel_state(6), ChannelState::Paused);

    let actions = p.play_sound(6);
    assert_eq!(actions.len(), 1);
    assert!(matches!(actions[0], BackendAction::CreateVoice { id: 6, .. }));
    assert_eq!(p.channel_state(6), ChannelState::Playing);
}

#[test]
fn reset_all_restores_fresh_state() {
    let mut p = AudioPlayer::new();
    p.set_volume(1, 80);
    p.mute_sound(2, true);
    p.play_sound(1);
    p.play_sound(3);
    p.set_master_volume(30);

    let actions = p.reset_all();
    assert_eq!(
        actions,
        vec![
            BackendAction::StopVoice { id: 1 },
            BackendAction::StopVoice { id: 3 },
        ]
    );
    assert_eq!(p.master_volume_pct(), 100);
    for id in [1, 2, 3] {
        assert_eq!(p.channel_state(id), ChannelState::Absent);
        assert_eq!(p.volume_pct(id), 50);
        assert!(!p.is_muted(id));
    }

    let again = p.reset_all();
    assert!(again.is_empty());
    assert_eq!(p.master_volume_pct(), 100);
}

#[test]
fn reset_all_keeps_loaded_catalog() {
    let mut p = AudioPlayer::new();
    p.load_sound_catalog(catalog_with(vec![(5, "x.wav", "fx")]));
    p.reset_all();
    let actions = p.play_sound(5);
    assert_eq!(
        actions,
        vec![BackendAction::CreateVoice {
            id: 5,
            source: SourceSpec::Asset {
                category: "fx".to_string(),
                filename: "x.wav".to_string(),
            },
            volume_bp: 5000,
        }]
    );
}

#[test]
fn load_catalog_does_not_touch_active_voices() {
    let mut p = AudioPlayer::new();
    p.play_sound(5);
    p.load_sound_catalog(catalog_with(vec![(5, "x.wav", "fx")]));
    assert_eq!(p.channel_state(5), ChannelState::Playing);
    assert!(p.play_sound(5).is_empty());
}
