use soundboard_mixer::catalog::{
    resolve_source, tone_frequency_hz, SoundCatalog, SoundCategory, SoundItem, SourceSpec,
};
use soundboard_mixer::mixer::{AudioPlayer, BackendAction};

fn item(id: u32, filename: &str, category: &str) -> SoundItem {
    SoundItem {
        id,
        name: format!("sound {}", id),
        filename: filename.to_string(),
        category: category.to_string(),
    }
}

#[test]
fn tone_frequency_is_base_plus_step_per_id() {
    assert_eq!(tone_frequency_hz(0), 100);
    assert_eq!(tone_frequency_hz(5), 350);
    assert_eq!(tone_frequency_hz(u32::MAX), 100 + 50 * u32::MAX as u64);
}

#[test]
fn no_catalog_resolves_to_tone() {
    assert_eq!(
        resolve_source(&None, 5),
        SourceSpec::Tone { frequency_hz: 350 }
    );
}

#[test]
fn catalog_entry_resolves_to_asset() {
    let catalog = SoundCatalog {
        categories: vec![SoundCategory {
            name: "fx".to_string(),
            sounds: vec![item(5, "x.wav", "fx")],
        }],
    };
    assert_eq!(
        resolve_source(&Some(catalog), 5),
        SourceSpec::Asset {
            category: "fx".to_string(),
            filename: "x.wav".to_string(),
        }
    );
}

#[test]
fn unknown_id_falls_back_to_tone() {
    let catalog = SoundCatalog {
        categories: vec![SoundCategory {
            name: "fx".to_string(),
            sounds: vec![item(5, "x.wav", "fx")],
        }],
    };
    assert_eq!(
        resolve_source(&Some(catalog), 2),
        SourceSpec::Tone { frequency_hz: 200 }
    );
}

#[test]
fn duplicate_ids_resolve_to_first_match() {
    let catalog = SoundCatalog {
        categories: vec![
            SoundCategory {
                name: "ambient".to_string(),
                sounds: vec![item(9, "first.wav", "ambient"), item(9, "second.wav", "ambient")],
            },
            SoundCategory {
                name: "fx".to_string(),
                sounds: vec![item(9, "third.wav", "fx")],
            },
        ],
    };
    assert_eq!(
        resolve_source(&Some(catalog), 9),
        SourceSpec::Asset {
            category: "ambient".to_string(),
            filename: "first.wav".to_string(),
        }
    );
}

#[test]
fn asset_path_comes_from_item_category_field() {
    // The directory component is the descriptor's own category field, which
    // may differ from the name of the category list holding it.
    let catalog = SoundCatalog {
        categories: vec![SoundCategory {
            name: "misfiled".to_string(),
            sounds: vec![item(1, "a.ogg", "actual")],
        }],
    };
    assert_eq!(
        resolve_source(&Some(catalog), 1),
        SourceSpec::Asset {
            category: "actual".to_string(),
            filename: "a.ogg".to_string(),
        }
    );
}

#[test]
fn play_with_catalog_uses_decoded_file_and_without_uses_tone() {
    let catalog = SoundCatalog {
        categories: vec![SoundCategory {
            name: "fx".to_string(),
            sounds: vec![item(5, "x.wav", "fx")],
        }],
    };

    let mut with_catalog = AudioPlayer::new();
    with_catalog.load_sound_catalog(catalog);
    assert_eq!(
        with_catalog.play_sound(5),
        vec![BackendAction::CreateVoice {
            id: 5,
            source: SourceSpec::Asset {
                category: "fx".to_string(),
                filename: "x.wav".to_string(),
            },
            volume_bp: 5000,
        }]
    );

    let mut without_catalog = AudioPlayer::new();
    assert_eq!(
        without_catalog.play_sound(5),
        vec![BackendAction::CreateVoice {
            id: 5,
            source: SourceSpec::Tone { frequency_hz: 350 },
            volume_bp: 5000,
        }]
    );
}
