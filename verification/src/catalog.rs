//! The sound catalog and the resolver that turns a channel id into a
//! playable source description.
//!
//! A catalog maps category names to ordered lists of sound descriptors. The
//! resolver scans the categories in order and takes the first descriptor whose
//! id matches; when no catalog is loaded or the id is unknown it falls back to
//! a deterministic synthesized tone, so resolution never fails.

use vstd::prelude::*;

verus! {

/// Mathematical image of a [`SoundItem`].
pub ghost struct SoundItemView {
    pub id: u32,
    pub name: Seq<char>,
    pub filename: Seq<char>,
    pub category: Seq<char>,
}

/// One sound descriptor of the catalog: an id and where its asset lives.
pub struct SoundItem {
    pub id: u32,
    pub name: String,
    pub filename: String,
    pub category: String,
}

impl View for SoundItem {
    type V = SoundItemView;

    open spec fn view(&self) -> SoundItemView {
        SoundItemView {
            id: self.id,
            name: self.name@,
            filename: self.filename@,
            category: self.category@,
        }
    }
}

/// The descriptors of a sequence of sound items, as their views.
pub open spec fn items_view(s: Seq<SoundItem>) -> Seq<SoundItemView> {
    s.map_values(|it: SoundItem| it@)
}

/// Mathematical image of a [`SoundCategory`].
pub ghost struct SoundCategoryView {
    pub name: Seq<char>,
    pub sounds: Seq<SoundItemView>,
}

/// A named category holding an ordered list of sound descriptors.
pub struct SoundCategory {
    pub name: String,
    pub sounds: Vec<SoundItem>,
}

impl View for SoundCategory {
    type V = SoundCategoryView;

    open spec fn view(&self) -> SoundCategoryView {
        SoundCategoryView { name: self.name@, sounds: items_view(self.sounds@) }
    }
}

/// The loaded sound catalog: categories in a fixed order, so that "the first
/// descriptor with a matching id" is well defined even when ids repeat.
pub struct SoundCatalog {
    pub categories: Vec<SoundCategory>,
}

impl View for SoundCatalog {
    type V = Seq<SoundCategoryView>;

    open spec fn view(&self) -> Seq<SoundCategoryView> {
        self.categories@.map_values(|c: SoundCategory| c@)
    }
}

/// The first descriptor in `s` whose id is `id`, if any.
pub open spec fn find_in_sounds(s: Seq<SoundItemView>, id: u32) -> Option<SoundItemView>
    decreases s.len(),
{
    if s.len() == 0 {
        None
    } else if s[0].id == id {
        Some(s[0])
    } else {
        find_in_sounds(s.drop_first(), id)
    }
}

/// The first descriptor with id `id` over all categories, scanning the
/// categories in order and each category front to back.
pub open spec fn find_in_categories(cats: Seq<SoundCategoryView>, id: u32) -> Option<
    SoundItemView,
>
    decreases cats.len(),
{
    if cats.len() == 0 {
        None
    } else {
        match find_in_sounds(cats[0].sounds, id) {
            Some(it) => Some(it),
            None => find_in_categories(cats.drop_first(), id),
        }
    }
}

/// Frequency of the fallback tone for a channel id, in hertz.
pub open spec fn tone_frequency_spec(id: u32) -> u64 {
    (100 + 50 * (id as int)) as u64
}

/// Mathematical image of a [`SourceSpec`].
pub ghost enum SourceSpecView {
    Asset { category: Seq<char>, filename: Seq<char> },
    Tone { frequency_hz: u64 },
}

/// What the playback layer should feed into a new voice: either a catalog
/// asset (to be decoded from `<sounds dir>/<category>/<filename>`) or a
/// synthesized sine tone at a given frequency.
#[derive(Debug, PartialEq)]
pub enum SourceSpec {
    Asset { category: String, filename: String },
    Tone { frequency_hz: u64 },
}

impl View for SourceSpec {
    type V = SourceSpecView;

    open spec fn view(&self) -> SourceSpecView {
        match self {
            SourceSpec::Asset { category, filename } => SourceSpecView::Asset {
                category: category@,
                filename: filename@,
            },
            SourceSpec::Tone { frequency_hz } => SourceSpecView::Tone {
                frequency_hz: *frequency_hz,
            },
        }
    }
}

/// The view of an optional catalog.
pub open spec fn opt_catalog_view(c: Option<SoundCatalog>) -> Option<Seq<SoundCategoryView>> {
    match c {
        Some(cat) => Some(cat@),
        None => None,
    }
}

/// The source a channel id resolves to: the first matching catalog asset, or
/// the fallback tone when no catalog is loaded or the id is not listed.
pub open spec fn resolve_spec(catalog: Option<Seq<SoundCategoryView>>, id: u32) -> SourceSpecView {
    match catalog {
        Some(cats) => match find_in_categories(cats, id) {
            Some(it) => SourceSpecView::Asset { category: it.category, filename: it.filename },
            None => SourceSpecView::Tone { frequency_hz: tone_frequency_spec(id) },
        },
        None => SourceSpecView::Tone { frequency_hz: tone_frequency_spec(id) },
    }
}

/// Frequency of the fallback tone for a channel id: a base of 100 Hz plus
/// 50 Hz per id, so every channel is audibly distinct without assets.
pub fn tone_frequency_hz(id: u32) -> (hz: u64)
    ensures
        hz == tone_frequency_spec(id),
{
    100u64 + 50u64 * (id as u64)
}

/// The index of the first descriptor in one category whose id matches.
fn find_item_in_category(sounds: &Vec<SoundItem>, id: u32) -> (r: Option<usize>)
    ensures
        match r {
            Some(j) => j < sounds@.len() && sounds@[j as int].id == id && find_in_sounds(
                items_view(sounds@),
                id,
            ) == Some(sounds@[j as int]@),
            None => find_in_sounds(items_view(sounds@), id) is None,
        },
{
    let n = sounds.len();
    let mut j: usize = 0;
    proof {
        assert(items_view(sounds@).skip(0) =~= items_view(sounds@));
    }
    while j < n
        invariant
            j <= n,
            n == sounds@.len(),
            find_in_sounds(items_view(sounds@), id) == find_in_sounds(
                items_view(sounds@).skip(j as int),
                id,
            ),
        decreases n - j,
    {
        let ghost pre = items_view(sounds@).skip(j as int);
        proof {
            assert(pre[0] == items_view(sounds@)[j as int]);
        }
        if sounds[j].id == id {
            proof {
                assert(find_in_sounds(pre, id) == Some(pre[0]));
            }
            return Some(j);
        }
        proof {
            assert(pre.drop_first() =~= items_view(sounds@).skip(j as int + 1));
            assert(find_in_sounds(pre, id) == find_in_sounds(pre.drop_first(), id));
        }
        j += 1;
    }
    proof {
        assert(items_view(sounds@).skip(n as int) =~= Seq::<SoundItemView>::empty());
    }
    None
}

/// Resolves a channel id to a playable source. The first matching catalog
/// descriptor wins; with no catalog or no match the deterministic fallback
/// tone is returned, so resolution never fails.
pub fn resolve_source(catalog: &Option<SoundCatalog>, id: u32) -> (source: SourceSpec)
    ensures
        source@ == resolve_spec(opt_catalog_view(*catalog), id),
{
    match catalog {
        None => SourceSpec::Tone { frequency_hz: tone_frequency_hz(id) },
        Some(cat) => {
            let n = cat.categories.len();
            let mut i: usize = 0;
            proof {
                assert(cat@.skip(0) =~= cat@);
            }
            while i < n
                invariant
                    i <= n,
                    n == cat.categories@.len(),
                    opt_catalog_view(*catalog) == Some(cat@),
                    find_in_categories(cat@, id) == find_in_categories(cat@.skip(i as int), id),
                decreases n - i,
            {
                let ghost pre = cat@.skip(i as int);
                proof {
                    assert(pre[0] == cat@[i as int]);
                    assert(cat@[i as int] == cat.categories@[i as int]@);
                }
                let found = find_item_in_category(&cat.categories[i].sounds, id);
                match found {
                    Some(j) => {
                        let item = &cat.categories[i].sounds[j];
                        proof {
                            assert(find_in_sounds(pre[0].sounds, id) == Some(item@));
                            assert(find_in_categories(pre, id) == Some(item@));
                            assert(find_in_categories(cat@, id) == Some(item@));
                            assert(opt_catalog_view(*catalog) == Some(cat@));
                            assert(resolve_spec(opt_catalog_view(*catalog), id)
                                == (SourceSpecView::Asset {
                                category: item@.category,
                                filename: item@.filename,
                            }));
                        }
                        return SourceSpec::Asset {
                            category: item.category.clone(),
                            filename: item.filename.clone(),
                        };
                    },
                    None => {
                        proof {
                            assert(pre.drop_first() =~= cat@.skip(i as int + 1));
                            assert(find_in_categories(pre, id) == find_in_categories(
                                pre.drop_first(),
                                id,
                            ));
                        }
                    },
                }
                i += 1;
            }
            proof {
                assert(cat@.skip(n as int) =~= Seq::<SoundCategoryView>::empty());
            }
            SourceSpec::Tone { frequency_hz: tone_frequency_hz(id) }
        },
    }
}

} // verus!
