//! The supported games: what tells them apart, and what each of them can do.

use crate::text::same_text;
use vstd::prelude::*;

verus! {

/// What can be done in a game.
#[derive(Clone, Copy, Debug, PartialEq, Eq)]
pub struct SupportedFeatures {
    pub reload: bool,
    pub params: bool,
    pub extract: bool,
}

/// The sizes of the unnamed stretches in the three structures that lead from
/// the effects singleton to the head of the registry.
#[derive(Clone, Copy, Debug, PartialEq, Eq)]
pub struct RegistryLayout {
    pub cssfx_unk_size: u64,
    pub gfx_manager_unk_size: u64,
    pub res_con_pad_size: u64,
}

/// The signatures of the three calls whose targets the patcher needs.
#[derive(Clone, Copy, Debug, PartialEq, Eq)]
pub struct EntryPointPatterns {
    pub get_allocator: &'static str,
    pub patch_offsets: &'static str,
    pub prepare: &'static str,
}

/// One supported game.
#[derive(Clone, Copy, Debug, PartialEq, Eq)]
pub struct GameData {
    pub name: &'static str,
    pub product_name: &'static str,
    pub exe_names: &'static [&'static str],
    pub singleton_name: &'static str,
    pub layout: RegistryLayout,
    pub patterns: EntryPointPatterns,
    pub features: SupportedFeatures,
}

/// The call that patches the offsets of a freshly copied record.
pub const PATCH_FXR_OFFSETS_CALL_PATTERN: &'static str =
    "4c 8b 44 24 20 48 8b 54 24 20 48 8b 4c 24 20 e8 $ { ' }";

/// The call that prepares a freshly patched record.
pub const PREPARE_FXR_CALL_PATTERN: &'static str = "33 c0 e9 ? ? ? ? 48 8b 4c 24 20 e8 $ { ' }";

/// The call that fetches the allocator of effect records.
pub const GET_ALLOCATOR_CALL_PATTERN: &'static str =
    "48 8b 44 24 28 8b 40 04 c1 e8 10 83 f8 ? ? ? 33 c0 e9 ? ? ? ? e8 $ { ' }";

/// The profile of Dark Souls III.
pub open spec fn dark_souls_3_profile() -> GameData {
    GameData {
        name: "DarkSouls3",
        product_name: "DARK SOULS™ III",
        exe_names: &["DarkSoulsIII.exe"],
        singleton_name: "SprjSfx",
        layout: RegistryLayout {
            cssfx_unk_size: 0x50,
            gfx_manager_unk_size: 0x158,
            res_con_pad_size: 0x10,
        },
        patterns: EntryPointPatterns {
            get_allocator: GET_ALLOCATOR_CALL_PATTERN,
            patch_offsets: PATCH_FXR_OFFSETS_CALL_PATTERN,
            prepare: PREPARE_FXR_CALL_PATTERN,
        },
        features: SupportedFeatures { reload: true, params: false, extract: true },
    }
}

/// The profile of Dark Souls III.
pub fn dark_souls_3() -> (game: GameData)
    ensures
        game == dark_souls_3_profile(),
{
    GameData {
        name: "DarkSouls3",
        product_name: "DARK SOULS™ III",
        exe_names: &["DarkSoulsIII.exe"],
        singleton_name: "SprjSfx",
        layout: RegistryLayout {
            cssfx_unk_size: 0x50,
            gfx_manager_unk_size: 0x158,
            res_con_pad_size: 0x10,
        },
        patterns: EntryPointPatterns {
            get_allocator: GET_ALLOCATOR_CALL_PATTERN,
            patch_offsets: PATCH_FXR_OFFSETS_CALL_PATTERN,
            prepare: PREPARE_FXR_CALL_PATTERN,
        },
        features: SupportedFeatures { reload: true, params: false, extract: true },
    }
}

/// The profile of Sekiro: Shadows Die Twice.
pub open spec fn sekiro_profile() -> GameData {
    GameData {
        name: "Sekiro",
        product_name: "Sekiro™: Shadows Die Twice",
        exe_names: &["sekiro.exe"],
        singleton_name: "SprjSfx",
        layout: RegistryLayout {
            cssfx_unk_size: 0x58,
            gfx_manager_unk_size: 0x158,
            res_con_pad_size: 0x20,
        },
        patterns: EntryPointPatterns {
            get_allocator: GET_ALLOCATOR_CALL_PATTERN,
            patch_offsets: PATCH_FXR_OFFSETS_CALL_PATTERN,
            prepare: PREPARE_FXR_CALL_PATTERN,
        },
        features: SupportedFeatures { reload: true, params: false, extract: true },
    }
}

/// The profile of Sekiro: Shadows Die Twice.
pub fn sekiro() -> (game: GameData)
    ensures
        game == sekiro_profile(),
{
    GameData {
        name: "Sekiro",
        product_name: "Sekiro™: Shadows Die Twice",
        exe_names: &["sekiro.exe"],
        singleton_name: "SprjSfx",
        layout: RegistryLayout {
            cssfx_unk_size: 0x58,
            gfx_manager_unk_size: 0x158,
            res_con_pad_size: 0x20,
        },
        patterns: EntryPointPatterns {
            get_allocator: GET_ALLOCATOR_CALL_PATTERN,
            patch_offsets: PATCH_FXR_OFFSETS_CALL_PATTERN,
            prepare: PREPARE_FXR_CALL_PATTERN,
        },
        features: SupportedFeatures { reload: true, params: false, extract: true },
    }
}

/// The profile of Elden Ring.
pub open spec fn elden_ring_profile() -> GameData {
    GameData {
        name: "EldenRing",
        product_name: "ELDEN RING™",
        exe_names: &["eldenring.exe", "start_protected_game.exe"],
        singleton_name: "CSSfx",
        layout: RegistryLayout {
            cssfx_unk_size: 0x58,
            gfx_manager_unk_size: 0x158,
            res_con_pad_size: 0x20,
        },
        patterns: EntryPointPatterns {
            get_allocator: GET_ALLOCATOR_CALL_PATTERN,
            patch_offsets: PATCH_FXR_OFFSETS_CALL_PATTERN,
            prepare: PREPARE_FXR_CALL_PATTERN,
        },
        features: SupportedFeatures { reload: true, params: true, extract: true },
    }
}

/// The profile of Elden Ring.
pub fn elden_ring() -> (game: GameData)
    ensures
        game == elden_ring_profile(),
{
    GameData {
        name: "EldenRing",
        product_name: "ELDEN RING™",
        exe_names: &["eldenring.exe", "start_protected_game.exe"],
        singleton_name: "CSSfx",
        layout: RegistryLayout {
            cssfx_unk_size: 0x58,
            gfx_manager_unk_size: 0x158,
            res_con_pad_size: 0x20,
        },
        patterns: EntryPointPatterns {
            get_allocator: GET_ALLOCATOR_CALL_PATTERN,
            patch_offsets: PATCH_FXR_OFFSETS_CALL_PATTERN,
            prepare: PREPARE_FXR_CALL_PATTERN,
        },
        features: SupportedFeatures { reload: true, params: true, extract: true },
    }
}

/// The profile of Armored Core VI: Fires of Rubicon.
pub open spec fn armored_core_6_profile() -> GameData {
    GameData {
        name: "ArmoredCore6",
        product_name: "ARMORED CORE™ VI FIRES OF RUBICON™",
        exe_names: &["armoredcore6.exe", "start_protected_game.exe"],
        singleton_name: "CSSfx",
        layout: RegistryLayout {
            cssfx_unk_size: 0x88,
            gfx_manager_unk_size: 0x58,
            res_con_pad_size: 0x20,
        },
        patterns: EntryPointPatterns {
            get_allocator: GET_ALLOCATOR_CALL_PATTERN,
            patch_offsets: PATCH_FXR_OFFSETS_CALL_PATTERN,
            prepare: PREPARE_FXR_CALL_PATTERN,
        },
        features: SupportedFeatures { reload: true, params: false, extract: true },
    }
}

/// The profile of Armored Core VI: Fires of Rubicon.
pub fn armored_core_6() -> (game: GameData)
    ensures
        game == armored_core_6_profile(),
{
    GameData {
        name: "ArmoredCore6",
        product_name: "ARMORED CORE™ VI FIRES OF RUBICON™",
        exe_names: &["armoredcore6.exe", "start_protected_game.exe"],
        singleton_name: "CSSfx",
        layout: RegistryLayout {
            cssfx_unk_size: 0x88,
            gfx_manager_unk_size: 0x58,
            res_con_pad_size: 0x20,
        },
        patterns: EntryPointPatterns {
            get_allocator: GET_ALLOCATOR_CALL_PATTERN,
            patch_offsets: PATCH_FXR_OFFSETS_CALL_PATTERN,
            prepare: PREPARE_FXR_CALL_PATTERN,
        },
        features: SupportedFeatures { reload: true, params: false, extract: true },
    }
}

/// The profile of Elden Ring Nightreign.
pub open spec fn nightreign_profile() -> GameData {
    GameData {
        name: "Nightreign",
        product_name: "ELDEN RING NIGHTREIGN",
        exe_names: &["nightreign.exe", "start_protected_game.exe"],
        singleton_name: "CSSfx",
        layout: RegistryLayout {
            cssfx_unk_size: 0x58,
            gfx_manager_unk_size: 0x58,
            res_con_pad_size: 0x20,
        },
        patterns: EntryPointPatterns {
            get_allocator: GET_ALLOCATOR_CALL_PATTERN,
            patch_offsets: PATCH_FXR_OFFSETS_CALL_PATTERN,
            prepare: PREPARE_FXR_CALL_PATTERN,
        },
        features: SupportedFeatures { reload: true, params: false, extract: true },
    }
}

/// The profile of Elden Ring Nightreign.
pub fn nightreign() -> (game: GameData)
    ensures
        game == nightreign_profile(),
{
    GameData {
        name: "Nightreign",
        product_name: "ELDEN RING NIGHTREIGN",
        exe_names: &["nightreign.exe", "start_protected_game.exe"],
        singleton_name: "CSSfx",
        layout: RegistryLayout {
            cssfx_unk_size: 0x58,
            gfx_manager_unk_size: 0x58,
            res_con_pad_size: 0x20,
        },
        patterns: EntryPointPatterns {
            get_allocator: GET_ALLOCATOR_CALL_PATTERN,
            patch_offsets: PATCH_FXR_OFFSETS_CALL_PATTERN,
            prepare: PREPARE_FXR_CALL_PATTERN,
        },
        features: SupportedFeatures { reload: true, params: false, extract: true },
    }
}

/// The supported games, in the order in which they are tried.
pub open spec fn supported_games() -> Seq<GameData> {
    seq![
        dark_souls_3_profile(),
        sekiro_profile(),
        elden_ring_profile(),
        armored_core_6_profile(),
        nightreign_profile(),
    ]
}

/// The supported games, in the order in which they are tried.
pub fn supported_game_list() -> (games: Vec<GameData>)
    ensures
        games@ == supported_games(),
{
    let games = vec![dark_souls_3(), sekiro(), elden_ring(), armored_core_6(), nightreign()];
    assert(games@ =~= supported_games());
    games
}

/// The first of `games` from index `from` on whose title is `title`.
pub open spec fn titled_from(games: Seq<GameData>, title: Seq<char>, from: int) -> Option<GameData>
    decreases games.len() - from,
{
    if from < 0 || from >= games.len() {
        None
    } else if games[from].product_name@ == title {
        Some(games[from])
    } else {
        titled_from(games, title, from + 1)
    }
}

/// The first of `games` from index `from` on whose name is `name`.
pub open spec fn named_from(games: Seq<GameData>, name: Seq<char>, from: int) -> Option<GameData>
    decreases games.len() - from,
{
    if from < 0 || from >= games.len() {
        None
    } else if games[from].name@ == name {
        Some(games[from])
    } else {
        named_from(games, name, from + 1)
    }
}

/// The first supported game whose product name is `product_name`.
pub fn get_game_data_by_title(product_name: &str) -> (r: Option<GameData>)
    ensures
        r == titled_from(supported_games(), product_name@, 0),
{
    let games = supported_game_list();
    let mut i: usize = 0;
    while i < games.len()
        invariant
            i <= games.len(),
            games@ == supported_games(),
            titled_from(supported_games(), product_name@, 0) == titled_from(
                supported_games(),
                product_name@,
                i as int,
            ),
        decreases games.len() - i,
    {
        if same_text(games[i].product_name, product_name) {
            return Some(games[i]);
        }
        i += 1;
    }
    None
}

/// The first supported game whose name is `name`.
pub fn get_game_data_by_name(name: &str) -> (r: Option<GameData>)
    ensures
        r == named_from(supported_games(), name@, 0),
{
    let games = supported_game_list();
    let mut i: usize = 0;
    while i < games.len()
        invariant
            i <= games.len(),
            games@ == supported_games(),
            named_from(supported_games(), name@, 0) == named_from(
                supported_games(),
                name@,
                i as int,
            ),
        decreases games.len() - i,
    {
        if same_text(games[i].name, name) {
            return Some(games[i]);
        }
        i += 1;
    }
    None
}

/// The characters of each of `names`.
pub open spec fn texts(names: Seq<&'static str>) -> Seq<Seq<char>> {
    Seq::new(names.len(), |i: int| names[i]@)
}

/// The executable names of the first `count` of `games`, one game after the
/// other.
pub open spec fn exe_names_of(games: Seq<GameData>, count: int) -> Seq<Seq<char>>
    decreases count,
{
    if count <= 0 || count > games.len() {
        Seq::empty()
    } else {
        exe_names_of(games, count - 1) + texts(games[count - 1].exe_names@)
    }
}

/// `names` with every repeat of an earlier name left out.
pub open spec fn without_repeats(names: Seq<Seq<char>>) -> Seq<Seq<char>>
    decreases names.len(),
{
    if names.len() == 0 {
        Seq::empty()
    } else {
        let before = without_repeats(names.drop_last());
        if before.contains(names.last()) {
            before
        } else {
            before.push(names.last())
        }
    }
}

/// With the repeats left out, no name stands twice, and every name that stood
/// there still does.
pub proof fn lemma_without_repeats(names: Seq<Seq<char>>)
    ensures
        without_repeats(names).no_duplicates(),
        forall|name: Seq<char>|
            #![trigger without_repeats(names).contains(name)]
            #![trigger names.contains(name)]
            without_repeats(names).contains(name) <==> names.contains(name),
    decreases names.len(),
{
    if names.len() > 0 {
        let before = names.drop_last();
        let kept = without_repeats(before);
        let all = without_repeats(names);
        lemma_without_repeats(before);
        assert forall|name: Seq<char>| names.contains(name) <==> before.contains(name) || name
            == names.last() by {
            if names.contains(name) {
                let i = choose|i: int| 0 <= i < names.len() && names[i] == name;
                if i < before.len() {
                    assert(before[i] == name);
                }
            }
            if before.contains(name) {
                let i = choose|i: int| 0 <= i < before.len() && before[i] == name;
                assert(names[i] == name);
            }
            if name == names.last() {
                assert(names[names.len() - 1] == name);
            }
        }
        if !kept.contains(names.last()) {
            assert(all == kept.push(names.last()));
            assert forall|name: Seq<char>| all.contains(name) <==> kept.contains(name) || name
                == names.last() by {
                if all.contains(name) {
                    let i = choose|i: int| 0 <= i < all.len() && all[i] == name;
                    if i < kept.len() {
                        assert(kept[i] == name);
                    }
                }
                if kept.contains(name) {
                    let i = choose|i: int| 0 <= i < kept.len() && kept[i] == name;
                    assert(all[i] == name);
                }
                if name == names.last() {
                    assert(all[kept.len() as int] == name);
                }
            }
            assert forall|i: int, j: int|
                0 <= i < all.len() && 0 <= j < all.len() && i != j implies all[i] != all[j] by {
                if i < kept.len() && j < kept.len() {
                    assert(kept[i] != kept[j]);
                } else if i < kept.len() {
                    assert(kept.contains(kept[i]));
                } else {
                    assert(kept.contains(kept[j]));
                }
            }
        }
    }
}

fn holds_text(names: &Vec<&'static str>, name: &str) -> (r: bool)
    ensures
        r == texts(names@).contains(name@),
{
    let mut i: usize = 0;
    while i < names.len()
        invariant
            i <= names.len(),
            forall|k: int| 0 <= k < i ==> texts(names@)[k] != name@,
        decreases names.len() - i,
    {
        if same_text(names[i], name) {
            assert(texts(names@)[i as int] == name@);
            return true;
        }
        i += 1;
    }
    false
}

/// The name of every executable of every supported game, each once, in the
/// order of first mention.
pub fn get_supported_exe_names() -> (names: Vec<&'static str>)
    ensures
        texts(names@) == without_repeats(
            exe_names_of(supported_games(), supported_games().len() as int),
        ),
{
    let games = supported_game_list();
    let mut names: Vec<&'static str> = Vec::new();
    let mut i: usize = 0;
    assert(texts(names@) =~= Seq::<Seq<char>>::empty());
    while i < games.len()
        invariant
            i <= games.len(),
            games@ == supported_games(),
            texts(names@) == without_repeats(exe_names_of(games@, i as int)),
        decreases games.len() - i,
    {
        let exes = games[i].exe_names;
        let mut j: usize = 0;
        assert(exe_names_of(games@, i as int) + texts(exes@).take(0) =~= exe_names_of(
            games@,
            i as int,
        ));
        while j < exes.len()
            invariant
                i < games.len(),
                j <= exes.len(),
                exes == games@[i as int].exe_names,
                texts(names@) == without_repeats(
                    exe_names_of(games@, i as int) + texts(exes@).take(j as int),
                ),
            decreases exes.len() - j,
        {
            let exe = exes[j];
            let ghost seen = exe_names_of(games@, i as int) + texts(exes@).take(j as int);
            let ghost next = exe_names_of(games@, i as int) + texts(exes@).take(j + 1);
            proof {
                assert(next.drop_last() =~= seen);
                assert(next.last() == exe@);
            }
            if !holds_text(&names, exe) {
                let ghost before = names@;
                names.push(exe);
                assert(texts(names@) =~= texts(before).push(exe@));
            }
            j += 1;
        }
        proof {
            assert(texts(exes@).take(exes@.len() as int) =~= texts(exes@));
        }
        i += 1;
    }
    names
}

} // verus!
