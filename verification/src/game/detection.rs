//! Which of the supported games an image belongs to.

use crate::game::game_data::{get_game_data_by_title, supported_games, titled_from, GameData};
use crate::text::same_text;
use crate::protocol::GameDetectionError;
use vstd::prelude::*;

verus! {

/// The key under which an image's version strings keep the product name.
pub const PRODUCT_NAME_KEY: &'static str = "ProductName";

/// The value of the last of `strings` whose key is the product name key.
pub open spec fn product_name_in(strings: Seq<(String, String)>) -> Option<Seq<char>>
    decreases strings.len(),
{
    if strings.len() == 0 {
        None
    } else if strings.last().0@ == PRODUCT_NAME_KEY@ {
        Some(strings.last().1@)
    } else {
        product_name_in(strings.drop_last())
    }
}

/// Picks the product name out of the version strings of an image, each given
/// as key and value. Where the key stands more than once its last value counts.
pub fn select_product_name(strings: &Vec<(String, String)>) -> (r: Result<
    String,
    GameDetectionError,
>)
    ensures
        match product_name_in(strings@) {
            Some(name) => r matches Ok(found) && found@ == name,
            None => r == Err::<String, GameDetectionError>(GameDetectionError::MissingProductName),
        },
{
    let mut i: usize = strings.len();
    assert(strings@.take(i as int) =~= strings@);
    while i > 0
        invariant
            i <= strings@.len(),
            product_name_in(strings@) == product_name_in(strings@.take(i as int)),
        decreases i,
    {
        i -= 1;
        proof {
            assert(strings@.take(i + 1).drop_last() =~= strings@.take(i as int));
            assert(strings@.take(i + 1).last() == strings@[i as int]);
        }
        if same_text(strings[i].0.as_str(), PRODUCT_NAME_KEY) {
            return Ok(strings[i].1.clone());
        }
    }
    assert(strings@.take(0) =~= Seq::<(String, String)>::empty());
    Err(GameDetectionError::MissingProductName)
}

/// What detection gives for an image with these version strings.
pub open spec fn detected(strings: Seq<(String, String)>, r: Result<
    GameData,
    GameDetectionError,
>) -> bool {
    match product_name_in(strings) {
        None => r == Err::<GameData, GameDetectionError>(GameDetectionError::MissingProductName),
        Some(name) => match titled_from(supported_games(), name, 0) {
            Some(game) => r == Ok::<GameData, GameDetectionError>(game),
            None => r matches Err(GameDetectionError::UnknownProductName(said)) && said@ == name,
        },
    }
}

/// Figures out what game an image belongs to, from the version strings of the
/// image in its first language, or from the reason why there are none.
pub fn detect_running_game(strings: Result<Vec<(String, String)>, GameDetectionError>) -> (r:
    Result<GameData, GameDetectionError>)
    ensures
        match strings {
            Err(e) => r == Err::<GameData, GameDetectionError>(e),
            Ok(pairs) => detected(pairs@, r),
        },
{
    let pairs = match strings {
        Ok(pairs) => pairs,
        Err(e) => {
            return Err(e);
        },
    };
    let product_name = match select_product_name(&pairs) {
        Ok(name) => name,
        Err(e) => {
            return Err(e);
        },
    };
    match get_game_data_by_title(product_name.as_str()) {
        Some(game) => Ok(game),
        None => Err(GameDetectionError::UnknownProductName(product_name)),
    }
}

} // verus!
