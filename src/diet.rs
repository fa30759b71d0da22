//! Diet and food attribute flags, derived from the feed's code tokens and icon identifiers.
use crate::text::{split_on, split_text, text_eq, views};
use vstd::prelude::*;

verus! {

pub const GLUTEN_FREE_CODE: &'static str = "G";

pub const LACTOSE_FREE_CODE: &'static str = "L";

pub const MILK_FREE_CODE: &'static str = "M";

pub const LOW_LACTOSE_CODE: &'static str = "VL";

pub const CO2_ICON: &'static str = "https://www.sodexo.fi/sites/default/themes/sodexo/images/sodexo-leaf.svg";

pub const HEART_ICON: &'static str = "https://www.sodexo.fi/sites/default/themes/sodexo/images/sydan.svg";

pub const VEGAN_ICON: &'static str = "https://www.sodexo.fi/sites/default/themes/sodexo/images/vege.svg";

pub const STUDENT_ICON: &'static str = "https://www.sodexo.fi/sites/default/themes/sodexo/images/omena.svg";

pub const PORK_ICON: &'static str = "https://www.sodexo.fi/sites/default/themes/sodexo/images/possu.svg";

pub const FI_MEAT_ICON: &'static str = "https://www.sodexo.fi/sites/default/themes/sodexo/images/liha-fi-new.svg";

pub const EU_MEAT_ICON: &'static str = "https://www.sodexo.fi/sites/default/themes/sodexo/images/liha-eu-new.svg";

pub const OTHER_MEAT_ICON: &'static str = "https://www.sodexo.fi/sites/default/themes/sodexo/images/liha-muu-new.svg";

/// Dietary properties of a course.
#[derive(Clone, Copy, Debug, PartialEq, Eq, Structural)]
pub struct DietInfo {
    pub gluten_free: bool,
    pub lactose_free: bool,
    pub milk_free: bool,
    pub low_lactose: bool,
}

/// Food properties of a course, one per icon of the feed.
#[derive(Clone, Copy, Debug, PartialEq, Eq, Structural)]
pub struct FoodInfo {
    pub co2: bool,
    pub heart: bool,
    pub vegan: bool,
    pub student_recommendation: bool,
    pub pork: bool,
    pub fi_meat: bool,
    pub eu_meat: bool,
    pub other_meat: bool,
}

/// Whether `t` is one of `tokens`.
pub open spec fn has_token(tokens: Seq<Seq<char>>, t: Seq<char>) -> bool {
    exists|i: int| 0 <= i < tokens.len() && tokens[i] == t
}

/// The diet flags that a list of code tokens sets: each flag is set exactly when its code
/// is among the tokens; other tokens are ignored.
pub open spec fn diet_info_of(tokens: Seq<Seq<char>>) -> DietInfo {
    DietInfo {
        gluten_free: has_token(tokens, GLUTEN_FREE_CODE@),
        lactose_free: has_token(tokens, LACTOSE_FREE_CODE@),
        milk_free: has_token(tokens, MILK_FREE_CODE@),
        low_lactose: has_token(tokens, LOW_LACTOSE_CODE@),
    }
}

/// The food flags that a list of icon identifiers sets: each flag is set exactly when its
/// identifier is in the list; other identifiers are ignored.
pub open spec fn food_info_of(ids: Seq<Seq<char>>) -> FoodInfo {
    FoodInfo {
        co2: has_token(ids, CO2_ICON@),
        heart: has_token(ids, HEART_ICON@),
        vegan: has_token(ids, VEGAN_ICON@),
        student_recommendation: has_token(ids, STUDENT_ICON@),
        pork: has_token(ids, PORK_ICON@),
        fi_meat: has_token(ids, FI_MEAT_ICON@),
        eu_meat: has_token(ids, EU_MEAT_ICON@),
        other_meat: has_token(ids, OTHER_MEAT_ICON@),
    }
}

pub open spec fn no_diet_info() -> DietInfo {
    DietInfo { gluten_free: false, lactose_free: false, milk_free: false, low_lactose: false }
}

pub open spec fn no_food_info() -> FoodInfo {
    FoodInfo {
        co2: false,
        heart: false,
        vegan: false,
        student_recommendation: false,
        pork: false,
        fi_meat: false,
        eu_meat: false,
        other_meat: false,
    }
}

impl Default for DietInfo {
    fn default() -> (r: DietInfo)
        ensures
            r == no_diet_info(),
    {
        DietInfo { gluten_free: false, lactose_free: false, milk_free: false, low_lactose: false }
    }
}

impl Default for FoodInfo {
    fn default() -> (r: FoodInfo)
        ensures
            r == no_food_info(),
    {
        FoodInfo {
            co2: false,
            heart: false,
            vegan: false,
            student_recommendation: false,
            pork: false,
            fi_meat: false,
            eu_meat: false,
            other_meat: false,
        }
    }
}

/// Whether `t` is one of `tokens`.
pub fn contains_token(tokens: &Vec<String>, t: &str) -> (r: bool)
    ensures
        r == has_token(views(tokens@), t@),
{
    let mut i: usize = 0;
    while i < tokens.len()
        invariant
            i <= tokens@.len(),
            forall|j: int| 0 <= j < i ==> tokens@[j]@ != t@,
        decreases tokens.len() - i,
    {
        if text_eq(tokens[i].as_str(), t) {
            assert(views(tokens@)[i as int] == t@);
            return true;
        }
        i += 1;
    }
    assert forall|j: int| 0 <= j < views(tokens@).len() implies views(tokens@)[j] != t@ by {
        assert(views(tokens@)[j] == tokens@[j]@);
    }
    false
}

/// Derives the diet flags from a list of code tokens.
pub fn diet_info_from_codes(tokens: &Vec<String>) -> (r: DietInfo)
    ensures
        r == diet_info_of(views(tokens@)),
{
    DietInfo {
        gluten_free: contains_token(tokens, GLUTEN_FREE_CODE),
        lactose_free: contains_token(tokens, LACTOSE_FREE_CODE),
        milk_free: contains_token(tokens, MILK_FREE_CODE),
        low_lactose: contains_token(tokens, LOW_LACTOSE_CODE),
    }
}

/// Derives the diet flags from a comma-separated code list such as `"G,L,M"`.
pub fn diet_info_from_code_list(codes: &str) -> (r: DietInfo)
    ensures
        r == diet_info_of(split_on(codes@, ',')),
{
    let tokens = split_text(codes, ',');
    diet_info_from_codes(&tokens)
}

/// Derives the food flags from a list of icon identifiers.
pub fn food_info_from_identifiers(ids: &Vec<String>) -> (r: FoodInfo)
    ensures
        r == food_info_of(views(ids@)),
{
    FoodInfo {
        co2: contains_token(ids, CO2_ICON),
        heart: contains_token(ids, HEART_ICON),
        vegan: contains_token(ids, VEGAN_ICON),
        student_recommendation: contains_token(ids, STUDENT_ICON),
        pork: contains_token(ids, PORK_ICON),
        fi_meat: contains_token(ids, FI_MEAT_ICON),
        eu_meat: contains_token(ids, EU_MEAT_ICON),
        other_meat: contains_token(ids, OTHER_MEAT_ICON),
    }
}

/// The flags depend only on which tokens occur: two token lists that hold the same tokens,
/// in any order and with any repetitions, give the same diet flags and the same food flags.
pub proof fn lemma_flags_depend_on_token_set(a: Seq<Seq<char>>, b: Seq<Seq<char>>)
    requires
        a.to_set() == b.to_set(),
    ensures
        diet_info_of(a) == diet_info_of(b),
        food_info_of(a) == food_info_of(b),
{
    assert forall|t: Seq<char>| has_token(a, t) == has_token(b, t) by {
        if has_token(a, t) {
            let i = choose|i: int| 0 <= i < a.len() && a[i] == t;
            assert(a.to_set().contains(a[i]));
            assert(b.to_set().contains(t));
            assert(b.contains(t));
        }
        if has_token(b, t) {
            let i = choose|i: int| 0 <= i < b.len() && b[i] == t;
            assert(b.to_set().contains(b[i]));
            assert(a.to_set().contains(t));
            assert(a.contains(t));
        }
    }
}

} // verus!
