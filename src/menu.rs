//! The menu model and its decoding from the feed's JSON, which is loose in shape: keyed
//! collections may arrive as an empty array, and most fields may be missing.
use crate::diet::{
    diet_info_from_code_list, diet_info_of, food_info_from_identifiers, food_info_of,
    no_diet_info, no_food_info, DietInfo, FoodInfo,
};
use crate::json::{keyed, keyed_entries, member, member_of, parse_json, parsed_json, Json};
use crate::text::{split_on, views};
use vstd::prelude::*;

verus! {

/// Why the feed's payload could not be decoded.
#[derive(Debug)]
pub enum DecodeError {
    /// The payload is not JSON, or not of the expected shape; the text names the place.
    Malformed(String),
}

fn malformed(what: &str) -> (r: DecodeError) {
    DecodeError::Malformed(what.to_owned())
}

// ---------------------------------------------------------------------------------------
// The decoding of a list, element by element.
/// Decodes every element with `f`; fails if any element fails.
pub open spec fn decode_all<T, A>(s: Seq<T>, f: spec_fn(T) -> Option<A>) -> Option<Seq<A>>
    decreases s.len(),
{
    if s.len() == 0 {
        Some(Seq::empty())
    } else {
        match decode_all(s.drop_last(), f) {
            Some(r) => match f(s.last()) {
                Some(x) => Some(r.push(x)),
                None => None,
            },
            None => None,
        }
    }
}

/// Once a prefix fails to decode, the whole list fails.
pub proof fn lemma_decode_all_prefix<T, A>(s: Seq<T>, f: spec_fn(T) -> Option<A>, i: int)
    requires
        0 <= i <= s.len(),
        decode_all(s.subrange(0, i), f) is None,
    ensures
        decode_all(s, f) is None,
    decreases s.len() - i,
{
    if i == s.len() {
        assert(s.subrange(0, i) =~= s);
    } else {
        assert(s.subrange(0, i + 1).drop_last() =~= s.subrange(0, i));
        lemma_decode_all_prefix(s, f, i + 1);
    }
}

pub open spec fn opt_view(t: Option<String>) -> Option<Seq<char>> {
    match t {
        Some(s) => Some(s@),
        None => None,
    }
}

// ---------------------------------------------------------------------------------------
// Fields.
/// An optional text field: missing or null is `None`; a string is its text; anything else
/// fails (the outer `None`).
pub open spec fn optional_text(f: Option<Json>) -> Option<Option<Seq<char>>> {
    match f {
        None => Some(None),
        Some(Json::Null) => Some(None),
        Some(Json::Str(s)) => Some(Some(s@)),
        _ => None,
    }
}

/// A required text field.
pub open spec fn required_text(f: Option<Json>) -> Option<Seq<char>> {
    match f {
        Some(Json::Str(s)) => Some(s@),
        _ => None,
    }
}

/// A required integer field that must fit in an `i64`.
pub open spec fn required_i64(f: Option<Json>) -> Option<i64> {
    match f {
        Some(Json::Int(i)) => if i64::MIN <= i <= i64::MAX {
            Some(i as i64)
        } else {
            None
        },
        _ => None,
    }
}

/// The diet flags of a `dietcodes` field: missing or null sets none.
pub open spec fn diet_field(f: Option<Json>) -> Option<DietInfo> {
    match f {
        None => Some(no_diet_info()),
        Some(Json::Null) => Some(no_diet_info()),
        Some(Json::Str(s)) => Some(diet_info_of(split_on(s@, ','))),
        _ => None,
    }
}

pub open spec fn text_of(j: Json) -> Option<Seq<char>> {
    match j {
        Json::Str(s) => Some(s@),
        _ => None,
    }
}

pub open spec fn text_decoder() -> spec_fn(Json) -> Option<Seq<char>> {
    |j: Json| text_of(j)
}

/// The texts of an array whose elements must all be strings.
pub open spec fn texts_of(items: Seq<Json>) -> Option<Seq<Seq<char>>> {
    decode_all(items, text_decoder())
}

/// The food flags of a `dietcodeImages` field: missing or null sets none.
pub open spec fn food_field(f: Option<Json>) -> Option<FoodInfo> {
    match f {
        None => Some(no_food_info()),
        Some(Json::Null) => Some(no_food_info()),
        Some(Json::Array(a)) => match texts_of(a@) {
            Some(ids) => Some(food_info_of(ids)),
            None => None,
        },
        _ => None,
    }
}

fn optional_text_field(entries: &Vec<(String, Json)>, key: &str) -> (r: Result<
    Option<String>,
    DecodeError,
>)
    ensures
        match r {
            Ok(t) => optional_text(member(entries@, key@)) == Some(opt_view(t)),
            Err(_) => optional_text(member(entries@, key@)) is None,
        },
{
    match member_of(entries, key) {
        None => Ok(None),
        Some(Json::Null) => Ok(None),
        Some(Json::Str(s)) => Ok(Some(s.clone())),
        Some(_) => Err(malformed(key)),
    }
}

fn required_text_field(entries: &Vec<(String, Json)>, key: &str) -> (r: Result<String, DecodeError>)
    ensures
        match r {
            Ok(t) => required_text(member(entries@, key@)) == Some(t@),
            Err(_) => required_text(member(entries@, key@)) is None,
        },
{
    match member_of(entries, key) {
        Some(Json::Str(s)) => Ok(s.clone()),
        _ => Err(malformed(key)),
    }
}

fn required_i64_field(entries: &Vec<(String, Json)>, key: &str) -> (r: Result<i64, DecodeError>)
    ensures
        match r {
            Ok(t) => required_i64(member(entries@, key@)) == Some(t),
            Err(_) => required_i64(member(entries@, key@)) is None,
        },
{
    match member_of(entries, key) {
        Some(Json::Int(i)) => {
            if i64::MIN as i128 <= *i && *i <= i64::MAX as i128 {
                Ok(*i as i64)
            } else {
                Err(malformed(key))
            }
        },
        _ => Err(malformed(key)),
    }
}

fn diet_info_field(entries: &Vec<(String, Json)>, key: &str) -> (r: Result<DietInfo, DecodeError>)
    ensures
        match r {
            Ok(d) => diet_field(member(entries@, key@)) == Some(d),
            Err(_) => diet_field(member(entries@, key@)) is None,
        },
{
    match member_of(entries, key) {
        None => Ok(DietInfo::default()),
        Some(Json::Null) => Ok(DietInfo::default()),
        Some(Json::Str(s)) => Ok(diet_info_from_code_list(s.as_str())),
        Some(_) => Err(malformed(key)),
    }
}

/// The texts of an array whose elements must all be strings.
fn texts(items: &Vec<Json>) -> (r: Option<Vec<String>>)
    ensures
        match r {
            Some(v) => texts_of(items@) == Some(views(v@)),
            None => texts_of(items@) is None,
        },
{
    let mut out: Vec<String> = Vec::new();
    let mut i: usize = 0;
    assert(items@.subrange(0, 0) =~= Seq::<Json>::empty());
    assert(views(out@) =~= Seq::<Seq<char>>::empty());
    while i < items.len()
        invariant
            i <= items@.len(),
            texts_of(items@.subrange(0, i as int)) == Some(views(out@)),
        decreases items.len() - i,
    {
        assert(items@.subrange(0, i + 1).drop_last() =~= items@.subrange(0, i as int));
        assert(items@.subrange(0, i + 1).last() == items@[i as int]);
        match &items[i] {
            Json::Str(s) => {
                let ghost before = out@;
                out.push(s.clone());
                assert(views(out@) =~= views(before).push(s@));
            },
            _ => {
                proof {
                    assert(text_of(items@[i as int]) is None);
                    assert((text_decoder())(items@[i as int]) is None);
                    lemma_decode_all_prefix(items@, text_decoder(), i + 1);
                }
                return None;
            },
        }
        i += 1;
    }
    assert(items@.subrange(0, items@.len() as int) =~= items@);
    Some(out)
}

fn food_info_field(entries: &Vec<(String, Json)>, key: &str) -> (r: Result<FoodInfo, DecodeError>)
    ensures
        match r {
            Ok(d) => food_field(member(entries@, key@)) == Some(d),
            Err(_) => food_field(member(entries@, key@)) is None,
        },
{
    match member_of(entries, key) {
        None => Ok(FoodInfo::default()),
        Some(Json::Null) => Ok(FoodInfo::default()),
        Some(Json::Array(a)) => match texts(a) {
            Some(ids) => Ok(food_info_from_identifiers(&ids)),
            None => Err(malformed(key)),
        },
        Some(_) => Err(malformed(key)),
    }
}

// ---------------------------------------------------------------------------------------
// The model.
/// Where a menu comes from and when the feed produced it.
#[derive(Debug)]
pub struct Meta {
    pub generated_timestamp: i64,
    pub ref_url: String,
    pub ref_title: String,
    pub restaurant_mashie_id: String,
}

pub struct MetaView {
    pub generated_timestamp: i64,
    pub ref_url: Seq<char>,
    pub ref_title: Seq<char>,
    pub restaurant_mashie_id: Seq<char>,
}

impl View for Meta {
    type V = MetaView;

    open spec fn view(&self) -> MetaView {
        MetaView {
            generated_timestamp: self.generated_timestamp,
            ref_url: self.ref_url@,
            ref_title: self.ref_title@,
            restaurant_mashie_id: self.restaurant_mashie_id@,
        }
    }
}

impl Meta {
    /// A copy of this record.
    pub fn copy(&self) -> (r: Meta)
        ensures
            r@ == self@,
    {
        Meta {
            generated_timestamp: self.generated_timestamp,
            ref_url: self.ref_url.clone(),
            ref_title: self.ref_title.clone(),
            restaurant_mashie_id: self.restaurant_mashie_id.clone(),
        }
    }
}

/// Food flags and allergens of a course.
#[derive(Debug)]
pub struct AdditionalDietInfo {
    pub food_info: FoodInfo,
    pub allergens: Option<String>,
}

pub struct AdditionalDietInfoView {
    pub food_info: FoodInfo,
    pub allergens: Option<Seq<char>>,
}

impl View for AdditionalDietInfo {
    type V = AdditionalDietInfoView;

    open spec fn view(&self) -> AdditionalDietInfoView {
        AdditionalDietInfoView { food_info: self.food_info, allergens: opt_view(self.allergens) }
    }
}

pub open spec fn no_additional_diet_info() -> AdditionalDietInfoView {
    AdditionalDietInfoView { food_info: no_food_info(), allergens: None }
}

impl Default for AdditionalDietInfo {
    fn default() -> (r: AdditionalDietInfo)
        ensures
            r@ == no_additional_diet_info(),
    {
        AdditionalDietInfo { food_info: FoodInfo::default(), allergens: None }
    }
}

/// Diet flags that hold for every recipe of a course.
#[derive(Clone, Copy, Debug, PartialEq, Eq, Structural)]
pub struct HideAll {
    pub diet_info: DietInfo,
}

/// A recipe's ingredients: a text, or not available (the feed sends an empty list).
#[derive(Debug)]
pub struct StringOrEmptyList {
    inner: Option<String>,
}

impl View for StringOrEmptyList {
    type V = Option<Seq<char>>;

    closed spec fn view(&self) -> Option<Seq<char>> {
        opt_view(self.inner)
    }
}

/// The text shown where ingredients are not available.
pub const NOT_AVAILABLE: &'static str = "N/A";

impl StringOrEmptyList {
    /// Ingredients given as text.
    pub fn text(s: String) -> (r: StringOrEmptyList)
        ensures
            r@ == Some(s@),
    {
        StringOrEmptyList { inner: Some(s) }
    }

    /// Ingredients that are not available.
    pub fn not_available() -> (r: StringOrEmptyList)
        ensures
            r@ is None,
    {
        StringOrEmptyList { inner: None }
    }

    /// The ingredient text, if the feed gave one.
    pub fn as_text(&self) -> (r: Option<&String>)
        ensures
            r is Some <==> self@ is Some,
            r is Some ==> self@ == Some(r->0@),
    {
        match &self.inner {
            Some(s) => Some(s),
            None => None,
        }
    }

    /// The ingredient text, or `N/A` where none is available.
    pub fn to_string(&self) -> (r: String)
        ensures
            self@ is Some ==> r@ == self@->0,
            self@ is None ==> r@ == NOT_AVAILABLE@,
    {
        match &self.inner {
            Some(s) => s.clone(),
            None => NOT_AVAILABLE.to_owned(),
        }
    }
}

/// One recipe of a course; `nutrients` is a `|`-separated list, kept as the feed sends it.
#[derive(Debug)]
pub struct Recipe {
    pub name: String,
    pub ingredients: StringOrEmptyList,
    pub nutrients: String,
}

pub struct RecipeView {
    pub name: Seq<char>,
    pub ingredients: Option<Seq<char>>,
    pub nutrients: Seq<char>,
}

impl View for Recipe {
    type V = RecipeView;

    open spec fn view(&self) -> RecipeView {
        RecipeView {
            name: self.name@,
            ingredients: self.ingredients@,
            nutrients: self.nutrients@,
        }
    }
}

/// The recipes of a course, and the flags shared by all of them.
#[derive(Debug)]
pub struct RecipesWrapper {
    pub recipes: Vec<Recipe>,
    pub hide_all: Option<HideAll>,
}

pub struct RecipesWrapperView {
    pub recipes: Seq<RecipeView>,
    pub hide_all: Option<HideAll>,
}

pub open spec fn recipe_views(v: Seq<Recipe>) -> Seq<RecipeView> {
    v.map_values(|r: Recipe| r@)
}

impl View for RecipesWrapper {
    type V = RecipesWrapperView;

    open spec fn view(&self) -> RecipesWrapperView {
        RecipesWrapperView { recipes: recipe_views(self.recipes@), hide_all: self.hide_all }
    }
}

/// One dish of a menu.
#[derive(Debug)]
pub struct Course {
    pub title_fi: Option<String>,
    pub title_en: Option<String>,
    pub category: Option<String>,
    pub meal_category: Option<String>,
    pub diet_info: DietInfo,
    pub properties: Option<String>,
    pub additional_diet_info: AdditionalDietInfo,
    pub price: Option<String>,
    pub recipes: Option<RecipesWrapper>,
}

pub struct CourseView {
    pub title_fi: Option<Seq<char>>,
    pub title_en: Option<Seq<char>>,
    pub category: Option<Seq<char>>,
    pub meal_category: Option<Seq<char>>,
    pub diet_info: DietInfo,
    pub properties: Option<Seq<char>>,
    pub additional_diet_info: AdditionalDietInfoView,
    pub price: Option<Seq<char>>,
    pub recipes: Option<RecipesWrapperView>,
}

impl View for Course {
    type V = CourseView;

    open spec fn view(&self) -> CourseView {
        CourseView {
            title_fi: opt_view(self.title_fi),
            title_en: opt_view(self.title_en),
            category: opt_view(self.category),
            meal_category: opt_view(self.meal_category),
            diet_info: self.diet_info,
            properties: opt_view(self.properties),
            additional_diet_info: self.additional_diet_info@,
            price: opt_view(self.price),
            recipes: match self.recipes {
                Some(w) => Some(w@),
                None => None,
            },
        }
    }
}

/// Courses under their feed-assigned keys.
pub open spec fn course_entry_views(v: Seq<(String, Course)>) -> Seq<(Seq<char>, CourseView)> {
    v.map_values(|p: (String, Course)| (p.0@, p.1@))
}

/// The menu of one day.
#[derive(Debug)]
pub struct DailyMenu {
    pub meta: Meta,
    pub courses: Vec<(String, Course)>,
}

pub struct DailyMenuView {
    pub meta: MetaView,
    pub courses: Seq<(Seq<char>, CourseView)>,
}

impl View for DailyMenu {
    type V = DailyMenuView;

    open spec fn view(&self) -> DailyMenuView {
        DailyMenuView { meta: self.meta@, courses: course_entry_views(self.courses@) }
    }
}

/// One day of a weekly menu.
#[derive(Debug)]
pub struct Day {
    pub date: String,
    pub courses: Vec<(String, Course)>,
}

pub struct DayView {
    pub date: Seq<char>,
    pub courses: Seq<(Seq<char>, CourseView)>,
}

impl View for Day {
    type V = DayView;

    open spec fn view(&self) -> DayView {
        DayView { date: self.date@, courses: course_entry_views(self.courses@) }
    }
}

pub open spec fn day_views(v: Seq<Day>) -> Seq<DayView> {
    v.map_values(|d: Day| d@)
}

/// The menu of a week: a period label, and the days in the feed's order.
#[derive(Debug)]
pub struct WeeklyMenu {
    pub meta: Meta,
    pub timeperiod: String,
    pub mealdates: Vec<Day>,
}

pub struct WeeklyMenuView {
    pub meta: MetaView,
    pub timeperiod: Seq<char>,
    pub mealdates: Seq<DayView>,
}

impl View for WeeklyMenu {
    type V = WeeklyMenuView;

    open spec fn view(&self) -> WeeklyMenuView {
        WeeklyMenuView {
            meta: self.meta@,
            timeperiod: self.timeperiod@,
            mealdates: day_views(self.mealdates@),
        }
    }
}

// ---------------------------------------------------------------------------------------
// What each part of the feed decodes to.
/// The `additionalDietInfo` field: missing gives no flags and no allergens.
pub open spec fn additional_info_of(f: Option<Json>) -> Option<AdditionalDietInfoView> {
    match f {
        None => Some(no_additional_diet_info()),
        Some(Json::Object(e)) => {
            let food = food_field(member(e@, "dietcodeImages"@));
            let allergens = optional_text(member(e@, "allergens"@));
            if food is Some && allergens is Some {
                Some(AdditionalDietInfoView { food_info: food->0, allergens: allergens->0 })
            } else {
                None
            }
        },
        _ => None,
    }
}

/// The `hideAll` member of a recipe collection.
pub open spec fn hide_all_field(f: Option<Json>) -> Option<Option<HideAll>> {
    match f {
        None => Some(None),
        Some(Json::Null) => Some(None),
        Some(Json::Object(e)) => match diet_field(member(e@, "dietcodes"@)) {
            Some(d) => Some(Some(HideAll { diet_info: d })),
            None => None,
        },
        _ => None,
    }
}

/// The `ingredients` of a recipe: a text, or an empty array for none.
pub open spec fn ingredients_field(f: Option<Json>) -> Option<Option<Seq<char>>> {
    match f {
        Some(Json::Str(s)) => Some(Some(s@)),
        Some(Json::Array(a)) => if a@.len() == 0 {
            Some(None)
        } else {
            None
        },
        _ => None,
    }
}

pub open spec fn recipe_of(j: Json) -> Option<RecipeView> {
    match j {
        Json::Object(e) => {
            let name = required_text(member(e@, "name"@));
            let ingredients = ingredients_field(member(e@, "ingredients"@));
            let nutrients = required_text(member(e@, "nutrients"@));
            if name is Some && ingredients is Some && nutrients is Some {
                Some(
                    RecipeView {
                        name: name->0,
                        ingredients: ingredients->0,
                        nutrients: nutrients->0,
                    },
                )
            } else {
                None
            }
        },
        _ => None,
    }
}

/// The recipes of a recipe collection: every member but `hideAll`, in order.
pub open spec fn recipe_list_of(entries: Seq<(String, Json)>) -> Option<Seq<RecipeView>>
    decreases entries.len(),
{
    if entries.len() == 0 {
        Some(Seq::empty())
    } else {
        match recipe_list_of(entries.drop_last()) {
            Some(r) => if entries.last().0@ == "hideAll"@ {
                Some(r)
            } else {
                match recipe_of(entries.last().1) {
                    Some(x) => Some(r.push(x)),
                    None => None,
                }
            },
            None => None,
        }
    }
}

pub proof fn lemma_recipe_list_prefix(s: Seq<(String, Json)>, i: int)
    requires
        0 <= i <= s.len(),
        recipe_list_of(s.subrange(0, i)) is None,
    ensures
        recipe_list_of(s) is None,
    decreases s.len() - i,
{
    if i == s.len() {
        assert(s.subrange(0, i) =~= s);
    } else {
        assert(s.subrange(0, i + 1).drop_last() =~= s.subrange(0, i));
        lemma_recipe_list_prefix(s, i + 1);
    }
}

/// The `recipes` field: missing or null is none; otherwise a keyed collection.
pub open spec fn recipes_field(f: Option<Json>) -> Option<Option<RecipesWrapperView>> {
    match f {
        None => Some(None),
        Some(Json::Null) => Some(None),
        Some(j) => match keyed_entries(j) {
            Some(e) => {
                let recipes = recipe_list_of(e);
                let hide_all = hide_all_field(member(e, "hideAll"@));
                if recipes is Some && hide_all is Some {
                    Some(Some(RecipesWrapperView { recipes: recipes->0, hide_all: hide_all->0 }))
                } else {
                    None
                }
            },
            None => None,
        },
    }
}

pub open spec fn course_of(j: Json) -> Option<CourseView> {
    match j {
        Json::Object(e) => {
            let title_fi = optional_text(member(e@, "title_fi"@));
            let title_en = optional_text(member(e@, "title_en"@));
            let category = optional_text(member(e@, "category"@));
            let meal_category = optional_text(member(e@, "meal_category"@));
            let diet_info = diet_field(member(e@, "dietcodes"@));
            let properties = optional_text(member(e@, "properties"@));
            let additional = additional_info_of(member(e@, "additionalDietInfo"@));
            let price = optional_text(member(e@, "price"@));
            let recipes = recipes_field(member(e@, "recipes"@));
            if title_fi is Some && title_en is Some && category is Some && meal_category is Some
                && diet_info is Some && properties is Some && additional is Some && price is Some
                && recipes is Some {
                Some(
                    CourseView {
                        title_fi: title_fi->0,
                        title_en: title_en->0,
                        category: category->0,
                        meal_category: meal_category->0,
                        diet_info: diet_info->0,
                        properties: properties->0,
                        additional_diet_info: additional->0,
                        price: price->0,
                        recipes: recipes->0,
                    },
                )
            } else {
                None
            }
        },
        _ => None,
    }
}

pub open spec fn course_entry_decoder() -> spec_fn((String, Json)) -> Option<(Seq<char>, CourseView)> {
    |p: (String, Json)|
        match course_of(p.1) {
            Some(c) => Some((p.0@, c)),
            None => None,
        }
}

/// No two members of an object share a key.
pub open spec fn distinct_keys(e: Seq<(String, Json)>) -> bool {
    forall|a: int, b: int| 0 <= a < b < e.len() ==> e[a].0@ != e[b].0@
}

/// No two courses share a key.
pub open spec fn course_keys_distinct(c: Seq<(Seq<char>, CourseView)>) -> bool {
    forall|a: int, b: int| 0 <= a < b < c.len() ==> c[a].0 != c[b].0
}

/// The `courses` field: missing is empty; otherwise a keyed collection of courses, each
/// under its own key.
pub open spec fn courses_field(f: Option<Json>) -> Option<Seq<(Seq<char>, CourseView)>> {
    match f {
        None => Some(Seq::empty()),
        Some(j) => match keyed_entries(j) {
            Some(e) => if distinct_keys(e) {
                decode_all(e, course_entry_decoder())
            } else {
                None
            },
            None => None,
        },
    }
}

/// A list decodes element by element: the result has one element per input, each what `f`
/// makes of its input.
pub proof fn lemma_decode_all_elements<T, A>(s: Seq<T>, f: spec_fn(T) -> Option<A>)
    requires
        decode_all(s, f) is Some,
    ensures
        decode_all(s, f)->0.len() == s.len(),
        forall|i: int| 0 <= i < s.len() ==> f(s[i]) == Some(#[trigger] decode_all(s, f)->0[i]),
    decreases s.len(),
{
    if s.len() > 0 {
        let p = s.drop_last();
        lemma_decode_all_elements(p, f);
        assert forall|i: int| 0 <= i < s.len() implies f(s[i]) == Some(
            #[trigger] decode_all(s, f)->0[i],
        ) by {
            if i < p.len() {
                assert(s[i] == p[i]);
                assert(decode_all(s, f)->0[i] == decode_all(p, f)->0[i]);
            }
        }
    }
}

/// A decoded day holds its courses under distinct keys.
pub proof fn lemma_day_keys(j: Json)
    requires
        day_of(j) is Some,
    ensures
        course_keys_distinct(day_of(j)->0.courses),
{
    if let Json::Object(e) = j {
        lemma_courses_field_keys(member(e@, "courses"@));
    }
}

/// Decoded courses keep the keys of their members, so they too are under distinct keys.
pub proof fn lemma_courses_field_keys(f: Option<Json>)
    requires
        courses_field(f) is Some,
    ensures
        course_keys_distinct(courses_field(f)->0),
{
    if f is Some {
        let e = keyed_entries(f->0)->0;
        lemma_decode_all_elements(e, course_entry_decoder());
        let c = courses_field(f)->0;
        assert forall|a: int, b: int| 0 <= a < b < c.len() implies c[a].0 != c[b].0 by {
            assert((course_entry_decoder())(e[a]) == Some(c[a]));
            assert((course_entry_decoder())(e[b]) == Some(c[b]));
        }
    }
}

/// The required `meta` field.
pub open spec fn meta_of(f: Option<Json>) -> Option<MetaView> {
    match f {
        Some(Json::Object(e)) => {
            let ts = required_i64(member(e@, "generated_timestamp"@));
            let url = required_text(member(e@, "ref_url"@));
            let title = required_text(member(e@, "ref_title"@));
            let id = required_text(member(e@, "restaurant_mashie_id"@));
            if ts is Some && url is Some && title is Some && id is Some {
                Some(
                    MetaView {
                        generated_timestamp: ts->0,
                        ref_url: url->0,
                        ref_title: title->0,
                        restaurant_mashie_id: id->0,
                    },
                )
            } else {
                None
            }
        },
        _ => None,
    }
}

/// A day's menu: `meta` and `courses`.
pub open spec fn daily_menu_of(j: Json) -> Option<DailyMenuView> {
    match j {
        Json::Object(e) => {
            let meta = meta_of(member(e@, "meta"@));
            let courses = courses_field(member(e@, "courses"@));
            if meta is Some && courses is Some {
                Some(DailyMenuView { meta: meta->0, courses: courses->0 })
            } else {
                None
            }
        },
        _ => None,
    }
}

/// One day of a week: `date` and `courses`.
pub open spec fn day_of(j: Json) -> Option<DayView> {
    match j {
        Json::Object(e) => {
            let date = required_text(member(e@, "date"@));
            let courses = courses_field(member(e@, "courses"@));
            if date is Some && courses is Some {
                Some(DayView { date: date->0, courses: courses->0 })
            } else {
                None
            }
        },
        _ => None,
    }
}

pub open spec fn day_decoder() -> spec_fn(Json) -> Option<DayView> {
    |j: Json| day_of(j)
}

/// A week's menu: `meta`, `timeperiod` and the array `mealdates`.
pub open spec fn weekly_menu_of(j: Json) -> Option<WeeklyMenuView> {
    match j {
        Json::Object(e) => {
            let meta = meta_of(member(e@, "meta"@));
            let period = required_text(member(e@, "timeperiod"@));
            let days = match member(e@, "mealdates"@) {
                Some(Json::Array(a)) => decode_all(a@, day_decoder()),
                _ => None,
            };
            if meta is Some && period is Some && days is Some {
                Some(WeeklyMenuView { meta: meta->0, timeperiod: period->0, mealdates: days->0 })
            } else {
                None
            }
        },
        _ => None,
    }
}

// ---------------------------------------------------------------------------------------
// Decoders.
fn additional_info_field(entries: &Vec<(String, Json)>, key: &str) -> (r: Result<
    AdditionalDietInfo,
    DecodeError,
>)
    ensures
        match r {
            Ok(a) => additional_info_of(member(entries@, key@)) == Some(a@),
            Err(_) => additional_info_of(member(entries@, key@)) is None,
        },
{
    match member_of(entries, key) {
        None => Ok(AdditionalDietInfo::default()),
        Some(Json::Object(e)) => {
            let food_info = food_info_field(e, "dietcodeImages")?;
            let allergens = optional_text_field(e, "allergens")?;
            Ok(AdditionalDietInfo { food_info, allergens })
        },
        Some(_) => Err(malformed(key)),
    }
}

/// Decodes an `additionalDietInfo` object on its own.
pub fn decode_additional_diet_info(j: &Json) -> (r: Result<AdditionalDietInfo, DecodeError>)
    ensures
        match r {
            Ok(a) => additional_info_of(Some(*j)) == Some(a@),
            Err(_) => additional_info_of(Some(*j)) is None,
        },
{
    match j {
        Json::Object(e) => {
            let food_info = food_info_field(e, "dietcodeImages")?;
            let allergens = optional_text_field(e, "allergens")?;
            Ok(AdditionalDietInfo { food_info, allergens })
        },
        _ => Err(malformed("additionalDietInfo")),
    }
}

fn hide_all_member(entries: &Vec<(String, Json)>) -> (r: Result<Option<HideAll>, DecodeError>)
    ensures
        match r {
            Ok(h) => hide_all_field(member(entries@, "hideAll"@)) == Some(h),
            Err(_) => hide_all_field(member(entries@, "hideAll"@)) is None,
        },
{
    match member_of(entries, "hideAll") {
        None => Ok(None),
        Some(Json::Null) => Ok(None),
        Some(Json::Object(e)) => {
            let diet_info = diet_info_field(e, "dietcodes")?;
            Ok(Some(HideAll { diet_info }))
        },
        Some(_) => Err(malformed("hideAll")),
    }
}

fn ingredients_member(entries: &Vec<(String, Json)>) -> (r: Result<StringOrEmptyList, DecodeError>)
    ensures
        match r {
            Ok(i) => ingredients_field(member(entries@, "ingredients"@)) == Some(i@),
            Err(_) => ingredients_field(member(entries@, "ingredients"@)) is None,
        },
{
    match member_of(entries, "ingredients") {
        Some(Json::Str(s)) => Ok(StringOrEmptyList::text(s.clone())),
        Some(Json::Array(a)) => {
            if a.len() == 0 {
                Ok(StringOrEmptyList::not_available())
            } else {
                Err(malformed("ingredients"))
            }
        },
        _ => Err(malformed("ingredients")),
    }
}

/// Decodes one recipe.
pub fn decode_recipe(j: &Json) -> (r: Result<Recipe, DecodeError>)
    ensures
        match r {
            Ok(x) => recipe_of(*j) == Some(x@),
            Err(_) => recipe_of(*j) is None,
        },
{
    match j {
        Json::Object(e) => {
            let name = required_text_field(e, "name")?;
            let ingredients = ingredients_member(e)?;
            let nutrients = required_text_field(e, "nutrients")?;
            Ok(Recipe { name, ingredients, nutrients })
        },
        _ => Err(malformed("recipe")),
    }
}

fn decode_recipe_list(entries: &Vec<(String, Json)>) -> (r: Result<Vec<Recipe>, DecodeError>)
    ensures
        match r {
            Ok(v) => recipe_list_of(entries@) == Some(recipe_views(v@)),
            Err(_) => recipe_list_of(entries@) is None,
        },
{
    let mut out: Vec<Recipe> = Vec::new();
    let mut i: usize = 0;
    assert(entries@.subrange(0, 0) =~= Seq::<(String, Json)>::empty());
    assert(recipe_views(out@) =~= Seq::<RecipeView>::empty());
    while i < entries.len()
        invariant
            i <= entries@.len(),
            recipe_list_of(entries@.subrange(0, i as int)) == Some(recipe_views(out@)),
        decreases entries.len() - i,
    {
        assert(entries@.subrange(0, i + 1).drop_last() =~= entries@.subrange(0, i as int));
        assert(entries@.subrange(0, i + 1).last() == entries@[i as int]);
        if !crate::text::text_eq(entries[i].0.as_str(), "hideAll") {
            match decode_recipe(&entries[i].1) {
                Ok(x) => {
                    let ghost before = out@;
                    out.push(x);
                    assert(recipe_views(out@) =~= recipe_views(before).push(x@));
                },
                Err(e) => {
                    proof {
                        lemma_recipe_list_prefix(entries@, i + 1);
                    }
                    return Err(e);
                },
            }
        }
        i += 1;
    }
    assert(entries@.subrange(0, entries@.len() as int) =~= entries@);
    Ok(out)
}

fn recipes_member(entries: &Vec<(String, Json)>) -> (r: Result<Option<RecipesWrapper>, DecodeError>)
    ensures
        match r {
            Ok(w) => recipes_field(member(entries@, "recipes"@)) == Some(
                match w {
                    Some(w) => Some(w@),
                    None => None,
                },
            ),
            Err(_) => recipes_field(member(entries@, "recipes"@)) is None,
        },
{
    match member_of(entries, "recipes") {
        None => Ok(None),
        Some(Json::Null) => Ok(None),
        Some(j) => {
            let none: Vec<(String, Json)> = Vec::new();
            match keyed(j, &none) {
                Some(e) => {
                    let recipes = decode_recipe_list(e)?;
                    let hide_all = hide_all_member(e)?;
                    Ok(Some(RecipesWrapper { recipes, hide_all }))
                },
                None => Err(malformed("recipes")),
            }
        },
    }
}

/// Decodes one course; its diet and food flags are derived from the codes and icons.
pub fn decode_course(j: &Json) -> (r: Result<Course, DecodeError>)
    ensures
        match r {
            Ok(c) => course_of(*j) == Some(c@),
            Err(_) => course_of(*j) is None,
        },
{
    match j {
        Json::Object(e) => {
            let title_fi = optional_text_field(e, "title_fi")?;
            let title_en = optional_text_field(e, "title_en")?;
            let category = optional_text_field(e, "category")?;
            let meal_category = optional_text_field(e, "meal_category")?;
            let diet_info = diet_info_field(e, "dietcodes")?;
            let properties = optional_text_field(e, "properties")?;
            let additional_diet_info = additional_info_field(e, "additionalDietInfo")?;
            let price = optional_text_field(e, "price")?;
            let recipes = recipes_member(e)?;
            Ok(
                Course {
                    title_fi,
                    title_en,
                    category,
                    meal_category,
                    diet_info,
                    properties,
                    additional_diet_info,
                    price,
                    recipes,
                },
            )
        },
        _ => Err(malformed("course")),
    }
}

/// Decodes a keyed collection's members as courses, keeping their keys and order.
fn decode_course_entries(entries: &Vec<(String, Json)>) -> (r: Result<
    Vec<(String, Course)>,
    DecodeError,
>)
    ensures
        match r {
            Ok(v) => decode_all(entries@, course_entry_decoder()) == Some(course_entry_views(v@)),
            Err(_) => decode_all(entries@, course_entry_decoder()) is None,
        },
{
    let mut out: Vec<(String, Course)> = Vec::new();
    let mut i: usize = 0;
    assert(entries@.subrange(0, 0) =~= Seq::<(String, Json)>::empty());
    assert(course_entry_views(out@) =~= Seq::<(Seq<char>, CourseView)>::empty());
    while i < entries.len()
        invariant
            i <= entries@.len(),
            decode_all(entries@.subrange(0, i as int), course_entry_decoder()) == Some(
                course_entry_views(out@),
            ),
        decreases entries.len() - i,
    {
        assert(entries@.subrange(0, i + 1).drop_last() =~= entries@.subrange(0, i as int));
        assert(entries@.subrange(0, i + 1).last() == entries@[i as int]);
        match decode_course(&entries[i].1) {
            Ok(c) => {
                let ghost before = out@;
                out.push((entries[i].0.clone(), c));
                assert(course_entry_views(out@) =~= course_entry_views(before).push(
                    (entries@[i as int].0@, c@),
                ));
            },
            Err(e) => {
                proof {
                    assert((course_entry_decoder())(entries@[i as int]) is None);
                    lemma_decode_all_prefix(entries@, course_entry_decoder(), i + 1);
                }
                return Err(e);
            },
        }
        i += 1;
    }
    assert(entries@.subrange(0, entries@.len() as int) =~= entries@);
    Ok(out)
}

/// Whether no two members share a key.
fn keys_distinct(entries: &Vec<(String, Json)>) -> (r: bool)
    ensures
        r == distinct_keys(entries@),
{
    let mut b: usize = 0;
    while b < entries.len()
        invariant
            b <= entries@.len(),
            forall|x: int, y: int| 0 <= x < y < b ==> entries@[x].0@ != entries@[y].0@,
        decreases entries.len() - b,
    {
        let mut a: usize = 0;
        while a < b
            invariant
                a <= b < entries@.len(),
                forall|x: int, y: int| 0 <= x < y < b ==> entries@[x].0@ != entries@[y].0@,
                forall|x: int| 0 <= x < a ==> entries@[x].0@ != entries@[b as int].0@,
            decreases b - a,
        {
            if crate::text::text_eq(entries[a].0.as_str(), entries[b].0.as_str()) {
                return false;
            }
            a += 1;
        }
        b += 1;
    }
    true
}

fn courses_member(entries: &Vec<(String, Json)>) -> (r: Result<Vec<(String, Course)>, DecodeError>)
    ensures
        match r {
            Ok(v) => courses_field(member(entries@, "courses"@)) == Some(course_entry_views(v@)),
            Err(_) => courses_field(member(entries@, "courses"@)) is None,
        },
{
    match member_of(entries, "courses") {
        None => {
            let v: Vec<(String, Course)> = Vec::new();
            assert(course_entry_views(v@) =~= Seq::<(Seq<char>, CourseView)>::empty());
            Ok(v)
        },
        Some(j) => {
            let none: Vec<(String, Json)> = Vec::new();
            match keyed(j, &none) {
                Some(e) => {
                    if keys_distinct(e) {
                        decode_course_entries(e)
                    } else {
                        Err(malformed("courses"))
                    }
                },
                None => Err(malformed("courses")),
            }
        },
    }
}

fn meta_member(entries: &Vec<(String, Json)>) -> (r: Result<Meta, DecodeError>)
    ensures
        match r {
            Ok(m) => meta_of(member(entries@, "meta"@)) == Some(m@),
            Err(_) => meta_of(member(entries@, "meta"@)) is None,
        },
{
    match member_of(entries, "meta") {
        Some(Json::Object(e)) => {
            let generated_timestamp = required_i64_field(e, "generated_timestamp")?;
            let ref_url = required_text_field(e, "ref_url")?;
            let ref_title = required_text_field(e, "ref_title")?;
            let restaurant_mashie_id = required_text_field(e, "restaurant_mashie_id")?;
            Ok(Meta { generated_timestamp, ref_url, ref_title, restaurant_mashie_id })
        },
        _ => Err(malformed("meta")),
    }
}

/// Decodes a day's menu from its JSON tree.
pub fn decode_daily_menu(j: &Json) -> (r: Result<DailyMenu, DecodeError>)
    ensures
        match r {
            Ok(m) => daily_menu_of(*j) == Some(m@) && course_keys_distinct(m@.courses),
            Err(_) => daily_menu_of(*j) is None,
        },
{
    match j {
        Json::Object(e) => {
            let meta = meta_member(e)?;
            let courses = courses_member(e)?;
            proof {
                lemma_courses_field_keys(member(e@, "courses"@));
            }
            Ok(DailyMenu { meta, courses })
        },
        _ => Err(malformed("menu")),
    }
}

/// Decodes one day of a week from its JSON tree.
pub fn decode_menu_day(j: &Json) -> (r: Result<Day, DecodeError>)
    ensures
        match r {
            Ok(d) => day_of(*j) == Some(d@) && course_keys_distinct(d@.courses),
            Err(_) => day_of(*j) is None,
        },
{
    match j {
        Json::Object(e) => {
            let date = required_text_field(e, "date")?;
            let courses = courses_member(e)?;
            proof {
                lemma_courses_field_keys(member(e@, "courses"@));
            }
            Ok(Day { date, courses })
        },
        _ => Err(malformed("day")),
    }
}

fn decode_days(items: &Vec<Json>) -> (r: Result<Vec<Day>, DecodeError>)
    ensures
        match r {
            Ok(v) => decode_all(items@, day_decoder()) == Some(day_views(v@)),
            Err(_) => decode_all(items@, day_decoder()) is None,
        },
{
    let mut out: Vec<Day> = Vec::new();
    let mut i: usize = 0;
    assert(items@.subrange(0, 0) =~= Seq::<Json>::empty());
    assert(day_views(out@) =~= Seq::<DayView>::empty());
    while i < items.len()
        invariant
            i <= items@.len(),
            decode_all(items@.subrange(0, i as int), day_decoder()) == Some(day_views(out@)),
        decreases items.len() - i,
    {
        assert(items@.subrange(0, i + 1).drop_last() =~= items@.subrange(0, i as int));
        assert(items@.subrange(0, i + 1).last() == items@[i as int]);
        match decode_menu_day(&items[i]) {
            Ok(d) => {
                let ghost before = out@;
                out.push(d);
                assert(day_views(out@) =~= day_views(before).push(d@));
            },
            Err(e) => {
                proof {
                    assert((day_decoder())(items@[i as int]) is None);
                    lemma_decode_all_prefix(items@, day_decoder(), i + 1);
                }
                return Err(e);
            },
        }
        i += 1;
    }
    assert(items@.subrange(0, items@.len() as int) =~= items@);
    Ok(out)
}

/// Decodes a week's menu from its JSON tree.
pub fn decode_weekly_menu(j: &Json) -> (r: Result<WeeklyMenu, DecodeError>)
    ensures
        match r {
            Ok(m) => weekly_menu_of(*j) == Some(m@) && forall|i: int|
                0 <= i < m@.mealdates.len() ==> course_keys_distinct(
                    #[trigger] m@.mealdates[i].courses,
                ),
            Err(_) => weekly_menu_of(*j) is None,
        },
{
    match j {
        Json::Object(e) => {
            let meta = meta_member(e)?;
            let timeperiod = required_text_field(e, "timeperiod")?;
            let mealdates = match member_of(e, "mealdates") {
                Some(Json::Array(a)) => {
                    let days = decode_days(a)?;
                    proof {
                        lemma_decode_all_elements(a@, day_decoder());
                        assert forall|i: int| 0 <= i < day_views(days@).len() implies course_keys_distinct(
                            #[trigger] day_views(days@)[i].courses,
                        ) by {
                            assert((day_decoder())(a@[i]) == Some(day_views(days@)[i]));
                            lemma_day_keys(a@[i]);
                        }
                    }
                    days
                },
                _ => {
                    return Err(malformed("mealdates"));
                },
            };
            Ok(WeeklyMenu { meta, timeperiod, mealdates })
        },
        _ => Err(malformed("week")),
    }
}

/// Decodes a day's menu from the feed's bytes.
pub fn decode_day(bytes: &[u8]) -> (r: Result<DailyMenu, DecodeError>)
    ensures
        match parsed_json(bytes@) {
            None => r is Err,
            Some(j) => match r {
                Ok(m) => daily_menu_of(j) == Some(m@),
                Err(_) => daily_menu_of(j) is None,
            },
        },
{
    match parse_json(bytes) {
        Some(j) => decode_daily_menu(&j),
        None => Err(malformed("json")),
    }
}

/// Decodes a week's menu from the feed's bytes.
pub fn decode_week(bytes: &[u8]) -> (r: Result<WeeklyMenu, DecodeError>)
    ensures
        match parsed_json(bytes@) {
            None => r is Err,
            Some(j) => match r {
                Ok(m) => weekly_menu_of(j) == Some(m@),
                Err(_) => weekly_menu_of(j) is None,
            },
        },
{
    match parse_json(bytes) {
        Some(j) => decode_weekly_menu(&j),
        None => Err(malformed("json")),
    }
}

// ---------------------------------------------------------------------------------------
// Using a decoded menu.
/// The first course under `key`, if any.
pub open spec fn course_under(courses: Seq<(Seq<char>, CourseView)>, key: Seq<char>) -> Option<
    CourseView,
>
    decreases courses.len(),
{
    if courses.len() == 0 {
        None
    } else if courses[0].0 == key {
        Some(courses[0].1)
    } else {
        course_under(courses.drop_first(), key)
    }
}

/// A week expanded into its days, each paired with its date label and sharing the meta.
pub open spec fn expanded_days(w: WeeklyMenuView) -> Seq<(Seq<char>, DailyMenuView)> {
    w.mealdates.map_values(
        |d: DayView| (d.date, DailyMenuView { meta: w.meta, courses: d.courses }),
    )
}

pub open spec fn dated_menu_views(v: Seq<(String, DailyMenu)>) -> Seq<(Seq<char>, DailyMenuView)> {
    v.map_values(|p: (String, DailyMenu)| (p.0@, p.1@))
}

impl DailyMenu {
    /// The course under a feed-assigned key.
    pub fn course(&self, key: &str) -> (r: Option<&Course>)
        ensures
            r is Some <==> course_under(self@.courses, key@) is Some,
            r is Some ==> course_under(self@.courses, key@) == Some(r->0@),
    {
        let mut i: usize = 0;
        assert(self@.courses.subrange(0, self@.courses.len() as int) =~= self@.courses);
        while i < self.courses.len()
            invariant
                i <= self.courses@.len(),
                self@.courses.len() == self.courses@.len(),
                course_under(self@.courses, key@) == course_under(
                    self@.courses.subrange(i as int, self@.courses.len() as int),
                    key@,
                ),
            decreases self.courses.len() - i,
        {
            let ghost rest = self@.courses.subrange(i as int, self@.courses.len() as int);
            assert(rest[0] == (self.courses@[i as int].0@, self.courses@[i as int].1@));
            if crate::text::text_eq(self.courses[i].0.as_str(), key) {
                return Some(&self.courses[i].1);
            }
            assert(rest.drop_first() =~= self@.courses.subrange(i + 1, self@.courses.len() as int));
            i += 1;
        }
        None
    }
}

impl WeeklyMenu {
    /// The week as a list of days, each with its date label and a menu that carries the
    /// week's meta.
    pub fn into_days(self) -> (r: Vec<(String, DailyMenu)>)
        ensures
            dated_menu_views(r@) == expanded_days(self@),
    {
        let ghost w = self@;
        let WeeklyMenu { meta, timeperiod: _, mealdates } = self;
        let mut days = mealdates;
        let ghost all = days@;
        let mut out: Vec<(String, DailyMenu)> = Vec::new();
        assert(dated_menu_views(out@) =~= expanded_days(w).subrange(0, 0));
        while days.len() > 0
            invariant
                meta@ == w.meta,
                day_views(all) == w.mealdates,
                out@.len() + days@.len() == all.len(),
                days@ == all.subrange(out@.len() as int, all.len() as int),
                dated_menu_views(out@) == expanded_days(w).subrange(0, out@.len() as int),
            decreases days.len(),
        {
            let ghost k: int = out@.len() as int;
            let d = days.remove(0);
            assert(d == all[k as int]);
            assert(days@ =~= all.subrange(k + 1, all.len() as int));
            let Day { date, courses } = d;
            let ghost before = out@;
            out.push((date, DailyMenu { meta: meta.copy(), courses }));
            assert(expanded_days(w)[k as int] == (all[k as int]@.date, DailyMenuView {
                meta: w.meta,
                courses: all[k as int]@.courses,
            }));
            assert(dated_menu_views(out@) =~= expanded_days(w).subrange(0, k + 1));
        }
        assert(expanded_days(w).subrange(0, all.len() as int) =~= expanded_days(w));
        out
    }
}

// ---------------------------------------------------------------------------------------
// Laws of the shapes the feed may use.
/// A course collection sent as an empty object or as an empty array decodes to no courses;
/// sent as a non-empty array it fails to decode, since its keys would be lost.
pub proof fn lemma_course_collection_shapes(j: Json)
    ensures
        j is Object && j->Object_0@.len() == 0 ==> courses_field(Some(j)) == Some(
            Seq::<(Seq<char>, CourseView)>::empty(),
        ),
        j is Array && j->Array_0@.len() == 0 ==> courses_field(Some(j)) == Some(
            Seq::<(Seq<char>, CourseView)>::empty(),
        ),
        j is Array && j->Array_0@.len() > 0 ==> courses_field(Some(j)) is None,
{
}

/// Ingredients sent as a text decode to that text, an empty array decodes to "not
/// available", and a non-empty array fails to decode.
pub proof fn lemma_ingredient_shapes(j: Json)
    ensures
        j is Str ==> ingredients_field(Some(j)) == Some(Some(j->Str_0@)),
        j is Array && j->Array_0@.len() == 0 ==> ingredients_field(Some(j)) == Some(
            None::<Seq<char>>,
        ),
        j is Array && j->Array_0@.len() > 0 ==> ingredients_field(Some(j)) is None,
{
}

} // verus!
