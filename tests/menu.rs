use lounasbot::diet::{diet_info_from_code_list, diet_info_from_codes, food_info_from_identifiers};
use lounasbot::diet::{DietInfo, FoodInfo};
use lounasbot::json::{parse_json, print_json, Json};
use lounasbot::menu::{decode_additional_diet_info, decode_course, decode_day, decode_week};
use lounasbot::menu::{decode_daily_menu, decode_recipe, DecodeError};
use lounasbot::text::{split_text, text_eq};

const ICONS: &str = "https://www.sodexo.fi/sites/default/themes/sodexo/images/";

fn icon(name: &str) -> String {
    format!("{ICONS}{name}")
}

fn strings(v: &[&str]) -> Vec<String> {
    v.iter().map(|s| s.to_string()).collect()
}

fn tree(text: &str) -> Json {
    parse_json(text.as_bytes()).expect("valid json")
}

fn no_diet() -> DietInfo {
    DietInfo { gluten_free: false, lactose_free: false, milk_free: false, low_lactose: false }
}

fn no_food() -> FoodInfo {
    FoodInfo {
        co2: false,
        heart: false,
        vegan: false,
        student_recommendation: false,
        pork: false,
        fi_meat: false,
        eu_meat: false,
        other_meat: false,
    }
}

#[test]
fn additional_diet_info() {
    let json = r#"{
				"dietcodeImages": [
					"https://www.sodexo.fi/sites/default/themes/sodexo/images/sodexo-leaf.svg",
					"https://www.sodexo.fi/sites/default/themes/sodexo/images/sydan.svg",
					"https://www.sodexo.fi/sites/default/themes/sodexo/images/vege.svg",
					"https://www.sodexo.fi/sites/default/themes/sodexo/images/omena.svg"
				],
				"allergens": "Chili, Herneet, Hiivauute, Kaura, Korianteri, Rikkidioksidi ja sulfiitit, Sipuli, Sitrukset, Soijapavut, Valkosipuli"
}"#;

    let json2 = r#"{
				"dietcodeImages": [
				],
				"allergens": "Chili, Herneet, Hiivauute, Kaura, Korianteri, Rikkidioksidi ja sulfiitit, Sipuli, Sitrukset, Soijapavut, Valkosipuli"
}"#;

    let json3 = r#"{
				"allergens": "Chili, Herneet, Hiivauute, Kaura, Korianteri, Rikkidioksidi ja sulfiitit, Sipuli, Sitrukset, Soijapavut, Valkosipuli"
}"#;

    let a = decode_additional_diet_info(&tree(json)).expect("unable to parse json");
    let b = decode_additional_diet_info(&tree(json2)).expect("unable to parse json");
    let c = decode_additional_diet_info(&tree(json3)).expect("unable to parse json");

    assert!(a.food_info.co2 && a.food_info.heart && a.food_info.vegan);
    assert!(a.food_info.student_recommendation);
    assert!(!a.food_info.pork && !a.food_info.fi_meat);
    assert_eq!(b.food_info, no_food());
    assert_eq!(c.food_info, no_food());
    assert!(c.allergens.unwrap().starts_with("Chili, Herneet"));
}

#[test]
fn deserialize_empty_day() {
    let json = r#"{"meta":{"generated_timestamp":1756747242,"ref_url":"https:\/\/www.sodexo.fi\/ravintolat\/kokkola\/savonia-amk-centria-campus","ref_title":"Campusravintola","restaurant_mashie_id":"FI739646K"},"courses":[]}"#;

    let menu = decode_day(json.as_bytes()).expect("unable to parse json");
    assert!(menu.courses.is_empty());
    assert_eq!(menu.meta.generated_timestamp, 1756747242);
    assert_eq!(menu.meta.ref_url, "https://www.sodexo.fi/ravintolat/kokkola/savonia-amk-centria-campus");
    assert_eq!(menu.meta.ref_title, "Campusravintola");
    assert_eq!(menu.meta.restaurant_mashie_id, "FI739646K");
}

const META: &str = r#"{"generated_timestamp":1,"ref_url":"u","ref_title":"t","restaurant_mashie_id":"r"}"#;

#[test]
fn course_collection_empty_object_and_array_decode_to_no_courses() {
    let obj = format!(r#"{{"meta":{META},"courses":{{}}}}"#);
    let arr = format!(r#"{{"meta":{META},"courses":[]}}"#);
    let missing = format!(r#"{{"meta":{META}}}"#);
    assert!(decode_day(obj.as_bytes()).unwrap().courses.is_empty());
    assert!(decode_day(arr.as_bytes()).unwrap().courses.is_empty());
    assert!(decode_day(missing.as_bytes()).unwrap().courses.is_empty());
}

#[test]
fn course_collection_non_empty_array_is_malformed() {
    let arr = format!(r#"{{"meta":{META},"courses":[{{"title_fi":"x"}}]}}"#);
    assert!(matches!(decode_day(arr.as_bytes()), Err(DecodeError::Malformed(_))));
    let null = format!(r#"{{"meta":{META},"courses":null}}"#);
    assert!(decode_day(null.as_bytes()).is_err());
}

#[test]
fn missing_meta_and_bad_json_are_malformed() {
    assert!(matches!(decode_day(br#"{"courses":{}}"#), Err(DecodeError::Malformed(_))));
    assert!(matches!(decode_day(b"{not json"), Err(DecodeError::Malformed(_))));
    assert!(matches!(decode_day(b"[]"), Err(DecodeError::Malformed(_))));
    let float_ts = r#"{"meta":{"generated_timestamp":1.5,"ref_url":"u","ref_title":"t","restaurant_mashie_id":"r"}}"#;
    assert!(decode_day(float_ts.as_bytes()).is_err());
}

#[test]
fn diet_flags_ignore_order_duplicates_and_unknown_codes() {
    let a = diet_info_from_codes(&strings(&["G", "L", "M"]));
    let b = diet_info_from_codes(&strings(&["M", "X", "G", "G", "L", "?"]));
    let expected = DietInfo { gluten_free: true, lactose_free: true, milk_free: true, low_lactose: false };
    assert_eq!(a, expected);
    assert_eq!(b, expected);
    assert_eq!(diet_info_from_codes(&strings(&["VL"])).low_lactose, true);
    assert_eq!(diet_info_from_codes(&strings(&[])), no_diet());
    assert_eq!(diet_info_from_codes(&strings(&["g", " L", "V"])), no_diet());
}

#[test]
fn diet_flags_from_code_list_split_on_commas() {
    assert_eq!(diet_info_from_code_list("VL,G"), DietInfo { gluten_free: true, lactose_free: false, milk_free: false, low_lactose: true });
    assert_eq!(diet_info_from_code_list(""), no_diet());
    assert_eq!(diet_info_from_code_list("L, M").milk_free, false);
}

#[test]
fn food_flags_ignore_order_duplicates_and_unknown_icons() {
    let ids = vec![icon("possu.svg"), icon("unknown.svg"), icon("liha-fi-new.svg"), icon("possu.svg")];
    let mut reversed = ids.clone();
    reversed.reverse();
    let f = food_info_from_identifiers(&ids);
    assert_eq!(f, food_info_from_identifiers(&reversed));
    assert!(f.pork && f.fi_meat);
    assert!(!f.eu_meat && !f.other_meat && !f.vegan && !f.co2);
    let all = vec![
        icon("sodexo-leaf.svg"), icon("sydan.svg"), icon("vege.svg"), icon("omena.svg"),
        icon("possu.svg"), icon("liha-fi-new.svg"), icon("liha-eu-new.svg"), icon("liha-muu-new.svg"),
    ];
    let f = food_info_from_identifiers(&all);
    assert!(f.co2 && f.heart && f.vegan && f.student_recommendation);
    assert!(f.pork && f.fi_meat && f.eu_meat && f.other_meat);
    assert_eq!(food_info_from_identifiers(&strings(&["vege.svg"])), no_food());
}

fn recipe_with(ingredients: &str) -> Result<lounasbot::menu::Recipe, DecodeError> {
    decode_recipe(&tree(&format!(r#"{{"name":"Soup","ingredients":{ingredients},"nutrients":"a|b"}}"#)))
}

#[test]
fn ingredients_text_empty_list_and_non_empty_list() {
    let r = recipe_with(r#""flour, salt""#).unwrap();
    assert_eq!(r.ingredients.to_string(), "flour, salt");
    assert_eq!(r.ingredients.as_text().unwrap(), "flour, salt");
    let r = recipe_with("[]").unwrap();
    assert_eq!(r.ingredients.to_string(), "N/A");
    assert!(r.ingredients.as_text().is_none());
    assert!(matches!(recipe_with(r#"["x","y"]"#), Err(DecodeError::Malformed(_))));
    assert!(recipe_with("null").is_err());
}

#[test]
fn recipes_skip_hide_all_and_accept_empty_array() {
    let course = tree(r#"{"recipes":{"hideAll":{"dietcodes":"G"},"1":{"name":"A","ingredients":"x","nutrients":"n"},"2":{"name":"B","ingredients":[],"nutrients":"m"}}}"#);
    let c = decode_course(&course).unwrap();
    let w = c.recipes.unwrap();
    assert_eq!(w.recipes.len(), 2);
    assert_eq!(w.recipes[0].name, "A");
    assert_eq!(w.recipes[1].name, "B");
    assert!(w.hide_all.unwrap().diet_info.gluten_free);
    let c = decode_course(&tree(r#"{"recipes":[]}"#)).unwrap();
    assert!(c.recipes.unwrap().recipes.is_empty());
    assert!(decode_course(&tree(r#"{"recipes":[1]}"#)).is_err());
    assert!(decode_course(&tree(r#"{"recipes":null}"#)).unwrap().recipes.is_none());
}

#[test]
fn end_to_end_course_flags() {
    let json = r#"{"meta": {"generated_timestamp": 1756747242, "ref_url": "https://example.org", "ref_title": "Campusravintola", "restaurant_mashie_id": "FI739646K"}, "courses": {"101": {"title_fi": "Kasvissosekeitto", "dietcodes": "G,L,M", "additionalDietInfo": {"dietcodeImages": ["https://www.sodexo.fi/sites/default/themes/sodexo/images/vege.svg"]}, "price": "2,65 €"}}}"#;
    let menu = decode_day(json.as_bytes()).unwrap();
    assert_eq!(menu.courses.len(), 1);
    assert_eq!(menu.courses[0].0, "101");
    let course = menu.course("101").unwrap();
    assert_eq!(course.title_fi.as_deref(), Some("Kasvissosekeitto"));
    assert_eq!(course.price.as_deref(), Some("2,65 €"));
    assert_eq!(course.diet_info, DietInfo { gluten_free: true, lactose_free: true, milk_free: true, low_lactose: false });
    let f = course.additional_diet_info.food_info;
    assert!(f.vegan);
    assert_eq!(FoodInfo { vegan: false, ..f }, no_food());
    assert!(course.recipes.is_none());
    assert!(menu.course("102").is_none());
}

#[test]
fn course_with_wrong_field_types_is_malformed() {
    assert!(decode_course(&tree(r#"{"title_fi": 5}"#)).is_err());
    assert!(decode_course(&tree(r#"{"dietcodes": ["G"]}"#)).is_err());
    assert!(decode_course(&tree(r#"{"additionalDietInfo": null}"#)).is_err());
    assert!(decode_course(&tree(r#"{"additionalDietInfo": {"dietcodeImages": [1]}}"#)).is_err());
    let c = decode_course(&tree(r#"{"title_fi": null, "dietcodes": null}"#)).unwrap();
    assert!(c.title_fi.is_none());
    assert_eq!(c.diet_info, no_diet());
    assert!(c.additional_diet_info.allergens.is_none());
}

#[test]
fn weekly_menu_expands_into_days_sharing_meta() {
    let json = format!(
        r#"{{"meta":{META},"timeperiod":"26.-30.8.","mealdates":[{{"date":"Maanantai","courses":{{"1":{{"title_fi":"A"}}}}}},{{"date":"Tiistai","courses":[]}}]}}"#
    );
    let week = decode_week(json.as_bytes()).unwrap();
    assert_eq!(week.timeperiod, "26.-30.8.");
    assert_eq!(week.mealdates.len(), 2);
    let days = week.into_days();
    assert_eq!(days.len(), 2);
    assert_eq!(days[0].0, "Maanantai");
    assert_eq!(days[0].1.courses.len(), 1);
    assert_eq!(days[1].0, "Tiistai");
    assert!(days[1].1.courses.is_empty());
    assert_eq!(days[1].1.meta.ref_title, "t");
    assert_eq!(days[0].1.meta.generated_timestamp, 1);
}

#[test]
fn weekly_menu_requires_mealdates_array() {
    let json = format!(r#"{{"meta":{META},"timeperiod":"x","mealdates":{{}}}}"#);
    assert!(decode_week(json.as_bytes()).is_err());
    let json = format!(r#"{{"meta":{META},"timeperiod":"x"}}"#);
    assert!(decode_week(json.as_bytes()).is_err());
}

#[test]
fn daily_menu_keeps_course_keys() {
    let j = tree(&format!(r#"{{"meta":{META},"courses":{{"1":{{}},"2":{{"category":"SOUP"}}}}}}"#));
    let m = decode_daily_menu(&j).unwrap();
    let keys: Vec<&str> = m.courses.iter().map(|(k, _)| k.as_str()).collect();
    assert_eq!(keys, vec!["1", "2"]);
    assert_eq!(m.course("2").unwrap().category.as_deref(), Some("SOUP"));
}

#[test]
fn json_tree_prints_and_parses_back() {
    let j = tree(r#"{"a":[1,-2,true,null,"s",1.5]}"#);
    let text = print_json(&j);
    assert_eq!(text, r#"{"a":[1,-2,true,null,"s",1.5]}"#);
    match &j {
        Json::Object(e) => match &e[0].1 {
            Json::Array(a) => {
                assert!(matches!(a[0], Json::Int(1)));
                assert!(matches!(a[1], Json::Int(-2)));
                assert!(matches!(&a[5], Json::Float(s) if s == "1.5"));
            }
            _ => panic!("array expected"),
        },
        _ => panic!("object expected"),
    }
}

#[test]
fn split_and_compare_text() {
    assert_eq!(split_text("G,L,,M,", ','), strings(&["G", "L", "", "M", ""]));
    assert_eq!(split_text("", ','), strings(&[""]));
    assert!(text_eq("äö", "äö"));
    assert!(!text_eq("a", "ab"));
}
