use lounasbot::render::{contains, course_colour, nutrient_lines, CourseColour};

#[test]
fn category_picks_the_first_matching_colour() {
    assert_eq!(course_colour("VEGAN LUNCH"), Some(CourseColour::DarkGreen));
    assert_eq!(course_colour("bakery"), Some(CourseColour::Orange));
    assert_eq!(course_colour("Sodexo favorites"), Some(CourseColour::Red));
    assert_eq!(course_colour("SOUP"), Some(CourseColour::Teal));
    assert_eq!(course_colour("SWEET treats"), Some(CourseColour::FabledPink));
    assert_eq!(course_colour("SOUP VEGAN"), Some(CourseColour::DarkGreen));
    assert_eq!(course_colour("N/A"), None);
    assert_eq!(course_colour("vegan"), None);
}

#[test]
fn substring_search() {
    assert!(contains("abc", ""));
    assert!(contains("abc", "bc"));
    assert!(!contains("abc", "abcd"));
    assert!(contains("päivä", "ivä"));
}

#[test]
fn nutrients_one_per_line() {
    assert_eq!(nutrient_lines("Energia 100 kcal| Rasva 2 g|  Suola 1 g"), "Energia 100 kcal\nRasva 2 g\nSuola 1 g");
    assert_eq!(nutrient_lines(""), "");
    assert_eq!(nutrient_lines("a|"), "a\n");
}
