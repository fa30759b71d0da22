//! Rules of how a menu is shown: the colour that a course's category picks, and a recipe's
//! nutrients one per line.
use crate::text::{split_on, split_text, text_eq, views};
use vstd::prelude::*;
use vstd::string::StringExecFns;

verus! {

/// The accent colour of a course's card.
#[derive(Clone, Copy, Debug, PartialEq, Eq, Structural)]
pub enum CourseColour {
    DarkGreen,
    Orange,
    Red,
    Teal,
    FabledPink,
}

/// Whether `t` occurs in `s`.
pub open spec fn contains_text(s: Seq<char>, t: Seq<char>) -> bool {
    exists|i: int| 0 <= i && i + t.len() <= s.len() && #[trigger] s.subrange(i, i + t.len()) == t
}

/// The colour that a category picks: the first of `VEGAN`, `bakery`, `favorites`, `SOUP` and
/// `SWEET` that occurs in it, or none.
pub open spec fn course_colour_of(category: Seq<char>) -> Option<CourseColour> {
    if contains_text(category, "VEGAN"@) {
        Some(CourseColour::DarkGreen)
    } else if contains_text(category, "bakery"@) {
        Some(CourseColour::Orange)
    } else if contains_text(category, "favorites"@) {
        Some(CourseColour::Red)
    } else if contains_text(category, "SOUP"@) {
        Some(CourseColour::Teal)
    } else if contains_text(category, "SWEET"@) {
        Some(CourseColour::FabledPink)
    } else {
        None
    }
}

/// Whether `t` occurs in `s`.
pub fn contains(s: &str, t: &str) -> (r: bool)
    ensures
        r == contains_text(s@, t@),
{
    let n = s.unicode_len();
    let m = t.unicode_len();
    if m > n {
        return false;
    }
    if m == 0 {
        assert(s@.subrange(0int, 0int + t@.len()) =~= t@);
        return true;
    }
    let mut i: usize = 0;
    while i <= n - m
        invariant
            n == s@.len(),
            m == t@.len(),
            1 <= m <= n,
            i <= n - m + 1,
            forall|k: int| 0 <= k < i ==> #[trigger] s@.subrange(k, k + m) != t@,
        decreases n - m + 1 - i,
    {
        if text_eq(s.substring_char(i, i + m), t) {
            return true;
        }
        i += 1;
    }
    false
}

/// The colour of a course's card, from its category.
pub fn course_colour(category: &str) -> (r: Option<CourseColour>)
    ensures
        r == course_colour_of(category@),
{
    if contains(category, "VEGAN") {
        Some(CourseColour::DarkGreen)
    } else if contains(category, "bakery") {
        Some(CourseColour::Orange)
    } else if contains(category, "favorites") {
        Some(CourseColour::Red)
    } else if contains(category, "SOUP") {
        Some(CourseColour::Teal)
    } else if contains(category, "SWEET") {
        Some(CourseColour::FabledPink)
    } else {
        None
    }
}

/// A text without its leading whitespace, as `str::trim_start` leaves it.
pub uninterp spec fn trimmed_start(s: Seq<char>) -> Seq<char>;

/// Relies on str::trim_start, which drops the leading Unicode whitespace and hands back the
/// rest of the text.
#[verifier::external_body]
fn trim_start(s: &str) -> (r: &str)
    ensures
        r@ == trimmed_start(s@),
        r@.len() <= s@.len(),
        r@ == s@.subrange(s@.len() - r@.len(), s@.len() as int),
{
    s.trim_start()
}

/// Lines joined with a newline between each two.
pub open spec fn joined_with_newlines(lines: Seq<Seq<char>>) -> Seq<char>
    decreases lines.len(),
{
    if lines.len() == 0 {
        Seq::empty()
    } else if lines.len() == 1 {
        lines[0]
    } else {
        joined_with_newlines(lines.drop_last()) + "\n"@ + lines.last()
    }
}

/// A recipe's nutrients, one per line: the `|`-separated pieces, each without leading
/// whitespace.
pub open spec fn nutrient_lines_of(nutrients: Seq<char>) -> Seq<char> {
    joined_with_newlines(split_on(nutrients, '|').map_values(|p: Seq<char>| trimmed_start(p)))
}

/// A recipe's nutrients, one per line.
pub fn nutrient_lines(nutrients: &str) -> (r: String)
    ensures
        r@ == nutrient_lines_of(nutrients@),
{
    let pieces = split_text(nutrients, '|');
    let ghost lines = split_on(nutrients@, '|').map_values(|p: Seq<char>| trimmed_start(p));
    let mut text = String::new();
    let mut i: usize = 0;
    while i < pieces.len()
        invariant
            i <= pieces@.len(),
            views(pieces@) == split_on(nutrients@, '|'),
            lines == split_on(nutrients@, '|').map_values(|p: Seq<char>| trimmed_start(p)),
            text@ == joined_with_newlines(lines.subrange(0, i as int)),
        decreases pieces.len() - i,
    {
        let ghost prefix = lines.subrange(0, i + 1);
        assert(prefix.drop_last() =~= lines.subrange(0, i as int));
        assert(views(pieces@)[i as int] == pieces@[i as int]@);
        assert(prefix.last() == trimmed_start(pieces@[i as int]@));
        if i > 0 {
            text.append("\n");
        } else {
            assert(text@ =~= Seq::<char>::empty());
        }
        text.append(trim_start(pieces[i].as_str()));
        proof {
            if i == 0 {
                assert(prefix.len() == 1);
            }
        }
        assert(text@ =~= joined_with_newlines(prefix));
        i += 1;
    }
    assert(lines.subrange(0, lines.len() as int) =~= lines);
    text
}

} // verus!
