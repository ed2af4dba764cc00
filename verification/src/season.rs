//! Recognising season packs by name and reading their season number.

use vstd::prelude::*;
use crate::text::{
    contains_seq, digit_char, lowercase_of, opt_string_view, parse_i32, parse_i32_spec,
    str_contains, to_lowercase,
};

verus! {

/// The name, in lower case, mentions `season` or an `s` followed by a digit.
pub open spec fn names_season(lower: Seq<char>) -> bool {
    contains_seq(lower, "season"@) || exists|d: int|
        0 <= d <= 9 && contains_seq(lower, #[trigger] seq!['s', digit_char(d)])
}


fn s_digit(d: usize) -> (r: &'static str)
    requires
        d <= 9,
    ensures
        r@ == seq!['s', digit_char(d as int)],
{
    let r = match d {
        0 => "s0",
        1 => "s1",
        2 => "s2",
        3 => "s3",
        4 => "s4",
        5 => "s5",
        6 => "s6",
        7 => "s7",
        8 => "s8",
        _ => "s9",
    };
    proof {
        reveal_strlit("s0");
        reveal_strlit("s1");
        reveal_strlit("s2");
        reveal_strlit("s3");
        reveal_strlit("s4");
        reveal_strlit("s5");
        reveal_strlit("s6");
        reveal_strlit("s7");
        reveal_strlit("s8");
        reveal_strlit("s9");
    }
    assert(r@ =~= seq!['s', digit_char(d as int)]);
    r
}

/// Whether a download name looks like a season pack: its lower-case form contains
/// `season`, or `s` followed by a digit.
pub fn is_season_name(name: &str) -> (r: bool)
    ensures
        r == names_season(lowercase_of(name@)),
{
    let lower = to_lowercase(name);
    let l = lower.as_str();
    if str_contains(l, "season") {
        return true;
    }
    let mut d: usize = 0;
    while d <= 9
        invariant
            d <= 10,
            l@ == lowercase_of(name@),
            forall|e: int| 0 <= e < d ==> !contains_seq(l@, #[trigger] seq!['s', digit_char(e)]),
        decreases 10 - d,
    {
        if str_contains(l, s_digit(d)) {
            return true;
        }
        d = d + 1;
    }
    false
}

/// The first capture group of the leftmost match of a regular expression in a text, as
/// the `regex` crate finds it (`None` without a match); a function of the pattern and
/// the text alone.
pub uninterp spec fn regex_first_group(pattern: Seq<char>, text: Seq<char>) -> Option<Seq<char>>;

/// Calls `regex::Regex::new`, then `captures` and `get(1)` on the text. The contract
/// claims that the result is a function of pattern and text, named `regex_first_group`,
/// and that a captured group is a piece of the text. Regular-expression matching itself
/// is not restated; the patterns passed here are fixed and valid.
#[verifier::external_body]
fn regex_capture_first_group(pattern: &str, text: &str) -> (r: Option<String>)
    ensures
        opt_string_view(r) == regex_first_group(pattern@, text@),
        r matches Some(g) ==> contains_seq(text@, g@),
{
    regex::Regex::new(pattern).ok().and_then(|re| re.captures(text)).and_then(|c| c.get(1)).map(
        |m| m.as_str().to_string(),
    )
}

/// The patterns tried, in order, to find a season number.
pub open spec fn season_pattern(k: int) -> Seq<char> {
    if k == 0 {
        "S(\\d+)"@
    } else if k == 1 {
        "Season\\s*(\\d+)"@
    } else if k == 2 {
        "s(\\d+)"@
    } else {
        "season\\s*(\\d+)"@
    }
}

fn season_pattern_exec(k: usize) -> (r: &'static str)
    requires
        k < 4,
    ensures
        r@ == season_pattern(k as int),
{
    if k == 0 {
        "S(\\d+)"
    } else if k == 1 {
        "Season\\s*(\\d+)"
    } else if k == 2 {
        "s(\\d+)"
    } else {
        "season\\s*(\\d+)"
    }
}

/// The first of the captured groups, from index `k` on, that reads as an `i32`.
pub open spec fn first_parsed(groups: Seq<Option<Seq<char>>>, k: int) -> Option<i32>
    decreases groups.len() - k,
{
    if k < 0 || k >= groups.len() {
        None
    } else {
        match groups[k] {
            Some(g) => match parse_i32_spec(g) {
                Some(v) => Some(v),
                None => first_parsed(groups, k + 1),
            },
            None => first_parsed(groups, k + 1),
        }
    }
}

/// The groups that the season patterns capture in a name.
pub open spec fn season_groups(name: Seq<char>) -> Seq<Option<Seq<char>>> {
    Seq::new(4, |k: int| regex_first_group(season_pattern(k), name))
}

/// The season number given what each pattern captured: the first capture that reads as
/// an `i32`.
pub fn first_parsed_season(groups: &Vec<Option<String>>) -> (r: Option<i32>)
    ensures
        r == first_parsed(groups@.map_values(|g: Option<String>| opt_string_view(g)), 0),
{
    let ghost gs = groups@.map_values(|g: Option<String>| opt_string_view(g));
    let mut k: usize = groups.len();
    let mut found: Option<i32> = None;
    while k > 0
        invariant
            k <= groups@.len(),
            gs == groups@.map_values(|g: Option<String>| opt_string_view(g)),
            found == first_parsed(gs, k as int),
        decreases k,
    {
        k = k - 1;
        match &groups[k] {
            Some(g) => {
                match parse_i32(g.as_str()) {
                    Some(v) => {
                        found = Some(v);
                    },
                    None => {},
                }
            },
            None => {},
        }
    }
    found
}

/// The season number in a name: the first of the patterns `S<digits>`,
/// `Season<spaces><digits>`, `s<digits>`, `season<spaces><digits>` whose digits read
/// as an `i32`.
pub fn extract_season_number(name: &str) -> (r: Option<i32>)
    ensures
        r == first_parsed(season_groups(name@), 0),
{
    let mut groups: Vec<Option<String>> = Vec::new();
    let mut k: usize = 0;
    while k < 4
        invariant
            k <= 4,
            groups@.len() == k,
            forall|j: int|
                0 <= j < k ==> opt_string_view(#[trigger] groups@[j]) == regex_first_group(
                    season_pattern(j),
                    name@,
                ),
        decreases 4 - k,
    {
        let g = regex_capture_first_group(season_pattern_exec(k), name);
        groups.push(g);
        k = k + 1;
    }
    assert(groups@.map_values(|g: Option<String>| opt_string_view(g)) =~= season_groups(name@));
    first_parsed_season(&groups)
}

} // verus!
