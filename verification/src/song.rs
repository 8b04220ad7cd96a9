//! The lines of the traditional cumulative song "The Twelve Days of
//! Christmas", built verse by verse.
//!
//! Verse `i` (counted from zero) opens with a header naming day `i + 1` and
//! the melody line, lists the gifts from day `i + 1` down to day one — the
//! last gift prefixed with "and " on every verse but the first — and closes
//! with a blank line.

use vstd::prelude::*;

verus! {

/// The ordinal name of day `i` (counted from zero).
pub open spec fn day_name(i: int) -> Seq<char> {
    if i == 0 {
        "first"@
    } else if i == 1 {
        "second"@
    } else if i == 2 {
        "third"@
    } else if i == 3 {
        "fourth"@
    } else if i == 4 {
        "fifth"@
    } else if i == 5 {
        "sixth"@
    } else if i == 6 {
        "seventh"@
    } else if i == 7 {
        "eighth"@
    } else if i == 8 {
        "ninth"@
    } else if i == 9 {
        "tenth"@
    } else if i == 10 {
        "eleventh"@
    } else {
        "twelfth"@
    }
}

/// The gift given on day `j` (counted from zero).
pub open spec fn gift_text(j: int) -> Seq<char> {
    if j == 0 {
        "a partridge in a pear tree"@
    } else if j == 1 {
        "two turtle doves"@
    } else if j == 2 {
        "three French hens"@
    } else if j == 3 {
        "four calling birds"@
    } else if j == 4 {
        "five golden rings"@
    } else if j == 5 {
        "six geese a-laying"@
    } else if j == 6 {
        "seven swans a-swimming"@
    } else if j == 7 {
        "eight maids a-milking"@
    } else if j == 8 {
        "nine ladies dancing"@
    } else if j == 9 {
        "ten lords a-leaping"@
    } else if j == 10 {
        "eleven pipers piping"@
    } else {
        "twelve drummers drumming"@
    }
}

/// The header line of verse `i`.
pub open spec fn header_line(i: int) -> Seq<char> {
    "On the "@ + day_name(i) + " day of Christmas,"@
}

/// The melody line that follows every header.
pub open spec fn melody_line() -> Seq<char> {
    "my true love gave to me"@
}

/// The gift line for gift `j` inside verse `i`: the first day's gift gets an
/// "and " prefix on every verse but the first.
pub open spec fn gift_line(i: int, j: int) -> Seq<char> {
    if j == 0 && i > 0 {
        "and "@ + gift_text(0)
    } else {
        gift_text(j)
    }
}

/// The gift lines of verse `i` from gift `i` down to gift `jj`, in that
/// descending order.
pub open spec fn gift_lines_from(i: int, jj: int) -> Seq<Seq<char>>
    decreases i + 1 - jj,
{
    if jj > i || jj < 0 {
        Seq::empty()
    } else {
        gift_lines_from(i, jj + 1) + seq![gift_line(i, jj)]
    }
}

/// All lines of verse `i`: header, melody, the gifts in descending order,
/// and a closing blank line.
pub open spec fn verse(i: int) -> Seq<Seq<char>> {
    seq![header_line(i), melody_line()] + gift_lines_from(i, 0) + seq![Seq::<char>::empty()]
}

/// The lines of the first `n` verses, in order.
pub open spec fn verses_up_to(n: int) -> Seq<Seq<char>>
    decreases n,
{
    if n <= 0 {
        Seq::empty()
    } else {
        verses_up_to(n - 1) + verse(n - 1)
    }
}

/// All lines of the whole song: its twelve verses.
pub open spec fn song() -> Seq<Seq<char>> {
    verses_up_to(12)
}

/// The views of a sequence of lines.
pub open spec fn line_views(v: Seq<String>) -> Seq<Seq<char>> {
    v.map_values(|l: String| l@)
}

proof fn lemma_line_views_push(v: Seq<String>, x: String)
    ensures
        line_views(v.push(x)) == line_views(v).push(x@),
{
    assert(line_views(v.push(x)) =~= line_views(v).push(x@));
}

/// The ordinal name of day `i` (counted from zero).
fn day_name_at(i: usize) -> (r: &'static str)
    requires
        i < 12,
    ensures
        r@ == day_name(i as int),
{
    match i {
        0 => "first",
        1 => "second",
        2 => "third",
        3 => "fourth",
        4 => "fifth",
        5 => "sixth",
        6 => "seventh",
        7 => "eighth",
        8 => "ninth",
        9 => "tenth",
        10 => "eleventh",
        _ => "twelfth",
    }
}

/// The gift given on day `j` (counted from zero).
fn gift_at(j: usize) -> (r: &'static str)
    requires
        j < 12,
    ensures
        r@ == gift_text(j as int),
{
    match j {
        0 => "a partridge in a pear tree",
        1 => "two turtle doves",
        2 => "three French hens",
        3 => "four calling birds",
        4 => "five golden rings",
        5 => "six geese a-laying",
        6 => "seven swans a-swimming",
        7 => "eight maids a-milking",
        8 => "nine ladies dancing",
        9 => "ten lords a-leaping",
        10 => "eleven pipers piping",
        _ => "twelve drummers drumming",
    }
}

/// Builds every line of the song, verse by verse: for each day, the header
/// and melody lines, then the gifts so far in descending order ("and " before
/// the last gift on every verse but the first), then a blank line.
pub fn twelve_days_lines() -> (r: Vec<String>)
    ensures
        line_views(r@) == song(),
{
    let mut r: Vec<String> = Vec::new();
    let mut i: usize = 0;
    proof {
        assert(line_views(r@) =~= verses_up_to(0));
    }
    while i < 12
        invariant
            i <= 12,
            line_views(r@) == verses_up_to(i as int),
        decreases 12 - i,
    {
        let ghost before_verse = line_views(r@);

        let mut header = String::new();
        header.append("On the ");
        header.append(day_name_at(i));
        header.append(" day of Christmas,");
        proof {
            assert(header@ =~= header_line(i as int));
            lemma_line_views_push(r@, header);
        }
        r.push(header);

        let melody = String::from_str("my true love gave to me");
        proof {
            lemma_line_views_push(r@, melody);
        }
        r.push(melody);

        let mut j: usize = i + 1;
        proof {
            assert(gift_lines_from(i as int, j as int) =~= Seq::<Seq<char>>::empty());
            assert(line_views(r@) =~= before_verse + seq![header_line(i as int), melody_line()]
                + gift_lines_from(i as int, j as int));
        }
        while j > 0
            invariant
                j <= i + 1,
                i < 12,
                line_views(r@) == before_verse + seq![header_line(i as int), melody_line()]
                    + gift_lines_from(i as int, j as int),
            decreases j,
        {
            j = j - 1;
            let gift: String = if j == 0 && i > 0 {
                let mut g = String::new();
                g.append("and ");
                g.append(gift_at(0));
                proof {
                    assert(g@ =~= gift_line(i as int, j as int));
                }
                g
            } else {
                let g = String::from_str(gift_at(j));
                proof {
                    assert(g@ =~= gift_line(i as int, j as int));
                }
                g
            };
            proof {
                lemma_line_views_push(r@, gift);
                assert(line_views(r@).push(gift@) =~= before_verse + seq![
                    header_line(i as int),
                    melody_line(),
                ] + gift_lines_from(i as int, j as int));
            }
            r.push(gift);
        }

        let blank = String::new();
        proof {
            lemma_line_views_push(r@, blank);
        }
        r.push(blank);
        proof {
            assert(line_views(r@) =~= verses_up_to(i as int) + verse(i as int));
        }
        i = i + 1;
    }
    r
}

} // verus!
