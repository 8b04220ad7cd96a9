use guessing_game::song::twelve_days_lines;

#[test]
fn song_has_one_hundred_fourteen_lines() {
    // Verse i (from zero) holds i + 4 lines; summed over the twelve verses
    // that is 114.
    assert_eq!(twelve_days_lines().len(), 114);
}

#[test]
fn first_verse() {
    let lines = twelve_days_lines();
    assert_eq!(lines[0], "On the first day of Christmas,");
    assert_eq!(lines[1], "my true love gave to me");
    assert_eq!(lines[2], "a partridge in a pear tree");
    assert_eq!(lines[3], "");
}

#[test]
fn second_verse_prefixes_the_last_gift() {
    let lines = twelve_days_lines();
    assert_eq!(lines[4], "On the second day of Christmas,");
    assert_eq!(lines[5], "my true love gave to me");
    assert_eq!(lines[6], "two turtle doves");
    assert_eq!(lines[7], "and a partridge in a pear tree");
    assert_eq!(lines[8], "");
}

#[test]
fn last_verse_lists_every_gift_in_descending_order() {
    let lines = twelve_days_lines();
    assert_eq!(lines[99], "On the twelfth day of Christmas,");
    assert_eq!(lines[100], "my true love gave to me");
    assert_eq!(lines[101], "twelve drummers drumming");
    assert_eq!(lines[102], "eleven pipers piping");
    assert_eq!(lines[103], "ten lords a-leaping");
    assert_eq!(lines[104], "nine ladies dancing");
    assert_eq!(lines[105], "eight maids a-milking");
    assert_eq!(lines[106], "seven swans a-swimming");
    assert_eq!(lines[107], "six geese a-laying");
    assert_eq!(lines[108], "five golden rings");
    assert_eq!(lines[109], "four calling birds");
    assert_eq!(lines[110], "three French hens");
    assert_eq!(lines[111], "two turtle doves");
    assert_eq!(lines[112], "and a partridge in a pear tree");
    assert_eq!(lines[113], "");
}
