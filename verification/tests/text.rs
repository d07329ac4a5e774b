use civgame::activity_log::tick_to_game_date;
use civgame::reading::{parse_megachunk, read_i32, read_u64, split_words, trim};
use civgame::rings::{ring_offsets, rings_between, Walk};
use civgame::sorting::{descending, order_by_keys, rising};
use civgame::text::{is_before, joined, push_number, push_signed, same_text, Text};

#[test]
fn numbers_are_written_in_decimals() {
    let mut s = String::new();
    push_number(&mut s, 0);
    push_number(&mut s, 18_446_744_073_709_551_615);
    assert_eq!(s, "018446744073709551615");
    let mut s = String::from("x");
    push_signed(&mut s, -9_223_372_036_854_775_808);
    push_signed(&mut s, 7);
    assert_eq!(s, "x-92233720368547758087");
}

#[test]
fn texts_are_put_together() {
    let t = Text::of("a").with("b").number(12).signed(-3).plus(4).plus(-4).hex(255, 4).done();
    assert_eq!(t, format!("ab12-3{:+}{:+}{:04x}", 4, -4, 255));
    assert_eq!(Text::blank().pad("Health", 8).with("|").done(), format!("{:8}|", "Health"));
    assert_eq!(joined("ab", "cd"), "abcd");
    assert!(same_text("ab", "ab"));
    assert!(!same_text("ab", "abc"));
}

#[test]
fn texts_are_ordered_like_strings() {
    let list = ["", "a", "ab", "b", "Zz", "zz", "é"];
    for a in list {
        for b in list {
            assert_eq!(is_before(a, b), a < b, "{a:?} {b:?}");
        }
    }
}

#[test]
fn numerals_read_back() {
    for n in [0u64, 1, 9, 10, 4_294_967_296, u64::MAX] {
        assert_eq!(read_u64(&format!("{n}")), Some(n));
    }
    for n in [0i32, -1, 7, i32::MIN, i32::MAX] {
        assert_eq!(read_i32(&format!("{n}")), Some(n));
    }
    for s in ["", "+", "-", " 1", "1 ", "12x", "18446744073709551616", "-1"] {
        assert_eq!(read_u64(s), s.parse::<u64>().ok(), "{s:?}");
    }
    for s in ["", "+", "-", "+5", "-2147483649", "2147483648", "--1", "007"] {
        assert_eq!(read_i32(s), s.parse::<i32>().ok(), "{s:?}");
    }
    assert_eq!(read_u64("+5"), "+5".parse::<u64>().ok());
}

#[test]
fn pairs_are_read_loosely() {
    assert_eq!(trim("  a b\t\n"), "a b");
    assert_eq!(parse_megachunk("3,-4"), Some((3, -4)));
    assert_eq!(parse_megachunk(" ( 3 , -4 ) ").is_some(), parse_megachunk("(3,-4)").is_some());
    assert_eq!(parse_megachunk("3"), None);
    assert_eq!(parse_megachunk("a,b"), None);
    assert_eq!(split_words("1,2"), vec!["1".to_string(), "2".to_string()]);
}

#[test]
fn dates_name_season_and_day() {
    assert_eq!(tick_to_game_date(0), "Spr D1");
    assert_eq!(tick_to_game_date(3600), "Spr D2");
    assert_eq!(tick_to_game_date(5 * 3600), "Sum D1");
    assert_eq!(tick_to_game_date(19 * 3600 + 3599), "Win D5");
    assert_eq!(tick_to_game_date(20 * 3600), "Spr D1");
}

#[test]
fn ordering_is_stable() {
    let keys = vec![rising(3), rising(1), rising(3), rising(2)];
    assert_eq!(order_by_keys(&keys), vec![1, 3, 0, 2]);
    let keys = vec![descending(3), descending(1), descending(3), descending(u64::MAX)];
    assert_eq!(order_by_keys(&keys), vec![3, 0, 2, 1]);
}

#[test]
fn rings_go_outward() {
    assert_eq!(ring_offsets(0, Walk::Rows), vec![(0, 0)]);
    let one = ring_offsets(1, Walk::Rows);
    assert_eq!(one.len(), 8);
    assert_eq!(one[0], (-1, -1));
    assert_eq!(one[1], (0, -1));
    assert_eq!(ring_offsets(1, Walk::Columns)[1], (-1, 0));
    let all = rings_between(0, 2, Walk::Rows);
    assert_eq!(all.len(), 25);
    assert_eq!(all[0], (0, 0));
    assert!(all[9].0.abs().max(all[9].1.abs()) == 2);
}
