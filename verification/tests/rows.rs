//! The rows of the list, and the requests to the clipboard history.
use cliphist_tui::list::{decode_request, delete_request, find_entry, list_entry, list_row, Listing};

#[test]
fn rows_are_numbered_without_gaps() {
    let mut listing = Listing::new();
    assert_eq!(listing.next_number(), 1);
    assert_eq!(
        listing.push("31\thello").unwrap(),
        "31\t\x1b[90m1  \x1b[0mhello\n"
    );
    assert!(listing.push("30\t<html>[表情]").is_none());
    assert!(listing.push("no tab here").is_none());
    assert_eq!(listing.next_number(), 2);
    assert_eq!(
        listing.push("29\t/a.gif").unwrap(),
        "29\t\x1b[90m2  \x1b[0m\x1b[1;34m[IMG]Path.gif\x1b[0m\n"
    );
    for _ in 0..7 {
        assert!(listing.push("1\tx").is_some());
    }
    assert_eq!(listing.push("1\ta\tb").unwrap(), "1\t\x1b[90m10 \x1b[0ma\tb\n");
}

#[test]
fn the_number_is_padded_to_two_characters() {
    assert_eq!(list_row("7", 9, "x"), format!("7\t\x1b[90m{:<2} \x1b[0mx\n", 9));
    assert_eq!(list_row("7", 10, "x"), format!("7\t\x1b[90m{:<2} \x1b[0mx\n", 10));
    assert_eq!(list_row("7", 1234, "x"), format!("7\t\x1b[90m{:<2} \x1b[0mx\n", 1234));
    assert_eq!(list_row("7", u64::MAX, "x"), format!("7\t\x1b[90m{:<2} \x1b[0mx\n", u64::MAX));
}

#[test]
fn entries_are_split_at_the_first_tab() {
    assert_eq!(list_entry("12\ta\tb"), Some(("12".to_string(), "a\tb".to_string())));
    assert_eq!(list_entry("\t"), Some(("".to_string(), "".to_string())));
    assert_eq!(list_entry("12 a"), None);
    assert_eq!(list_entry("12\t<html>"), Some(("12".to_string(), "<html>".to_string())));
    assert_eq!(list_entry("12\t[表情]"), Some(("12".to_string(), "[表情]".to_string())));
    assert_eq!(list_entry("12\t[表情]<html>"), None);
}

#[test]
fn the_id_of_a_row_leads_back_to_its_line() {
    let lines = ["31\thello", "3\tworld", "30\tthree"];
    let list = lines.join("\n");
    let mut listing = Listing::new();
    for line in lines {
        let row = listing.push(line).unwrap();
        let id = row.split('\t').next().unwrap();
        assert_eq!(find_entry(&list, id).unwrap(), line);
        assert_eq!(delete_request(list.as_bytes(), id).unwrap(), format!("{}\n", line));
    }
}

#[test]
fn the_first_line_with_the_id_is_deleted() {
    let list = b"10\ta\r\n1\tb\n1\tc\n\n2\td";
    assert_eq!(delete_request(list, " 1\n"), Some("1\tb\n".to_string()));
    assert_eq!(delete_request(list, "10"), Some("10\ta\n".to_string()));
    assert_eq!(delete_request(list, "2"), Some("2\td\n".to_string()));
    assert_eq!(delete_request(list, "3"), None);
    assert_eq!(delete_request(b"", "1"), None);
}

#[test]
fn a_carriage_return_without_a_line_feed_is_kept() {
    assert_eq!(find_entry("1\ta\r", "1").unwrap(), "1\ta\r");
    assert_eq!(find_entry("1\ta\rb\r\r\n2\tc", "1").unwrap(), "1\ta\rb\r");
}

#[test]
fn lines_that_are_not_utf8_are_read_with_replacements() {
    assert_eq!(delete_request(b"1\ta\xffb\n", "1"), Some("1\ta\u{FFFD}b\n".to_string()));
}

#[test]
fn the_request_for_a_content() {
    assert_eq!(decode_request(" 42\n"), "42\t\n");
    assert_eq!(decode_request(""), "\t\n");
}

#[test]
fn a_row_takes_one_line() {
    let mut listing = Listing::new();
    for line in ["1\thello", "2\tfile:///a.png", "3\t[[ binary data 1 B png ]]", "4\t\r"] {
        let row = listing.push(line).unwrap();
        assert_eq!(row.matches('\n').count(), 1);
        assert!(row.ends_with('\n'));
    }
}
