use csv_coincidence::scan::{count_in_rows, fields_fit, find_in_rows, merge_in_rows};
use csv_coincidence::{
    count_coincidences, find_partial_matches, merge_coincidence, validate_csv_extension, Pattern,
    ScanError,
};

const TEST_DATA: &[u8] = b"Name\nJhon\nMarta\ncarlos\n";

const AGES_DATA: &[u8] = b"Name,Age\nJhon,25\nMarta,30\ncarlos,40\n";

fn strings(v: &[&str]) -> Vec<String> {
    v.iter().map(|s| s.to_string()).collect()
}

#[test]
fn test_find_partial_matches() {
    let file_path = "test_data.csv";
    let regex_pattern = r"^[A-Z][a-z]*";

    let matches = find_partial_matches(file_path, regex_pattern, TEST_DATA).unwrap();
    let mut expected_matches_results = Vec::<String>::new();

    expected_matches_results.push("Jhon".to_string());
    expected_matches_results.push("Marta".to_string());

    assert_eq!(expected_matches_results, matches);
}

#[test]
fn test_find_partial_matches_invalid_file() {
    let file_path = "test_data.txt";
    let regex_pattern = r"^[A-Z][a-z]*";

    let result = find_partial_matches(file_path, regex_pattern, TEST_DATA);
    assert!(result.is_err());
}

#[test]
fn test_find_partial_matches_no_matches() {
    let file_path = "test_data.csv";
    let regex_pattern = r"^[0-9]+";

    let matches = find_partial_matches(file_path, regex_pattern, TEST_DATA).unwrap();
    assert_eq!(matches, Vec::<String>::new());
}

#[test]
fn test_find_partial_matches_empty_file() {
    let file_path = "empty.csv";
    let regex_pattern = r"^[A-Z][a-z]*";

    let matches = find_partial_matches(file_path, regex_pattern, b"").unwrap();
    assert_eq!(matches, Vec::<String>::new());
}

#[test]
fn test_find_partial_matches_empty_regex() {
    let file_path = "test_data.csv";
    let regex_pattern = r""; // Empty regular expression

    let result = find_partial_matches(file_path, regex_pattern, TEST_DATA);
    assert!(result.is_err());
}

#[test]
fn wrong_extension_fails_every_operation() {
    for path in ["data.txt", "data", "data.CSV", ".csv", "dir/.csv", "data.csv.bak"] {
        assert_eq!(find_partial_matches(path, "a", TEST_DATA), Err(ScanError::InvalidFileType));
        assert_eq!(count_coincidences(path, "a", TEST_DATA), Err(ScanError::InvalidFileType));
        assert_eq!(merge_coincidence(path, "a", TEST_DATA), Err(ScanError::InvalidFileType));
    }
}

#[test]
fn extension_check() {
    assert_eq!(validate_csv_extension("data.csv"), Ok(()));
    assert_eq!(validate_csv_extension("dir/data.csv"), Ok(()));
    assert_eq!(validate_csv_extension("..csv"), Ok(()));
    assert_eq!(validate_csv_extension("a.csv/"), Ok(()));
    assert_eq!(validate_csv_extension("a.csv//"), Ok(()));
    assert_eq!(validate_csv_extension("a.csv/."), Ok(()));
    assert_eq!(validate_csv_extension("a.csv/./"), Ok(()));
    assert_eq!(validate_csv_extension("a.csv/.."), Err(ScanError::InvalidFileType));
    assert_eq!(validate_csv_extension("dir/.csv/"), Err(ScanError::InvalidFileType));
    assert_eq!(validate_csv_extension("/"), Err(ScanError::InvalidFileType));
    assert_eq!(validate_csv_extension("data.tsv"), Err(ScanError::InvalidFileType));
    assert_eq!(validate_csv_extension("csv"), Err(ScanError::InvalidFileType));
    assert_eq!(validate_csv_extension(""), Err(ScanError::InvalidFileType));
}

#[test]
fn empty_pattern_fails_every_operation() {
    assert_eq!(find_partial_matches("a.csv", "", TEST_DATA), Err(ScanError::InvalidPattern));
    assert_eq!(count_coincidences("a.csv", "", TEST_DATA), Err(ScanError::InvalidPattern));
    assert_eq!(merge_coincidence("a.csv", "", TEST_DATA), Err(ScanError::InvalidPattern));
}

#[test]
fn invalid_pattern_is_refused() {
    assert_eq!(find_partial_matches("a.csv", "foo(bar", TEST_DATA), Err(ScanError::InvalidPattern));
    assert!(Pattern::new("foo(bar").is_err());
    assert!(Pattern::new("").is_err());
    assert!(Pattern::new("ohn").is_ok());
}

#[test]
fn extension_is_checked_before_pattern() {
    assert_eq!(find_partial_matches("a.txt", "", TEST_DATA), Err(ScanError::InvalidFileType));
}

#[test]
fn find_is_substring_search() {
    let data = b"Name\nJohnson\nMary\n";
    assert_eq!(find_partial_matches("p.csv", "ohn", data).unwrap(), strings(&["Johnson"]));
}

#[test]
fn count_equals_find_length() {
    for pat in [r"^[A-Z][a-z]*", r"^[0-9]+", "a", "0"] {
        for data in [TEST_DATA, AGES_DATA] {
            let found = find_partial_matches("t.csv", pat, data).unwrap();
            let count = count_coincidences("t.csv", pat, data).unwrap();
            assert_eq!(count, found.len());
        }
    }
    assert_eq!(count_coincidences("t.csv", r"^[A-Z][a-z]*", TEST_DATA), Ok(2));
    assert_eq!(count_coincidences("t.csv", "0", AGES_DATA), Ok(2));
    assert_eq!(count_coincidences("t.csv", "a", AGES_DATA), Ok(2));
}

#[test]
fn names_with_ages() {
    let found = find_partial_matches("t.csv", r"^[A-Z][a-z]*", AGES_DATA).unwrap();
    assert_eq!(found, strings(&["Jhon", "Marta"]));
    let ages = find_partial_matches("t.csv", r"^[0-9]+", AGES_DATA).unwrap();
    assert_eq!(ages, strings(&["25", "30", "40"]));
    assert_eq!(count_coincidences("t.csv", r"^[0-9]+", AGES_DATA), Ok(3));
}

#[test]
fn digit_prefix_finds_nothing_in_names() {
    assert_eq!(find_partial_matches("t.csv", r"^[0-9]+", TEST_DATA).unwrap(), Vec::<String>::new());
    assert_eq!(count_coincidences("t.csv", r"^[0-9]+", TEST_DATA), Ok(0));
}

#[test]
fn header_only_file_gives_empty_results() {
    let data = b"Name,Age\n";
    assert_eq!(find_partial_matches("e.csv", r"^[A-Z][a-z]*", data).unwrap(), Vec::<String>::new());
    assert_eq!(find_partial_matches("e.csv", "x", data).unwrap(), Vec::<String>::new());
    assert_eq!(count_coincidences("e.csv", "x", data), Ok(0));
    assert_eq!(merge_coincidence("e.csv", "x", data), Ok(String::new()));
}

#[test]
fn merge_single_row() {
    let data = b"Name,Age\nJhon,25\n";
    assert_eq!(merge_coincidence("m.csv", r"^[A-Z][a-z]*", data), Ok("[MERGED],25\n".to_string()));
}

#[test]
fn merge_drops_rows_without_match() {
    let out = merge_coincidence("m.csv", r"^[A-Z][a-z]*", AGES_DATA).unwrap();
    assert_eq!(out, "[MERGED],25\n[MERGED],30\n");
    assert_eq!(out.lines().count(), 2);
    assert!(out.lines().all(|l| l.contains("[MERGED]")));
}

#[test]
fn merge_again_with_marker_pattern_is_stable() {
    let data = b"A,B\nxy,1\n[MERGED],x\nzz,2\n";
    let pat = r"x|MERGED";
    let once = merge_coincidence("m.csv", pat, data).unwrap();
    assert_eq!(once, "[MERGED],1\n[MERGED],[MERGED]\n");
    let rows = vec![strings(&["[MERGED]", "1"]), strings(&["[MERGED]", "[MERGED]"])];
    let p = Pattern::new(pat).unwrap();
    assert_eq!(merge_in_rows(&p, &rows), rows);
}

#[test]
fn merge_again_without_marker_match_drops_rows() {
    let p = Pattern::new(r"^[A-Z][a-z]*").unwrap();
    let once = merge_in_rows(&p, &vec![strings(&["Jhon", "25"])]);
    assert_eq!(once, vec![strings(&["[MERGED]", "25"])]);
    assert_eq!(merge_in_rows(&p, &once), Vec::<Vec<String>>::new());
}

#[test]
fn merge_quotes_fields_that_need_it() {
    let data = b"A,B\n\"a,b\",x\n";
    assert_eq!(merge_coincidence("q.csv", "x", data), Ok("\"a,b\",[MERGED]\n".to_string()));
}

#[test]
fn unequal_row_is_malformed() {
    let data = b"Name,Age\nJhon,25\nMarta\n";
    assert_eq!(find_partial_matches("b.csv", "J", data), Err(ScanError::MalformedRecord));
    assert_eq!(count_coincidences("b.csv", "J", data), Err(ScanError::MalformedRecord));
    assert_eq!(merge_coincidence("b.csv", "J", data), Err(ScanError::MalformedRecord));
}

#[test]
fn bad_utf8_is_malformed() {
    let data: &[u8] = b"Name\n\xff\xfe\n";
    assert_eq!(find_partial_matches("u.csv", "J", data), Err(ScanError::MalformedRecord));
}

#[test]
fn quoted_fields_are_unescaped() {
    let data = b"A,B\n\"say \"\"hi\"\"\",\"x,y\"\n";
    assert_eq!(find_partial_matches("q.csv", "hi|,", data).unwrap(), strings(&["say \"hi\"", "x,y"]));
}

#[test]
fn row_functions_on_plain_rows() {
    let rows = vec![strings(&["Ann", "1"]), strings(&["bob", "Cy"]), strings(&[])];
    let p = Pattern::new("^[A-Z]").unwrap();
    assert_eq!(find_in_rows(&p, &rows), strings(&["Ann", "Cy"]));
    assert!(fields_fit(&rows));
    assert_eq!(count_in_rows(&p, &rows), 2);
    assert_eq!(
        merge_in_rows(&p, &rows),
        vec![strings(&["[MERGED]", "1"]), strings(&["bob", "[MERGED]"])]
    );
}

#[test]
fn repeated_matches_are_kept() {
    let data = b"A,B\nab,ab\nab,c\n";
    assert_eq!(find_partial_matches("r.csv", "a", data).unwrap(), strings(&["ab", "ab", "ab"]));
    assert_eq!(count_coincidences("r.csv", "a", data), Ok(3));
}
