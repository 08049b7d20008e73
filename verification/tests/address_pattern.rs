use ladder_logic::cpu::{resolve_address, AddressError};
use regex::Regex;

/// Every string of up to `max_len` characters over `alphabet`.
fn strings_over(alphabet: &[char], max_len: usize) -> Vec<String> {
    let mut all = vec![String::new()];
    let mut last = vec![String::new()];
    for _ in 0..max_len {
        let mut next = Vec::new();
        for s in &last {
            for c in alphabet {
                let mut longer = s.clone();
                longer.push(*c);
                next.push(longer);
            }
        }
        all.extend(next.iter().cloned());
        last = next;
    }
    all
}

#[test]
fn addresses_are_the_strings_that_the_pattern_matches_whole() {
    let pattern = Regex::new(r"([[:alpha:]]+)(\d+)").unwrap();
    let mut accepted = 0;
    for s in strings_over(&['X', 'a', 'z', '0', '9', ' ', '-', 'é', '٣'], 5) {
        let whole = pattern.captures(&s).filter(|captures| {
            let all = captures.get(0).unwrap();
            all.start() == 0 && all.end() == s.len() && captures[2].is_ascii()
        });
        match whole {
            Some(captures) => {
                let bit = resolve_address(&s).unwrap();
                assert_eq!(bit.prefix(), &captures[1], "{:?}", s);
                assert_eq!(bit.digits(), &captures[2], "{:?}", s);
                accepted += 1;
            }
            None => assert_eq!(resolve_address(&s), Err(AddressError), "{:?}", s),
        }
    }
    // Strings of i letters and j digits, i, j >= 1, i + j <= 5, over three
    // letters and two digits.
    assert_eq!(accepted, 3 * 2 + (9 * 2 + 3 * 4) + (27 * 2 + 9 * 4 + 3 * 8) + (81 * 2 + 27 * 4 + 9 * 8 + 3 * 16));
}

#[test]
fn a_match_inside_a_longer_string_is_no_address() {
    let pattern = Regex::new(r"([[:alpha:]]+)(\d+)").unwrap();
    for s in ["9X0", "X0!", " X0", "X0 Y1", "-a9-"] {
        assert!(pattern.is_match(s));
        assert_eq!(resolve_address(s), Err(AddressError), "{:?}", s);
    }
}
