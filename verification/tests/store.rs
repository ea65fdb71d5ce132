use pw_vault::entry::Entry;
use pw_vault::store::{find, insert, vet_long, vet_short, NameError};

fn entry(long: &str, short: &str) -> Entry {
    Entry {
        long: long.to_string(),
        short: short.to_string(),
        extra: String::new(),
        salt: [0u8; 16],
        sealed: Vec::new(),
    }
}

fn shelf() -> Vec<Entry> {
    vec![entry("github", "gh"), entry("mail", ""), entry("bank", "b")]
}

#[test]
fn find_by_long_or_short_name() {
    let entries = shelf();
    assert_eq!(find(&entries, "github"), Some(0));
    assert_eq!(find(&entries, "gh"), Some(0));
    assert_eq!(find(&entries, "mail"), Some(1));
    assert_eq!(find(&entries, "bank"), Some(2));
    assert_eq!(find(&entries, "b"), Some(2));
}

#[test]
fn find_reports_what_is_not_there() {
    let entries = shelf();
    assert_eq!(find(&entries, "gitlab"), None);
    assert_eq!(find(&entries, "GH"), None);
    assert_eq!(find(&Vec::new(), "github"), None);
}

#[test]
fn find_takes_the_first_of_several() {
    let entries = vec![entry("one", "x"), entry("x", "two"), entry("one", "")];
    assert_eq!(find(&entries, "x"), Some(0));
    assert_eq!(find(&entries, "one"), Some(0));
    assert_eq!(find(&entries, "two"), Some(1));
}

#[test]
fn find_of_the_empty_name_meets_an_entry_without_short_name() {
    assert_eq!(find(&shelf(), ""), Some(1));
    assert_eq!(find(&vec![entry("github", "gh")], ""), None);
}

#[test]
fn long_name_must_be_there_and_free() {
    let entries = shelf();
    assert_eq!(vet_long(&entries, ""), Err(NameError::Empty));
    assert_eq!(vet_long(&entries, "github"), Err(NameError::InUse));
    assert_eq!(vet_long(&entries, "gh"), Err(NameError::InUse));
    assert_eq!(vet_long(&entries, "gitlab"), Ok(()));
    assert_eq!(vet_long(&Vec::new(), ""), Err(NameError::Empty));
    assert_eq!(vet_long(&Vec::new(), "github"), Ok(()));
}

#[test]
fn short_name_may_be_left_out_but_must_be_free() {
    let entries = shelf();
    assert_eq!(vet_short(&entries, "gitlab", ""), Ok(()));
    assert_eq!(vet_short(&entries, "gitlab", "github"), Err(NameError::InUse));
    assert_eq!(vet_short(&entries, "gitlab", "b"), Err(NameError::InUse));
    assert_eq!(vet_short(&entries, "gitlab", "gl"), Ok(()));
}

#[test]
fn short_name_must_not_be_the_long_name_of_the_same_entry() {
    assert_eq!(vet_short(&shelf(), "gitlab", "gitlab"), Err(NameError::InUse));
    assert_eq!(vet_short(&Vec::new(), "a", "a"), Err(NameError::InUse));
    assert_eq!(vet_short(&Vec::new(), "a", "A"), Ok(()));
    assert_eq!(vet_short(&Vec::new(), "", ""), Ok(()));
}

#[test]
fn insert_appends_an_entry_with_free_names() {
    let mut entries = shelf();
    assert_eq!(insert(&mut entries, entry("gitlab", "gl")), Ok(()));
    assert_eq!(entries.len(), 4);
    assert_eq!(entries[3], entry("gitlab", "gl"));
    assert_eq!(entries[..3].to_vec(), shelf());
    assert_eq!(insert(&mut entries, entry("forum", "")), Ok(()));
    assert_eq!(entries.len(), 5);
    assert_eq!(find(&entries, "forum"), Some(4));
}

#[test]
fn insert_refuses_names_in_use() {
    let mut entries = shelf();
    assert_eq!(insert(&mut entries, entry("", "x")), Err(NameError::Empty));
    assert_eq!(insert(&mut entries, entry("mail", "m")), Err(NameError::InUse));
    assert_eq!(insert(&mut entries, entry("b", "")), Err(NameError::InUse));
    assert_eq!(insert(&mut entries, entry("gitlab", "gh")), Err(NameError::InUse));
    assert_eq!(insert(&mut entries, entry("gitlab", "bank")), Err(NameError::InUse));
    assert_eq!(entries, shelf());
}

#[test]
fn insert_judges_the_long_name_first() {
    let mut entries = shelf();
    assert_eq!(insert(&mut entries, entry("", "gh")), Err(NameError::Empty));
}

#[test]
fn inserted_names_stay_apart() {
    let mut entries: Vec<Entry> = Vec::new();
    let offered = [
        entry("github", "gh"),
        entry("gh", "x"),
        entry("mail", ""),
        entry("post", "mail"),
        entry("forum", ""),
        entry("github", ""),
        entry("shop", "shop"),
        entry("bank", "b"),
    ];
    for one in offered.iter() {
        let _ = insert(&mut entries, one.clone());
    }
    assert_eq!(
        entries,
        vec![entry("github", "gh"), entry("mail", ""), entry("forum", ""), entry("bank", "b")]
    );
    for (i, one) in entries.iter().enumerate() {
        assert!(!one.long.is_empty());
        for (j, other) in entries.iter().enumerate() {
            if i != j {
                assert!(one.long != other.long && one.long != other.short);
                if !one.short.is_empty() {
                    assert!(one.short != other.long && one.short != other.short);
                }
            } else if !one.short.is_empty() {
                assert!(one.short != one.long);
            }
        }
    }
}

#[test]
fn an_entry_may_not_carry_its_long_name_as_short_name() {
    let mut entries = shelf();
    assert_eq!(insert(&mut entries, entry("same", "same")), Err(NameError::InUse));
    assert_eq!(entries, shelf());
    let mut none: Vec<Entry> = Vec::new();
    assert_eq!(insert(&mut none, entry("a", "a")), Err(NameError::InUse));
    assert!(none.is_empty());
}

#[test]
fn names_compare_as_strings_do() {
    let names = [
        "", "a", "A", "ab", "abc", "abd", "b", "B", "github", "gitlab", "z", "\u{e9}", "\u{e9}a",
        "e", "\u{2615}", "\u{10348}", "~",
    ];
    for a in names {
        for b in names {
            assert_eq!(pw_vault::store::comes_first(a, b), a <= b, "{:?} {:?}", a, b);
        }
    }
}

#[test]
fn a_name_comes_before_what_it_begins() {
    assert!(pw_vault::store::comes_first("git", "github"));
    assert!(!pw_vault::store::comes_first("github", "git"));
    assert!(pw_vault::store::comes_first("github", "github"));
    assert!(pw_vault::store::comes_first("", ""));
}

#[test]
fn sort_orders_by_long_name() {
    let mut entries = vec![
        entry("mail", "m"),
        entry("github", "gh"),
        entry("bank", ""),
        entry("Zoo", "z"),
        entry("forum", ""),
    ];
    pw_vault::store::sort_by_long(&mut entries);
    assert_eq!(
        entries,
        vec![
            entry("Zoo", "z"),
            entry("bank", ""),
            entry("forum", ""),
            entry("github", "gh"),
            entry("mail", "m"),
        ]
    );
}

#[test]
fn sort_agrees_with_the_order_of_strings() {
    let longs = [
        "pear", "apple", "\u{e9}clair", "fig", "Apple", "apples", "app", "zebra", "kiwi", "~", "0",
        "fig2",
    ];
    let mut entries: Vec<Entry> = longs.iter().map(|long| entry(long, "")).collect();
    let mut expected = entries.clone();
    expected.sort_unstable_by(|x, y| x.long.cmp(&y.long));
    pw_vault::store::sort_by_long(&mut entries);
    assert_eq!(entries, expected);
}

#[test]
fn sort_of_nothing_and_of_one() {
    let mut none: Vec<Entry> = Vec::new();
    pw_vault::store::sort_by_long(&mut none);
    assert!(none.is_empty());
    let mut one = vec![entry("github", "gh")];
    pw_vault::store::sort_by_long(&mut one);
    assert_eq!(one, vec![entry("github", "gh")]);
}

#[test]
fn sort_keeps_every_entry() {
    let mut entries =
        vec![entry("b", "1"), entry("a", "2"), entry("b", "3"), entry("a", "4"), entry("c", "")];
    pw_vault::store::sort_by_long(&mut entries);
    assert_eq!(entries.len(), 5);
    let longs: Vec<&str> = entries.iter().map(|e| e.long.as_str()).collect();
    assert_eq!(longs, vec!["a", "a", "b", "b", "c"]);
    for short in ["1", "2", "3", "4", ""] {
        assert_eq!(entries.iter().filter(|e| e.short == short).count(), 1);
    }
}

#[test]
fn sort_leaves_a_sorted_collection_as_it_is() {
    let mut entries = vec![entry("a", ""), entry("b", ""), entry("c", "")];
    pw_vault::store::sort_by_long(&mut entries);
    assert_eq!(entries, vec![entry("a", ""), entry("b", ""), entry("c", "")]);
}

#[test]
fn remove_takes_the_entry_at_a_place() {
    let mut entries = shelf();
    assert_eq!(pw_vault::store::remove(&mut entries, 1), Some(entry("mail", "")));
    assert_eq!(entries, vec![entry("github", "gh"), entry("bank", "b")]);
    assert_eq!(pw_vault::store::remove(&mut entries, 1), Some(entry("bank", "b")));
    assert_eq!(pw_vault::store::remove(&mut entries, 0), Some(entry("github", "gh")));
    assert!(entries.is_empty());
}

#[test]
fn remove_of_no_place_changes_nothing() {
    let mut entries = shelf();
    assert_eq!(pw_vault::store::remove(&mut entries, 3), None);
    assert_eq!(pw_vault::store::remove(&mut entries, usize::MAX), None);
    assert_eq!(entries, shelf());
    let mut none: Vec<Entry> = Vec::new();
    assert_eq!(pw_vault::store::remove(&mut none, 0), None);
}

#[test]
fn a_removed_name_is_free_again() {
    let mut entries = shelf();
    assert_eq!(vet_long(&entries, "gh"), Err(NameError::InUse));
    let at = find(&entries, "gh").unwrap();
    assert!(pw_vault::store::remove(&mut entries, at).is_some());
    assert_eq!(find(&entries, "gh"), None);
    assert_eq!(vet_long(&entries, "gh"), Ok(()));
    assert_eq!(insert(&mut entries, entry("gh", "github")), Ok(()));
}
