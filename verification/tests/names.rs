use unicos::name_map::NameMap;
use unicos::names::{is_less, NameSet};

#[test]
fn names_are_ordered_as_strings_are() {
    let names = ["", "A", "AB", "B", "a", "é", "\u{ffff}", "😀"];
    for a in names {
        for b in names {
            assert_eq!(is_less(a, b), a < b, "{a} {b}");
        }
    }
}

#[test]
fn a_set_of_names_is_kept_in_order() {
    let mut set = NameSet::new();
    for n in ["c", "a", "b", "a", "d"] {
        set.insert(n);
    }
    assert_eq!(set.to_vec(), ["a", "b", "c", "d"]);
    set.remove("b");
    set.remove("x");
    assert!(set.contains("c") && !set.contains("b"));
    assert_eq!(set.to_vec(), ["a", "c", "d"]);
    let mut out = NameSet::new();
    out.insert("c");
    out.insert("z");
    assert_eq!(set.to_vec_without(&out), ["a", "d"]);
}

#[test]
fn a_map_of_names_holds_one_value_for_each() {
    let mut map: NameMap<u32> = NameMap::new();
    map.insert("b", 1);
    map.insert("a", 2);
    map.insert("b", 3);
    assert_eq!(map.get("b"), Some(&3));
    assert!(map.contains("a") && !map.contains("c"));
    assert_eq!(map.remove("a"), Some(2));
    assert_eq!(map.remove("a"), None);
    assert_eq!(map.names(), ["b"]);
}
