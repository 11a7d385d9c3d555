use avprocessor::name_map::NameMap;
use avprocessor::text::{compare_names, NameOrder};

fn names_of(map: &NameMap<usize>) -> Vec<String> {
    (0..map.len()).map(|i| map.name_at(i).clone()).collect()
}

fn values_of(map: &NameMap<usize>) -> Vec<usize> {
    (0..map.len()).map(|i| *map.value_at(i)).collect()
}

#[test]
fn names_are_compared_as_strings_are() {
    let names = ["", "a", "ab", "b", "B", "sub1", "sub10", "sub2", "é", "z", "subwoofer_input_0", "l", "c", "r"];
    for a in names.iter() {
        for b in names.iter() {
            let expected = if a < b {
                NameOrder::Before
            } else if a == b {
                NameOrder::Same
            } else {
                NameOrder::After
            };
            assert_eq!(compare_names(a, b), expected);
        }
    }
}

#[test]
fn a_prefix_comes_first() {
    assert_eq!(compare_names("sub", "sub1"), NameOrder::Before);
    assert_eq!(compare_names("sub1", "sub"), NameOrder::After);
    assert_eq!(compare_names("", ""), NameOrder::Same);
}

#[test]
fn a_map_is_walked_in_the_order_of_its_names() {
    let mut map: NameMap<usize> = NameMap::new();
    assert_eq!(map.len(), 0);
    map.insert("l".to_string(), 0);
    map.insert("r".to_string(), 1);
    map.insert("c".to_string(), 2);
    map.insert("sub1".to_string(), 3);
    map.insert("Sub".to_string(), 4);
    assert_eq!(names_of(&map), vec!["Sub", "c", "l", "r", "sub1"]);
    assert_eq!(values_of(&map), vec![4, 2, 0, 1, 3]);
    assert_eq!(map.len(), 5);
}

#[test]
fn a_name_has_one_value() {
    let mut map: NameMap<usize> = NameMap::new();
    map.insert("l".to_string(), 0);
    map.insert("c".to_string(), 1);
    map.insert("l".to_string(), 2);
    assert_eq!(names_of(&map), vec!["c", "l"]);
    assert_eq!(map.get("l"), Some(&2));
    assert_eq!(map.get("c"), Some(&1));
    assert_eq!(map.get("r"), None);
    assert_eq!(map.find("l"), Some(1));
    assert_eq!(map.find("a"), None);
    assert_eq!(map.find("z"), None);
}

#[test]
fn a_name_can_be_taken_out() {
    let mut map: NameMap<usize> = NameMap::new();
    map.insert("l".to_string(), 0);
    map.insert("c".to_string(), 1);
    map.insert("r".to_string(), 2);
    assert_eq!(map.remove("l"), Some(0));
    assert_eq!(map.remove("l"), None);
    assert_eq!(names_of(&map), vec!["c", "r"]);
    assert_eq!(values_of(&map), vec![1, 2]);
}

#[test]
fn extending_prefers_the_other_map() {
    let mut map: NameMap<usize> = NameMap::new();
    map.insert("l".to_string(), 0);
    map.insert("r".to_string(), 1);
    let mut other: NameMap<usize> = NameMap::new();
    other.insert("r".to_string(), 10);
    other.insert("c".to_string(), 11);
    other.insert("z".to_string(), 12);
    map.extend(other);
    assert_eq!(names_of(&map), vec!["c", "l", "r", "z"]);
    assert_eq!(values_of(&map), vec![11, 0, 10, 12]);
    map.extend(NameMap::new());
    assert_eq!(map.len(), 4);
}
