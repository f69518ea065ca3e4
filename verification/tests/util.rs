use qsv::qsv::util::{
    derived_table_name, fresh_table_name, remove_extension, sanitize, table_name,
};
use qsv::string_map::StringMap;

#[test]
fn it_removes_the_extension_from_the_leaf_name() {
    assert_eq!(remove_extension("foo.csv"), Some(String::from("foo")));
    assert_eq!(remove_extension("./foo.csv"), Some(String::from("foo")));
    assert_eq!(
        remove_extension("testdata/people.csv"),
        Some(String::from("people"))
    );
    assert_eq!(
        remove_extension("/a/b.c/occupations with spaces.csv"),
        Some(String::from("occupations with spaces"))
    );
    assert_eq!(remove_extension("plain"), Some(String::from("plain")));
}

#[test]
fn it_cuts_the_leaf_name_at_its_first_dot() {
    assert_eq!(
        remove_extension("archive.tar.gz"),
        Some(String::from("archive"))
    );
    assert_eq!(
        remove_extension("dir.d/people.csv.gz"),
        Some(String::from("people"))
    );
    assert_eq!(remove_extension(".hidden"), Some(String::from("")));
    assert_eq!(remove_extension("..."), Some(String::from("")));
}

#[test]
fn it_passes_over_separators_and_dots_at_the_end_of_a_path() {
    assert_eq!(remove_extension("dir/"), Some(String::from("dir")));
    assert_eq!(remove_extension("dir//"), Some(String::from("dir")));
    assert_eq!(remove_extension("a/."), Some(String::from("a")));
    assert_eq!(remove_extension("a/./"), Some(String::from("a")));
    assert_eq!(remove_extension("a/b.csv/.//./"), Some(String::from("b")));
    assert_eq!(remove_extension("./a.b"), Some(String::from("a")));
    assert_eq!(remove_extension("a/./b.c"), Some(String::from("b")));
    assert_eq!(remove_extension("/root.txt"), Some(String::from("root")));
}

#[test]
fn it_gives_the_same_as_the_last_component_of_a_path() {
    for path in [
        "", "/", "//", ".", "./", "..", "../", "a/..", "a/../", "/..", "/.", "./.", "../.", "dir/",
        "a/.", "a/b", "a/b/", "a//b//", "a/./b/.", "x.y.z", ".hidden", "...", "a/...", "..a",
        "a b/c d.e f", "/a", "a/.b/", ". /x", "./ ", "a/. ", "a/.. ",
    ] {
        let expected = std::path::Path::new(path)
            .file_name()
            .and_then(|name| name.to_str())
            .and_then(|name| name.split('.').next())
            .map(String::from);
        assert_eq!(remove_extension(path), expected, "for the path {:?}", path);
    }
}

#[test]
fn it_finds_no_last_component_in_a_path_without_one() {
    assert_eq!(remove_extension(""), None);
    assert_eq!(remove_extension("/"), None);
    assert_eq!(remove_extension("."), None);
    assert_eq!(remove_extension("./"), None);
    assert_eq!(remove_extension("/."), None);
    assert_eq!(remove_extension(".."), None);
    assert_eq!(remove_extension("dir/.."), None);
    assert_eq!(remove_extension("dir/../"), None);
}

#[test]
fn it_replaces_every_space_with_an_underscore() {
    assert_eq!(
        sanitize(Some(String::from("occupations with spaces"))),
        Some(String::from("occupations_with_spaces"))
    );
    assert_eq!(sanitize(Some(String::from(" a  b "))), Some(String::from("_a__b_")));
    assert_eq!(sanitize(Some(String::from("plain"))), Some(String::from("plain")));
    assert_eq!(sanitize(Some(String::from("tab\tstays"))), Some(String::from("tab\tstays")));
    assert_eq!(sanitize(Some(String::new())), Some(String::new()));
    assert_eq!(sanitize(None), None);
}

#[test]
fn it_names_a_table_after_its_file() {
    assert_eq!(table_name("./testdata/people.csv", 7), "people");
    assert_eq!(table_name("occupations with spaces.csv", 7), "occupations_with_spaces");
    assert_eq!(table_name("archive.tar.gz", 7), "archive");
}

#[test]
fn it_makes_up_a_name_for_a_table_whose_file_gives_none() {
    assert_eq!(table_name("", 0), "t00000000000000000000000000000000");
    assert_eq!(table_name("/", 255), "t000000000000000000000000000000ff");
    assert_eq!(table_name("dir/", 255), "dir");
    assert_eq!(
        table_name(".csv", 0x0123456789abcdef0011223344556677),
        "t0123456789abcdef0011223344556677"
    );
    assert_eq!(table_name("a/..", u128::MAX), "tffffffffffffffffffffffffffffffff");
}

#[test]
fn it_keeps_string_keys_in_the_order_they_came_in() {
    let mut map: StringMap<u32> = StringMap::new();
    assert_eq!(map.len(), 0);
    assert_eq!(map.get("a"), None);
    map.insert(String::from("b"), 1);
    map.insert(String::from("a"), 2);
    map.insert(String::from("b"), 3);
    assert_eq!(map.len(), 2);
    assert_eq!(map.get("b"), Some(&3));
    assert_eq!(map.get("a"), Some(&2));
    assert_eq!(map.get("c"), None);
    assert!(map.contains_key("a"));
    assert!(!map.contains_key(""));
    assert_eq!(map.find("a"), Some(1));
    assert_eq!(map.key_at(0), "b");
    assert_eq!(map.value_at(0), &3);
    assert_eq!(map.key_at(1), "a");
}

#[test]
fn it_finds_the_values_of_a_map_of_strings() {
    let mut map: StringMap<String> = StringMap::new();
    assert!(!map.contains_value("people"));
    map.insert(String::from("./people.csv"), String::from("people"));
    assert!(map.contains_value("people"));
    assert!(!map.contains_value("./people.csv"));
}

#[test]
fn it_tells_whether_a_path_gives_a_table_name() {
    assert_eq!(
        derived_table_name("dir/my file.csv"),
        Some(String::from("my_file"))
    );
    assert_eq!(derived_table_name("dir/"), Some(String::from("dir")));
    assert_eq!(derived_table_name(".csv"), None);
    assert_eq!(derived_table_name("a/.."), None);
    assert_eq!(derived_table_name(""), None);
    assert_eq!(fresh_table_name(1), "t00000000000000000000000000000001");
}
