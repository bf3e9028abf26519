use unitypackage_extractor::naming::{contains_name, copy_name_of, find_unique_name, sidecar_of};

fn names(v: &[&str]) -> Vec<String> {
    v.iter().map(|s| s.to_string()).collect()
}

#[test]
fn first_alternate_when_nothing_is_taken() {
    assert_eq!(find_unique_name("Foo.txt", &names(&[])), "Foo_copy1.txt");
}

#[test]
fn lowest_free_alternate_is_chosen() {
    let taken = names(&["Foo.txt", "Foo.txt.meta", "Foo_copy1.txt.meta", "Foo_copy2.txt.meta"]);
    assert_eq!(find_unique_name("Foo.txt", &taken), "Foo_copy3.txt");
}

#[test]
fn gap_in_taken_alternates_is_filled() {
    let taken = names(&["Foo_copy1.txt.meta", "Foo_copy3.txt.meta"]);
    assert_eq!(find_unique_name("Foo.txt", &taken), "Foo_copy2.txt");
}

#[test]
fn only_sidecars_count_as_taken() {
    let taken = names(&["Foo_copy1.txt"]);
    assert_eq!(find_unique_name("Foo.txt", &taken), "Foo_copy1.txt");
}

#[test]
fn name_without_extension() {
    assert_eq!(find_unique_name("README", &names(&["README_copy1.meta"])), "README_copy2");
}

#[test]
fn only_the_last_dot_splits_the_extension() {
    assert_eq!(find_unique_name("a.b.c", &names(&[])), "a.b_copy1.c");
    assert_eq!(find_unique_name(".hidden", &names(&[])), "_copy1.hidden");
}

#[test]
fn copy_numbers_are_written_in_decimal() {
    assert_eq!(copy_name_of("Foo.txt", 12), "Foo_copy12.txt");
    assert_eq!(copy_name_of("Foo.txt", 100), "Foo_copy100.txt");
}

#[test]
fn sidecar_names() {
    assert_eq!(sidecar_of("Foo.txt"), "Foo.txt.meta");
    assert_eq!(sidecar_of(""), ".meta");
}

#[test]
fn membership() {
    let v = names(&["a", "b"]);
    assert!(contains_name(&v, &"b".to_string()));
    assert!(!contains_name(&v, &"c".to_string()));
}
