use dslcad::error::Error;
use dslcad::export::part_file_name;

#[test]
fn the_first_part_takes_the_source_name() {
    assert_eq!("table.stl", part_file_name("table", 0, "stl"));
    assert_eq!("a.stl", part_file_name("a.b", 0, "stl"));
    assert_eq!(".hidden.txt", part_file_name(".hidden", 0, "txt"));
}

#[test]
fn later_parts_add_their_number() {
    assert_eq!("table_1.stl", part_file_name("table", 1, "stl"));
    assert_eq!("table_42.txt", part_file_name("table", 42, "txt"));
    assert_eq!("a.b_1000.stl", part_file_name("a.b", 1000, "stl"));
}

#[test]
fn errors_carry_their_message() {
    let error: Error = "opencascade command failed".into();
    assert_eq!("opencascade command failed", error.message());
}

#[test]
fn every_part_gets_its_own_file() {
    let mut names: Vec<String> = (0..120).map(|i| part_file_name("gear.v2", i, "stl")).collect();
    assert_eq!(names[0], "gear.stl");
    assert_eq!(names[11], "gear.v2_11.stl");
    names.sort();
    names.dedup();
    assert_eq!(names.len(), 120);
}
