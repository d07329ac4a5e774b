use civgame::slug::slugify;

#[test]
fn slugify_handles_unicode_and_collapses_runs() {
    assert_eq!(slugify("My Tank!!"), "my_tank");
    assert_eq!(slugify("  spaces   "), "spaces");
    assert_eq!(slugify(""), "design");
    assert_eq!(slugify("/!@#"), "design");
    assert_eq!(slugify("Hü-mph"), "h_mph"); // non-ASCII drops to '_'
}

#[test]
fn slugs_are_cut_to_forty_eight_characters() {
    let long = "Abc ".repeat(20);
    let slug = slugify(&long);
    assert_eq!(slug, format!("{}abc", "abc_".repeat(11)));
    let exact = "a".repeat(48);
    assert_eq!(slugify(&exact), exact);
}

#[test]
fn slugs_end_in_no_underscore() {
    let name = format!("{} b", "a".repeat(47));
    assert_eq!(slugify(&name), "a".repeat(47));
    let name = format!("{}  b", "a".repeat(46));
    assert_eq!(slugify(&name), format!("{}_b", "a".repeat(46)));
}
