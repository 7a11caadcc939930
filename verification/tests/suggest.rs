use firework_lang::suggest::closest_subcommand;

#[test]
fn suggests_the_closest_subcommand() {
    let candidates: Vec<String> = ["new", "build", "dump_ast", "dump_ir", "repl"]
        .iter()
        .map(|s| s.to_string())
        .collect();
    // one edit away from "build"; a wrapper that ignored its inputs could
    // not single it out
    assert_eq!(closest_subcommand("bild", &candidates), Some(1));
    assert_eq!(closest_subcommand("dump_it", &candidates), Some(3));
    assert_eq!(closest_subcommand("new", &candidates), Some(0));
    let empty: Vec<String> = Vec::new();
    assert_eq!(closest_subcommand("x", &empty), None);
}
