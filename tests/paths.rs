use wasm_build_runtime::paths::split_paths;

#[test]
fn splits_on_colons() {
    assert_eq!(split_paths("/usr/bin:/bin"), vec!["/usr/bin".to_string(), "/bin".to_string()]);
    assert_eq!(split_paths(""), vec!["".to_string()]);
    assert_eq!(split_paths(":a::"), vec!["", "a", "", ""].iter().map(|x| x.to_string()).collect::<Vec<_>>());
    assert_eq!(split_paths("ünï"), vec!["ünï".to_string()]);
}
