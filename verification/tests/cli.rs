use revline::cli::Args;

fn words(list: &[&str]) -> Vec<String> {
    list.iter().map(|w| String::from(*w)).collect()
}

#[test]
fn program_name_is_dropped() {
    let args = Args::new(words(&["tool", "a.txt", "b.txt"]));
    assert_eq!(args.len(), 2);
    assert_eq!(args.get(0).map(|p| p.as_str()), Some("a.txt"));
    assert_eq!(args.get(1).map(|p| p.as_str()), Some("b.txt"));
    assert_eq!(args.get(2), None);
}

#[test]
fn program_name_alone_gives_no_path() {
    let args = Args::new(words(&["tool"]));
    assert_eq!(args.len(), 0);
    assert_eq!(args.get(0), None);
}

#[test]
fn empty_command_line_gives_no_path() {
    let args = Args::new(Vec::new());
    assert_eq!(args.len(), 0);
    assert_eq!(args.get(0), None);
}

#[test]
fn paths_keep_their_order_and_repeats() {
    let args = Args::new(words(&["tool", "z", "a", "z", ""]));
    assert_eq!(args.len(), 4);
    let got: Vec<&str> = (0..args.len()).map(|i| args.get(i).unwrap().as_str()).collect();
    assert_eq!(got, vec!["z", "a", "z", ""]);
}

#[test]
fn clone_holds_the_same_paths() {
    let args = Args::new(words(&["tool", "one", "two"]));
    let copy = args.clone();
    assert_eq!(copy.len(), 2);
    assert_eq!(copy.get(0), args.get(0));
    assert_eq!(copy.get(1), args.get(1));
}
