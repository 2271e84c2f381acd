use feelingwise::locator::{find_ollama_binary, search_output_path, unix_install_candidates};

#[test]
fn unix_candidates_in_order() {
    assert_eq!(
        unix_install_candidates(),
        vec!["/usr/local/bin/ollama", "/usr/bin/ollama", "/opt/ollama/ollama"]
    );
}

#[test]
fn which_output_is_trimmed() {
    assert_eq!(search_output_path("/usr/bin/ollama\n", false), Some("/usr/bin/ollama".to_string()));
    assert_eq!(search_output_path("  \n", false), None);
    assert_eq!(search_output_path("", false), None);
}

#[test]
fn where_output_takes_first_line() {
    let out = "C:\\Tools\\ollama.exe\r\nD:\\Other\\ollama.exe\r\n";
    assert_eq!(search_output_path(out, true), Some("C:\\Tools\\ollama.exe".to_string()));
    assert_eq!(search_output_path("\nC:\\x\\ollama.exe", true), None);
}

#[test]
fn first_existing_candidate_wins() {
    let c = unix_install_candidates();
    assert_eq!(find_ollama_binary(&c, &vec![false, true, true]), Some("/usr/bin/ollama".to_string()));
    assert_eq!(find_ollama_binary(&c, &vec![true, true, false]), Some("/usr/local/bin/ollama".to_string()));
    assert_eq!(find_ollama_binary(&c, &vec![false, false, false]), None);
}

#[test]
fn unicode_white_space_is_trimmed_too() {
    assert_eq!(
        search_output_path("\u{3000}/usr/bin/ollama\u{a0}\t\n", false),
        Some("/usr/bin/ollama".to_string())
    );
}
