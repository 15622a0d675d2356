use rex_fm::app::{App, SearchFilter};
use rex_fm::config::AppConfig;
use rex_fm::fuzzy::{fuzzy_score, rank_search_paths, FuzzyFinder};
use rex_fm::search::{
    candidate_lines, fd_args, find_args, order_hits, search_next, search_output_paths, RunOutcome, SearchHit, SearchPhase,
};

fn strings(v: &[&str]) -> Vec<String> {
    v.iter().map(|s| s.to_string()).collect()
}

fn hit(p: &str, is_dir: bool) -> SearchHit {
    SearchHit { path: p.to_string(), is_dir, is_file: !is_dir }
}

#[test]
fn fd_arguments_for_a_home_search_of_files() {
    assert_eq!(
        fd_args("fd", "rep", "/home/u", true, SearchFilter::Files),
        strings(&[
            "rep", "/home/u", "--max-depth", "8", "--color", "never", "--one-file-system", "--exclude", ".cargo",
            "--exclude", "target", "--exclude", ".git", "--exclude", ".wine", "--exclude", ".rex_trash",
            "--exclude", "node_modules", "--type", "f",
        ])
    );
}

#[test]
fn fdfind_arguments_for_a_system_search() {
    assert_eq!(
        fd_args("fdfind", "x", "/", true, SearchFilter::System),
        strings(&["x", "/", "-H", "--max-depth", "8", "--color", "never", "--hidden"])
    );
}

#[test]
fn find_arguments_for_a_local_folder_search() {
    assert_eq!(
        find_args("/home/u", "doc", false, SearchFilter::Folders),
        strings(&["/home/u", "-maxdepth", "5", "-type", "d", "-iname", "*doc*"])
    );
    assert_eq!(find_args("/w", "q", false, SearchFilter::All), strings(&["/w", "-maxdepth", "5", "-iname", "*q*"]));
}

#[test]
fn search_falls_back_from_fd_to_fdfind_to_find() {
    let ran = |success, printed| RunOutcome::Finished { success, printed };
    assert_eq!(search_next(SearchPhase::RunFd, RunOutcome::NotStarted, false), SearchPhase::RunFdfind);
    assert_eq!(search_next(SearchPhase::RunFd, ran(true, false), false), SearchPhase::Rank { fallback: false });
    assert_eq!(search_next(SearchPhase::RunFd, ran(false, true), false), SearchPhase::Rank { fallback: false });
    assert_eq!(search_next(SearchPhase::RunFd, ran(false, false), false), SearchPhase::RunFind);
    assert_eq!(search_next(SearchPhase::RunFdfind, RunOutcome::NotStarted, false), SearchPhase::RunFind);
    assert_eq!(search_next(SearchPhase::RunFind, ran(false, false), false), SearchPhase::Rank { fallback: true });
    assert_eq!(search_next(SearchPhase::RunFind, RunOutcome::NotStarted, false), SearchPhase::Stop);
}

#[test]
fn cancelled_search_stops_once_a_program_answered() {
    let ran = RunOutcome::Finished { success: true, printed: true };
    assert_eq!(search_next(SearchPhase::RunFd, RunOutcome::NotStarted, true), SearchPhase::RunFdfind);
    assert_eq!(search_next(SearchPhase::RunFd, ran, true), SearchPhase::Stop);
    assert_eq!(search_next(SearchPhase::RunFdfind, RunOutcome::NotStarted, true), SearchPhase::Stop);
    assert_eq!(search_next(SearchPhase::RunFind, ran, true), SearchPhase::Stop);
    assert_eq!(search_next(SearchPhase::Stop, ran, false), SearchPhase::Stop);
}

#[test]
fn candidates_skip_empty_lines() {
    assert_eq!(candidate_lines("/a\n\n/b\r\n\n"), strings(&["/a", "/b"]));
    assert_eq!(candidate_lines(""), Vec::<String>::new());
}

#[test]
fn candidates_stop_at_five_hundred() {
    let text: String = (0..600).map(|i| format!("/p/{}\n", i)).collect();
    let c = candidate_lines(&text);
    assert_eq!(c.len(), 500);
    assert_eq!(c[499], "/p/499");
}

#[test]
fn search_output_is_ranked_by_name() {
    let out = b"/a/readme.md\n/b/main.rs\n/c/domain.txt\n".to_vec();
    let r = search_output_paths("main", &out);
    assert_eq!(r.len(), 2);
    assert_eq!(r[0], "/b/main.rs");
    assert!(r.contains(&"/c/domain.txt".to_string()));
    assert!(search_output_paths("main", &Vec::new()).is_empty());
}

#[test]
fn ranking_returns_each_path_of_a_shared_name() {
    let raw = strings(&["/x/main.rs", "/y/main.rs", "/z/other.txt"]);
    let mut r = rank_search_paths("main", &raw);
    r.sort();
    assert_eq!(r, strings(&["/x/main.rs", "/y/main.rs"]));
    assert!(rank_search_paths("main", &Vec::new()).is_empty());
}

#[test]
fn fuzzy_finder_query_matches_names() {
    let mut f = FuzzyFinder::new();
    f.populate(strings(&["Cargo.toml", "main.rs", "lib.rs"]));
    let r = f.query("rs");
    assert!(r.contains(&"main.rs".to_string()));
    assert!(r.contains(&"lib.rs".to_string()));
    assert!(!r.contains(&"Cargo.toml".to_string()));
}

#[test]
fn fuzzy_score_is_a_case_insensitive_substring_test() {
    assert_eq!(fuzzy_score("MAIN", "src/main.rs"), Some(100));
    assert_eq!(fuzzy_score("xyz", "src/main.rs"), None);
    assert_eq!(fuzzy_score("", "anything"), Some(100));
}

#[test]
fn hits_are_filtered_and_put_directories_first() {
    let hits = vec![
        hit("/h/b.txt", false),
        hit("/h/.hidden/c", false),
        hit("/h/z", true),
        hit("/h/a.txt", false),
        hit("/h/a", true),
    ];
    assert_eq!(order_hits(&hits, SearchFilter::All), strings(&["/h/a", "/h/z", "/h/a.txt", "/h/b.txt"]));
    assert_eq!(order_hits(&hits, SearchFilter::Folders), strings(&["/h/a", "/h/z"]));
    assert_eq!(order_hits(&hits, SearchFilter::Files), strings(&["/h/a.txt", "/h/b.txt"]));
    assert_eq!(order_hits(&hits, SearchFilter::System), strings(&["/h/.hidden/c"]));
}

#[test]
fn paths_are_ordered_component_by_component() {
    let hits = vec![hit("/a-b/c", false), hit("/a/b", false), hit("/a/b/c", false)];
    assert_eq!(order_hits(&hits, SearchFilter::All), strings(&["/a/b", "/a/b/c", "/a-b/c"]));
}

#[test]
fn applied_results_reset_the_search_cursor() {
    let mut a = App::new("/h".to_string(), Vec::new(), AppConfig::new());
    a.search_cursor = 3;
    a.search_filter = SearchFilter::Folders;
    a.apply_search_results(vec![hit("/h/f", false), hit("/h/d", true)]);
    assert_eq!(a.search_results, strings(&["/h/d"]));
    assert_eq!(a.search_cursor, 0);
}

#[test]
fn empty_query_returns_every_item() {
    let mut f = FuzzyFinder::new();
    f.populate(strings(&["old.txt"]));
    f.populate(strings(&["b.rs", "a.rs", "c.md"]));
    let mut r = f.query("");
    r.sort();
    assert_eq!(r, strings(&["a.rs", "b.rs", "c.md"]));
}

#[test]
fn empty_query_after_a_narrowing_query_returns_every_item() {
    let mut f = FuzzyFinder::new();
    f.populate(strings(&["b.rs", "a.rs", "c.md"]));
    let narrowed = f.query("md");
    assert_eq!(narrowed, strings(&["c.md"]));
    let mut r = f.query("");
    r.sort();
    assert_eq!(r, strings(&["a.rs", "b.rs", "c.md"]));
}
