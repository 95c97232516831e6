use vraw_convert::output_path::{default_output_path, derive_output_path, resolve_output_path};

const STAMP: &str = "2024-01-31T09_15_00";

fn derived(input: &str) -> Option<String> {
    derive_output_path(input, STAMP)
}

#[test]
fn output_lies_two_directories_above_the_directory_of_the_input() {
    assert_eq!(
        derived("/data/site/day/run.vraw"),
        Some("/data/run_2024-01-31T09_15_00.mp4".to_string())
    );
    assert_eq!(
        derived("/a/b/c/d/e/run.vraw"),
        Some("/a/b/c/run_2024-01-31T09_15_00.mp4".to_string())
    );
}

#[test]
fn output_of_a_short_absolute_path_lies_at_the_root() {
    assert_eq!(derived("/site/day/run.vraw"), Some("/run_2024-01-31T09_15_00.mp4".to_string()));
}

#[test]
fn output_of_a_relative_path_is_relative() {
    assert_eq!(derived("site/day/run.vraw"), Some("run_2024-01-31T09_15_00.mp4".to_string()));
    assert_eq!(
        derived("./site/day/run.vraw"),
        Some("./run_2024-01-31T09_15_00.mp4".to_string())
    );
}

#[test]
fn path_without_two_directories_above_has_no_output() {
    assert_eq!(derived(""), None);
    assert_eq!(derived("/"), None);
    assert_eq!(derived("run.vraw"), None);
    assert_eq!(derived("day/run.vraw"), None);
    assert_eq!(derived("/day/run.vraw"), None);
    assert_eq!(derived("//day//run.vraw"), None);
}

#[test]
fn dots_name_no_file() {
    assert_eq!(derived("/data/site/day/.."), None);
    assert_eq!(derived("."), None);
    assert_eq!(derived("./"), None);
    assert_eq!(derived("/data/site/day/..."), Some("/data/..._2024-01-31T09_15_00.mp4".to_string()));
}

#[test]
fn lone_dot_is_no_directory_level() {
    assert_eq!(derived("/data/site/./run.vraw"), Some("/run_2024-01-31T09_15_00.mp4".to_string()));
    assert_eq!(derived("/data/./site/run.vraw"), Some("/run_2024-01-31T09_15_00.mp4".to_string()));
    assert_eq!(derived("site/./run.vraw"), None);
    assert_eq!(
        derived("/data/site/day/./././run.vraw"),
        Some("/data/run_2024-01-31T09_15_00.mp4".to_string())
    );
    assert_eq!(derived("/data/site/day/."), Some("/day_2024-01-31T09_15_00.mp4".to_string()));
    assert_eq!(
        derived("/data/site/.day/run.vraw"),
        Some("/data/run_2024-01-31T09_15_00.mp4".to_string())
    );
    assert_eq!(
        derived("/data/site/day./run.vraw"),
        Some("/data/run_2024-01-31T09_15_00.mp4".to_string())
    );
}

#[test]
fn double_dot_is_a_directory_level() {
    assert_eq!(
        derived("/data/site/day/../run.vraw"),
        Some("/data/site/run_2024-01-31T09_15_00.mp4".to_string())
    );
}

#[test]
fn separators_at_the_end_and_runs_of_separators_are_passed_over() {
    assert_eq!(
        derived("/data/site//day/run.vraw///"),
        Some("/data/run_2024-01-31T09_15_00.mp4".to_string())
    );
}

#[test]
fn extension_is_taken_off_however_often_it_stands() {
    assert_eq!(derived("a/b/run.vraw.vraw"), Some("run_2024-01-31T09_15_00.mp4".to_string()));
    assert_eq!(derived("a/b/.vraw"), Some("_2024-01-31T09_15_00.mp4".to_string()));
    assert_eq!(derived("a/b/run.vraw.bak"), Some("run.vraw.bak_2024-01-31T09_15_00.mp4".to_string()));
    assert_eq!(derived("a/b/run.VRAW"), Some("run.VRAW_2024-01-31T09_15_00.mp4".to_string()));
    assert_eq!(derived("a/b/vraw"), Some("vraw_2024-01-31T09_15_00.mp4".to_string()));
}

#[test]
fn names_beyond_ascii_are_kept() {
    assert_eq!(
        derived("/données/été/jour/prise_é.vraw"),
        Some("/données/prise_é_2024-01-31T09_15_00.mp4".to_string())
    );
}

#[test]
fn default_output_carries_a_timestamp_of_the_present() {
    let path = default_output_path("/data/site/day/run.vraw").unwrap();
    assert!(path.starts_with("/data/run_"));
    assert!(path.ends_with(".mp4"));
    let stamp: Vec<char> = path["/data/run_".len()..path.len() - ".mp4".len()].chars().collect();
    assert_eq!(stamp.len(), STAMP.len());
    for (position, found) in stamp.iter().enumerate() {
        match STAMP.as_bytes()[position] {
            b'-' | b'T' | b'_' => assert_eq!(*found as u32, STAMP.as_bytes()[position] as u32),
            _ => assert!(found.is_ascii_digit()),
        }
    }
    assert_eq!(default_output_path("run.vraw"), None);
}

#[test]
fn given_output_is_kept() {
    assert_eq!(
        resolve_output_path("run.vraw", Some("out.mp4".to_string())),
        Some("out.mp4".to_string())
    );
    assert_eq!(resolve_output_path("run.vraw", None), None);
    let resolved = resolve_output_path("/data/site/day/run.vraw", None).unwrap();
    assert!(resolved.starts_with("/data/run_"));
}
