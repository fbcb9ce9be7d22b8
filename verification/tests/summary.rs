use log_inspector::summary::{summary_parts, SummaryParts};

fn strings(items: &[&str]) -> Vec<String> {
    items.iter().map(|s| s.to_string()).collect()
}

#[test]
fn overview_and_points_are_told_apart() {
    let parts = summary_parts("The job failed.\nIt was retried.\n- Duration: 3 s\n- Retries: 2");
    assert_eq!(
        parts,
        SummaryParts {
            overview: strings(&["The job failed.", "It was retried."]),
            key_points: strings(&["Duration: 3 s", "Retries: 2"]),
        }
    );
}

#[test]
fn blank_lines_belong_to_neither() {
    let parts = summary_parts("\n  \nOverview.\n\t\n-point\n\n");
    assert_eq!(parts.overview, strings(&["Overview."]));
    assert_eq!(parts.key_points, strings(&["point"]));
}

#[test]
fn empty_summary_has_no_parts() {
    let parts = summary_parts("");
    assert!(parts.overview.is_empty());
    assert!(parts.key_points.is_empty());
}

#[test]
fn hyphen_inside_a_line_is_no_point() {
    let parts = summary_parts("Run time - 3 s\n  -  Spaced point  \n--double\n-");
    assert_eq!(parts.overview, strings(&["Run time - 3 s"]));
    assert_eq!(parts.key_points, strings(&["Spaced point", "-double", ""]));
}

#[test]
fn carriage_returns_are_trimmed() {
    let parts = summary_parts("Overview.\r\n- Heap: 1 GB\r\n");
    assert_eq!(parts.overview, strings(&["Overview."]));
    assert_eq!(parts.key_points, strings(&["Heap: 1 GB"]));
}

#[test]
fn wide_characters_keep_their_place() {
    let parts = summary_parts("Dauer überschritten.\n- Zeit: 3 µs");
    assert_eq!(parts.overview, strings(&["Dauer überschritten."]));
    assert_eq!(parts.key_points, strings(&["Zeit: 3 µs"]));
}
