use deltaforge::matrix::{cartesian_points, expand_params};

fn string_matrix(entries: &[(&str, &[&str])]) -> Vec<(String, Vec<String>)> {
    let mut matrix: Vec<(String, Vec<String>)> = entries
        .iter()
        .map(|(name, values)| {
            (
                name.to_string(),
                values.iter().map(|value| value.to_string()).collect(),
            )
        })
        .collect();
    matrix.sort_by(|left, right| left.0.cmp(&right.0));
    matrix
}

#[test]
fn cartesian_points_expands_all_combinations_in_order() {
    let matrix = string_matrix(&[("threads", &["1", "2"]), ("mode", &["fast", "safe"])]);
    let points = cartesian_points(&matrix);
    let labels: Vec<String> = points
        .iter()
        .map(|params| {
            params
                .iter()
                .map(|(name, value)| format!("{name}={value}"))
                .collect::<Vec<_>>()
                .join(",")
        })
        .collect();
    assert_eq!(
        labels,
        vec![
            "mode=fast,threads=1",
            "mode=fast,threads=2",
            "mode=safe,threads=1",
            "mode=safe,threads=2",
        ]
    );
}

#[test]
fn empty_matrix_yields_single_empty_point() {
    let points = cartesian_points(&Vec::new());
    assert_eq!(points.len(), 1);
    assert!(points[0].is_empty());
}

#[test]
fn expand_params_substitutes_declared_placeholders_only() {
    let params = vec![("threads".to_string(), "4".to_string())];
    assert_eq!(expand_params("--threads={threads}", &params), "--threads=4");
    assert_eq!(expand_params("{threads}{threads}", &params), "44");
    assert_eq!(expand_params("{unknown}", &params), "{unknown}");
    assert_eq!(expand_params("plain", &params), "plain");
}
