use noisygames::test_utilities::{build_datetime_folder, datetime_folder_name};

#[test]
fn folder_name_spells_out_the_moment() {
    let s = datetime_folder_name("/tmp/test_runs/".to_string(), 2024, 3, 7, 0, 5, 59);
    assert_eq!(s, "/tmp/test_runs/Year2024Month3Day7Hour0Min5Sec59");
    let t = datetime_folder_name(String::new(), -44, 12, 31, 23, 59, 0);
    assert_eq!(t, "Year-44Month12Day31Hour23Min59Sec0");
}

#[test]
fn folder_name_for_now_has_the_shape() {
    let s = build_datetime_folder("base_".to_string());
    assert!(s.starts_with("base_Year"));
    let rest = &s["base_Year".len()..];
    let parts: Vec<&str> = rest
        .split(|c: char| c.is_ascii_alphabetic())
        .filter(|p| !p.is_empty())
        .collect();
    assert_eq!(parts.len(), 6);
    let nums: Vec<i64> = parts.iter().map(|p| p.parse().unwrap()).collect();
    assert!(1 <= nums[1] && nums[1] <= 12);
    assert!(1 <= nums[2] && nums[2] <= 31);
    assert!(nums[3] <= 23 && nums[4] <= 59 && nums[5] <= 59);
    assert!(rest.contains("Month") && rest.contains("Day") && rest.contains("Hour"));
    assert!(rest.contains("Min") && rest.contains("Sec"));
}
