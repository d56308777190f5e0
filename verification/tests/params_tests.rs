use us_stock_api::api::params::{deserialize_vec, InfoParams};
use us_stock_api::api::requests::company_list_filter;

fn strings(items: &[&str]) -> Vec<String> {
    items.iter().map(|s| s.to_string()).collect()
}

#[test]
fn list_in_braces_is_split_and_trimmed() {
    assert_eq!(deserialize_vec(Some("{Energy, Utilities}")), Some(strings(&["Energy", "Utilities"])));
}

#[test]
fn list_without_braces() {
    assert_eq!(deserialize_vec(Some("Energy,Financials")), Some(strings(&["Energy", "Financials"])));
}

#[test]
fn absent_list_stays_absent() {
    assert_eq!(deserialize_vec(None), None);
}

#[test]
fn empty_list_has_one_empty_item() {
    assert_eq!(deserialize_vec(Some("")), Some(strings(&[""])));
    assert_eq!(deserialize_vec(Some("{}")), Some(strings(&[""])));
}

#[test]
fn empty_items_are_kept() {
    assert_eq!(deserialize_vec(Some("a,,b,")), Some(strings(&["a", "", "b", ""])));
}

#[test]
fn repeated_braces_are_all_dropped() {
    assert_eq!(deserialize_vec(Some("{{a}}")), Some(strings(&["a"])));
}

#[test]
fn braces_inside_the_value_stay() {
    assert_eq!(deserialize_vec(Some("{ {a")), Some(strings(&["{a"])));
    assert_eq!(deserialize_vec(Some("{a},b")), Some(strings(&["a}", "b"])));
}

#[test]
fn unicode_whitespace_is_trimmed() {
    assert_eq!(
        deserialize_vec(Some("\u{3000}Real Estate\u{a0},\t Health Care\n")),
        Some(strings(&["Real Estate", "Health Care"]))
    );
}

#[test]
fn item_count_is_commas_plus_one() {
    let items = deserialize_vec(Some("{ a , b , c , d }")).unwrap();
    assert_eq!(items.len(), 4);
    for item in &items {
        assert_eq!(item.trim(), item.as_str());
    }
}

#[test]
fn matches_std_on_samples() {
    let samples = ["{x, y}", " {x} ", "}{", "a , b", ",", "{ , }", "\u{2003}q\u{2003}"];
    for s in samples.iter() {
        let expected: Vec<String> = s
            .trim_matches(|c| c == '{' || c == '}')
            .split(',')
            .map(|p| p.trim().to_string())
            .collect();
        assert_eq!(deserialize_vec(Some(s)), Some(expected));
    }
}

#[test]
fn info_params_from_query() {
    let p = InfoParams::from_query(Some("{Energy}"), None);
    assert_eq!(p.sector, Some(strings(&["Energy"])));
    assert_eq!(p.industry, None);
}

#[test]
fn all_sectors_means_no_filter() {
    let p = InfoParams { sector: Some(strings(&["all"])), industry: None };
    let f = company_list_filter(p);
    assert_eq!(f.sp_sectors, None);
    assert_eq!(f.industries, None);
}

#[test]
fn listed_values_are_a_filter() {
    let p = InfoParams {
        sector: Some(strings(&["Energy", "Utilities"])),
        industry: Some(strings(&["Banks"])),
    };
    let f = company_list_filter(p);
    assert_eq!(f.sp_sectors, Some(strings(&["Energy", "Utilities"])));
    assert_eq!(f.industries, Some(strings(&["Banks"])));
}

#[test]
fn all_among_others_is_a_filter() {
    let p = InfoParams { sector: Some(strings(&["all", "Energy"])), industry: Some(strings(&["All"])) };
    let f = company_list_filter(p);
    assert_eq!(f.sp_sectors, Some(strings(&["all", "Energy"])));
    assert_eq!(f.industries, Some(strings(&["All"])));
}

#[test]
fn list_round_trip() {
    let items = strings(&["Energy", "Real Estate", "", "Health-Care"]);
    let joined = items.join(",");
    assert_eq!(deserialize_vec(Some(&joined)), Some(items.clone()));
    assert_eq!(deserialize_vec(Some(&format!("{{{}}}", joined))), Some(items));
}
