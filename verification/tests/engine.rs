use ifc_analyzer::aggregate::{aggregate_outcomes, analyze_elements};
use ifc_analyzer::model::{
    AnalysisResult, ElementData, ElementEntry, ElementOutcome, ElementRecord, ParamList,
    Parameter, PropertyGroup, PsetRequirement, RequiredSchema,
};
use ifc_analyzer::validate::validate_element;

fn param(name: &str) -> Parameter {
    Parameter { name: name.to_owned(), value: "x".to_owned() }
}

fn group(name: &str, params: &[&str]) -> PropertyGroup {
    PropertyGroup {
        name: name.to_owned(),
        params: params.iter().map(|p| param(p)).collect(),
    }
}

fn record(floor: Option<&str>, groups: Vec<PropertyGroup>) -> ElementRecord {
    ElementRecord { floor: floor.map(|f| f.to_owned()), groups }
}

fn entry(id: &str, rec: ElementRecord) -> ElementEntry {
    ElementEntry { id: id.to_owned(), record: rec }
}

fn requirement(name: &str, lists: &[(&str, &[&str])]) -> PsetRequirement {
    PsetRequirement {
        name: name.to_owned(),
        lists: lists
            .iter()
            .map(|(k, ps)| ParamList {
                key: (*k).to_owned(),
                params: ps.iter().map(|p| (*p).to_owned()).collect(),
            })
            .collect(),
    }
}

fn elements(ids: &[&str]) -> Vec<String> {
    ids.iter().map(|e| (*e).to_owned()).collect()
}

fn floor_of(r: &AnalysisResult, name: &str) -> (usize, usize) {
    let e = r
        .floors
        .iter()
        .find(|e| e.name == name)
        .unwrap_or_else(|| panic!("no floor entry for {name}"));
    (e.valid, e.invalid)
}

fn fire_schema() -> RequiredSchema {
    RequiredSchema { psets: vec![requirement("Pset_Fire", &[("k", &["Rating"])])] }
}

#[test]
fn concrete_scenario() {
    let elems = elements(&["E1", "E2"]);
    let schema = fire_schema();
    let data = ElementData {
        entries: vec![
            entry("E1", record(Some("L1"), vec![group("Pset_Fire", &["Rating"])])),
            entry("E2", record(Some("L2"), vec![])),
        ],
    };
    let r = analyze_elements(&elems, &schema, &data);
    assert_eq!(r.total_elements, 2);
    assert_eq!(r.valid_elements, 1);
    assert_eq!(r.missing_psets, 1);
    assert_eq!(r.missing_params, 0);
    assert_eq!(r.floors.len(), 2);
    assert_eq!(floor_of(&r, "L1"), (1, 0));
    assert_eq!(floor_of(&r, "L2"), (0, 1));
}

#[test]
fn totality_counts_duplicates() {
    let elems = elements(&["E1", "E1", "E1", "E9"]);
    let schema = fire_schema();
    let data = ElementData { entries: vec![] };
    let r = analyze_elements(&elems, &schema, &data);
    assert_eq!(r.total_elements, 4);
    assert_eq!(r.valid_elements, 0);
    assert_eq!(r.missing_psets, 4);
}

#[test]
fn totality_empty_input() {
    let elems: Vec<String> = Vec::new();
    let schema = fire_schema();
    let data = ElementData { entries: vec![] };
    let r = analyze_elements(&elems, &schema, &data);
    assert_eq!(r.total_elements, 0);
    assert_eq!(r.valid_elements, 0);
    assert_eq!(r.missing_psets, 0);
    assert_eq!(r.missing_params, 0);
    assert!(r.floors.is_empty());
}

#[test]
fn vacuous_schema_all_valid() {
    let elems = elements(&["E1", "E2", "E3"]);
    let schema = RequiredSchema { psets: vec![] };
    let data = ElementData {
        entries: vec![entry("E1", record(Some("L1"), vec![]))],
    };
    let r = analyze_elements(&elems, &schema, &data);
    assert_eq!(r.total_elements, 3);
    assert_eq!(r.valid_elements, 3);
    assert_eq!(r.missing_psets, 0);
    assert_eq!(r.missing_params, 0);
}

#[test]
fn validity_partition_across_floors() {
    let elems = elements(&["E1", "E2", "E3", "E2"]);
    let schema = fire_schema();
    let data = ElementData {
        entries: vec![
            entry("E1", record(Some("L1"), vec![group("Pset_Fire", &["Rating"])])),
            entry("E2", record(Some("L1"), vec![])),
            entry("E3", record(None, vec![group("Pset_Fire", &["Rating"])])),
        ],
    };
    let r = analyze_elements(&elems, &schema, &data);
    assert_eq!(r.total_elements, 4);
    let invalid_total: usize = r.floors.iter().map(|e| e.invalid).sum();
    let valid_total: usize = r.floors.iter().map(|e| e.valid).sum();
    assert_eq!(valid_total, r.valid_elements);
    assert_eq!(valid_total + invalid_total, r.total_elements);
}

#[test]
fn order_independence_permuted_input() {
    let schema = RequiredSchema {
        psets: vec![
            requirement("Pset_Fire", &[("k", &["Rating"])]),
            requirement("Pset_Wall", &[("a", &["Height", "Width"])]),
        ],
    };
    let data = ElementData {
        entries: vec![
            entry("E1", record(Some("L1"), vec![group("Pset_Fire", &["Rating"])])),
            entry("E2", record(Some("L2"), vec![group("Pset_Wall", &["Height"])])),
            entry("E3", record(None, vec![])),
        ],
    };
    let r1 = analyze_elements(&elements(&["E1", "E2", "E3", "E1"]), &schema, &data);
    let r2 = analyze_elements(&elements(&["E3", "E1", "E1", "E2"]), &schema, &data);
    assert_eq!(r1.total_elements, r2.total_elements);
    assert_eq!(r1.valid_elements, r2.valid_elements);
    assert_eq!(r1.missing_psets, r2.missing_psets);
    assert_eq!(r1.missing_params, r2.missing_params);
    assert_eq!(r1.floors.len(), r2.floors.len());
    for e in &r1.floors {
        let (v, iv) = floor_of(&r2, &e.name);
        assert_eq!((e.valid, e.invalid), (v, iv));
    }
}

#[test]
fn missing_group_counts_group_not_params() {
    // The required group has three required parameters, but the element
    // lacks the whole group: one missing-pset occurrence, zero
    // missing-param occurrences.
    let schema = RequiredSchema {
        psets: vec![requirement("Pset_Fire", &[("k", &["Rating", "Class", "Code"])])],
    };
    let data = ElementData {
        entries: vec![entry("E1", record(Some("L1"), vec![group("Pset_Other", &["Rating"])]))],
    };
    let r = analyze_elements(&elements(&["E1"]), &schema, &data);
    assert_eq!(r.missing_psets, 1);
    assert_eq!(r.missing_params, 0);
    assert_eq!(r.valid_elements, 0);
}

#[test]
fn missing_params_counted_per_occurrence() {
    let schema = RequiredSchema {
        psets: vec![requirement("Pset_Wall", &[("a", &["Height", "Width"]), ("b", &["Depth"])])],
    };
    let data = ElementData {
        entries: vec![entry("E1", record(None, vec![group("Pset_Wall", &["Width"])]))],
    };
    let r = analyze_elements(&elements(&["E1"]), &schema, &data);
    assert_eq!(r.missing_psets, 0);
    assert_eq!(r.missing_params, 2);
    assert_eq!(r.valid_elements, 0);
}

#[test]
fn duplicate_parameter_requirement_counts_twice() {
    // "Rating" is required twice across the group's lists and the
    // element lacks it: two missing-param occurrences, not one.
    let schema = RequiredSchema {
        psets: vec![requirement("Pset_Fire", &[("k1", &["Rating"]), ("k2", &["Rating"])])],
    };
    let data = ElementData {
        entries: vec![entry("E1", record(None, vec![group("Pset_Fire", &["Class"])]))],
    };
    let r = analyze_elements(&elements(&["E1"]), &schema, &data);
    assert_eq!(r.missing_params, 2);
    assert_eq!(r.missing_psets, 0);
}

#[test]
fn duplicate_in_one_list_counts_twice() {
    let schema = RequiredSchema {
        psets: vec![requirement("Pset_Fire", &[("k", &["Rating", "Rating"])])],
    };
    let data = ElementData {
        entries: vec![entry("E1", record(None, vec![group("Pset_Fire", &[])]))],
    };
    let r = analyze_elements(&elements(&["E1"]), &schema, &data);
    assert_eq!(r.missing_params, 2);
}

#[test]
fn unknown_floor_fallback() {
    let schema = RequiredSchema { psets: vec![] };
    let data = ElementData {
        entries: vec![entry("E1", record(None, vec![group("Pset_Fire", &["Rating"])]))],
    };
    // E1 has a record but no floor label; E2 has no record at all.
    let r = analyze_elements(&elements(&["E1", "E2"]), &schema, &data);
    assert_eq!(r.floors.len(), 1);
    assert_eq!(floor_of(&r, "unknown"), (2, 0));
}

#[test]
fn element_absent_from_table_is_invalid_under_schema() {
    // An element absent from the table has no groups at all, so every
    // required group is a missing occurrence.
    let schema = RequiredSchema {
        psets: vec![
            requirement("Pset_Fire", &[("k", &["Rating"])]),
            requirement("Pset_Wall", &[("k", &["Height"])]),
        ],
    };
    let data = ElementData { entries: vec![] };
    let r = analyze_elements(&elements(&["Ghostly"]), &schema, &data);
    assert_eq!(r.valid_elements, 0);
    assert_eq!(r.missing_psets, 2);
    assert_eq!(r.missing_params, 0);
    assert_eq!(floor_of(&r, "unknown"), (0, 1));
}

#[test]
fn validate_element_reports_floor_and_counts() {
    let schema = fire_schema();
    let data = ElementData {
        entries: vec![
            entry("E1", record(Some("L3"), vec![group("Pset_Fire", &["Rating", "Extra"])])),
        ],
    };
    let o = validate_element(&schema, &data, &"E1".to_owned());
    assert!(o.is_valid);
    assert_eq!(o.floor, "L3");
    assert_eq!(o.missing_psets, 0);
    assert_eq!(o.missing_params, 0);
}

#[test]
fn validate_element_first_matching_record_wins() {
    let schema = fire_schema();
    let data = ElementData {
        entries: vec![
            entry("E1", record(Some("L1"), vec![group("Pset_Fire", &["Rating"])])),
            entry("E1", record(Some("L2"), vec![])),
        ],
    };
    let o = validate_element(&schema, &data, &"E1".to_owned());
    assert!(o.is_valid);
    assert_eq!(o.floor, "L1");
}

#[test]
fn aggregate_outcomes_folds_counts() {
    let outcomes = vec![
        ElementOutcome {
            is_valid: true,
            floor: "L1".to_owned(),
            missing_psets: 0,
            missing_params: 0,
        },
        ElementOutcome {
            is_valid: false,
            floor: "L1".to_owned(),
            missing_psets: 2,
            missing_params: 3,
        },
        ElementOutcome {
            is_valid: false,
            floor: "L2".to_owned(),
            missing_psets: 1,
            missing_params: 0,
        },
    ];
    let r = aggregate_outcomes(&outcomes);
    assert_eq!(r.total_elements, 3);
    assert_eq!(r.valid_elements, 1);
    assert_eq!(r.missing_psets, 3);
    assert_eq!(r.missing_params, 3);
    assert_eq!(floor_of(&r, "L1"), (1, 1));
    assert_eq!(floor_of(&r, "L2"), (0, 1));
}

#[test]
fn missing_counts_exceed_element_count() {
    // The missing counts are occurrence counts, not element counts: a
    // single element can contribute several occurrences.
    let schema = RequiredSchema {
        psets: vec![
            requirement("A", &[("k", &["p1", "p2", "p3"])]),
            requirement("B", &[("k", &["q1"])]),
        ],
    };
    let data = ElementData {
        entries: vec![entry("E1", record(None, vec![group("A", &[])]))],
    };
    let r = analyze_elements(&elements(&["E1"]), &schema, &data);
    assert_eq!(r.total_elements, 1);
    assert_eq!(r.missing_params, 3);
    assert_eq!(r.missing_psets, 1);
}
