use jiji::i3::{get_workspaces, WorkspaceState, Workspaces};

fn workspace(num: i32, name: &str, output: &str) -> WorkspaceState {
    WorkspaceState {
        num,
        name: name.to_string(),
        output: output.to_string(),
        visible: false,
        focused: false,
        urgent: false,
    }
}

fn names(group: &Vec<WorkspaceState>) -> Vec<String> {
    group.iter().map(|w| w.name.clone()).collect()
}

fn nums(group: &Vec<WorkspaceState>) -> Vec<i32> {
    group.iter().map(|w| w.num).collect()
}

#[test]
fn an_empty_listing_has_no_groups() {
    let grouped = get_workspaces(vec![]);
    assert_eq!(grouped.len(), 0);
    assert!(grouped.get("eDP-1").is_none());
    assert_eq!(Workspaces::new().len(), 0);
}

#[test]
fn workspaces_are_grouped_by_output_and_sorted_by_number() {
    let grouped = get_workspaces(vec![
        workspace(3, "3", "eDP-1"),
        workspace(7, "7", "HDMI-1"),
        workspace(1, "1", "eDP-1"),
        workspace(2, "2", "HDMI-1"),
        workspace(2, "2:web", "eDP-1"),
    ]);
    assert_eq!(grouped.len(), 2);
    assert_eq!(nums(grouped.get("eDP-1").unwrap()), vec![1, 2, 3]);
    assert_eq!(nums(grouped.get("HDMI-1").unwrap()), vec![2, 7]);
    assert!(grouped.get("DP-2").is_none());
    assert!(grouped.get("").is_none());
}

#[test]
fn groups_stand_in_the_order_of_first_mention() {
    let grouped = get_workspaces(vec![
        workspace(9, "9", "B"),
        workspace(1, "1", "A"),
        workspace(4, "4", "C"),
        workspace(2, "2", "B"),
    ]);
    let outputs: Vec<String> =
        grouped.groups().iter().map(|group| group[0].output.clone()).collect();
    assert_eq!(outputs, vec!["B".to_string(), "A".to_string(), "C".to_string()]);
    for group in grouped.groups() {
        assert!(group.iter().all(|w| w.output == group[0].output));
    }
}

#[test]
fn workspaces_of_one_number_keep_the_order_of_the_listing() {
    let grouped = get_workspaces(vec![
        workspace(-1, "mail", "A"),
        workspace(2, "two", "A"),
        workspace(-1, "chat", "A"),
        workspace(1, "one", "A"),
        workspace(-1, "music", "A"),
        workspace(2, "zwei", "A"),
    ]);
    assert_eq!(
        names(grouped.get("A").unwrap()),
        vec!["mail", "chat", "music", "one", "two", "zwei"]
    );
}

#[test]
fn the_extremes_of_numbers_sort() {
    let grouped = get_workspaces(vec![
        workspace(i32::MAX, "max", "A"),
        workspace(0, "zero", "A"),
        workspace(i32::MIN, "min", "A"),
    ]);
    assert_eq!(nums(grouped.get("A").unwrap()), vec![i32::MIN, 0, i32::MAX]);
}

#[test]
fn a_record_is_kept_whole() {
    let mut urgent = workspace(5, "5:term", "A");
    urgent.urgent = true;
    urgent.focused = true;
    urgent.visible = true;
    let grouped = get_workspaces(vec![workspace(6, "6", "A"), urgent]);
    let group = grouped.get("A").unwrap();
    assert_eq!(group[0].num, 5);
    assert_eq!(group[0].name, "5:term");
    assert_eq!(group[0].output, "A");
    assert!(group[0].urgent && group[0].focused && group[0].visible);
    assert!(!group[1].urgent && !group[1].focused && !group[1].visible);
    let copy = group[0].duplicate();
    assert_eq!(copy.name, "5:term");
    assert!(copy.urgent);
}

#[test]
fn a_copy_of_the_groups_holds_the_same() {
    let grouped = get_workspaces(vec![
        workspace(2, "2", "A"),
        workspace(1, "1", "B"),
        workspace(1, "1", "A"),
    ]);
    let copy = grouped.duplicate();
    assert_eq!(copy.len(), 2);
    assert_eq!(nums(copy.get("A").unwrap()), vec![1, 2]);
    assert_eq!(nums(copy.get("B").unwrap()), vec![1]);
}
