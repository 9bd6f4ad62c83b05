use kovi_plugin_acl::acl::{
    apply_mode_list, load_and_apply, mode_to_string, save, sort_ids, string_to_mode, switch_mode, AclConfig, BotAction, IdList,
    ListChange, ListMode, PluginAcl, PluginState,
};

fn state(name: &str, mode: ListMode, groups: Vec<i64>, friends: Vec<i64>) -> PluginState {
    PluginState {
        name: name.to_string(),
        version: "1.0.0".to_string(),
        enabled: true,
        access_control: true,
        mode,
        groups,
        friends,
    }
}

fn lists(plan: &[BotAction]) -> Vec<(String, bool, Vec<i64>)> {
    plan.iter()
        .filter_map(|a| match a {
            BotAction::SetList { plugin, is_group, change: ListChange::Changes(ids) } => {
                Some((plugin.clone(), *is_group, ids.clone()))
            }
            _ => None,
        })
        .collect()
}

#[test]
fn mode_names() {
    assert_eq!(mode_to_string(ListMode::WhiteList), "whitelist");
    assert_eq!(mode_to_string(ListMode::BlackList), "blacklist");
    assert_eq!(string_to_mode("whitelist"), Some(ListMode::WhiteList));
    assert_eq!(string_to_mode("blacklist"), Some(ListMode::BlackList));
    assert_eq!(string_to_mode("Whitelist"), None);
    assert_eq!(string_to_mode(""), None);
}

#[test]
fn ids_are_sorted_with_duplicates_kept() {
    assert_eq!(sort_ids(&vec![5, -3, 9, 5, 0]), vec![-3, 0, 5, 5, 9]);
    assert_eq!(sort_ids(&vec![]), Vec::<i64>::new());
    assert_eq!(sort_ids(&vec![i64::MAX, i64::MIN]), vec![i64::MIN, i64::MAX]);
}

#[test]
fn save_stores_lists_under_the_current_mode() {
    let mut config = AclConfig::new();
    save(&mut config, &vec![state("weather", ListMode::WhiteList, vec![30, 10, 20], vec![2, 1])]);
    let e = config.get("weather").unwrap();
    assert!(e.access_control);
    assert_eq!(e.mode, "whitelist");
    assert_eq!(e.whitelist.groups, vec![10, 20, 30]);
    assert_eq!(e.whitelist.friends, vec![1, 2]);
    assert!(e.blacklist.groups.is_empty() && e.blacklist.friends.is_empty());
}

#[test]
fn save_never_records_this_plugin() {
    let mut config = AclConfig::new();
    save(&mut config, &vec![state("kovi-plugin-acl", ListMode::WhiteList, vec![1], vec![])]);
    assert!(config.get("kovi-plugin-acl").is_none());
    assert!(config.entries().is_empty());
}

#[test]
fn switching_white_black_white_restores_the_white_list() {
    let mut config = AclConfig::new();
    // In white-list mode with its white list.
    save(&mut config, &vec![state("echo", ListMode::WhiteList, vec![111, 222], vec![7])]);
    // Switched to black list: load the (empty) black list.
    let plan = apply_mode_list(&config, "echo", "blacklist");
    assert_eq!(lists(&plan), vec![("echo".to_string(), true, vec![]), ("echo".to_string(), false, vec![])]);
    // Edited the black list, then switch back: save first, then load the white list.
    save(&mut config, &vec![state("echo", ListMode::BlackList, vec![999], vec![])]);
    let plan = apply_mode_list(&config, "echo", "whitelist");
    assert_eq!(
        lists(&plan),
        vec![("echo".to_string(), true, vec![111, 222]), ("echo".to_string(), false, vec![7])]
    );
    let e = config.get("echo").unwrap();
    assert_eq!(e.blacklist.groups, vec![999]);
}

#[test]
fn apply_mode_list_without_entry_or_mode_does_nothing() {
    let mut config = AclConfig::new();
    assert!(apply_mode_list(&config, "nope", "whitelist").is_empty());
    save(&mut config, &vec![state("x", ListMode::WhiteList, vec![1], vec![])]);
    assert!(apply_mode_list(&config, "x", "greylist").is_empty());
}

#[test]
fn load_and_apply_restores_each_valid_entry() {
    let mut bad = PluginAcl::new();
    bad.mode = "bogus".to_string();
    let good = PluginAcl {
        access_control: true,
        mode: "blacklist".to_string(),
        whitelist: IdList { groups: vec![1], friends: vec![2] },
        blacklist: IdList { groups: vec![3], friends: vec![4] },
    };
    let mut own = PluginAcl::new();
    own.mode = "whitelist".to_string();
    let config = AclConfig::from_entries(&vec![
        ("bad".to_string(), bad),
        ("kovi-plugin-acl".to_string(), own),
        ("good".to_string(), good),
    ]);
    let plan = load_and_apply(&config);
    assert_eq!(plan.len(), 4);
    assert!(matches!(&plan[0], BotAction::SetMode { plugin, mode: ListMode::BlackList } if plugin == "good"));
    assert_eq!(lists(&plan), vec![("good".to_string(), true, vec![3]), ("good".to_string(), false, vec![4])]);
    assert!(matches!(&plan[3], BotAction::SetAccessControl { plugin, enabled: true } if plugin == "good"));
}

#[test]
fn from_entries_keeps_the_later_of_two_names() {
    let mut first = PluginAcl::new();
    first.access_control = true;
    let second = PluginAcl::new();
    let config = AclConfig::from_entries(&vec![("p".to_string(), first), ("p".to_string(), second)]);
    assert_eq!(config.entries().len(), 1);
    assert!(!config.get("p").unwrap().access_control);
}

#[test]
fn mode_command_keeps_both_lists() {
    let mut config = AclConfig::new();
    let before = vec![state("p", ListMode::WhiteList, vec![3, 1], vec![2]), state("q", ListMode::BlackList, vec![5], vec![])];
    let first = switch_mode(&mut config, &before, "p", ListMode::BlackList);
    assert!(matches!(&first.switch, BotAction::SetMode { plugin, mode: ListMode::BlackList } if plugin == "p"));
    assert_eq!(lists(&first.load), vec![("p".to_string(), true, vec![]), ("p".to_string(), false, vec![])]);
    let during = vec![state("p", ListMode::BlackList, vec![9], vec![8])];
    let back = switch_mode(&mut config, &during, "p", ListMode::WhiteList);
    assert_eq!(lists(&back.load), vec![("p".to_string(), true, vec![1, 3]), ("p".to_string(), false, vec![2])]);
    let again = switch_mode(&mut config, &vec![state("p", ListMode::WhiteList, vec![1, 3], vec![2])], "p", ListMode::BlackList);
    assert_eq!(lists(&again.load), vec![("p".to_string(), true, vec![9]), ("p".to_string(), false, vec![8])]);
}

#[test]
fn saving_the_same_report_twice_changes_nothing() {
    let report = vec![
        state("p", ListMode::WhiteList, vec![3, 1], vec![2]),
        state("p", ListMode::BlackList, vec![7], vec![]),
        state("q", ListMode::BlackList, vec![5], vec![6]),
    ];
    let flat = |c: &AclConfig| {
        c.entries()
            .iter()
            .map(|(n, a)| {
                (
                    n.clone(),
                    a.access_control,
                    a.mode.clone(),
                    (a.whitelist.groups.clone(), a.whitelist.friends.clone()),
                    (a.blacklist.groups.clone(), a.blacklist.friends.clone()),
                )
            })
            .collect::<Vec<_>>()
    };
    let mut config = AclConfig::new();
    save(&mut config, &report);
    let once = flat(&config);
    assert_eq!(once.len(), 2);
    assert_eq!(once[0].3, (vec![1, 3], vec![2]));
    assert_eq!(once[0].4, (vec![7], vec![]));
    save(&mut config, &report);
    assert_eq!(flat(&config), once);
}
