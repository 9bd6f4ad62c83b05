use kovi_plugin_acl::acl::{BotAction, ListChange, ListMode, PluginState};
use kovi_plugin_acl::api::{
    add_friends_batch, add_group, bot_refused, check_self, disable_plugin, find_plugin, get_plugin, list_plugins,
    map_plugin_info, memory_mb, remove_friend, remove_groups_batch, reset_refusal, set_acl_mode, set_acl_toggle,
    split_admins, AclToggle, AppError, BatchEntries, ListEntry, ModeChange, PluginInfo,
};
use kovi_plugin_acl::auth::ResetError;
use kovi_plugin_acl::command::PluginOp;
use kovi_plugin_acl::reset_codes::RedeemError;

fn state(name: &str) -> PluginState {
    PluginState {
        name: name.to_string(),
        version: "2.0".to_string(),
        enabled: true,
        access_control: false,
        mode: ListMode::BlackList,
        groups: vec![3],
        friends: vec![4, 5],
    }
}

fn reply(e: &AppError) -> (u16, String) {
    e.reply()
}

#[test]
fn errors_map_to_status_and_text() {
    assert_eq!(reply(&AppError::Internal("db down".to_string())), (500, "internal error".to_string()));
    assert_eq!(reply(&AppError::NotFound("plugin not found".to_string())), (404, "plugin not found".to_string()));
    assert_eq!(reply(&AppError::BadRequest("x".to_string())), (400, "x".to_string()));
    assert_eq!(reply(&AppError::TooManyRequests("y".to_string())), (429, "y".to_string()));
    assert_eq!(reply(&bot_refused()), (400, "bad request".to_string()));
}

#[test]
fn self_is_refused() {
    assert!(check_self("echo").is_ok());
    assert_eq!(reply(&check_self("kovi-plugin-acl").unwrap_err()), (400, "cannot modify self".to_string()));
}

#[test]
fn plugin_records() {
    let info: PluginInfo = map_plugin_info(&state("echo"));
    assert_eq!(info.list_mode, "blacklist");
    assert_eq!(info.friends, vec![4, 5]);
    let ps = vec![state("kovi-plugin-acl"), state("echo"), state("dice")];
    let names: Vec<String> = list_plugins(&ps).into_iter().map(|p| p.name).collect();
    assert_eq!(names, vec!["echo", "dice"]);
    assert_eq!(find_plugin(&ps, "dice").unwrap().name, "dice");
    assert_eq!(reply(&find_plugin(&ps, "nope").err().unwrap()), (404, "plugin not found".to_string()));
    assert_eq!(reply(&get_plugin(&ps, "kovi-plugin-acl").err().unwrap()).1, "cannot modify self");
}

#[test]
fn acl_requests_become_bot_actions() {
    match set_acl_toggle("echo", &AclToggle { enabled: true }).unwrap() {
        BotAction::SetAccessControl { plugin, enabled } => assert!(plugin == "echo" && enabled),
        _ => panic!(),
    }
    match add_group("echo", &ListEntry { id: 7 }).unwrap() {
        BotAction::SetList { plugin, is_group: true, change: ListChange::Add(7) } => assert_eq!(plugin, "echo"),
        _ => panic!(),
    }
    match remove_friend("echo", &ListEntry { id: 8 }).unwrap() {
        BotAction::SetList { is_group: false, change: ListChange::Remove(8), .. } => {}
        _ => panic!(),
    }
    match add_friends_batch("echo", &BatchEntries { ids: vec![1, 2] }).unwrap() {
        BotAction::SetList { is_group: false, change: ListChange::Adds(ids), .. } => assert_eq!(ids, vec![1, 2]),
        _ => panic!(),
    }
    assert!(add_group("kovi-plugin-acl", &ListEntry { id: 1 }).is_err());
}

#[test]
fn empty_batches_are_refused_before_self() {
    let e = remove_groups_batch("kovi-plugin-acl", &BatchEntries { ids: vec![] }).err().unwrap();
    assert_eq!(reply(&e), (400, "ids cannot be empty".to_string()));
    let e = remove_groups_batch("kovi-plugin-acl", &BatchEntries { ids: vec![1] }).err().unwrap();
    assert_eq!(reply(&e).1, "cannot modify self");
}

#[test]
fn mode_requests() {
    assert_eq!(set_acl_mode("echo", &ModeChange { mode: "whitelist".to_string() }).unwrap(), ListMode::WhiteList);
    let e = set_acl_mode("echo", &ModeChange { mode: "white".to_string() }).err().unwrap();
    assert_eq!(reply(&e), (400, "mode must be 'whitelist' or 'blacklist'".to_string()));
    let e = set_acl_mode("kovi-plugin-acl", &ModeChange { mode: "white".to_string() }).err().unwrap();
    assert_eq!(reply(&e).1, "cannot modify self");
}

#[test]
fn plugin_management_requests() {
    assert_eq!(disable_plugin("echo").unwrap(), PluginOp::Disable);
    assert!(disable_plugin("kovi-plugin-acl").is_err());
}

#[test]
fn reset_refusals_keep_too_many_requests() {
    assert_eq!(reply(&reset_refusal(ResetError::TooManyRequests)), (429, "too many attempts, try again later".to_string()));
    assert_eq!(
        reply(&reset_refusal(ResetError::Code(RedeemError::InvalidOrExpired))),
        (400, "invalid or expired reset code".to_string())
    );
}

#[test]
fn system_figures() {
    let (main, deputies) = split_admins(&vec![10, 20, 30]);
    assert_eq!((main, deputies), (10, vec![20, 30]));
    assert_eq!(split_admins(&vec![10]), (10, vec![]));
    assert_eq!(split_admins(&vec![]), (0, vec![]));
    assert_eq!(memory_mb(5 * 1024 * 1024 + 1), 5);
}
