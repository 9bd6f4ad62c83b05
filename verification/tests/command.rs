use kovi_plugin_acl::acl::{ListMode, PluginState};
use kovi_plugin_acl::command::{is_admin, parse_command, parse_target, Command, PluginOp};
use kovi_plugin_acl::reply::{
    access_control_reply, list_change_reply, list_reply, mode_reply, plugin_op_reply, reset_code_message, reset_reply,
    show_reply, status,
};
use kovi_plugin_acl::text::{i64_to_string, parse_i64, split_whitespace, u64_to_string};

fn reply_of(text: &str) -> (String, bool) {
    let p = parse_command(text);
    match p.command {
        Command::Reply(t) => (t, p.save_after),
        other => panic!("expected a reply, got {:?}", other),
    }
}

#[test]
fn parse_target_reads_name_kind_and_id() {
    assert_eq!(parse_target(&["/acl", "add", "echo", "group", "123"]), Some(("echo".to_string(), true, 123)));
    assert_eq!(parse_target(&["/acl", "del", "echo", "好友", "-5"]), Some(("echo".to_string(), false, -5)));
    assert_eq!(parse_target(&["/acl", "add", "echo", "群", "+7"]), Some(("echo".to_string(), true, 7)));
    assert_eq!(parse_target(&["/acl", "add", "echo", "user", "1"]), None);
    assert_eq!(parse_target(&["/acl", "add", "echo", "group", "1x"]), None);
    assert_eq!(parse_target(&["/acl", "add", "echo", "group"]), None);
}

#[test]
fn i64_parsing_follows_the_standard_library() {
    for s in ["0", "-0", "+0", "42", "-42", "9223372036854775807", "-9223372036854775808", "007",
              "9223372036854775808", "-9223372036854775809", "", "+", "-", "1 ", " 1", "١", "12a", "99999999999999999999999"] {
        assert_eq!(parse_i64(s), s.parse::<i64>().ok(), "input {:?}", s);
    }
}

#[test]
fn integers_print_as_the_standard_library_does() {
    for n in [0i64, 7, -7, 10, 1234567890, i64::MAX, i64::MIN] {
        assert_eq!(i64_to_string(n), n.to_string());
    }
    assert_eq!(u64_to_string(u64::MAX), u64::MAX.to_string());
}

#[test]
fn words_split_at_unicode_white_space() {
    let s = " /acl\u{3000}add\t echo\u{2003}group\n1 ";
    let ours = split_whitespace(s);
    let std: Vec<String> = s.split_whitespace().map(|w| w.to_string()).collect();
    assert_eq!(ours, std);
    assert_eq!(ours, vec!["/acl", "add", "echo", "group", "1"]);
    assert!(split_whitespace("   ").is_empty());
}

#[test]
fn usage_and_unknown_subcommands() {
    assert!(reply_of("/acl").0.starts_with("/acl list | show <name>"));
    assert_eq!(reply_of("/acl frobnicate"), ("未知子命令。可用: list, show, on, off, mode, add, del, reset".to_string(), false));
    assert_eq!(reply_of("/plugin start"), ("/plugin start|stop|restart <name>".to_string(), false));
    assert_eq!(reply_of("/plugin explode x").0, "未知子命令。可用: start, stop, restart");
    assert_eq!(reply_of("/acl show").0, "/acl show <插件名>");
    assert_eq!(reply_of("/acl on"), ("/acl on <插件名>".to_string(), true));
    assert_eq!(reply_of("/acl mode"), ("/acl mode <插件名> <whitelist|blacklist>".to_string(), false));
    assert_eq!(reply_of("/acl mode echo greylist").0, "模式必须是 whitelist(白名单) 或 blacklist(黑名单)。");
}

#[test]
fn this_plugin_cannot_be_changed() {
    let refusal = "不允许修改 ACL 插件自身的访问控制。".to_string();
    assert_eq!(reply_of("/acl off kovi-plugin-acl"), (refusal.clone(), true));
    assert_eq!(reply_of("/acl mode kovi-plugin-acl whitelist"), (refusal.clone(), false));
    assert_eq!(reply_of("/acl add kovi-plugin-acl group 1"), (refusal, true));
    assert_eq!(reply_of("/plugin stop kovi-plugin-acl").0, "不允许禁用 ACL 插件自身。");
    assert_eq!(reply_of("/plugin start kovi-plugin-acl").0, "ACL 插件始终处于启用状态。");
    assert_eq!(reply_of("/plugin restart kovi-plugin-acl").0, "不允许重启 ACL 插件自身。");
}

#[test]
fn commands_are_read() {
    assert!(matches!(parse_command("  ").command, Command::Ignore));
    assert!(matches!(parse_command("hello /acl").command, Command::Ignore));
    assert!(matches!(parse_command("/acl list extra").command, Command::List));
    assert!(matches!(parse_command("/sys").command, Command::Status));
    assert!(matches!(parse_command("/acl reset").command, Command::Reset));
    assert!(matches!(parse_command("/acl show echo").command, Command::Show { name } if name == "echo"));
    let p = parse_command("/acl on echo");
    assert!(p.save_after);
    assert!(matches!(p.command, Command::SetAccessControl { name, enabled: true } if name == "echo"));
    assert!(matches!(parse_command("/acl mode echo 黑名单").command,
        Command::SetMode { name, mode: ListMode::BlackList } if name == "echo"));
    let p = parse_command("/acl del echo friend 99");
    assert!(p.save_after);
    assert!(matches!(p.command, Command::ChangeList { name, is_group: false, id: 99, add: false } if name == "echo"));
    let p = parse_command("/acl add echo group x");
    assert!(matches!(p.command, Command::Ignore) && p.save_after);
    assert!(matches!(parse_command("/plugin disable echo").command,
        Command::Plugin { op: PluginOp::Disable, name } if name == "echo"));
}

#[test]
fn admins_are_recognised() {
    assert!(is_admin(&vec![1, 2, 3], 2));
    assert!(!is_admin(&vec![1, 2, 3], 4));
    assert!(!is_admin(&vec![], 1));
}

fn plugin(name: &str, enabled: bool, ac: bool, mode: ListMode) -> PluginState {
    PluginState {
        name: name.to_string(),
        version: "0.3.1".to_string(),
        enabled,
        access_control: ac,
        mode,
        groups: vec![5, 6],
        friends: vec![],
    }
}

#[test]
fn replies_to_changes() {
    assert_eq!(access_control_reply("echo", true, &Ok(())), "[OK] 已开启 echo 的访问控制。");
    assert_eq!(access_control_reply("echo", false, &Ok(())), "[OK] 已关闭 echo 的访问控制。");
    assert_eq!(access_control_reply("echo", true, &Err("boom".to_string())), "操作失败: boom");
    assert_eq!(mode_reply("echo", ListMode::WhiteList, &Ok(())), "[OK] 已将 echo 设为白名单模式。");
    assert_eq!(list_change_reply("echo", true, -12, true, &Ok(())), "[OK] 已将 群 -12 添加到 echo 的访问列表。");
    assert_eq!(list_change_reply("echo", false, 3, false, &Ok(())), "[OK] 已将 好友 3 从 echo 的访问列表移除。");
    assert_eq!(plugin_op_reply(PluginOp::Restart, "echo", &Ok(())), "[OK] 已重启插件 echo。");
    assert_eq!(plugin_op_reply(PluginOp::Enable, "echo", &Err("no".to_string())), "操作失败: no");
    assert_eq!(reset_reply(), "验证码已通过私聊发送，请在 WebUI 登录页面点击「忘记密码」重置密码。");
    assert_eq!(
        reset_code_message("0a1b2c"),
        "ACL WebUI 密码重置验证码: 0a1b2c\n\n验证码 5 分钟内有效，请在 WebUI 登录页面点击「忘记密码」输入验证码和新密码。"
    );
}

#[test]
fn list_reply_shows_every_plugin_but_this_one() {
    let ps = vec![
        plugin("echo", true, true, ListMode::WhiteList),
        plugin("kovi-plugin-acl", true, false, ListMode::WhiteList),
        plugin("dice", false, false, ListMode::BlackList),
    ];
    assert_eq!(
        list_reply(&Ok(ps)),
        "插件列表:\n  [ON] echo 0.3.1 [ACL:白名单]\n  [OFF] dice 0.3.1 [ACL:OFF]"
    );
    assert_eq!(list_reply(&Ok(vec![])), "没有已加载的插件。");
    assert_eq!(list_reply(&Err("gone".to_string())), "获取插件列表失败: gone");
}

#[test]
fn show_reply_details_one_plugin() {
    let ps = vec![plugin("echo", true, true, ListMode::BlackList), plugin("dice", false, false, ListMode::WhiteList)];
    let ps2 = vec![plugin("echo", true, true, ListMode::BlackList), plugin("dice", false, false, ListMode::WhiteList)];
    assert_eq!(
        show_reply("echo", &Ok(ps)),
        "echo v0.3.1\n  启用: 是\n  访问控制: 开启\n  模式: 黑名单\n  群: 5, 6\n  好友: 无"
    );
    assert_eq!(show_reply("dice", &Ok(ps2)), "dice v0.3.1\n  启用: 否\n  访问控制: 关闭\n  模式: 白名单");
    assert_eq!(show_reply("ghost", &Ok(vec![])), "插件 'ghost' 不存在。");
    assert_eq!(show_reply("x", &Err("e".to_string())), "获取插件信息失败: e");
}

#[test]
fn status_formats_uptime_and_memory() {
    let mb = 1024 * 1024;
    assert_eq!(status(59, 10 * mb, 100 * mb), "运行时间: 0分\n内存: 10MB / 100MB");
    assert_eq!(status(3599, 0, 0), "运行时间: 59分\n内存: 0MB / 0MB");
    assert_eq!(status(3600 + 61, mb + 1, 2 * mb - 1), "运行时间: 1小时1分\n内存: 1MB / 1MB");
    assert_eq!(status(2 * 86400 + 3 * 3600 + 5, 0, 0), "运行时间: 2天3小时\n内存: 0MB / 0MB");
    assert_eq!(status(-61, 0, 0), "运行时间: -1分\n内存: 0MB / 0MB");
}
