//! The texts the bot answers chat commands with.

use vstd::prelude::*;
use crate::acl::{is_self, self_name, ListMode, PluginState, PluginStateView, states_view};
use crate::command::PluginOp;
use crate::text::{i64_to_string, int_text, u64_to_string, nat_digits};

verus! {

broadcast use vstd::string::group_string_axioms;

/// The answer to a bot call that failed with message `e`.
pub open spec fn failure_text(e: Seq<char>) -> Seq<char> {
    "操作失败: "@ + e
}

fn failure_reply(e: &String) -> (r: String)
    ensures
        r@ == failure_text(e@),
{
    let mut r = String::new();
    r.append("操作失败: ");
    r.append(e.as_str());
    r
}

/// The answer to switching access control of `name` on or off.
pub open spec fn access_control_text(name: Seq<char>, enabled: bool, outcome: Result<(), Seq<char>>) -> Seq<char> {
    match outcome {
        Ok(()) => (if enabled { "[OK] 已开启 "@ } else { "[OK] 已关闭 "@ }) + name + " 的访问控制。"@,
        Err(e) => failure_text(e),
    }
}

/// The view of a bot call's outcome.
pub open spec fn outcome_view(o: Result<(), String>) -> Result<(), Seq<char>> {
    match o {
        Ok(()) => Ok(()),
        Err(e) => Err(e@),
    }
}

/// Answers the switching of access control of `name`.
pub fn access_control_reply(name: &str, enabled: bool, outcome: &Result<(), String>) -> (r: String)
    ensures
        r@ == access_control_text(name@, enabled, outcome_view(*outcome)),
{
    match outcome {
        Ok(()) => {
            let mut r = String::new();
            if enabled {
                r.append("[OK] 已开启 ");
            } else {
                r.append("[OK] 已关闭 ");
            }
            r.append(name);
            r.append(" 的访问控制。");
            r
        },
        Err(e) => failure_reply(e),
    }
}

/// The Chinese name of a mode.
pub open spec fn mode_name_cn(mode: ListMode) -> Seq<char> {
    match mode {
        ListMode::WhiteList => "白名单"@,
        ListMode::BlackList => "黑名单"@,
    }
}

fn mode_cn(mode: ListMode) -> (r: &'static str)
    ensures
        r@ == mode_name_cn(mode),
{
    match mode {
        ListMode::WhiteList => "白名单",
        ListMode::BlackList => "黑名单",
    }
}

/// The answer to switching the mode of `name`.
pub open spec fn mode_text_reply(name: Seq<char>, mode: ListMode, outcome: Result<(), Seq<char>>) -> Seq<char> {
    match outcome {
        Ok(()) => "[OK] 已将 "@ + name + " 设为"@ + mode_name_cn(mode) + "模式。"@,
        Err(e) => failure_text(e),
    }
}

/// Answers the switching of the mode of `name`.
pub fn mode_reply(name: &str, mode: ListMode, outcome: &Result<(), String>) -> (r: String)
    ensures
        r@ == mode_text_reply(name@, mode, outcome_view(*outcome)),
{
    match outcome {
        Ok(()) => {
            let mut r = String::new();
            r.append("[OK] 已将 ");
            r.append(name);
            r.append(" 设为");
            r.append(mode_cn(mode));
            r.append("模式。");
            r
        },
        Err(e) => failure_reply(e),
    }
}

/// The answer to adding an id to, or removing it from, a list of `name`.
pub open spec fn list_change_text(name: Seq<char>, is_group: bool, id: i64, add: bool, outcome: Result<(), Seq<char>>) -> Seq<char> {
    match outcome {
        Ok(()) => {
            let target = if is_group { "群"@ } else { "好友"@ };
            if add {
                "[OK] 已将 "@ + target + " "@ + int_text(id as int) + " 添加到 "@ + name + " 的访问列表。"@
            } else {
                "[OK] 已将 "@ + target + " "@ + int_text(id as int) + " 从 "@ + name + " 的访问列表移除。"@
            }
        },
        Err(e) => failure_text(e),
    }
}

/// Answers the change of a list of `name`.
pub fn list_change_reply(name: &str, is_group: bool, id: i64, add: bool, outcome: &Result<(), String>) -> (r: String)
    ensures
        r@ == list_change_text(name@, is_group, id, add, outcome_view(*outcome)),
{
    match outcome {
        Ok(()) => {
            let mut r = String::new();
            r.append("[OK] 已将 ");
            if is_group {
                r.append("群");
            } else {
                r.append("好友");
            }
            r.append(" ");
            r.append(i64_to_string(id).as_str());
            if add {
                r.append(" 添加到 ");
            } else {
                r.append(" 从 ");
            }
            r.append(name);
            if add {
                r.append(" 的访问列表。");
            } else {
                r.append(" 的访问列表移除。");
            }
            r
        },
        Err(e) => failure_reply(e),
    }
}

/// The answer to a plugin-management operation on `name`.
pub open spec fn plugin_op_text(op: PluginOp, name: Seq<char>, outcome: Result<(), Seq<char>>) -> Seq<char> {
    match outcome {
        Ok(()) => (match op {
            PluginOp::Enable => "[OK] 已启用插件 "@,
            PluginOp::Disable => "[OK] 已禁用插件 "@,
            PluginOp::Restart => "[OK] 已重启插件 "@,
        }) + name + "。"@,
        Err(e) => failure_text(e),
    }
}

/// Answers a plugin-management operation on `name`.
pub fn plugin_op_reply(op: PluginOp, name: &str, outcome: &Result<(), String>) -> (r: String)
    ensures
        r@ == plugin_op_text(op, name@, outcome_view(*outcome)),
{
    match outcome {
        Ok(()) => {
            let mut r = String::new();
            match op {
                PluginOp::Enable => r.append("[OK] 已启用插件 "),
                PluginOp::Disable => r.append("[OK] 已禁用插件 "),
                PluginOp::Restart => r.append("[OK] 已重启插件 "),
            }
            r.append(name);
            r.append("。");
            r
        },
        Err(e) => failure_reply(e),
    }
}

/// The private message that carries a reset code.
pub open spec fn reset_code_text(code: Seq<char>) -> Seq<char> {
    "ACL WebUI 密码重置验证码: "@ + code + "\n\n验证码 5 分钟内有效，请在 WebUI 登录页面点击「忘记密码」输入验证码和新密码。"@
}

/// The private message that carries reset code `code`.
pub fn reset_code_message(code: &str) -> (r: String)
    ensures
        r@ == reset_code_text(code@),
{
    let mut r = String::new();
    r.append("ACL WebUI 密码重置验证码: ");
    r.append(code);
    r.append("\n\n验证码 5 分钟内有效，请在 WebUI 登录页面点击「忘记密码」输入验证码和新密码。");
    r
}

/// The answer in the chat where a reset was asked for.
pub fn reset_reply() -> (r: String)
    ensures
        r@ == "验证码已通过私聊发送，请在 WebUI 登录页面点击「忘记密码」重置密码。"@,
{
    "验证码已通过私聊发送，请在 WebUI 登录页面点击「忘记密码」重置密码。".to_string()
}

/// The line of one plugin in the plugin list.
pub open spec fn plugin_line(p: PluginStateView) -> Seq<char> {
    "  "@ + (if p.enabled { "[ON]"@ } else { "[OFF]"@ }) + " "@ + p.name + " "@ + p.version + " "@ + (if p.access_control {
        "[ACL:"@ + mode_name_cn(p.mode) + "]"@
    } else {
        "[ACL:OFF]"@
    })
}

/// The plugin list: a title line, then one line per plugin but this one.
pub open spec fn listing(ps: Seq<PluginStateView>) -> Seq<char>
    decreases ps.len(),
{
    if ps.len() == 0 {
        "插件列表:"@
    } else if ps.last().name == self_name() {
        listing(ps.drop_last())
    } else {
        listing(ps.drop_last()) + "\n"@ + plugin_line(ps.last())
    }
}

/// The answer to `/acl list`, given what the bot reported (its plugins, or
/// the message of its failure).
pub open spec fn list_text(report: Result<Seq<PluginStateView>, Seq<char>>) -> Seq<char> {
    match report {
        Err(e) => "获取插件列表失败: "@ + e,
        Ok(ps) => if ps.len() == 0 {
            "没有已加载的插件。"@
        } else {
            listing(ps)
        },
    }
}

/// The view of what the bot reported of its plugins.
pub open spec fn report_view(r: Result<Vec<PluginState>, String>) -> Result<Seq<PluginStateView>, Seq<char>> {
    match r {
        Ok(ps) => Ok(states_view(ps@)),
        Err(e) => Err(e@),
    }
}

fn plugin_line_text(p: &PluginState) -> (r: String)
    ensures
        r@ == plugin_line(p@),
{
    let mut r = String::new();
    r.append("  ");
    if p.enabled {
        r.append("[ON]");
    } else {
        r.append("[OFF]");
    }
    r.append(" ");
    r.append(p.name.as_str());
    r.append(" ");
    r.append(p.version.as_str());
    r.append(" ");
    if p.access_control {
        r.append("[ACL:");
        r.append(mode_cn(p.mode));
        r.append("]");
    } else {
        r.append("[ACL:OFF]");
    }
    r
}

/// Answers `/acl list`.
pub fn list_reply(report: &Result<Vec<PluginState>, String>) -> (r: String)
    ensures
        r@ == list_text(report_view(*report)),
{
    match report {
        Err(e) => {
            let mut r = String::new();
            r.append("获取插件列表失败: ");
            r.append(e.as_str());
            r
        },
        Ok(plugins) => {
            if plugins.len() == 0 {
                return "没有已加载的插件。".to_string();
            }
            let ghost ps = states_view(plugins@);
            let mut r = "插件列表:".to_string();
            let mut i: usize = 0;
            while i < plugins.len()
                invariant
                    i <= plugins@.len(),
                    ps == states_view(plugins@),
                    r@ == listing(ps.take(i as int)),
                decreases plugins@.len() - i,
            {
                proof {
                    assert(ps.take(i + 1).drop_last() =~= ps.take(i as int));
                    assert(ps.take(i + 1).last() == plugins@[i as int]@);
                }
                if !is_self(plugins[i].name.as_str()) {
                    r.append("\n");
                    r.append(plugin_line_text(&plugins[i]).as_str());
                }
                i = i + 1;
            }
            assert(ps.take(plugins@.len() as int) =~= ps);
            r
        },
    }
}

/// The first plugin called `name`.
pub open spec fn find_first(ps: Seq<PluginStateView>, name: Seq<char>) -> Option<PluginStateView>
    decreases ps.len(),
{
    if ps.len() == 0 {
        None
    } else if ps[0].name == name {
        Some(ps[0])
    } else {
        find_first(ps.drop_first(), name)
    }
}

/// Ids separated by `, `.
pub open spec fn joined_ids(ids: Seq<i64>) -> Seq<char>
    decreases ids.len(),
{
    if ids.len() == 0 {
        Seq::empty()
    } else if ids.len() == 1 {
        int_text(ids[0] as int)
    } else {
        joined_ids(ids.drop_last()) + ", "@ + int_text(ids.last() as int)
    }
}

/// How an id list is shown: its ids separated by `, `, or `无` when empty.
pub open spec fn id_list_text(ids: Seq<i64>) -> Seq<char> {
    if ids.len() == 0 {
        "无"@
    } else {
        joined_ids(ids)
    }
}

/// The details of one plugin; the lists are shown only when access control
/// is on.
pub open spec fn show_detail(p: PluginStateView) -> Seq<char> {
    p.name + " v"@ + p.version + "\n  启用: "@ + (if p.enabled { "是"@ } else { "否"@ }) + "\n  访问控制: "@ + (if p.access_control {
        "开启"@
    } else {
        "关闭"@
    }) + "\n  模式: "@ + mode_name_cn(p.mode) + (if p.access_control {
        "\n  群: "@ + id_list_text(p.groups) + "\n  好友: "@ + id_list_text(p.friends)
    } else {
        Seq::empty()
    })
}

/// The answer to `/acl show name`.
pub open spec fn show_text(name: Seq<char>, report: Result<Seq<PluginStateView>, Seq<char>>) -> Seq<char> {
    match report {
        Err(e) => "获取插件信息失败: "@ + e,
        Ok(ps) => match find_first(ps, name) {
            None => "插件 '"@ + name + "' 不存在。"@,
            Some(p) => show_detail(p),
        },
    }
}

fn id_list_reply(ids: &Vec<i64>) -> (r: String)
    ensures
        r@ == id_list_text(ids@),
{
    if ids.len() == 0 {
        return "无".to_string();
    }
    let mut r = i64_to_string(ids[0]);
    let mut i: usize = 1;
    assert(ids@.take(1).drop_last() =~= Seq::<i64>::empty());
    assert(r@ == joined_ids(ids@.take(1)));
    while i < ids.len()
        invariant
            1 <= i <= ids@.len(),
            r@ == joined_ids(ids@.take(i as int)),
        decreases ids@.len() - i,
    {
        assert(ids@.take(i + 1).drop_last() =~= ids@.take(i as int));
        r.append(", ");
        r.append(i64_to_string(ids[i]).as_str());
        i = i + 1;
    }
    assert(ids@.take(ids@.len() as int) =~= ids@);
    r
}

fn show_detail_text(p: &PluginState) -> (r: String)
    ensures
        r@ == show_detail(p@),
{
    let mut r = String::new();
    r.append(p.name.as_str());
    r.append(" v");
    r.append(p.version.as_str());
    r.append("\n  启用: ");
    if p.enabled {
        r.append("是");
    } else {
        r.append("否");
    }
    r.append("\n  访问控制: ");
    if p.access_control {
        r.append("开启");
    } else {
        r.append("关闭");
    }
    r.append("\n  模式: ");
    r.append(mode_cn(p.mode));
    if p.access_control {
        r.append("\n  群: ");
        r.append(id_list_reply(&p.groups).as_str());
        r.append("\n  好友: ");
        r.append(id_list_reply(&p.friends).as_str());
    }
    r
}

/// Answers `/acl show name`.
pub fn show_reply(name: &str, report: &Result<Vec<PluginState>, String>) -> (r: String)
    ensures
        r@ == show_text(name@, report_view(*report)),
{
    match report {
        Err(e) => {
            let mut r = String::new();
            r.append("获取插件信息失败: ");
            r.append(e.as_str());
            r
        },
        Ok(plugins) => {
            let ghost ps = states_view(plugins@);
            assert(ps.subrange(0, ps.len() as int) =~= ps);
            let mut i: usize = 0;
            while i < plugins.len()
                invariant
                    i <= plugins@.len(),
                    ps == states_view(plugins@),
                    report_view(*report) == Ok::<Seq<PluginStateView>, Seq<char>>(ps),
                    find_first(ps, name@) == find_first(ps.subrange(i as int, ps.len() as int), name@),
                decreases plugins@.len() - i,
            {
                let ghost rest = ps.subrange(i as int, ps.len() as int);
                assert(rest[0] == plugins@[i as int]@);
                if crate::text::str_eq(plugins[i].name.as_str(), name) {
                    assert(find_first(rest, name@) == Some(plugins@[i as int]@));
                    return show_detail_text(&plugins[i]);
                }
                assert(rest.drop_first() =~= ps.subrange(i + 1, ps.len() as int));
                i = i + 1;
            }
            let mut r = String::new();
            r.append("插件 '");
            r.append(name);
            r.append("' 不存在。");
            r
        },
    }
}

/// Rust's integer division of `a` by a positive `b` (rounding toward zero).
pub open spec fn trunc_div(a: int, b: int) -> int {
    if a >= 0 {
        a / b
    } else {
        -((-a) / b)
    }
}

/// How long the bot has been up, from its uptime in seconds: minutes below
/// an hour, hours and minutes below a day, else days and hours.
pub open spec fn uptime_text(u: int) -> Seq<char> {
    if u < 3600 {
        int_text(trunc_div(u, 60)) + "分"@
    } else if u < 86400 {
        int_text(u / 3600) + "小时"@ + int_text((u % 3600) / 60) + "分"@
    } else {
        int_text(u / 86400) + "天"@ + int_text((u % 86400) / 3600) + "小时"@
    }
}

/// The answer to `/sys`.
pub open spec fn status_text(uptime: int, used_bytes: u64, total_bytes: u64) -> Seq<char> {
    "运行时间: "@ + uptime_text(uptime) + "\n内存: "@ + nat_digits((used_bytes / 1024 / 1024) as nat) + "MB / "@ + nat_digits(
        (total_bytes / 1024 / 1024) as nat,
    ) + "MB"@
}

/// Answers `/sys` with the uptime in seconds and the used and total memory
/// in bytes.
pub fn status(uptime: i64, used_bytes: u64, total_bytes: u64) -> (r: String)
    ensures
        r@ == status_text(uptime as int, used_bytes, total_bytes),
{
    let mut r = String::new();
    r.append("运行时间: ");
    if uptime < 3600 {
        let minutes: i64 = if uptime >= 0 {
            uptime / 60
        } else {
            let m = (-(uptime as i128)) / 60;
            (-m) as i64
        };
        r.append(i64_to_string(minutes).as_str());
        r.append("分");
    } else if uptime < 86400 {
        r.append(i64_to_string(uptime / 3600).as_str());
        r.append("小时");
        r.append(i64_to_string((uptime % 3600) / 60).as_str());
        r.append("分");
    } else {
        r.append(i64_to_string(uptime / 86400).as_str());
        r.append("天");
        r.append(i64_to_string((uptime % 86400) / 3600).as_str());
        r.append("小时");
    }
    r.append("\n内存: ");
    r.append(u64_to_string(used_bytes / 1024 / 1024).as_str());
    r.append("MB / ");
    r.append(u64_to_string(total_bytes / 1024 / 1024).as_str());
    r.append("MB");
    r
}


/// The access-control tag of a plugin in the plugin list: `[ACL:白名单]` or
/// `[ACL:黑名单]` by the plugin's own mode when its access control is on,
/// `[ACL:OFF]` when it is off.
pub open spec fn acl_tag(access_control: bool, mode: ListMode) -> Seq<char> {
    if !access_control {
        "[ACL:OFF]"@
    } else if mode is WhiteList {
        "[ACL:白名单]"@
    } else {
        "[ACL:黑名单]"@
    }
}

/// A plugin's line in the plugin list starts with `[ON]` exactly when the
/// plugin is enabled (`[OFF]` otherwise) and ends with the tag of its own
/// access control: `[ACL:白名单]` for a white list, `[ACL:黑名单]` for a black
/// list, `[ACL:OFF]` when access control is off.
pub proof fn lemma_plugin_line_tags(p: PluginStateView)
    ensures
        ("  "@ + (if p.enabled { "[ON]"@ } else { "[OFF]"@ })).is_prefix_of(plugin_line(p)),
        acl_tag(p.access_control, p.mode).is_suffix_of(plugin_line(p)),
{
    let head = "  "@ + (if p.enabled { "[ON]"@ } else { "[OFF]"@ });
    let mid = " "@ + p.name + " "@ + p.version + " "@;
    let tag = acl_tag(p.access_control, p.mode);
    reveal_strlit("[ACL:");
    reveal_strlit("]");
    reveal_strlit("[ACL:白名单]");
    reveal_strlit("[ACL:黑名单]");
    reveal_strlit("白名单");
    reveal_strlit("黑名单");
    assert(("[ACL:"@ + mode_name_cn(p.mode) + "]"@) =~= (if p.mode is WhiteList { "[ACL:白名单]"@ } else { "[ACL:黑名单]"@ }));
    let line = plugin_line(p);
    assert(line =~= head + mid + tag);
    assert(line.subrange(0, head.len() as int) =~= head);
    assert(line.subrange(line.len() - tag.len(), line.len() as int) =~= tag);
}

/// The header of a plugin's details, as `/acl show` gives it: name and
/// version, then `启用: 是` exactly when the plugin is enabled (`否`
/// otherwise), `访问控制: 开启` exactly when its access control is on
/// (`关闭` otherwise), and its own mode, `白名单` or `黑名单`.
pub open spec fn detail_header(p: PluginStateView) -> Seq<char> {
    p.name + " v"@ + p.version + "\n  启用: "@ + (if p.enabled { "是"@ } else { "否"@ }) + "\n  访问控制: "@ + (if p.access_control {
        "开启"@
    } else {
        "关闭"@
    }) + "\n  模式: "@ + (if p.mode is WhiteList { "白名单"@ } else { "黑名单"@ })
}

/// A plugin's details start with its header; without access control they
/// are the header alone, with it the header is followed by the group and
/// friend lines.
pub proof fn lemma_show_detail_header(p: PluginStateView)
    ensures
        detail_header(p).is_prefix_of(show_detail(p)),
        !p.access_control ==> show_detail(p) == detail_header(p),
        p.access_control ==> show_detail(p) == detail_header(p) + "\n  群: "@ + id_list_text(p.groups) + "\n  好友: "@
            + id_list_text(p.friends),
{
    reveal_strlit("白名单");
    reveal_strlit("黑名单");
    assert(mode_name_cn(p.mode) == (if p.mode is WhiteList { "白名单"@ } else { "黑名单"@ }));
    let rest = if p.access_control {
        "\n  群: "@ + id_list_text(p.groups) + "\n  好友: "@ + id_list_text(p.friends)
    } else {
        Seq::<char>::empty()
    };
    assert(show_detail(p) =~= detail_header(p) + rest);
    assert(show_detail(p).subrange(0, detail_header(p).len() as int) =~= detail_header(p));
    assert(!p.access_control ==> detail_header(p) + rest =~= detail_header(p));
    assert(p.access_control ==> detail_header(p) + rest =~= detail_header(p) + "\n  群: "@ + id_list_text(p.groups) + "\n  好友: "@
        + id_list_text(p.friends));
}

/// `/acl show name` answers with the details of the first reported plugin
/// called `name`.
pub proof fn lemma_show_first_named(name: Seq<char>, ps: Seq<PluginStateView>, i: int)
    requires
        0 <= i < ps.len(),
        ps[i].name == name,
        forall|j: int| 0 <= j < i ==> #[trigger] ps[j].name != name,
    ensures
        show_text(name, Ok(ps)) == show_detail(ps[i]),
    decreases i,
{
    if i > 0 {
        assert forall|j: int| 0 <= j < i - 1 implies #[trigger] ps.drop_first()[j].name != name by {
            assert(ps.drop_first()[j] == ps[j + 1]);
        }
        assert(ps[0].name != name);
        lemma_show_first_named(name, ps.drop_first(), i - 1);
        assert(find_first(ps, name) == find_first(ps.drop_first(), name));
    }
}

} // verus!
