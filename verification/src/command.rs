//! The chat commands of administrators: `/acl ...`, `/plugin ...` and
//! `/sys`, read from the words of a message.

use vstd::prelude::*;
use crate::acl::{is_self, self_name, ListMode};
use crate::text::{parse_i64, parse_i64_spec, split_whitespace, str_eq, words};

verus! {

broadcast use vstd::string::group_string_axioms;

/// The usage line of `/acl`.
pub open spec fn acl_usage() -> Seq<char> {
    "/acl list | show <name> | on <name> | off <name> | mode <name> <whitelist|blacklist> | add <name> group|friend <id> | del <name> group|friend <id> | reset"@
}

/// The answer to an unknown `/acl` subcommand.
pub open spec fn acl_unknown() -> Seq<char> {
    "未知子命令。可用: list, show, on, off, mode, add, del, reset"@
}

/// The usage line of `/plugin`.
pub open spec fn plugin_usage() -> Seq<char> {
    "/plugin start|stop|restart <name>"@
}

/// The answer to an unknown `/plugin` subcommand.
pub open spec fn plugin_unknown() -> Seq<char> {
    "未知子命令。可用: start, stop, restart"@
}

/// The answer to an attempt to change this plugin's own access control.
pub open spec fn self_acl_refused() -> Seq<char> {
    "不允许修改 ACL 插件自身的访问控制。"@
}

/// The answer to a mode word that names no mode.
pub open spec fn mode_invalid() -> Seq<char> {
    "模式必须是 whitelist(白名单) 或 blacklist(黑名单)。"@
}

/// A plugin-management operation.
#[derive(Clone, Copy, Debug, PartialEq, Eq, Structural)]
pub enum PluginOp {
    Enable,
    Disable,
    Restart,
}

/// What a message asks for.
#[derive(Debug)]
pub enum Command {
    /// Nothing to do.
    Ignore,
    /// Answer with this text and do nothing else.
    Reply(String),
    /// List the plugins.
    List,
    /// Show one plugin's access control.
    Show { name: String },
    /// Switch a plugin's access control on or off.
    SetAccessControl { name: String, enabled: bool },
    /// Switch a plugin's list mode.
    SetMode { name: String, mode: ListMode },
    /// Add an id to, or remove it from, a plugin's group or friend list.
    ChangeList { name: String, is_group: bool, id: i64, add: bool },
    /// Send the sender a password-reset code.
    Reset,
    /// Enable, disable or restart a plugin.
    Plugin { op: PluginOp, name: String },
    /// Report the system status.
    Status,
}

/// What a command asks for.
pub enum CommandView {
    Ignore,
    Reply(Seq<char>),
    List,
    Show(Seq<char>),
    SetAccessControl(Seq<char>, bool),
    SetMode(Seq<char>, ListMode),
    ChangeList(Seq<char>, bool, i64, bool),
    Reset,
    Plugin(PluginOp, Seq<char>),
    Status,
}

impl View for Command {
    type V = CommandView;

    open spec fn view(&self) -> CommandView {
        match self {
            Command::Ignore => CommandView::Ignore,
            Command::Reply(t) => CommandView::Reply(t@),
            Command::List => CommandView::List,
            Command::Show { name } => CommandView::Show(name@),
            Command::SetAccessControl { name, enabled } => CommandView::SetAccessControl(name@, *enabled),
            Command::SetMode { name, mode } => CommandView::SetMode(name@, *mode),
            Command::ChangeList { name, is_group, id, add } => CommandView::ChangeList(name@, *is_group, *id, *add),
            Command::Reset => CommandView::Reset,
            Command::Plugin { op, name } => CommandView::Plugin(*op, name@),
            Command::Status => CommandView::Status,
        }
    }
}

/// A message's command, and whether the lists are to be saved after it has
/// been carried out (as after every `on`, `off`, `add` and `del`, whatever
/// came of it).
pub struct ParsedCommand {
    pub command: Command,
    pub save_after: bool,
}

/// The target of `add` and `del`: the plugin name (word 3), `group`/`群` or
/// `friend`/`好友` (word 4), and the id (word 5).
pub open spec fn target_of(parts: Seq<Seq<char>>) -> Option<(Seq<char>, bool, i64)> {
    if parts.len() < 5 {
        None
    } else {
        match parse_i64_spec(parts[4]) {
            None => None,
            Some(id) => if parts[3] == "group"@ || parts[3] == "群"@ {
                Some((parts[2], true, id))
            } else if parts[3] == "friend"@ || parts[3] == "好友"@ {
                Some((parts[2], false, id))
            } else {
                None
            },
        }
    }
}

/// The words of a list of string slices.
pub open spec fn slices_view(parts: Seq<&str>) -> Seq<Seq<char>> {
    parts.map_values(|p: &str| p@)
}

/// Reads the target of `add` and `del` from the words of the message.
pub fn parse_target(parts: &[&str]) -> (r: Option<(String, bool, i64)>)
    ensures
        match r {
            Some((name, g, id)) => target_of(slices_view(parts@)) == Some((name@, g, id)),
            None => target_of(slices_view(parts@)) is None,
        },
{
    if parts.len() < 5 {
        return None;
    }
    let name = parts[2];
    let kind = parts[3];
    let id = match parse_i64(parts[4]) {
        Some(v) => v,
        None => return None,
    };
    let is_group = if str_eq(kind, "group") || str_eq(kind, "群") {
        true
    } else if str_eq(kind, "friend") || str_eq(kind, "好友") {
        false
    } else {
        return None;
    };
    Some((name.to_string(), is_group, id))
}

/// The mode a mode word names: `whitelist`/`白名单` or `blacklist`/`黑名单`.
pub open spec fn mode_word(w: Seq<char>) -> Option<ListMode> {
    if w == "whitelist"@ || w == "白名单"@ {
        Some(ListMode::WhiteList)
    } else if w == "blacklist"@ || w == "黑名单"@ {
        Some(ListMode::BlackList)
    } else {
        None
    }
}

/// What an `/acl` message with words `p` asks for.
pub open spec fn acl_command_of(p: Seq<Seq<char>>) -> (CommandView, bool) {
    if p.len() < 2 {
        (CommandView::Reply(acl_usage()), false)
    } else if p[1] == "list"@ {
        (CommandView::List, false)
    } else if p[1] == "show"@ {
        if p.len() < 3 {
            (CommandView::Reply("/acl show <插件名>"@), false)
        } else {
            (CommandView::Show(p[2]), false)
        }
    } else if p[1] == "on"@ || p[1] == "off"@ {
        let on = p[1] == "on"@;
        if p.len() < 3 {
            (CommandView::Reply(if on { "/acl on <插件名>"@ } else { "/acl off <插件名>"@ }), true)
        } else if p[2] == self_name() {
            (CommandView::Reply(self_acl_refused()), true)
        } else {
            (CommandView::SetAccessControl(p[2], on), true)
        }
    } else if p[1] == "mode"@ {
        if p.len() < 3 {
            (CommandView::Reply("/acl mode <插件名> <whitelist|blacklist>"@), false)
        } else if p[2] == self_name() {
            (CommandView::Reply(self_acl_refused()), false)
        } else if p.len() < 4 {
            (CommandView::Reply(mode_invalid()), false)
        } else {
            match mode_word(p[3]) {
                Some(m) => (CommandView::SetMode(p[2], m), false),
                None => (CommandView::Reply(mode_invalid()), false),
            }
        }
    } else if p[1] == "add"@ || p[1] == "del"@ {
        match target_of(p) {
            None => (CommandView::Ignore, true),
            Some((name, g, id)) => if name == self_name() {
                (CommandView::Reply(self_acl_refused()), true)
            } else {
                (CommandView::ChangeList(name, g, id, p[1] == "add"@), true)
            },
        }
    } else if p[1] == "reset"@ {
        (CommandView::Reset, false)
    } else {
        (CommandView::Reply(acl_unknown()), false)
    }
}

/// The answer to an empty plugin name for operation `op`.
pub open spec fn plugin_op_usage(op: PluginOp) -> Seq<char> {
    match op {
        PluginOp::Enable => "/plugin start <插件名>"@,
        PluginOp::Disable => "/plugin stop <插件名>"@,
        PluginOp::Restart => "/plugin restart <插件名>"@,
    }
}

/// The answer to operation `op` on this plugin itself.
pub open spec fn plugin_op_self(op: PluginOp) -> Seq<char> {
    match op {
        PluginOp::Enable => "ACL 插件始终处于启用状态。"@,
        PluginOp::Disable => "不允许禁用 ACL 插件自身。"@,
        PluginOp::Restart => "不允许重启 ACL 插件自身。"@,
    }
}

/// What operation `op` on plugin `name` asks for.
pub open spec fn plugin_op_command(op: PluginOp, name: Seq<char>) -> CommandView {
    if name.len() == 0 {
        CommandView::Reply(plugin_op_usage(op))
    } else if name == self_name() {
        CommandView::Reply(plugin_op_self(op))
    } else {
        CommandView::Plugin(op, name)
    }
}

/// What a `/plugin` message with words `p` asks for.
pub open spec fn plugin_command_of(p: Seq<Seq<char>>) -> CommandView {
    if p.len() < 3 {
        CommandView::Reply(plugin_usage())
    } else if p[1] == "start"@ || p[1] == "enable"@ {
        plugin_op_command(PluginOp::Enable, p[2])
    } else if p[1] == "stop"@ || p[1] == "disable"@ {
        plugin_op_command(PluginOp::Disable, p[2])
    } else if p[1] == "restart"@ {
        plugin_op_command(PluginOp::Restart, p[2])
    } else {
        CommandView::Reply(plugin_unknown())
    }
}

/// What a message with words `p` asks for, and whether the lists are saved
/// after it.
pub open spec fn command_of(p: Seq<Seq<char>>) -> (CommandView, bool) {
    if p.len() == 0 {
        (CommandView::Ignore, false)
    } else if p[0] == "/acl"@ {
        acl_command_of(p)
    } else if p[0] == "/plugin"@ {
        (plugin_command_of(p), false)
    } else if p[0] == "/sys"@ {
        (CommandView::Status, false)
    } else {
        (CommandView::Ignore, false)
    }
}

/// Whether `user` is one of the bot's administrators.
pub fn is_admin(admins: &Vec<i64>, user: i64) -> (r: bool)
    ensures
        r == admins@.contains(user),
{
    let mut i: usize = 0;
    while i < admins.len()
        invariant
            i <= admins@.len(),
            forall|j: int| 0 <= j < i ==> admins@[j] != user,
        decreases admins@.len() - i,
    {
        if admins[i] == user {
            assert(admins@[i as int] == user);
            return true;
        }
        i = i + 1;
    }
    false
}

fn plugin_op(op: PluginOp, name: &str) -> (c: Command)
    ensures
        c@ == plugin_op_command(op, name@),
{
    if name.unicode_len() == 0 {
        let t = match op {
            PluginOp::Enable => "/plugin start <插件名>".to_string(),
            PluginOp::Disable => "/plugin stop <插件名>".to_string(),
            PluginOp::Restart => "/plugin restart <插件名>".to_string(),
        };
        return Command::Reply(t);
    }
    if is_self(name) {
        let t = match op {
            PluginOp::Enable => "ACL 插件始终处于启用状态。".to_string(),
            PluginOp::Disable => "不允许禁用 ACL 插件自身。".to_string(),
            PluginOp::Restart => "不允许重启 ACL 插件自身。".to_string(),
        };
        return Command::Reply(t);
    }
    Command::Plugin { op, name: name.to_string() }
}

fn words_as_slices(words: &Vec<String>) -> (r: Vec<&str>)
    ensures
        slices_view(r@) == words@.map_values(|w: String| w@),
{
    let mut r: Vec<&str> = Vec::new();
    let mut i: usize = 0;
    while i < words.len()
        invariant
            i <= words@.len(),
            slices_view(r@) == words@.map_values(|w: String| w@).take(i as int),
        decreases words@.len() - i,
    {
        let s = words[i].as_str();
        let ghost before = r@;
        r.push(s);
        proof {
            assert(s@ == words@[i as int]@);
            assert(slices_view(r@) =~= slices_view(before).push(s@));
            assert(words@.map_values(|w: String| w@).take(i + 1) =~= words@.map_values(|w: String| w@).take(i as int).push(words@[i as int]@));
        }
        i = i + 1;
    }
    assert(words@.map_values(|w: String| w@).take(words@.len() as int) =~= words@.map_values(|w: String| w@));
    r
}

fn acl_command(p: &Vec<&str>) -> (c: ParsedCommand)
    requires
        p@.len() >= 1,
    ensures
        (c.command@, c.save_after) == acl_command_of(slices_view(p@)),
{
    let ghost w = slices_view(p@);
    if p.len() < 2 {
        return ParsedCommand { command: Command::Reply(
            "/acl list | show <name> | on <name> | off <name> | mode <name> <whitelist|blacklist> | add <name> group|friend <id> | del <name> group|friend <id> | reset".to_string()), save_after: false };
    }
    let sub = p[1];
    assert(w[1] == sub@);
    if str_eq(sub, "list") {
        return ParsedCommand { command: Command::List, save_after: false };
    }
    if str_eq(sub, "show") {
        if p.len() < 3 {
            return ParsedCommand { command: Command::Reply("/acl show <插件名>".to_string()), save_after: false };
        }
        assert(w[2] == p@[2]@);
        return ParsedCommand { command: Command::Show { name: p[2].to_string() }, save_after: false };
    }
    let on = str_eq(sub, "on");
    if on || str_eq(sub, "off") {
        if p.len() < 3 {
            let t = if on { "/acl on <插件名>".to_string() } else { "/acl off <插件名>".to_string() };
            return ParsedCommand { command: Command::Reply(t), save_after: true };
        }
        assert(w[2] == p@[2]@);
        if is_self(p[2]) {
            return ParsedCommand { command: Command::Reply("不允许修改 ACL 插件自身的访问控制。".to_string()), save_after: true };
        }
        return ParsedCommand { command: Command::SetAccessControl { name: p[2].to_string(), enabled: on }, save_after: true };
    }
    if str_eq(sub, "mode") {
        if p.len() < 3 {
            return ParsedCommand { command: Command::Reply("/acl mode <插件名> <whitelist|blacklist>".to_string()), save_after: false };
        }
        assert(w[2] == p@[2]@);
        if is_self(p[2]) {
            return ParsedCommand { command: Command::Reply("不允许修改 ACL 插件自身的访问控制。".to_string()), save_after: false };
        }
        let invalid = "模式必须是 whitelist(白名单) 或 blacklist(黑名单)。";
        if p.len() < 4 {
            return ParsedCommand { command: Command::Reply(invalid.to_string()), save_after: false };
        }
        let m = p[3];
        assert(w[3] == m@);
        let mode = if str_eq(m, "whitelist") || str_eq(m, "白名单") {
            ListMode::WhiteList
        } else if str_eq(m, "blacklist") || str_eq(m, "黑名单") {
            ListMode::BlackList
        } else {
            return ParsedCommand { command: Command::Reply(invalid.to_string()), save_after: false };
        };
        return ParsedCommand { command: Command::SetMode { name: p[2].to_string(), mode }, save_after: false };
    }
    let add = str_eq(sub, "add");
    if add || str_eq(sub, "del") {
        match parse_target(p.as_slice()) {
            None => {
                return ParsedCommand { command: Command::Ignore, save_after: true };
            },
            Some((name, is_group, id)) => {
                if is_self(name.as_str()) {
                    return ParsedCommand { command: Command::Reply("不允许修改 ACL 插件自身的访问控制。".to_string()), save_after: true };
                }
                return ParsedCommand { command: Command::ChangeList { name, is_group, id, add }, save_after: true };
            },
        }
    }
    if str_eq(sub, "reset") {
        return ParsedCommand { command: Command::Reset, save_after: false };
    }
    ParsedCommand { command: Command::Reply("未知子命令。可用: list, show, on, off, mode, add, del, reset".to_string()), save_after: false }
}

fn plugin_command(p: &Vec<&str>) -> (c: Command)
    requires
        p@.len() >= 1,
    ensures
        c@ == plugin_command_of(slices_view(p@)),
{
    let ghost w = slices_view(p@);
    if p.len() < 3 {
        return Command::Reply("/plugin start|stop|restart <name>".to_string());
    }
    let sub = p[1];
    let name = p[2];
    assert(w[1] == sub@);
    assert(w[2] == name@);
    if str_eq(sub, "start") || str_eq(sub, "enable") {
        plugin_op(PluginOp::Enable, name)
    } else if str_eq(sub, "stop") || str_eq(sub, "disable") {
        plugin_op(PluginOp::Disable, name)
    } else if str_eq(sub, "restart") {
        plugin_op(PluginOp::Restart, name)
    } else {
        Command::Reply("未知子命令。可用: start, stop, restart".to_string())
    }
}

/// Reads the command in an administrator's message.
pub fn parse_command(text: &str) -> (c: ParsedCommand)
    ensures
        (c.command@, c.save_after) == command_of(words(text@)),
{
    let owned = split_whitespace(text);
    let parts = words_as_slices(&owned);
    let ghost w = slices_view(parts@);
    assert(w == words(text@));
    if parts.len() == 0 {
        return ParsedCommand { command: Command::Ignore, save_after: false };
    }
    let head = parts[0];
    assert(w[0] == head@);
    if str_eq(head, "/acl") {
        acl_command(&parts)
    } else if str_eq(head, "/plugin") {
        ParsedCommand { command: plugin_command(&parts), save_after: false }
    } else if str_eq(head, "/sys") {
        ParsedCommand { command: Command::Status, save_after: false }
    } else {
        ParsedCommand { command: Command::Ignore, save_after: false }
    }
}


/// `/acl on <name>` switches access control of plugin `name` on and `/acl
/// off <name>` switches it off (words after the name are ignored); either
/// way the lists are saved afterwards.
pub proof fn lemma_on_off_commands(p: Seq<Seq<char>>)
    requires
        p.len() >= 3,
        p[0] == "/acl"@,
        p[1] == "on"@ || p[1] == "off"@,
        p[2] != self_name(),
    ensures
        p[1] == "on"@ ==> command_of(p) == (CommandView::SetAccessControl(p[2], true), true),
        p[1] == "off"@ ==> command_of(p) == (CommandView::SetAccessControl(p[2], false), true),
{
    reveal_strlit("list");
    reveal_strlit("show");
    reveal_strlit("on");
    reveal_strlit("off");
    assert("on"@ != "off"@) by {
        assert("on"@.len() != "off"@.len());
    }
    assert("on"@ != "list"@ && "on"@ != "show"@) by {
        assert("on"@.len() != "list"@.len());
    }
    assert("off"@ != "list"@ && "off"@ != "show"@) by {
        assert("off"@.len() != "list"@.len());
    }
}

} // verus!
