//! The decisions behind the web interface's JSON API: request bodies,
//! plugin records, refusals and their HTTP status, and the bot actions
//! each request asks for.

use vstd::prelude::*;
use crate::acl::{
    actions_view, is_self, mode_of_text, mode_text, mode_to_string, self_name, sort_ids, string_to_mode, BotAction, BotActionView,
    ListChange, ListChangeView, ListMode, PluginState, PluginStateView, states_view,
};
use crate::auth::{
    change_password as check_password_change, credentials_for, reset_password_with_code, AuthCore, ChangePasswordError,
    ChangePasswordRequest, NewCredentials, ResetError, ResetPasswordRequest, reset_error_text,
};
use crate::auth::{byte_len, reset_allowed, reset_guards_after, MIN_PASSWORD_LEN};
use crate::clock::wall_in_range;
use crate::command::PluginOp;
use crate::rate_limit::ClientAddr;
use crate::reset_codes::redeemed;
use crate::reset_codes::RedeemError;

verus! {

broadcast use vstd::string::group_string_axioms;

/// Body of a request that switches access control on or off.
pub struct AclToggle {
    pub enabled: bool,
}

/// Body of a request that switches the list mode.
pub struct ModeChange {
    pub mode: String,
}

/// Body of a request that adds or removes one id.
pub struct ListEntry {
    pub id: i64,
}

/// Body of a request that adds or removes several ids.
pub struct BatchEntries {
    pub ids: Vec<i64>,
}

/// A refused or failed request.
#[derive(Debug)]
pub enum AppError {
    /// Something went wrong inside; the detail is logged, not shown.
    Internal(String),
    NotFound(String),
    BadRequest(String),
    TooManyRequests(String),
}

/// What a refusal says: its HTTP status and the text of its `error` field.
pub open spec fn error_reply(e: AppError) -> (u16, Seq<char>) {
    match e {
        AppError::Internal(_) => (500, "internal error"@),
        AppError::NotFound(m) => (404, m@),
        AppError::BadRequest(m) => (400, m@),
        AppError::TooManyRequests(m) => (429, m@),
    }
}

impl AppError {
    /// The HTTP status and the shown text of the refusal.
    pub fn reply(&self) -> (r: (u16, String))
        ensures
            (r.0, r.1@) == error_reply(*self),
    {
        match self {
            AppError::Internal(_) => (500, "internal error".to_string()),
            AppError::NotFound(m) => (404, m.clone()),
            AppError::BadRequest(m) => (400, m.clone()),
            AppError::TooManyRequests(m) => (429, m.clone()),
        }
    }
}

/// The refusal of a request about this plugin itself.
pub open spec fn is_self_refusal(e: AppError) -> bool {
    e matches AppError::BadRequest(m) && m@ == "cannot modify self"@
}

/// Refuses requests about this plugin itself.
pub fn check_self(name: &str) -> (r: Result<(), AppError>)
    ensures
        r is Err <==> name@ == self_name(),
        r matches Err(e) ==> is_self_refusal(e),
{
    if is_self(name) {
        Err(AppError::BadRequest("cannot modify self".to_string()))
    } else {
        Ok(())
    }
}

/// The refusal of a request that the bot rejected.
pub fn bot_refused() -> (e: AppError)
    ensures
        e matches AppError::BadRequest(m) && m@ == "bad request"@,
{
    AppError::BadRequest("bad request".to_string())
}

/// How a plugin is shown by the API.
pub struct PluginInfo {
    pub name: String,
    pub version: String,
    pub enabled: bool,
    pub access_control: bool,
    pub list_mode: String,
    pub groups: Vec<i64>,
    pub friends: Vec<i64>,
}

/// How a plugin is shown by the API.
pub struct PluginInfoView {
    pub name: Seq<char>,
    pub version: Seq<char>,
    pub enabled: bool,
    pub access_control: bool,
    pub list_mode: Seq<char>,
    pub groups: Seq<i64>,
    pub friends: Seq<i64>,
}

impl View for PluginInfo {
    type V = PluginInfoView;

    open spec fn view(&self) -> PluginInfoView {
        PluginInfoView {
            name: self.name@,
            version: self.version@,
            enabled: self.enabled,
            access_control: self.access_control,
            list_mode: self.list_mode@,
            groups: self.groups@,
            friends: self.friends@,
        }
    }
}

/// The API record of a plugin: its state as the bot reports it, with the
/// mode by name.
pub open spec fn info_of(p: PluginStateView) -> PluginInfoView {
    PluginInfoView {
        name: p.name,
        version: p.version,
        enabled: p.enabled,
        access_control: p.access_control,
        list_mode: mode_text(p.mode),
        groups: p.groups,
        friends: p.friends,
    }
}

fn copy_ids(v: &Vec<i64>) -> (r: Vec<i64>)
    ensures
        r@ == v@,
{
    let mut r: Vec<i64> = Vec::new();
    let mut i: usize = 0;
    while i < v.len()
        invariant
            i <= v@.len(),
            r@ == v@.take(i as int),
        decreases v@.len() - i,
    {
        r.push(v[i]);
        i = i + 1;
        assert(r@ =~= v@.take(i as int));
    }
    assert(v@.take(v@.len() as int) =~= v@);
    r
}

/// The API record of a plugin.
pub fn map_plugin_info(p: &PluginState) -> (r: PluginInfo)
    ensures
        r@ == info_of(p@),
{
    PluginInfo {
        name: p.name.clone(),
        version: p.version.clone(),
        enabled: p.enabled,
        access_control: p.access_control,
        list_mode: mode_to_string(p.mode),
        groups: copy_ids(&p.groups),
        friends: copy_ids(&p.friends),
    }
}

fn find_index(plugins: &Vec<PluginState>, name: &str) -> (r: Option<usize>)
    ensures
        match r {
            Some(i) => i < plugins@.len() && plugins@[i as int].name@ == name@
                && forall|j: int| 0 <= j < i ==> #[trigger] plugins@[j].name@ != name@,
            None => forall|j: int| 0 <= j < plugins@.len() ==> #[trigger] plugins@[j].name@ != name@,
        },
{
    let mut i: usize = 0;
    while i < plugins.len()
        invariant
            i <= plugins@.len(),
            forall|j: int| 0 <= j < i ==> #[trigger] plugins@[j].name@ != name@,
        decreases plugins@.len() - i,
    {
        if crate::text::str_eq(plugins[i].name.as_str(), name) {
            return Some(i);
        }
        i = i + 1;
    }
    None
}

/// The refusal of a request about an unknown plugin.
pub open spec fn is_not_found(e: AppError) -> bool {
    e matches AppError::NotFound(m) && m@ == "plugin not found"@
}

/// `r` is the outcome of looking up `name` among `ps`: the record of the
/// first plugin of that name, or "plugin not found" when there is none.
pub open spec fn lookup_outcome(ps: Seq<PluginStateView>, name: Seq<char>, r: Result<PluginInfo, AppError>) -> bool {
    &&& (forall|j: int| 0 <= j < ps.len() ==> #[trigger] ps[j].name != name) <==> r is Err
    &&& r matches Err(e) ==> is_not_found(e)
    &&& r matches Ok(info) ==> exists|i: int|
        0 <= i < ps.len() && ps[i].name == name && (forall|j: int| 0 <= j < i ==> #[trigger] ps[j].name != name)
            && info@ == info_of(#[trigger] ps[i])
}

/// The record of the first plugin called `name`.
pub fn find_plugin(plugins: &Vec<PluginState>, name: &str) -> (r: Result<PluginInfo, AppError>)
    ensures
        lookup_outcome(states_view(plugins@), name@, r),
{
    let ghost ps = states_view(plugins@);
    match find_index(plugins, name) {
        Some(i) => {
            let info = map_plugin_info(&plugins[i]);
            assert(info@ == info_of(ps[i as int]));
            assert(forall|j: int| 0 <= j < i ==> #[trigger] ps[j].name == plugins@[j].name@);
            assert(ps[i as int].name == name@);
            Ok(info)
        },
        None => {
            assert(forall|j: int| 0 <= j < ps.len() ==> #[trigger] ps[j].name == plugins@[j].name@);
            Err(AppError::NotFound("plugin not found".to_string()))
        },
    }
}

/// The records of the plugins the API manages: all but this one, in order.
pub open spec fn listed(ps: Seq<PluginStateView>) -> Seq<PluginInfoView>
    decreases ps.len(),
{
    if ps.len() == 0 {
        Seq::empty()
    } else if ps.last().name == self_name() {
        listed(ps.drop_last())
    } else {
        listed(ps.drop_last()).push(info_of(ps.last()))
    }
}

/// The records of all plugins but this one.
pub fn list_plugins(plugins: &Vec<PluginState>) -> (r: Vec<PluginInfo>)
    ensures
        r@.map_values(|i: PluginInfo| i@) == listed(states_view(plugins@)),
{
    let mut r: Vec<PluginInfo> = Vec::new();
    let mut i: usize = 0;
    while i < plugins.len()
        invariant
            i <= plugins@.len(),
            r@.map_values(|i: PluginInfo| i@) == listed(states_view(plugins@).take(i as int)),
        decreases plugins@.len() - i,
    {
        let ghost before = r@;
        proof {
            assert(states_view(plugins@).take(i + 1).drop_last() =~= states_view(plugins@).take(i as int));
            assert(states_view(plugins@).take(i + 1).last() == plugins@[i as int]@);
        }
        if !is_self(plugins[i].name.as_str()) {
            r.push(map_plugin_info(&plugins[i]));
            assert(r@.map_values(|i: PluginInfo| i@) =~= before.map_values(|i: PluginInfo| i@).push(info_of(plugins@[i as int]@)));
        }
        i = i + 1;
    }
    assert(states_view(plugins@).take(plugins@.len() as int) =~= states_view(plugins@));
    r
}

/// The record of one plugin; requests about this plugin are refused.
pub fn get_plugin(plugins: &Vec<PluginState>, name: &str) -> (r: Result<PluginInfo, AppError>)
    ensures
        name@ == self_name() ==> (r matches Err(e) && is_self_refusal(e)),
        name@ != self_name() ==> lookup_outcome(states_view(plugins@), name@, r),
{
    check_self(name)?;
    find_plugin(plugins, name)
}

// ---------------------------------------------------------------------------
// Access-control requests
// ---------------------------------------------------------------------------

/// `r` answers a request about plugin `name` that asks for `action`: it is
/// refused when `name` is this plugin, and carried on with exactly that
/// action otherwise.
pub open spec fn write_outcome(name: Seq<char>, action: BotActionView, r: Result<BotAction, AppError>) -> bool {
    if name == self_name() {
        r matches Err(e) && is_self_refusal(e)
    } else {
        r matches Ok(a) && a@ == action
    }
}

/// The refusal of a batch request without ids.
pub open spec fn is_empty_batch_refusal(e: AppError) -> bool {
    e matches AppError::BadRequest(m) && m@ == "ids cannot be empty"@
}

/// `r` answers a batch request about plugin `name` with ids `ids` that asks
/// for `action`: a batch without ids is refused first.
pub open spec fn batch_outcome(name: Seq<char>, ids: Seq<i64>, action: BotActionView, r: Result<BotAction, AppError>) -> bool {
    if ids.len() == 0 {
        r matches Err(e) && is_empty_batch_refusal(e)
    } else {
        write_outcome(name, action, r)
    }
}

fn list_action(name: &str, is_group: bool, change: ListChange) -> (r: Result<BotAction, AppError>)
    ensures
        write_outcome(name@, BotActionView::SetList(name@, is_group, change@), r),
{
    check_self(name)?;
    Ok(BotAction::SetList { plugin: name.to_string(), is_group, change })
}

fn batch_action(name: &str, is_group: bool, body: &BatchEntries, add: bool) -> (r: Result<BotAction, AppError>)
    ensures
        batch_outcome(
            name@,
            body.ids@,
            BotActionView::SetList(name@, is_group, if add { ListChangeView::Adds(body.ids@) } else { ListChangeView::Removes(body.ids@) }),
            r,
        ),
{
    if body.ids.len() == 0 {
        return Err(AppError::BadRequest("ids cannot be empty".to_string()));
    }
    let ids = copy_ids(&body.ids);
    let change = if add { ListChange::Adds(ids) } else { ListChange::Removes(ids) };
    list_action(name, is_group, change)
}

/// Switches access control of plugin `name` on or off.
pub fn set_acl_toggle(name: &str, body: &AclToggle) -> (r: Result<BotAction, AppError>)
    ensures
        write_outcome(name@, BotActionView::SetAccessControl(name@, body.enabled), r),
{
    check_self(name)?;
    Ok(BotAction::SetAccessControl { plugin: name.to_string(), enabled: body.enabled })
}

/// Adds a group to plugin `name`'s list.
pub fn add_group(name: &str, body: &ListEntry) -> (r: Result<BotAction, AppError>)
    ensures
        write_outcome(name@, BotActionView::SetList(name@, true, ListChangeView::Add(body.id)), r),
{
    list_action(name, true, ListChange::Add(body.id))
}

/// Removes a group from plugin `name`'s list.
pub fn remove_group(name: &str, body: &ListEntry) -> (r: Result<BotAction, AppError>)
    ensures
        write_outcome(name@, BotActionView::SetList(name@, true, ListChangeView::Remove(body.id)), r),
{
    list_action(name, true, ListChange::Remove(body.id))
}

/// Adds a friend to plugin `name`'s list.
pub fn add_friend(name: &str, body: &ListEntry) -> (r: Result<BotAction, AppError>)
    ensures
        write_outcome(name@, BotActionView::SetList(name@, false, ListChangeView::Add(body.id)), r),
{
    list_action(name, false, ListChange::Add(body.id))
}

/// Removes a friend from plugin `name`'s list.
pub fn remove_friend(name: &str, body: &ListEntry) -> (r: Result<BotAction, AppError>)
    ensures
        write_outcome(name@, BotActionView::SetList(name@, false, ListChangeView::Remove(body.id)), r),
{
    list_action(name, false, ListChange::Remove(body.id))
}

/// Adds several groups to plugin `name`'s list.
pub fn add_groups_batch(name: &str, body: &BatchEntries) -> (r: Result<BotAction, AppError>)
    ensures
        batch_outcome(name@, body.ids@, BotActionView::SetList(name@, true, ListChangeView::Adds(body.ids@)), r),
{
    batch_action(name, true, body, true)
}

/// Removes several groups from plugin `name`'s list.
pub fn remove_groups_batch(name: &str, body: &BatchEntries) -> (r: Result<BotAction, AppError>)
    ensures
        batch_outcome(name@, body.ids@, BotActionView::SetList(name@, true, ListChangeView::Removes(body.ids@)), r),
{
    batch_action(name, true, body, false)
}

/// Adds several friends to plugin `name`'s list.
pub fn add_friends_batch(name: &str, body: &BatchEntries) -> (r: Result<BotAction, AppError>)
    ensures
        batch_outcome(name@, body.ids@, BotActionView::SetList(name@, false, ListChangeView::Adds(body.ids@)), r),
{
    batch_action(name, false, body, true)
}

/// Removes several friends from plugin `name`'s list.
pub fn remove_friends_batch(name: &str, body: &BatchEntries) -> (r: Result<BotAction, AppError>)
    ensures
        batch_outcome(name@, body.ids@, BotActionView::SetList(name@, false, ListChangeView::Removes(body.ids@)), r),
{
    batch_action(name, false, body, false)
}

/// The refusal of a mode name that names no mode.
pub open spec fn is_bad_mode_refusal(e: AppError) -> bool {
    e matches AppError::BadRequest(m) && m@ == "mode must be 'whitelist' or 'blacklist'"@
}

/// Reads a mode switch of plugin `name`: this plugin is refused first, then
/// a mode name that is neither `whitelist` nor `blacklist`.
pub fn set_acl_mode(name: &str, body: &ModeChange) -> (r: Result<ListMode, AppError>)
    ensures
        name@ == self_name() ==> (r matches Err(e) && is_self_refusal(e)),
        name@ != self_name() ==> match mode_of_text(body.mode@) {
            Some(m) => r == Ok::<ListMode, AppError>(m),
            None => r matches Err(e) && is_bad_mode_refusal(e),
        },
{
    check_self(name)?;
    match string_to_mode(body.mode.as_str()) {
        Some(m) => Ok(m),
        None => Err(AppError::BadRequest("mode must be 'whitelist' or 'blacklist'".to_string())),
    }
}

/// `r` answers a plugin-management request about plugin `name`.
pub open spec fn plugin_op_outcome(name: Seq<char>, op: PluginOp, r: Result<PluginOp, AppError>) -> bool {
    if name == self_name() {
        r matches Err(e) && is_self_refusal(e)
    } else {
        r == Ok::<PluginOp, AppError>(op)
    }
}

/// Reads a request to enable plugin `name`.
pub fn enable_plugin(name: &str) -> (r: Result<PluginOp, AppError>)
    ensures
        plugin_op_outcome(name@, PluginOp::Enable, r),
{
    check_self(name)?;
    Ok(PluginOp::Enable)
}

/// Reads a request to disable plugin `name`.
pub fn disable_plugin(name: &str) -> (r: Result<PluginOp, AppError>)
    ensures
        plugin_op_outcome(name@, PluginOp::Disable, r),
{
    check_self(name)?;
    Ok(PluginOp::Disable)
}

/// Reads a request to restart plugin `name`.
pub fn restart_plugin(name: &str) -> (r: Result<PluginOp, AppError>)
    ensures
        plugin_op_outcome(name@, PluginOp::Restart, r),
{
    check_self(name)?;
    Ok(PluginOp::Restart)
}

// ---------------------------------------------------------------------------
// Password requests
// ---------------------------------------------------------------------------

/// Checks a password-change request; a refusal is answered as a bad request
/// with the refusal's text.
pub fn change_password(core: &AuthCore, body: &ChangePasswordRequest) -> (r: Result<NewCredentials, AppError>)
    ensures
        !crate::auth::password_matches(core, body.current@) ==> (r matches Err(AppError::BadRequest(m))
            && m@ == "current password is incorrect"@),
        crate::auth::password_matches(core, body.current@) && crate::auth::byte_len(body.new@) < crate::auth::MIN_PASSWORD_LEN
            ==> (r matches Err(AppError::BadRequest(m)) && m@ == "new password must be at least 6 characters"@),
        r matches Ok(c) ==> credentials_for(c, body.new@),
        r is Ok <==> (crate::auth::password_matches(core, body.current@) && crate::auth::byte_len(body.new@)
            >= crate::auth::MIN_PASSWORD_LEN),
{
    match check_password_change(core, body.current.as_str(), body.new.as_str()) {
        Ok(c) => Ok(c),
        Err(e) => Err(AppError::BadRequest(e.message())),
    }
}

/// The API answer to a refused password reset: too many attempts keep
/// their status, every other refusal is a bad request; the text is the
/// refusal's.
pub fn reset_refusal(e: ResetError) -> (r: AppError)
    ensures
        e is TooManyRequests ==> (r matches AppError::TooManyRequests(m) && m@ == reset_error_text(e)),
        !(e is TooManyRequests) ==> (r matches AppError::BadRequest(m) && m@ == reset_error_text(e)),
{
    let m = e.message();
    match e {
        ResetError::TooManyRequests => AppError::TooManyRequests(m),
        _ => AppError::BadRequest(m),
    }
}

/// Checks a password-reset request (see `reset_password_with_code`); a
/// refusal is answered with `reset_refusal`.
pub fn reset_password(
    core: &mut AuthCore,
    addr: ClientAddr,
    body: &ResetPasswordRequest,
    mono_now: u64,
    wall_now: i128,
) -> (r: Result<(NewCredentials, i64), AppError>)
    requires
        wall_in_range(wall_now),
    ensures
        final(core).reset_guards@ == reset_guards_after(old(core).reset_guards@, addr, mono_now),
        !reset_allowed(old(core).reset_guards@, addr, mono_now) ==> (r matches Err(AppError::TooManyRequests(m))
            && m@ == reset_error_text(ResetError::TooManyRequests)),
        reset_allowed(old(core).reset_guards@, addr, mono_now) && byte_len(body.new@) < MIN_PASSWORD_LEN
            ==> (r matches Err(AppError::BadRequest(m)) && m@ == reset_error_text(ResetError::TooShort)),
        reset_allowed(old(core).reset_guards@, addr, mono_now) && byte_len(body.new@) >= MIN_PASSWORD_LEN ==> {
            &&& final(core).reset_codes@ == redeemed(old(core).reset_codes@, body.code@, wall_now).1
            &&& match redeemed(old(core).reset_codes@, body.code@, wall_now).0 {
                Ok(admin) => r matches Ok((c, a)) && a == admin && credentials_for(c, body.new@),
                Err(e) => r matches Err(AppError::BadRequest(m)) && m@ == reset_error_text(ResetError::Code(e)),
            }
        },
{
    match reset_password_with_code(core, addr, body.code.as_str(), body.new.as_str(), mono_now, wall_now) {
        Ok(v) => Ok(v),
        Err(e) => Err(reset_refusal(e)),
    }
}

// ---------------------------------------------------------------------------
// System status
// ---------------------------------------------------------------------------

/// The main administrator (the first of the list, 0 when there is none)
/// and the deputies (the others).
pub fn split_admins(admins: &Vec<i64>) -> (r: (i64, Vec<i64>))
    ensures
        r.0 == (if admins@.len() > 0 { admins@[0] } else { 0 }),
        r.1@ == (if admins@.len() > 1 { admins@.subrange(1, admins@.len() as int) } else { Seq::empty() }),
{
    let main = if admins.len() > 0 { admins[0] } else { 0 };
    let mut deputies: Vec<i64> = Vec::new();
    if admins.len() > 1 {
        let mut i: usize = 1;
        while i < admins.len()
            invariant
                1 <= i <= admins@.len(),
                deputies@ == admins@.subrange(1, i as int),
            decreases admins@.len() - i,
        {
            deputies.push(admins[i]);
            i = i + 1;
            assert(deputies@ =~= admins@.subrange(1, i as int));
        }
    } else {
        assert(deputies@ =~= Seq::empty());
    }
    (main, deputies)
}

/// Whole mebibytes in `bytes` bytes.
pub fn memory_mb(bytes: u64) -> (r: u64)
    ensures
        r == bytes / 1024 / 1024,
{
    bytes / 1024 / 1024
}


/// A plugin's API record carries its reported state unchanged: name,
/// version, the enabled flag, the access-control flag, groups and friends,
/// and its mode under the persisted name that reads back as that mode.
pub proof fn lemma_record_matches_state(p: PluginStateView)
    ensures
        info_of(p).name == p.name,
        info_of(p).version == p.version,
        info_of(p).enabled == p.enabled,
        info_of(p).access_control == p.access_control,
        info_of(p).groups == p.groups,
        info_of(p).friends == p.friends,
        mode_of_text(info_of(p).list_mode) == Some(p.mode),
{
    crate::acl::lemma_mode_text_round_trip(p.mode);
}

/// The record a lookup by name answers with is that of a reported plugin
/// of that name, with its flags and mode as reported.
pub proof fn lemma_lookup_record(ps: Seq<PluginStateView>, name: Seq<char>, info: PluginInfo)
    requires
        lookup_outcome(ps, name, Ok(info)),
    ensures
        exists|i: int|
            0 <= i < ps.len() && #[trigger] ps[i].name == name && info@.enabled == ps[i].enabled
                && info@.access_control == ps[i].access_control && mode_of_text(info@.list_mode) == Some(ps[i].mode),
{
    let i = choose|i: int|
        0 <= i < ps.len() && ps[i].name == name && (forall|j: int| 0 <= j < i ==> #[trigger] ps[j].name != name)
            && info@ == info_of(#[trigger] ps[i]);
    lemma_record_matches_state(ps[i]);
}

/// Record `r` shows reported state `p` as it is: the name, the enabled and
/// access-control flags, and the mode.
pub open spec fn shows_state(r: PluginInfoView, p: PluginStateView) -> bool {
    &&& r.name == p.name
    &&& r.enabled == p.enabled
    &&& r.access_control == p.access_control
    &&& mode_of_text(r.list_mode) == Some(p.mode)
}

/// Record `r` shows one of the reported states `ps` other than this
/// plugin's, as it is.
pub open spec fn shows_some_state(ps: Seq<PluginStateView>, r: PluginInfoView) -> bool {
    exists|i: int| 0 <= i < ps.len() && ps[i].name != self_name() && #[trigger] shows_state(r, ps[i])
}

/// Every record of the plugin list is that of a reported plugin other than
/// this one, with its flags and mode as reported.
pub proof fn lemma_listed_records(ps: Seq<PluginStateView>)
    ensures
        forall|k: int| 0 <= k < listed(ps).len() ==> #[trigger] shows_some_state(ps, listed(ps)[k]),
    decreases ps.len(),
{
    if ps.len() > 0 {
        let d = ps.drop_last();
        lemma_listed_records(d);
        lemma_record_matches_state(ps.last());
        assert forall|k: int| 0 <= k < listed(ps).len() implies #[trigger] shows_some_state(ps, listed(ps)[k]) by {
            if ps.last().name == self_name() {
                assert(listed(ps) == listed(d));
                assert(shows_some_state(d, listed(d)[k]));
                let i = choose|i: int| 0 <= i < d.len() && d[i].name != self_name() && #[trigger] shows_state(listed(d)[k], d[i]);
                assert(ps[i] == d[i]);
                assert(shows_state(listed(ps)[k], ps[i]));
            } else if k < listed(d).len() {
                assert(listed(ps) == listed(d).push(info_of(ps.last())));
                assert(listed(ps)[k] == listed(d)[k]);
                assert(shows_some_state(d, listed(d)[k]));
                let i = choose|i: int| 0 <= i < d.len() && d[i].name != self_name() && #[trigger] shows_state(listed(d)[k], d[i]);
                assert(ps[i] == d[i]);
                assert(shows_state(listed(ps)[k], ps[i]));
            } else {
                assert(listed(ps) == listed(d).push(info_of(ps.last())));
                assert(listed(ps)[k] == info_of(ps.last()));
                assert(ps[ps.len() - 1] == ps.last());
                assert(shows_state(listed(ps)[k], ps[ps.len() - 1]));
            }
        }
    }
}

} // verus!
