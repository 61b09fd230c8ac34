//! The text the tool shows, in English or Chinese.
use vstd::prelude::*;
use crate::actions::{join3, ActionError};
use crate::model::{push_str, strings_view, ActionStatus, RiskLevel, ServiceState};
use crate::source_plan::{source_error_message, SourceError};
use crate::text::{chars_of, ends_with, eq_str, lower_all, lower_seq, owned, slice, starts_with, starts_with_str, string_of, ends_with_str, trim};

verus! {

/// The language asked for on the command line.
#[derive(Debug, Clone, Copy, PartialEq, Eq, Structural)]
pub enum LocaleArg {
    Auto,
    En,
    ZhCn,
}

/// The language the tool speaks.
#[derive(Debug, Clone, Copy, PartialEq, Eq, Structural)]
pub enum Locale {
    En,
    ZhCn,
}

/// The locale a language setting names, if it names one: blank values
/// and `auto` (any case) name none; a tag that begins with `zh` (any case)
/// names Chinese; every other tag names English.
pub open spec fn candidate_spec(value: Seq<char>) -> Option<Locale> {
    let t = trim(value);
    if t.len() == 0 || lower_seq(t) == "auto"@ {
        None
    } else {
        Some(tag_spec(t))
    }
}

/// The locale of a language tag: Chinese for tags that begin with `zh`
/// (any case, after trimming), else English.
pub open spec fn tag_spec(value: Seq<char>) -> Locale {
    if starts_with(lower_seq(trim(value)), "zh"@) {
        Locale::ZhCn
    } else {
        Locale::En
    }
}

/// The first locale that the settings at or after `from` name.
pub open spec fn first_candidate(values: Seq<Seq<char>>, from: int) -> Option<Locale>
    decreases values.len() - from,
{
    if from < 0 || from >= values.len() {
        None
    } else {
        match candidate_spec(values[from]) {
            Some(l) => Some(l),
            None => first_candidate(values, from + 1),
        }
    }
}

/// The locale in use: the one asked for, or for `auto` the first one
/// that the language settings name, English when none does.
pub open spec fn resolve_spec(requested: LocaleArg, settings: Seq<Seq<char>>) -> Locale {
    match requested {
        LocaleArg::En => Locale::En,
        LocaleArg::ZhCn => Locale::ZhCn,
        LocaleArg::Auto => match first_candidate(settings, 0) {
            Some(l) => l,
            None => Locale::En,
        },
    }
}

/// The part of `s` between the prefix `p` and the suffix `x`, when `s`
/// has both.
pub open spec fn between(s: Seq<char>, p: Seq<char>, x: Seq<char>) -> Option<Seq<char>> {
    if starts_with(s, p) && ends_with(s.skip(p.len() as int), x) {
        Some(s.subrange(p.len() as int, s.len() - x.len()))
    } else {
        None
    }
}

fn between_exec(s: &Vec<char>, p: &str, x: &str) -> (r: Option<Vec<char>>)
    ensures
        r matches Some(v) ==> between(s@, p@, x@) == Some(v@),
        r is None ==> between(s@, p@, x@) is None,
{
    if !starts_with_str(s, p) {
        return None;
    }
    let pv = chars_of(p);
    let rest = slice(s, pv.len(), s.len());
    assert(rest@ == s@.skip(p@.len() as int));
    if !ends_with_str(&rest, x) {
        return None;
    }
    let xv = chars_of(x);
    let mid = slice(s, pv.len(), s.len() - xv.len());
    Some(mid)
}

fn cat(a: &str, b: &Vec<char>, c: &str) -> (r: String)
    ensures
        r@ == a@ + b@ + c@,
{
    let mut v = chars_of(a);
    crate::text::extend(&mut v, b);
    crate::text::extend_str(&mut v, c);
    string_of(&v)
}

/// The interface texts: key, English, Chinese.
pub open spec fn text_row(i: int) -> (Seq<char>, Seq<char>, Seq<char>) {
    if i == 0 {
        ("live_linux_only"@, "live execution is only supported on Linux SBC hosts"@, "实时执行仅支持 Linux SBC 主机"@)
    } else if i == 1 {
        ("not_available"@, "n/a"@, "不可用"@)
    } else if i == 2 {
        ("synthetic_data"@, "SYNTHETIC DATA"@, "模拟数据"@)
    } else if i == 3 {
        ("network_interfaces"@, "network interface(s)"@, "个网络接口"@)
    } else if i == 4 {
        ("capability_signals"@, "capability signal(s)"@, "个能力信号"@)
    } else if i == 5 {
        ("alerts"@, "alert(s)"@, "个提醒"@)
    } else if i == 6 {
        ("root"@, "root"@, "管理员权限"@)
    } else if i == 7 {
        ("planned_steps"@, "Planned steps"@, "计划步骤"@)
    } else if i == 8 {
        ("raw_output"@, "Raw output"@, "原始输出"@)
    } else if i == 9 {
        ("probe"@, "probe"@, "设备探测"@)
    } else if i == 10 {
        ("execution"@, "execution"@, "执行策略"@)
    } else if i == 11 {
        ("native_actions"@, "native-actions"@, "内置操作执行层"@)
    } else if i == 12 {
        ("device_tree"@, "device-tree"@, "设备树"@)
    } else if i == 13 {
        ("synthetic_provider"@, "synthetic demo provider"@, "模拟数据提供器"@)
    } else if i == 14 {
        ("live_provider"@, "live Linux provider"@, "Linux 实时数据提供器"@)
    } else if i == 15 {
        ("dry_run_enabled"@, "dry-run guard enabled"@, "已启用预演保护"@)
    } else if i == 16 {
        ("live_changes_enabled"@, "LIVE changes enabled"@, "已允许实时变更"@)
    } else if i == 17 {
        ("native_actions_ready"@, "built into the rsetup-next control plane"@, "由 rsetup-next 控制中心直接提供"@)
    } else if i == 18 {
        ("board_model_probe"@, "board model probe"@, "开发板型号探测"@)
    } else if i == 19 {
        ("ready"@, "OK"@, "就绪"@)
    } else if i == 20 {
        ("unavailable"@, "--"@, "缺失"@)
    } else if i == 21 {
        ("mission_control"@, "SBC CONTROL CENTER"@, "SBC 控制中心"@)
    } else if i == 22 {
        ("demo_dry"@, "DEMO / DRY"@, "演示 / 预演"@)
    } else if i == 23 {
        ("local_live"@, "LOCAL / LIVE DATA"@, "本机 / 实时数据"@)
    } else if i == 24 {
        ("cpu_load"@, "CPU LOAD"@, "处理器负载"@)
    } else if i == 25 {
        ("memory_bus"@, "MEMORY"@, "内存占用"@)
    } else if i == 26 {
        ("device_core"@, "DEVICE CORE"@, "设备概况"@)
    } else if i == 27 {
        ("service_signals"@, "SERVICE SIGNALS"@, "服务状态"@)
    } else if i == 28 {
        ("guided_operations"@, "GUIDED OPERATIONS"@, "引导式操作"@)
    } else if i == 29 {
        ("task_brief"@, "TASK BRIEF"@, "操作说明"@)
    } else if i == 30 {
        ("confirm_change"@, "CONFIRM CHANGE"@, "确认变更"@)
    } else if i == 31 {
        ("confirm_help"@, "This operation may change the board. Press Y to continue or N to cancel."@, "此操作可能修改开发板。按 Y 继续，按 N 取消。"@)
    } else if i == 32 {
        ("last_result"@, "LAST RESULT"@, "最近结果"@)
    } else if i == 33 {
        ("steps_short"@, "step(s)"@, "步"@)
    } else if i == 34 {
        ("no_operation"@, "No operation selected"@, "未选择操作"@)
    } else if i == 35 {
        ("select"@, "select"@, "选择"@)
    } else if i == 36 {
        ("run"@, "run"@, "运行"@)
    } else if i == 37 {
        ("refresh"@, "refresh"@, "刷新"@)
    } else if i == 38 {
        ("exit"@, "exit"@, "退出"@)
    } else if i == 39 {
        ("synthetic_blocked"@, "SYNTHETIC TELEMETRY · CHANGES BLOCKED"@, "模拟遥测 · 真实变更已阻止"@)
    } else if i == 40 {
        ("device_stable"@, "DEVICE LINK STABLE"@, "设备连接稳定"@)
    } else if i == 41 {
        ("no_sensor"@, "NO SENSOR"@, "无传感器"@)
    } else if i == 42 {
        ("uptime"@, "UP"@, "运行时间"@)
    } else if i == 43 {
        ("thermal"@, "THERMAL"@, "温度"@)
    } else if i == 44 {
        ("load_average"@, "LOAD"@, "系统负载"@)
    } else if i == 45 {
        ("system_sources"@, "System sources"@, "系统软件源"@)
    } else if i == 46 {
        ("radxa_sources"@, "Radxa sources"@, "Radxa 软件源"@)
    } else if i == 47 {
        ("managed_source_files"@, "Managed source files"@, "受管源文件"@)
    } else if i == 48 {
        ("mirror_providers"@, "Mirror providers"@, "可选镜像"@)
    } else if i == 49 {
        ("selected_mirror"@, "Selected mirror"@, "所选镜像"@)
    } else if i == 50 {
        ("no_source_changes"@, "No managed APT source entry needs to change."@, "当前受管软件源无需修改。"@)
    } else if i == 51 {
        ("replacements"@, "replacement(s)"@, "处替换"@)
    } else if i == 52 {
        ("backup_files"@, "Backup files"@, "备份文件"@)
    } else if i == 53 {
        ("source_picker"@, "SELECT PACKAGE MIRROR"@, "选择软件源镜像"@)
    } else if i == 54 {
        ("source_plan"@, "CHANGE PREVIEW"@, "变更预览"@)
    } else if i == 55 {
        ("source_plan_token"@, "Plan token"@, "计划令牌"@)
    } else if i == 56 {
        ("source_files_short"@, "file(s)"@, "个文件"@)
    } else if i == 57 {
        ("source_rolled_back"@, "Package refresh failed and the source files were rolled back."@, "软件包刷新失败，已自动回滚。"@)
    } else {
        ("source_plan_ready"@, "Dry run complete; no system file was changed."@, "预演完成，未修改系统文件。"@)
    }
}

fn text_row_exec(i: usize) -> (r: (&'static str, &'static str, &'static str))
    requires
        i < 59,
    ensures
        (r.0@, r.1@, r.2@) == text_row(i as int),
{
    if i == 0 {
        ("live_linux_only", "live execution is only supported on Linux SBC hosts", "实时执行仅支持 Linux SBC 主机")
    } else if i == 1 {
        ("not_available", "n/a", "不可用")
    } else if i == 2 {
        ("synthetic_data", "SYNTHETIC DATA", "模拟数据")
    } else if i == 3 {
        ("network_interfaces", "network interface(s)", "个网络接口")
    } else if i == 4 {
        ("capability_signals", "capability signal(s)", "个能力信号")
    } else if i == 5 {
        ("alerts", "alert(s)", "个提醒")
    } else if i == 6 {
        ("root", "root", "管理员权限")
    } else if i == 7 {
        ("planned_steps", "Planned steps", "计划步骤")
    } else if i == 8 {
        ("raw_output", "Raw output", "原始输出")
    } else if i == 9 {
        ("probe", "probe", "设备探测")
    } else if i == 10 {
        ("execution", "execution", "执行策略")
    } else if i == 11 {
        ("native_actions", "native-actions", "内置操作执行层")
    } else if i == 12 {
        ("device_tree", "device-tree", "设备树")
    } else if i == 13 {
        ("synthetic_provider", "synthetic demo provider", "模拟数据提供器")
    } else if i == 14 {
        ("live_provider", "live Linux provider", "Linux 实时数据提供器")
    } else if i == 15 {
        ("dry_run_enabled", "dry-run guard enabled", "已启用预演保护")
    } else if i == 16 {
        ("live_changes_enabled", "LIVE changes enabled", "已允许实时变更")
    } else if i == 17 {
        ("native_actions_ready", "built into the rsetup-next control plane", "由 rsetup-next 控制中心直接提供")
    } else if i == 18 {
        ("board_model_probe", "board model probe", "开发板型号探测")
    } else if i == 19 {
        ("ready", "OK", "就绪")
    } else if i == 20 {
        ("unavailable", "--", "缺失")
    } else if i == 21 {
        ("mission_control", "SBC CONTROL CENTER", "SBC 控制中心")
    } else if i == 22 {
        ("demo_dry", "DEMO / DRY", "演示 / 预演")
    } else if i == 23 {
        ("local_live", "LOCAL / LIVE DATA", "本机 / 实时数据")
    } else if i == 24 {
        ("cpu_load", "CPU LOAD", "处理器负载")
    } else if i == 25 {
        ("memory_bus", "MEMORY", "内存占用")
    } else if i == 26 {
        ("device_core", "DEVICE CORE", "设备概况")
    } else if i == 27 {
        ("service_signals", "SERVICE SIGNALS", "服务状态")
    } else if i == 28 {
        ("guided_operations", "GUIDED OPERATIONS", "引导式操作")
    } else if i == 29 {
        ("task_brief", "TASK BRIEF", "操作说明")
    } else if i == 30 {
        ("confirm_change", "CONFIRM CHANGE", "确认变更")
    } else if i == 31 {
        ("confirm_help", "This operation may change the board. Press Y to continue or N to cancel.", "此操作可能修改开发板。按 Y 继续，按 N 取消。")
    } else if i == 32 {
        ("last_result", "LAST RESULT", "最近结果")
    } else if i == 33 {
        ("steps_short", "step(s)", "步")
    } else if i == 34 {
        ("no_operation", "No operation selected", "未选择操作")
    } else if i == 35 {
        ("select", "select", "选择")
    } else if i == 36 {
        ("run", "run", "运行")
    } else if i == 37 {
        ("refresh", "refresh", "刷新")
    } else if i == 38 {
        ("exit", "exit", "退出")
    } else if i == 39 {
        ("synthetic_blocked", "SYNTHETIC TELEMETRY · CHANGES BLOCKED", "模拟遥测 · 真实变更已阻止")
    } else if i == 40 {
        ("device_stable", "DEVICE LINK STABLE", "设备连接稳定")
    } else if i == 41 {
        ("no_sensor", "NO SENSOR", "无传感器")
    } else if i == 42 {
        ("uptime", "UP", "运行时间")
    } else if i == 43 {
        ("thermal", "THERMAL", "温度")
    } else if i == 44 {
        ("load_average", "LOAD", "系统负载")
    } else if i == 45 {
        ("system_sources", "System sources", "系统软件源")
    } else if i == 46 {
        ("radxa_sources", "Radxa sources", "Radxa 软件源")
    } else if i == 47 {
        ("managed_source_files", "Managed source files", "受管源文件")
    } else if i == 48 {
        ("mirror_providers", "Mirror providers", "可选镜像")
    } else if i == 49 {
        ("selected_mirror", "Selected mirror", "所选镜像")
    } else if i == 50 {
        ("no_source_changes", "No managed APT source entry needs to change.", "当前受管软件源无需修改。")
    } else if i == 51 {
        ("replacements", "replacement(s)", "处替换")
    } else if i == 52 {
        ("backup_files", "Backup files", "备份文件")
    } else if i == 53 {
        ("source_picker", "SELECT PACKAGE MIRROR", "选择软件源镜像")
    } else if i == 54 {
        ("source_plan", "CHANGE PREVIEW", "变更预览")
    } else if i == 55 {
        ("source_plan_token", "Plan token", "计划令牌")
    } else if i == 56 {
        ("source_files_short", "file(s)", "个文件")
    } else if i == 57 {
        ("source_rolled_back", "Package refresh failed and the source files were rolled back.", "软件包刷新失败，已自动回滚。")
    } else {
        ("source_plan_ready", "Dry run complete; no system file was changed.", "预演完成，未修改系统文件。")
    }
}

/// The first row of the table at or after `from` whose key is `key`.
pub open spec fn text_index_from(key: Seq<char>, from: int) -> Option<int>
    decreases 59 - from,
{
    if from < 0 || from >= 59 {
        None
    } else if text_row(from).0 == key {
        Some(from)
    } else {
        text_index_from(key, from + 1)
    }
}

fn text_index(key: &Vec<char>) -> (r: Option<usize>)
    ensures
        r matches Some(i) ==> i < 59 && text_index_from(key@, 0) == Some(i as int),
        r is None ==> text_index_from(key@, 0) is None,
{
    let mut i: usize = 0;
    while i < 59
        invariant
            i <= 59,
            text_index_from(key@, 0) == text_index_from(key@, i as int),
        decreases 59 - i,
    {
        let row = text_row_exec(i);
        if eq_str(key, row.0) {
            return Some(i);
        }
        i = i + 1;
    }
    None
}

/// The Chinese titles of the built-in actions, by action id.
pub open spec fn title_row(i: int) -> (Seq<char>, Seq<char>) {
    if i == 0 {
        ("system.inspect"@, "运行系统检查"@)
    } else if i == 1 {
        ("system.update"@, "更新操作系统"@)
    } else if i == 2 {
        ("system.change-sources"@, "切换软件源"@)
    } else if i == 3 {
        ("service.ssh-install"@, "安装远程终端"@)
    } else if i == 4 {
        ("service.ssh-enable"@, "启用远程终端"@)
    } else if i == 5 {
        ("service.ssh-disable"@, "停用远程终端"@)
    } else if i == 6 {
        ("service.ssh-regenerate-host-keys"@, "重新生成 SSH 主机密钥"@)
    } else if i == 7 {
        ("service.ssh-remove"@, "移除远程终端"@)
    } else if i == 8 {
        ("network.restart"@, "重启网络管理器"@)
    } else if i == 9 {
        ("service.docker-install"@, "安装容器运行时"@)
    } else if i == 10 {
        ("service.docker-enable"@, "启用容器运行时"@)
    } else if i == 11 {
        ("service.docker-disable"@, "停用容器运行时"@)
    } else if i == 12 {
        ("service.docker-remove"@, "移除容器运行时"@)
    } else if i == 13 {
        ("storage.expand-root"@, "扩展根文件系统"@)
    } else if i == 14 {
        ("power.enable-sleep"@, "启用睡眠与休眠"@)
    } else if i == 15 {
        ("power.disable-sleep"@, "禁用睡眠与休眠"@)
    } else {
        ("system.reboot"@, "重启设备"@)
    }
}

fn title_row_exec(i: usize) -> (r: (&'static str, &'static str))
    requires
        i < 17,
    ensures
        (r.0@, r.1@) == title_row(i as int),
{
    if i == 0 {
        ("system.inspect", "运行系统检查")
    } else if i == 1 {
        ("system.update", "更新操作系统")
    } else if i == 2 {
        ("system.change-sources", "切换软件源")
    } else if i == 3 {
        ("service.ssh-install", "安装远程终端")
    } else if i == 4 {
        ("service.ssh-enable", "启用远程终端")
    } else if i == 5 {
        ("service.ssh-disable", "停用远程终端")
    } else if i == 6 {
        ("service.ssh-regenerate-host-keys", "重新生成 SSH 主机密钥")
    } else if i == 7 {
        ("service.ssh-remove", "移除远程终端")
    } else if i == 8 {
        ("network.restart", "重启网络管理器")
    } else if i == 9 {
        ("service.docker-install", "安装容器运行时")
    } else if i == 10 {
        ("service.docker-enable", "启用容器运行时")
    } else if i == 11 {
        ("service.docker-disable", "停用容器运行时")
    } else if i == 12 {
        ("service.docker-remove", "移除容器运行时")
    } else if i == 13 {
        ("storage.expand-root", "扩展根文件系统")
    } else if i == 14 {
        ("power.enable-sleep", "启用睡眠与休眠")
    } else if i == 15 {
        ("power.disable-sleep", "禁用睡眠与休眠")
    } else {
        ("system.reboot", "重启设备")
    }
}

/// The first row of the table at or after `from` whose key is `key`.
pub open spec fn title_index_from(key: Seq<char>, from: int) -> Option<int>
    decreases 17 - from,
{
    if from < 0 || from >= 17 {
        None
    } else if title_row(from).0 == key {
        Some(from)
    } else {
        title_index_from(key, from + 1)
    }
}

fn title_index(key: &Vec<char>) -> (r: Option<usize>)
    ensures
        r matches Some(i) ==> i < 17 && title_index_from(key@, 0) == Some(i as int),
        r is None ==> title_index_from(key@, 0) is None,
{
    let mut i: usize = 0;
    while i < 17
        invariant
            i <= 17,
            title_index_from(key@, 0) == title_index_from(key@, i as int),
        decreases 17 - i,
    {
        let row = title_row_exec(i);
        if eq_str(key, row.0) {
            return Some(i);
        }
        i = i + 1;
    }
    None
}

/// The Chinese descriptions of the built-in actions, by action id.
pub open spec fn description_row(i: int) -> (Seq<char>, Seq<char>) {
    if i == 0 {
        ("system.inspect"@, "重新读取开发板身份、健康状态、服务与已检测硬件。"@)
    } else if i == 1 {
        ("system.update"@, "刷新软件包索引并升级已安装的软件包。"@)
    } else if i == 2 {
        ("system.change-sources"@, "选择可信的 Debian、Ubuntu 与 Radxa 镜像；执行前预览并备份，刷新失败时自动回滚。"@)
    } else if i == 3 {
        ("service.ssh-install"@, "安装 OpenSSH 服务端软件包，不改变当前启用状态。"@)
    } else if i == 4 {
        ("service.ssh-enable"@, "启用并启动 SSH；请先确认远程登录账户使用安全凭据。"@)
    } else if i == 5 {
        ("service.ssh-disable"@, "停止 SSH 服务并禁止其自动启动。"@)
    } else if i == 6 {
        ("service.ssh-regenerate-host-keys"@, "替换本机 SSH 服务身份并生成一组新密钥。"@)
    } else if i == 7 {
        ("service.ssh-remove"@, "从本机移除 OpenSSH 服务端软件包。"@)
    } else if i == 8 {
        ("network.restart"@, "重启 NetworkManager 并重新检查本机网络接口。"@)
    } else if i == 9 {
        ("service.docker-install"@, "安装发行版提供的 Docker 软件包，不自动启用服务。"@)
    } else if i == 10 {
        ("service.docker-enable"@, "启用并启动 Docker 服务。"@)
    } else if i == 11 {
        ("service.docker-disable"@, "停止 Docker 服务并禁止其自动启动。"@)
    } else if i == 12 {
        ("service.docker-remove"@, "移除 Docker 软件包，保留现有容器数据。"@)
    } else if i == 13 {
        ("storage.expand-root"@, "将支持的根文件系统扩展至可用存储空间。"@)
    } else if i == 14 {
        ("power.enable-sleep"@, "恢复 systemd 睡眠与休眠目标。"@)
    } else if i == 15 {
        ("power.disable-sleep"@, "屏蔽系统睡眠与休眠目标，让 SBC 持续在线。"@)
    } else {
        ("system.reboot"@, "停止服务并立即重启本机开发板。"@)
    }
}

fn description_row_exec(i: usize) -> (r: (&'static str, &'static str))
    requires
        i < 17,
    ensures
        (r.0@, r.1@) == description_row(i as int),
{
    if i == 0 {
        ("system.inspect", "重新读取开发板身份、健康状态、服务与已检测硬件。")
    } else if i == 1 {
        ("system.update", "刷新软件包索引并升级已安装的软件包。")
    } else if i == 2 {
        ("system.change-sources", "选择可信的 Debian、Ubuntu 与 Radxa 镜像；执行前预览并备份，刷新失败时自动回滚。")
    } else if i == 3 {
        ("service.ssh-install", "安装 OpenSSH 服务端软件包，不改变当前启用状态。")
    } else if i == 4 {
        ("service.ssh-enable", "启用并启动 SSH；请先确认远程登录账户使用安全凭据。")
    } else if i == 5 {
        ("service.ssh-disable", "停止 SSH 服务并禁止其自动启动。")
    } else if i == 6 {
        ("service.ssh-regenerate-host-keys", "替换本机 SSH 服务身份并生成一组新密钥。")
    } else if i == 7 {
        ("service.ssh-remove", "从本机移除 OpenSSH 服务端软件包。")
    } else if i == 8 {
        ("network.restart", "重启 NetworkManager 并重新检查本机网络接口。")
    } else if i == 9 {
        ("service.docker-install", "安装发行版提供的 Docker 软件包，不自动启用服务。")
    } else if i == 10 {
        ("service.docker-enable", "启用并启动 Docker 服务。")
    } else if i == 11 {
        ("service.docker-disable", "停止 Docker 服务并禁止其自动启动。")
    } else if i == 12 {
        ("service.docker-remove", "移除 Docker 软件包，保留现有容器数据。")
    } else if i == 13 {
        ("storage.expand-root", "将支持的根文件系统扩展至可用存储空间。")
    } else if i == 14 {
        ("power.enable-sleep", "恢复 systemd 睡眠与休眠目标。")
    } else if i == 15 {
        ("power.disable-sleep", "屏蔽系统睡眠与休眠目标，让 SBC 持续在线。")
    } else {
        ("system.reboot", "停止服务并立即重启本机开发板。")
    }
}

/// The first row of the table at or after `from` whose key is `key`.
pub open spec fn description_index_from(key: Seq<char>, from: int) -> Option<int>
    decreases 17 - from,
{
    if from < 0 || from >= 17 {
        None
    } else if description_row(from).0 == key {
        Some(from)
    } else {
        description_index_from(key, from + 1)
    }
}

fn description_index(key: &Vec<char>) -> (r: Option<usize>)
    ensures
        r matches Some(i) ==> i < 17 && description_index_from(key@, 0) == Some(i as int),
        r is None ==> description_index_from(key@, 0) is None,
{
    let mut i: usize = 0;
    while i < 17
        invariant
            i <= 17,
            description_index_from(key@, 0) == description_index_from(key@, i as int),
        decreases 17 - i,
    {
        let row = description_row_exec(i);
        if eq_str(key, row.0) {
            return Some(i);
        }
        i = i + 1;
    }
    None
}

/// The Chinese forms of the fixed reasons why an action is unavailable.
pub open spec fn reason_row(i: int) -> (Seq<char>, Seq<char>) {
    if i == 0 {
        ("OpenSSH server is already installed."@, "OpenSSH 服务端已安装。"@)
    } else if i == 1 {
        ("Docker is already installed."@, "Docker 已安装。"@)
    } else if i == 2 {
        ("SSH is already enabled and running."@, "SSH 已启用并正在运行。"@)
    } else if i == 3 {
        ("SSH is already disabled and stopped."@, "SSH 已停用并停止运行。"@)
    } else if i == 4 {
        ("Docker is already enabled and running."@, "Docker 已启用并正在运行。"@)
    } else if i == 5 {
        ("Docker is already disabled and stopped."@, "Docker 已停用并停止运行。"@)
    } else if i == 6 {
        ("Sleep and hibernate targets are already enabled."@, "睡眠与休眠目标已启用。"@)
    } else if i == 7 {
        ("Sleep and hibernate targets are already disabled."@, "睡眠与休眠目标已停用。"@)
    } else {
        ("Neither resize2fs nor btrfs is installed."@, "未安装 resize2fs 或 btrfs。"@)
    }
}

fn reason_row_exec(i: usize) -> (r: (&'static str, &'static str))
    requires
        i < 9,
    ensures
        (r.0@, r.1@) == reason_row(i as int),
{
    if i == 0 {
        ("OpenSSH server is already installed.", "OpenSSH 服务端已安装。")
    } else if i == 1 {
        ("Docker is already installed.", "Docker 已安装。")
    } else if i == 2 {
        ("SSH is already enabled and running.", "SSH 已启用并正在运行。")
    } else if i == 3 {
        ("SSH is already disabled and stopped.", "SSH 已停用并停止运行。")
    } else if i == 4 {
        ("Docker is already enabled and running.", "Docker 已启用并正在运行。")
    } else if i == 5 {
        ("Docker is already disabled and stopped.", "Docker 已停用并停止运行。")
    } else if i == 6 {
        ("Sleep and hibernate targets are already enabled.", "睡眠与休眠目标已启用。")
    } else if i == 7 {
        ("Sleep and hibernate targets are already disabled.", "睡眠与休眠目标已停用。")
    } else {
        ("Neither resize2fs nor btrfs is installed.", "未安装 resize2fs 或 btrfs。")
    }
}

/// The first row of the table at or after `from` whose key is `key`.
pub open spec fn reason_index_from(key: Seq<char>, from: int) -> Option<int>
    decreases 9 - from,
{
    if from < 0 || from >= 9 {
        None
    } else if reason_row(from).0 == key {
        Some(from)
    } else {
        reason_index_from(key, from + 1)
    }
}

fn reason_index(key: &Vec<char>) -> (r: Option<usize>)
    ensures
        r matches Some(i) ==> i < 9 && reason_index_from(key@, 0) == Some(i as int),
        r is None ==> reason_index_from(key@, 0) is None,
{
    let mut i: usize = 0;
    while i < 9
        invariant
            i <= 9,
            reason_index_from(key@, 0) == reason_index_from(key@, i as int),
        decreases 9 - i,
    {
        let row = reason_row_exec(i);
        if eq_str(key, row.0) {
            return Some(i);
        }
        i = i + 1;
    }
    None
}

/// The English titles of the built-in actions, with their ids.
pub open spec fn known_row(i: int) -> (Seq<char>, Seq<char>) {
    if i == 0 {
        ("Run system inspection"@, "system.inspect"@)
    } else if i == 1 {
        ("Update operating system"@, "system.update"@)
    } else if i == 2 {
        ("Change package mirrors"@, "system.change-sources"@)
    } else if i == 3 {
        ("Install remote shell"@, "service.ssh-install"@)
    } else if i == 4 {
        ("Enable remote shell"@, "service.ssh-enable"@)
    } else if i == 5 {
        ("Disable remote shell"@, "service.ssh-disable"@)
    } else if i == 6 {
        ("Regenerate SSH host keys"@, "service.ssh-regenerate-host-keys"@)
    } else if i == 7 {
        ("Remove remote shell"@, "service.ssh-remove"@)
    } else if i == 8 {
        ("Restart network manager"@, "network.restart"@)
    } else if i == 9 {
        ("Install container runtime"@, "service.docker-install"@)
    } else if i == 10 {
        ("Enable container runtime"@, "service.docker-enable"@)
    } else if i == 11 {
        ("Disable container runtime"@, "service.docker-disable"@)
    } else if i == 12 {
        ("Remove container runtime"@, "service.docker-remove"@)
    } else if i == 13 {
        ("Expand root filesystem"@, "storage.expand-root"@)
    } else if i == 14 {
        ("Enable sleep and hibernate"@, "power.enable-sleep"@)
    } else if i == 15 {
        ("Disable sleep and hibernate"@, "power.disable-sleep"@)
    } else {
        ("Reboot device"@, "system.reboot"@)
    }
}

fn known_row_exec(i: usize) -> (r: (&'static str, &'static str))
    requires
        i < 17,
    ensures
        (r.0@, r.1@) == known_row(i as int),
{
    if i == 0 {
        ("Run system inspection", "system.inspect")
    } else if i == 1 {
        ("Update operating system", "system.update")
    } else if i == 2 {
        ("Change package mirrors", "system.change-sources")
    } else if i == 3 {
        ("Install remote shell", "service.ssh-install")
    } else if i == 4 {
        ("Enable remote shell", "service.ssh-enable")
    } else if i == 5 {
        ("Disable remote shell", "service.ssh-disable")
    } else if i == 6 {
        ("Regenerate SSH host keys", "service.ssh-regenerate-host-keys")
    } else if i == 7 {
        ("Remove remote shell", "service.ssh-remove")
    } else if i == 8 {
        ("Restart network manager", "network.restart")
    } else if i == 9 {
        ("Install container runtime", "service.docker-install")
    } else if i == 10 {
        ("Enable container runtime", "service.docker-enable")
    } else if i == 11 {
        ("Disable container runtime", "service.docker-disable")
    } else if i == 12 {
        ("Remove container runtime", "service.docker-remove")
    } else if i == 13 {
        ("Expand root filesystem", "storage.expand-root")
    } else if i == 14 {
        ("Enable sleep and hibernate", "power.enable-sleep")
    } else if i == 15 {
        ("Disable sleep and hibernate", "power.disable-sleep")
    } else {
        ("Reboot device", "system.reboot")
    }
}

/// The first row of the table at or after `from` whose key is `key`.
pub open spec fn known_index_from(key: Seq<char>, from: int) -> Option<int>
    decreases 17 - from,
{
    if from < 0 || from >= 17 {
        None
    } else if known_row(from).0 == key {
        Some(from)
    } else {
        known_index_from(key, from + 1)
    }
}

fn known_index(key: &Vec<char>) -> (r: Option<usize>)
    ensures
        r matches Some(i) ==> i < 17 && known_index_from(key@, 0) == Some(i as int),
        r is None ==> known_index_from(key@, 0) is None,
{
    let mut i: usize = 0;
    while i < 17
        invariant
            i <= 17,
            known_index_from(key@, 0) == known_index_from(key@, i as int),
        decreases 17 - i,
    {
        let row = known_row_exec(i);
        if eq_str(key, row.0) {
            return Some(i);
        }
        i = i + 1;
    }
    None
}

/// The Chinese steps of the built-in actions, by action id.
pub open spec fn steps_row(i: int) -> (Seq<char>, Seq<Seq<char>>) {
    if i == 0 {
        ("system.inspect"@, seq!["读取操作系统与设备树身份"@, "检查存储、网络、温度与服务"@, "重新计算提醒"@])
    } else if i == 1 {
        ("system.update"@, seq!["刷新软件包元数据"@, "升级已安装的软件包"@, "列出被保留的软件包"@])
    } else if i == 2 {
        ("system.change-sources"@, seq!["检测受管 APT 软件源条目"@, "只预览已识别的 Debian、Ubuntu 与 Radxa 地址变更"@, "备份并原子替换受影响文件"@, "刷新软件包元数据，失败时恢复原文件"@])
    } else if i == 3 {
        ("service.ssh-install"@, seq!["安装 OpenSSH 服务端软件包"@, "刷新检测到的 SSH 服务状态"@])
    } else if i == 4 {
        ("service.ssh-enable"@, seq!["检查 SSH 服务与账户安全"@, "设置开机启用"@, "启动 SSH 服务"@])
    } else if i == 5 {
        ("service.ssh-disable"@, seq!["停止 SSH 服务"@, "禁止自动启动"@, "检查服务状态"@])
    } else if i == 6 {
        ("service.ssh-regenerate-host-keys"@, seq!["删除现有 SSH 主机密钥文件"@, "生成一组新的主机密钥"@, "刷新检测到的 SSH 服务状态"@])
    } else if i == 7 {
        ("service.ssh-remove"@, seq!["移除 OpenSSH 服务端软件包"@, "刷新检测到的 SSH 服务状态"@])
    } else if i == 8 {
        ("network.restart"@, seq!["记录活动接口"@, "重启 NetworkManager"@, "等待网络接口恢复"@])
    } else if i == 9 {
        ("service.docker-install"@, seq!["安装 Docker 软件包"@, "刷新检测到的 Docker 服务状态"@])
    } else if i == 10 {
        ("service.docker-enable"@, seq!["设置 Docker 开机启用"@, "启动 Docker 服务"@, "检查服务状态"@])
    } else if i == 11 {
        ("service.docker-disable"@, seq!["停止 Docker 服务及容器"@, "禁止自动启动"@, "检查服务状态"@])
    } else if i == 12 {
        ("service.docker-remove"@, seq!["移除 Docker 软件包"@, "保留 /var/lib/docker 中的现有数据"@])
    } else if i == 13 {
        ("storage.expand-root"@, seq!["确定根块设备"@, "验证 ext4 或 btrfs"@, "扩展文件系统"@, "检查扩展后容量"@])
    } else if i == 14 {
        ("power.enable-sleep"@, seq!["取消屏蔽睡眠目标"@, "重新加载 systemd"@, "检查目标状态"@])
    } else if i == 15 {
        ("power.disable-sleep"@, seq!["屏蔽睡眠目标"@, "重新加载 systemd"@, "检查目标状态"@])
    } else {
        ("system.reboot"@, seq!["写回待处理数据"@, "停止服务"@, "请求系统重启"@])
    }
}

fn steps_row_exec(i: usize) -> (r: Vec<String>)
    requires
        i < 17,
    ensures
        strings_view(r@) == steps_row(i as int).1,
{
    if i == 0 {
        let mut v: Vec<String> = Vec::new();
        push_str(&mut v, "读取操作系统与设备树身份");
        push_str(&mut v, "检查存储、网络、温度与服务");
        push_str(&mut v, "重新计算提醒");
        v
    } else if i == 1 {
        let mut v: Vec<String> = Vec::new();
        push_str(&mut v, "刷新软件包元数据");
        push_str(&mut v, "升级已安装的软件包");
        push_str(&mut v, "列出被保留的软件包");
        v
    } else if i == 2 {
        let mut v: Vec<String> = Vec::new();
        push_str(&mut v, "检测受管 APT 软件源条目");
        push_str(&mut v, "只预览已识别的 Debian、Ubuntu 与 Radxa 地址变更");
        push_str(&mut v, "备份并原子替换受影响文件");
        push_str(&mut v, "刷新软件包元数据，失败时恢复原文件");
        v
    } else if i == 3 {
        let mut v: Vec<String> = Vec::new();
        push_str(&mut v, "安装 OpenSSH 服务端软件包");
        push_str(&mut v, "刷新检测到的 SSH 服务状态");
        v
    } else if i == 4 {
        let mut v: Vec<String> = Vec::new();
        push_str(&mut v, "检查 SSH 服务与账户安全");
        push_str(&mut v, "设置开机启用");
        push_str(&mut v, "启动 SSH 服务");
        v
    } else if i == 5 {
        let mut v: Vec<String> = Vec::new();
        push_str(&mut v, "停止 SSH 服务");
        push_str(&mut v, "禁止自动启动");
        push_str(&mut v, "检查服务状态");
        v
    } else if i == 6 {
        let mut v: Vec<String> = Vec::new();
        push_str(&mut v, "删除现有 SSH 主机密钥文件");
        push_str(&mut v, "生成一组新的主机密钥");
        push_str(&mut v, "刷新检测到的 SSH 服务状态");
        v
    } else if i == 7 {
        let mut v: Vec<String> = Vec::new();
        push_str(&mut v, "移除 OpenSSH 服务端软件包");
        push_str(&mut v, "刷新检测到的 SSH 服务状态");
        v
    } else if i == 8 {
        let mut v: Vec<String> = Vec::new();
        push_str(&mut v, "记录活动接口");
        push_str(&mut v, "重启 NetworkManager");
        push_str(&mut v, "等待网络接口恢复");
        v
    } else if i == 9 {
        let mut v: Vec<String> = Vec::new();
        push_str(&mut v, "安装 Docker 软件包");
        push_str(&mut v, "刷新检测到的 Docker 服务状态");
        v
    } else if i == 10 {
        let mut v: Vec<String> = Vec::new();
        push_str(&mut v, "设置 Docker 开机启用");
        push_str(&mut v, "启动 Docker 服务");
        push_str(&mut v, "检查服务状态");
        v
    } else if i == 11 {
        let mut v: Vec<String> = Vec::new();
        push_str(&mut v, "停止 Docker 服务及容器");
        push_str(&mut v, "禁止自动启动");
        push_str(&mut v, "检查服务状态");
        v
    } else if i == 12 {
        let mut v: Vec<String> = Vec::new();
        push_str(&mut v, "移除 Docker 软件包");
        push_str(&mut v, "保留 /var/lib/docker 中的现有数据");
        v
    } else if i == 13 {
        let mut v: Vec<String> = Vec::new();
        push_str(&mut v, "确定根块设备");
        push_str(&mut v, "验证 ext4 或 btrfs");
        push_str(&mut v, "扩展文件系统");
        push_str(&mut v, "检查扩展后容量");
        v
    } else if i == 14 {
        let mut v: Vec<String> = Vec::new();
        push_str(&mut v, "取消屏蔽睡眠目标");
        push_str(&mut v, "重新加载 systemd");
        push_str(&mut v, "检查目标状态");
        v
    } else if i == 15 {
        let mut v: Vec<String> = Vec::new();
        push_str(&mut v, "屏蔽睡眠目标");
        push_str(&mut v, "重新加载 systemd");
        push_str(&mut v, "检查目标状态");
        v
    } else {
        let mut v: Vec<String> = Vec::new();
        push_str(&mut v, "写回待处理数据");
        push_str(&mut v, "停止服务");
        push_str(&mut v, "请求系统重启");
        v
    }
}

/// The first row of the table at or after `from` whose key is `key`.
pub open spec fn steps_index_from(key: Seq<char>, from: int) -> Option<int>
    decreases 17 - from,
{
    if from < 0 || from >= 17 {
        None
    } else if steps_row(from).0 == key {
        Some(from)
    } else {
        steps_index_from(key, from + 1)
    }
}

fn steps_index(key: &Vec<char>) -> (r: Option<usize>)
    ensures
        r matches Some(i) ==> i < 17 && steps_index_from(key@, 0) == Some(i as int),
        r is None ==> steps_index_from(key@, 0) is None,
{
    let mut i: usize = 0;
    while i < 17
        invariant
            i <= 17,
            steps_index_from(key@, 0) == steps_index_from(key@, i as int),
        decreases 17 - i,
    {
        let row_key = steps_key_exec(i);
        if eq_str(key, row_key) {
            return Some(i);
        }
        i = i + 1;
    }
    None
}

fn steps_key_exec(i: usize) -> (r: &'static str)
    requires
        i < 17,
    ensures
        r@ == steps_row(i as int).0,
{
    if i == 0 {
        "system.inspect"
    } else if i == 1 {
        "system.update"
    } else if i == 2 {
        "system.change-sources"
    } else if i == 3 {
        "service.ssh-install"
    } else if i == 4 {
        "service.ssh-enable"
    } else if i == 5 {
        "service.ssh-disable"
    } else if i == 6 {
        "service.ssh-regenerate-host-keys"
    } else if i == 7 {
        "service.ssh-remove"
    } else if i == 8 {
        "network.restart"
    } else if i == 9 {
        "service.docker-install"
    } else if i == 10 {
        "service.docker-enable"
    } else if i == 11 {
        "service.docker-disable"
    } else if i == 12 {
        "service.docker-remove"
    } else if i == 13 {
        "storage.expand-root"
    } else if i == 14 {
        "power.enable-sleep"
    } else if i == 15 {
        "power.disable-sleep"
    } else {
        "system.reboot"
    }
}

/// The plan warnings: key, English, Chinese.
pub open spec fn warning_row(i: int) -> (Seq<char>, Seq<char>, Seq<char>) {
    if i == 0 {
        ("radxa_only"@, "This provider changes Radxa sources only; system sources stay unchanged."@, "此镜像只会修改 Radxa 软件源，系统软件源保持不变。"@)
    } else if i == 1 {
        ("system_only"@, "This provider changes system sources only; Radxa sources stay unchanged."@, "此镜像只会修改系统软件源，Radxa 软件源保持不变。"@)
    } else if i == 2 {
        ("already_selected"@, "Managed sources already use this provider."@, "受管软件源已经使用该镜像。"@)
    } else if i == 3 {
        ("no_managed_sources"@, "No safely managed source entry was detected."@, "未检测到可安全管理的软件源条目。"@)
    } else {
        ("dry_run"@, "Dry-run mode is active; no system file will be written."@, "当前为预演模式，不会写入系统文件。"@)
    }
}

fn warning_row_exec(i: usize) -> (r: (&'static str, &'static str, &'static str))
    requires
        i < 5,
    ensures
        (r.0@, r.1@, r.2@) == warning_row(i as int),
{
    if i == 0 {
        ("radxa_only", "This provider changes Radxa sources only; system sources stay unchanged.", "此镜像只会修改 Radxa 软件源，系统软件源保持不变。")
    } else if i == 1 {
        ("system_only", "This provider changes system sources only; Radxa sources stay unchanged.", "此镜像只会修改系统软件源，Radxa 软件源保持不变。")
    } else if i == 2 {
        ("already_selected", "Managed sources already use this provider.", "受管软件源已经使用该镜像。")
    } else if i == 3 {
        ("no_managed_sources", "No safely managed source entry was detected.", "未检测到可安全管理的软件源条目。")
    } else {
        ("dry_run", "Dry-run mode is active; no system file will be written.", "当前为预演模式，不会写入系统文件。")
    }
}

/// The first row of the table at or after `from` whose key is `key`.
pub open spec fn warning_index_from(key: Seq<char>, from: int) -> Option<int>
    decreases 5 - from,
{
    if from < 0 || from >= 5 {
        None
    } else if warning_row(from).0 == key {
        Some(from)
    } else {
        warning_index_from(key, from + 1)
    }
}

fn warning_index(key: &Vec<char>) -> (r: Option<usize>)
    ensures
        r matches Some(i) ==> i < 5 && warning_index_from(key@, 0) == Some(i as int),
        r is None ==> warning_index_from(key@, 0) is None,
{
    let mut i: usize = 0;
    while i < 5
        invariant
            i <= 5,
            warning_index_from(key@, 0) == warning_index_from(key@, i as int),
        decreases 5 - i,
    {
        let row = warning_row_exec(i);
        if eq_str(key, row.0) {
            return Some(i);
        }
        i = i + 1;
    }
    None
}

/// The text of an interface key; unknown keys have none.
pub open spec fn text_spec(l: Locale, key: Seq<char>) -> Seq<char> {
    match text_index_from(key, 0) {
        Some(i) => if l == Locale::ZhCn {
            text_row(i).2
        } else {
            text_row(i).1
        },
        None => ""@,
    }
}

/// The name of a risk level.
pub open spec fn risk_spec(l: Locale, risk: RiskLevel) -> Seq<char> {
    match (l, risk) {
        (Locale::ZhCn, RiskLevel::Safe) => "安全"@,
        (Locale::ZhCn, RiskLevel::Guarded) => "需确认"@,
        (Locale::ZhCn, RiskLevel::High) => "高风险"@,
        (Locale::ZhCn, RiskLevel::Critical) => "严重风险"@,
        (_, RiskLevel::Safe) => "safe"@,
        (_, RiskLevel::Guarded) => "guarded"@,
        (_, RiskLevel::High) => "high"@,
        (_, RiskLevel::Critical) => "critical"@,
    }
}

/// The name of a service state.
pub open spec fn service_state_spec(l: Locale, state: ServiceState) -> Seq<char> {
    match (l, state) {
        (Locale::ZhCn, ServiceState::Active) => "运行中"@,
        (Locale::ZhCn, ServiceState::Inactive) => "未运行"@,
        (Locale::ZhCn, ServiceState::Failed) => "失败"@,
        (Locale::ZhCn, ServiceState::Unknown) => "未知"@,
        (_, ServiceState::Active) => "ACTIVE"@,
        (_, ServiceState::Inactive) => "INACTIVE"@,
        (_, ServiceState::Failed) => "FAILED"@,
        (_, ServiceState::Unknown) => "UNKNOWN"@,
    }
}

/// The title of an action: its Chinese title by id in Chinese when it has
/// one, else the title it came with.
pub open spec fn title_spec(l: Locale, id: Seq<char>, fallback: Seq<char>) -> Seq<char> {
    if l != Locale::ZhCn {
        fallback
    } else {
        match title_index_from(id, 0) {
            Some(i) => title_row(i).1,
            None => fallback,
        }
    }
}

/// The description of an action, as [`title_spec`] for titles.
pub open spec fn description_spec(l: Locale, id: Seq<char>, fallback: Seq<char>) -> Seq<char> {
    if l != Locale::ZhCn {
        fallback
    } else {
        match description_index_from(id, 0) {
            Some(i) => description_row(i).1,
            None => fallback,
        }
    }
}

/// The steps of an action, as [`title_spec`] for titles.
pub open spec fn steps_spec(l: Locale, id: Seq<char>, fallback: Seq<Seq<char>>) -> Seq<Seq<char>> {
    if l != Locale::ZhCn {
        fallback
    } else {
        match steps_index_from(id, 0) {
            Some(i) => steps_row(i).1,
            None => fallback,
        }
    }
}

/// Why an action is unavailable: in Chinese, the fixed reasons by table
/// and the reasons that name a package, a systemd unit or missing
/// commands with that name kept; anything else as it came.
pub open spec fn reason_spec(l: Locale, reason: Seq<char>) -> Seq<char> {
    if l != Locale::ZhCn {
        reason
    } else {
        match reason_index_from(reason, 0) {
            Some(i) => reason_row(i).1,
            None => match between(reason, "Package "@, " is not installed."@) {
                Some(p) => "未安装软件包 "@ + p + "。"@,
                None => match between(reason, "Systemd unit "@, " is not installed."@) {
                    Some(u) => "未安装 systemd 单元 "@ + u + "。"@,
                    None => match between(reason, "Missing required command(s): "@, "."@) {
                        Some(c) => "缺少必要命令："@ + c + "。"@,
                        None => reason,
                    },
                },
            },
        }
    }
}

/// The label of a service.
pub open spec fn service_label_spec(l: Locale, id: Seq<char>, fallback: Seq<char>) -> Seq<char> {
    if l != Locale::ZhCn {
        fallback
    } else if id == "ssh.service"@ {
        "远程终端"@
    } else if id == "NetworkManager.service"@ {
        "网络管理器"@
    } else if id == "docker.service"@ {
        "容器运行时"@
    } else {
        fallback
    }
}

/// The detail line of a service: in Chinese, listening ports and managed
/// interface counts with their values kept, two fixed details by table,
/// anything else as it came.
pub open spec fn service_detail_spec(l: Locale, detail: Seq<char>) -> Seq<char> {
    if l != Locale::ZhCn {
        detail
    } else if starts_with(detail, "Listening on "@) {
        "监听端口 "@ + detail.skip(13)
    } else if ends_with(detail, " interfaces managed"@) {
        "已托管 "@ + detail.take(detail.len() - 19) + " 个接口"@
    } else if detail == "Installed · stopped"@ {
        "已安装 · 已停止"@
    } else if detail == "systemd state unavailable"@ {
        "systemd 状态不可用"@
    } else {
        detail
    }
}

/// The summary of a run of an action: in Chinese a fixed sentence by how
/// the run went, a demonstration run of the mirror change first.
pub open spec fn run_summary_spec(
    l: Locale,
    action_id: Seq<char>,
    synthetic: bool,
    status: ActionStatus,
    summary: Seq<char>,
) -> Seq<char> {
    if l != Locale::ZhCn {
        summary
    } else if action_id == "system.change-sources"@ && synthetic {
        "预演完成；未修改任何 APT 软件源文件。"@
    } else if synthetic {
        "预演完成；未修改任何系统状态。"@
    } else {
        match status {
            ActionStatus::Succeeded => "操作已成功完成。"@,
            ActionStatus::Failed => "操作执行失败。"@,
            ActionStatus::Planned => "操作已进入计划。"@,
            ActionStatus::Running => "操作正在执行。"@,
        }
    }
}

/// The title of a built-in action named by its English title, in the
/// locale; other titles as they came.
pub open spec fn known_title_spec(l: Locale, title: Seq<char>) -> Seq<char> {
    match known_index_from(title, 0) {
        Some(i) => title_spec(l, known_row(i).1, title),
        None => title,
    }
}

/// The message of an action error.
pub open spec fn action_error_spec(l: Locale, e: ActionError) -> Seq<char> {
    if l != Locale::ZhCn {
        crate::actions::action_error_message(e)
    } else {
        match e {
            ActionError::Unknown(id) => "未知操作："@ + id@,
            ActionError::Unavailable(t) => "操作不可用："@ + known_title_spec(l, t@),
            ActionError::ConfirmationRequired(t) => "操作“"@ + known_title_spec(l, t@) + "”需要确认"@,
            ActionError::RootRequired(t) => "操作“"@ + known_title_spec(l, t@) + "”需要管理员权限"@,
            ActionError::Authorization(t, d) => "操作“"@ + known_title_spec(l, t@)
                + "”的管理员授权失败："@ + d@,
            ActionError::InputRequired(t) => "操作“"@ + known_title_spec(l, t@) + "”需要先选择镜像"@,
            ActionError::Launch(d) => "无法启动操作："@ + d@,
        }
    }
}

/// The message of a package-source error.
pub open spec fn source_error_spec(l: Locale, e: SourceError) -> Seq<char> {
    if l != Locale::ZhCn {
        source_error_message(e)
    } else {
        match e {
            SourceError::UnknownProvider(id) => "未知镜像："@ + id@,
            SourceError::Unsupported(d) => "当前系统无法管理 APT 软件源："@ + d@,
            SourceError::ConfirmationRequired => "切换软件源前需要明确确认"@,
            SourceError::PlanRequired => "请先预览软件源变更，再使用返回的计划令牌应用"@,
            SourceError::StalePlan => "软件源文件已在预览后变化，请重新预览"@,
            SourceError::RootRequired => "切换软件源需要管理员权限"@,
            SourceError::Io(d) => "无法管理 APT 软件源："@ + d@,
        }
    }
}

/// The text of a plan warning; unknown warnings as they came.
pub open spec fn warning_spec(l: Locale, w: Seq<char>) -> Seq<char> {
    match warning_index_from(w, 0) {
        Some(i) => if l == Locale::ZhCn {
            warning_row(i).2
        } else {
            warning_row(i).1
        },
        None => w,
    }
}

fn clone_all(v: &[String]) -> (r: Vec<String>)
    ensures
        r@ == v@,
{
    let mut r: Vec<String> = Vec::new();
    let mut i: usize = 0;
    while i < v.len()
        invariant
            i <= v.len(),
            r@ == v@.take(i as int),
        decreases v.len() - i,
    {
        r.push(v[i].clone());
        i = i + 1;
        assert(r@ == v@.take(i as int));
    }
    assert(v@.take(v@.len() as int) == v@);
    r
}

impl Locale {
    /// The locale a language setting names (see [`candidate_spec`]).
    pub fn candidate(value: &str) -> (r: Option<Locale>)
        ensures
            r == candidate_spec(value@),
    {
        let t = crate::text::trimmed_chars(value);
        if t.len() == 0 {
            return None;
        }
        let low = lower_all(&t);
        if eq_str(&low, "auto") {
            return None;
        }
        let s = string_of(&t);
        proof {
            crate::text::lemma_trim_idempotent(value@);
        }
        Some(Self::from_language_tag(s.as_str()))
    }

    /// The locale of a language tag (see [`tag_spec`]).
    pub fn from_language_tag(value: &str) -> (r: Locale)
        ensures
            r == tag_spec(value@),
    {
        let t = crate::text::trimmed_chars(value);
        let low = lower_all(&t);
        if starts_with_str(&low, "zh") {
            Locale::ZhCn
        } else {
            Locale::En
        }
    }

    /// The locale in use (see [`resolve_spec`]); `settings` are the values
    /// of the language settings, in the order they are consulted.
    pub fn resolve(requested: LocaleArg, settings: &Vec<String>) -> (r: Locale)
        ensures
            r == resolve_spec(requested, strings_view(settings@)),
    {
        match requested {
            LocaleArg::En => Locale::En,
            LocaleArg::ZhCn => Locale::ZhCn,
            LocaleArg::Auto => {
                let ghost sv = strings_view(settings@);
                let mut i: usize = 0;
                while i < settings.len()
                    invariant
                        i <= settings.len(),
                        requested == LocaleArg::Auto,
                        sv == strings_view(settings@),
                        first_candidate(sv, 0) == first_candidate(sv, i as int),
                    decreases settings.len() - i,
                {
                    assert(sv[i as int] == settings@[i as int]@);
                    match Self::candidate(settings[i].as_str()) {
                        Some(l) => {
                            return l;
                        },
                        None => {},
                    }
                    i = i + 1;
                }
                Locale::En
            },
        }
    }

    /// Whether this is Chinese.
    pub fn is_zh(self) -> (r: bool)
        ensures
            r == (self == Locale::ZhCn),
    {
        self == Locale::ZhCn
    }

    /// The text of an interface key (see [`text_spec`]).
    pub fn text(self, key: &str) -> (r: &'static str)
        ensures
            r@ == text_spec(self, key@),
    {
        let k = chars_of(key);
        match text_index(&k) {
            Some(i) => {
                let row = text_row_exec(i);
                if self.is_zh() {
                    row.2
                } else {
                    row.1
                }
            },
            None => {
                proof {
                    reveal_strlit("");
                }
                ""
            },
        }
    }

    /// The name of a risk level (see [`risk_spec`]).
    pub fn risk(self, risk: RiskLevel) -> (r: &'static str)
        ensures
            r@ == risk_spec(self, risk),
    {
        match (self, risk) {
            (Locale::ZhCn, RiskLevel::Safe) => "安全",
            (Locale::ZhCn, RiskLevel::Guarded) => "需确认",
            (Locale::ZhCn, RiskLevel::High) => "高风险",
            (Locale::ZhCn, RiskLevel::Critical) => "严重风险",
            (_, RiskLevel::Safe) => "safe",
            (_, RiskLevel::Guarded) => "guarded",
            (_, RiskLevel::High) => "high",
            (_, RiskLevel::Critical) => "critical",
        }
    }

    /// The name of a service state (see [`service_state_spec`]).
    pub fn service_state(self, state: ServiceState) -> (r: &'static str)
        ensures
            r@ == service_state_spec(self, state),
    {
        match (self, state) {
            (Locale::ZhCn, ServiceState::Active) => "运行中",
            (Locale::ZhCn, ServiceState::Inactive) => "未运行",
            (Locale::ZhCn, ServiceState::Failed) => "失败",
            (Locale::ZhCn, ServiceState::Unknown) => "未知",
            (_, ServiceState::Active) => "ACTIVE",
            (_, ServiceState::Inactive) => "INACTIVE",
            (_, ServiceState::Failed) => "FAILED",
            (_, ServiceState::Unknown) => "UNKNOWN",
        }
    }

    /// The title of an action (see [`title_spec`]).
    pub fn action_title(self, id: &str, fallback: &str) -> (r: String)
        ensures
            r@ == title_spec(self, id@, fallback@),
    {
        if !self.is_zh() {
            return owned(fallback);
        }
        let k = chars_of(id);
        match title_index(&k) {
            Some(i) => owned(title_row_exec(i).1),
            None => owned(fallback),
        }
    }

    /// The description of an action (see [`description_spec`]).
    pub fn action_description(self, id: &str, fallback: &str) -> (r: String)
        ensures
            r@ == description_spec(self, id@, fallback@),
    {
        if !self.is_zh() {
            return owned(fallback);
        }
        let k = chars_of(id);
        match description_index(&k) {
            Some(i) => owned(description_row_exec(i).1),
            None => owned(fallback),
        }
    }

    /// The steps of an action (see [`steps_spec`]).
    pub fn action_steps(self, id: &str, fallback: &[String]) -> (r: Vec<String>)
        ensures
            strings_view(r@) == steps_spec(self, id@, strings_view(fallback@)),
    {
        if !self.is_zh() {
            return clone_all(fallback);
        }
        let k = chars_of(id);
        match steps_index(&k) {
            Some(i) => steps_row_exec(i),
            None => clone_all(fallback),
        }
    }

    /// Why an action is unavailable (see [`reason_spec`]).
    pub fn action_unavailable_reason(self, reason: &str) -> (r: String)
        ensures
            r@ == reason_spec(self, reason@),
    {
        if !self.is_zh() {
            return owned(reason);
        }
        let k = chars_of(reason);
        match reason_index(&k) {
            Some(i) => {
                return owned(reason_row_exec(i).1);
            },
            None => {},
        }
        match between_exec(&k, "Package ", " is not installed.") {
            Some(p) => {
                return cat("未安装软件包 ", &p, "。");
            },
            None => {},
        }
        match between_exec(&k, "Systemd unit ", " is not installed.") {
            Some(u) => {
                return cat("未安装 systemd 单元 ", &u, "。");
            },
            None => {},
        }
        match between_exec(&k, "Missing required command(s): ", ".") {
            Some(c) => {
                return cat("缺少必要命令：", &c, "。");
            },
            None => {},
        }
        owned(reason)
    }

    /// The label of a service (see [`service_label_spec`]).
    pub fn service_label(self, id: &str, fallback: &str) -> (r: String)
        ensures
            r@ == service_label_spec(self, id@, fallback@),
    {
        if !self.is_zh() {
            return owned(fallback);
        }
        let k = chars_of(id);
        if eq_str(&k, "ssh.service") {
            owned("远程终端")
        } else if eq_str(&k, "NetworkManager.service") {
            owned("网络管理器")
        } else if eq_str(&k, "docker.service") {
            owned("容器运行时")
        } else {
            owned(fallback)
        }
    }

    /// The detail line of a service (see [`service_detail_spec`]).
    pub fn service_detail(self, detail: &str) -> (r: String)
        ensures
            r@ == service_detail_spec(self, detail@),
    {
        if !self.is_zh() {
            return owned(detail);
        }
        proof {
            reveal_strlit("Listening on ");
            reveal_strlit(" interfaces managed");
            reveal_strlit("");
        }
        let k = chars_of(detail);
        if starts_with_str(&k, "Listening on ") {
            let port = slice(&k, 13, k.len());
            return cat("监听端口 ", &port, "");
        }
        if ends_with_str(&k, " interfaces managed") {
            let count = slice(&k, 0, k.len() - 19);
            return cat("已托管 ", &count, " 个接口");
        }
        if eq_str(&k, "Installed · stopped") {
            owned("已安装 · 已停止")
        } else if eq_str(&k, "systemd state unavailable") {
            owned("systemd 状态不可用")
        } else {
            owned(detail)
        }
    }

    /// The summary of a run (see [`run_summary_spec`]).
    pub fn run_summary(
        self,
        action_id: &str,
        synthetic: bool,
        status: ActionStatus,
        summary: &str,
    ) -> (r: String)
        ensures
            r@ == run_summary_spec(self, action_id@, synthetic, status, summary@),
    {
        if !self.is_zh() {
            return owned(summary);
        }
        let k = chars_of(action_id);
        if eq_str(&k, "system.change-sources") && synthetic {
            return owned("预演完成；未修改任何 APT 软件源文件。");
        }
        if synthetic {
            return owned("预演完成；未修改任何系统状态。");
        }
        match status {
            ActionStatus::Succeeded => owned("操作已成功完成。"),
            ActionStatus::Failed => owned("操作执行失败。"),
            ActionStatus::Planned => owned("操作已进入计划。"),
            ActionStatus::Running => owned("操作正在执行。"),
        }
    }

    /// The title of a built-in action named by its English title (see
    /// [`known_title_spec`]).
    pub fn known_action_title(self, fallback: &str) -> (r: String)
        ensures
            r@ == known_title_spec(self, fallback@),
    {
        let k = chars_of(fallback);
        match known_index(&k) {
            Some(i) => self.action_title(known_row_exec(i).1, fallback),
            None => owned(fallback),
        }
    }

    /// The message of an action error (see [`action_error_spec`]).
    pub fn action_error(self, error: &ActionError) -> (r: String)
        ensures
            r@ == action_error_spec(self, *error),
    {
        if !self.is_zh() {
            return error.message();
        }
        proof {
            reveal_strlit("");
        }
        match error {
            ActionError::Unknown(id) => join3("未知操作：", id.as_str(), ""),
            ActionError::Unavailable(t) => {
                let k = self.known_action_title(t.as_str());
                join3("操作不可用：", k.as_str(), "")
            },
            ActionError::ConfirmationRequired(t) => {
                let k = self.known_action_title(t.as_str());
                join3("操作“", k.as_str(), "”需要确认")
            },
            ActionError::RootRequired(t) => {
                let k = self.known_action_title(t.as_str());
                join3("操作“", k.as_str(), "”需要管理员权限")
            },
            ActionError::Authorization(t, d) => {
                let k = self.known_action_title(t.as_str());
                let head = join3("操作“", k.as_str(), "”的管理员授权失败：");
                join3(head.as_str(), d.as_str(), "")
            },
            ActionError::InputRequired(t) => {
                let k = self.known_action_title(t.as_str());
                join3("操作“", k.as_str(), "”需要先选择镜像")
            },
            ActionError::Launch(d) => join3("无法启动操作：", d.as_str(), ""),
        }
    }

    /// The message of a package-source error (see [`source_error_spec`]).
    pub fn source_error(self, error: &SourceError) -> (r: String)
        ensures
            r@ == source_error_spec(self, *error),
    {
        if !self.is_zh() {
            return error.message();
        }
        proof {
            reveal_strlit("");
        }
        match error {
            SourceError::UnknownProvider(id) => join3("未知镜像：", id.as_str(), ""),
            SourceError::Unsupported(d) => join3("当前系统无法管理 APT 软件源：", d.as_str(), ""),
            SourceError::ConfirmationRequired => owned("切换软件源前需要明确确认"),
            SourceError::PlanRequired => owned("请先预览软件源变更，再使用返回的计划令牌应用"),
            SourceError::StalePlan => owned("软件源文件已在预览后变化，请重新预览"),
            SourceError::RootRequired => owned("切换软件源需要管理员权限"),
            SourceError::Io(d) => join3("无法管理 APT 软件源：", d.as_str(), ""),
        }
    }

    /// The text of a plan warning (see [`warning_spec`]).
    pub fn source_warning(self, warning: &str) -> (r: String)
        ensures
            r@ == warning_spec(self, warning@),
    {
        let k = chars_of(warning);
        match warning_index(&k) {
            Some(i) => {
                let row = warning_row_exec(i);
                if self.is_zh() {
                    owned(row.2)
                } else {
                    owned(row.1)
                }
            },
            None => owned(warning),
        }
    }
}


/// The built-in actions' ids are pairwise distinct, so each finds its own
/// row of the Chinese step table.
proof fn lemma_steps_rows_distinct()
    ensures
        forall|j: int, k: int| 0 <= j < 17 && 0 <= k < 17 && j != k ==> steps_row(j).0 != steps_row(k).0,
{
    assert forall|j: int, k: int| 0 <= j < 17 && 0 <= k < 17 && j != k implies steps_row(j).0 != steps_row(
        k,
    ).0 by {
        reveal_strlit("system.inspect");
        reveal_strlit("system.update");
        reveal_strlit("system.change-sources");
        reveal_strlit("service.ssh-install");
        reveal_strlit("service.ssh-enable");
        reveal_strlit("service.ssh-disable");
        reveal_strlit("service.ssh-regenerate-host-keys");
        reveal_strlit("service.ssh-remove");
        reveal_strlit("network.restart");
        reveal_strlit("service.docker-install");
        reveal_strlit("service.docker-enable");
        reveal_strlit("service.docker-disable");
        reveal_strlit("service.docker-remove");
        reveal_strlit("storage.expand-root");
        reveal_strlit("power.enable-sleep");
        reveal_strlit("power.disable-sleep");
        reveal_strlit("system.reboot");
        if j == 0 && k == 1 {
            assert(steps_row(0).0.len() != steps_row(1).0.len());
        }
        if j == 0 && k == 2 {
            assert(steps_row(0).0.len() != steps_row(2).0.len());
        }
        if j == 0 && k == 3 {
            assert(steps_row(0).0.len() != steps_row(3).0.len());
        }
        if j == 0 && k == 4 {
            assert(steps_row(0).0.len() != steps_row(4).0.len());
        }
        if j == 0 && k == 5 {
            assert(steps_row(0).0.len() != steps_row(5).0.len());
        }
        if j == 0 && k == 6 {
            assert(steps_row(0).0.len() != steps_row(6).0.len());
        }
        if j == 0 && k == 7 {
            assert(steps_row(0).0.len() != steps_row(7).0.len());
        }
        if j == 0 && k == 8 {
            assert(steps_row(0).0.len() != steps_row(8).0.len());
        }
        if j == 0 && k == 9 {
            assert(steps_row(0).0.len() != steps_row(9).0.len());
        }
        if j == 0 && k == 10 {
            assert(steps_row(0).0.len() != steps_row(10).0.len());
        }
        if j == 0 && k == 11 {
            assert(steps_row(0).0.len() != steps_row(11).0.len());
        }
        if j == 0 && k == 12 {
            assert(steps_row(0).0.len() != steps_row(12).0.len());
        }
        if j == 0 && k == 13 {
            assert(steps_row(0).0.len() != steps_row(13).0.len());
        }
        if j == 0 && k == 14 {
            assert(steps_row(0).0.len() != steps_row(14).0.len());
        }
        if j == 0 && k == 15 {
            assert(steps_row(0).0.len() != steps_row(15).0.len());
        }
        if j == 0 && k == 16 {
            assert(steps_row(0).0.len() != steps_row(16).0.len());
        }
        if j == 1 && k == 0 {
            assert(steps_row(1).0.len() != steps_row(0).0.len());
        }
        if j == 1 && k == 2 {
            assert(steps_row(1).0.len() != steps_row(2).0.len());
        }
        if j == 1 && k == 3 {
            assert(steps_row(1).0.len() != steps_row(3).0.len());
        }
        if j == 1 && k == 4 {
            assert(steps_row(1).0.len() != steps_row(4).0.len());
        }
        if j == 1 && k == 5 {
            assert(steps_row(1).0.len() != steps_row(5).0.len());
        }
        if j == 1 && k == 6 {
            assert(steps_row(1).0.len() != steps_row(6).0.len());
        }
        if j == 1 && k == 7 {
            assert(steps_row(1).0.len() != steps_row(7).0.len());
        }
        if j == 1 && k == 8 {
            assert(steps_row(1).0.len() != steps_row(8).0.len());
        }
        if j == 1 && k == 9 {
            assert(steps_row(1).0.len() != steps_row(9).0.len());
        }
        if j == 1 && k == 10 {
            assert(steps_row(1).0.len() != steps_row(10).0.len());
        }
        if j == 1 && k == 11 {
            assert(steps_row(1).0.len() != steps_row(11).0.len());
        }
        if j == 1 && k == 12 {
            assert(steps_row(1).0.len() != steps_row(12).0.len());
        }
        if j == 1 && k == 13 {
            assert(steps_row(1).0.len() != steps_row(13).0.len());
        }
        if j == 1 && k == 14 {
            assert(steps_row(1).0.len() != steps_row(14).0.len());
        }
        if j == 1 && k == 15 {
            assert(steps_row(1).0.len() != steps_row(15).0.len());
        }
        if j == 1 && k == 16 {
            assert(steps_row(1).0[7] != steps_row(16).0[7]);
        }
        if j == 2 && k == 0 {
            assert(steps_row(2).0.len() != steps_row(0).0.len());
        }
        if j == 2 && k == 1 {
            assert(steps_row(2).0.len() != steps_row(1).0.len());
        }
        if j == 2 && k == 3 {
            assert(steps_row(2).0.len() != steps_row(3).0.len());
        }
        if j == 2 && k == 4 {
            assert(steps_row(2).0.len() != steps_row(4).0.len());
        }
        if j == 2 && k == 5 {
            assert(steps_row(2).0.len() != steps_row(5).0.len());
        }
        if j == 2 && k == 6 {
            assert(steps_row(2).0.len() != steps_row(6).0.len());
        }
        if j == 2 && k == 7 {
            assert(steps_row(2).0.len() != steps_row(7).0.len());
        }
        if j == 2 && k == 8 {
            assert(steps_row(2).0.len() != steps_row(8).0.len());
        }
        if j == 2 && k == 9 {
            assert(steps_row(2).0.len() != steps_row(9).0.len());
        }
        if j == 2 && k == 10 {
            assert(steps_row(2).0[1] != steps_row(10).0[1]);
        }
        if j == 2 && k == 11 {
            assert(steps_row(2).0.len() != steps_row(11).0.len());
        }
        if j == 2 && k == 12 {
            assert(steps_row(2).0[1] != steps_row(12).0[1]);
        }
        if j == 2 && k == 13 {
            assert(steps_row(2).0.len() != steps_row(13).0.len());
        }
        if j == 2 && k == 14 {
            assert(steps_row(2).0.len() != steps_row(14).0.len());
        }
        if j == 2 && k == 15 {
            assert(steps_row(2).0.len() != steps_row(15).0.len());
        }
        if j == 2 && k == 16 {
            assert(steps_row(2).0.len() != steps_row(16).0.len());
        }
        if j == 3 && k == 0 {
            assert(steps_row(3).0.len() != steps_row(0).0.len());
        }
        if j == 3 && k == 1 {
            assert(steps_row(3).0.len() != steps_row(1).0.len());
        }
        if j == 3 && k == 2 {
            assert(steps_row(3).0.len() != steps_row(2).0.len());
        }
        if j == 3 && k == 4 {
            assert(steps_row(3).0.len() != steps_row(4).0.len());
        }
        if j == 3 && k == 5 {
            assert(steps_row(3).0[12] != steps_row(5).0[12]);
        }
        if j == 3 && k == 6 {
            assert(steps_row(3).0.len() != steps_row(6).0.len());
        }
        if j == 3 && k == 7 {
            assert(steps_row(3).0.len() != steps_row(7).0.len());
        }
        if j == 3 && k == 8 {
            assert(steps_row(3).0.len() != steps_row(8).0.len());
        }
        if j == 3 && k == 9 {
            assert(steps_row(3).0.len() != steps_row(9).0.len());
        }
        if j == 3 && k == 10 {
            assert(steps_row(3).0.len() != steps_row(10).0.len());
        }
        if j == 3 && k == 11 {
            assert(steps_row(3).0.len() != steps_row(11).0.len());
        }
        if j == 3 && k == 12 {
            assert(steps_row(3).0.len() != steps_row(12).0.len());
        }
        if j == 3 && k == 13 {
            assert(steps_row(3).0[1] != steps_row(13).0[1]);
        }
        if j == 3 && k == 14 {
            assert(steps_row(3).0.len() != steps_row(14).0.len());
        }
        if j == 3 && k == 15 {
            assert(steps_row(3).0[0] != steps_row(15).0[0]);
        }
        if j == 3 && k == 16 {
            assert(steps_row(3).0.len() != steps_row(16).0.len());
        }
        if j == 4 && k == 0 {
            assert(steps_row(4).0.len() != steps_row(0).0.len());
        }
        if j == 4 && k == 1 {
            assert(steps_row(4).0.len() != steps_row(1).0.len());
        }
        if j == 4 && k == 2 {
            assert(steps_row(4).0.len() != steps_row(2).0.len());
        }
        if j == 4 && k == 3 {
            assert(steps_row(4).0.len() != steps_row(3).0.len());
        }
        if j == 4 && k == 5 {
            assert(steps_row(4).0.len() != steps_row(5).0.len());
        }
        if j == 4 && k == 6 {
            assert(steps_row(4).0.len() != steps_row(6).0.len());
        }
        if j == 4 && k == 7 {
            assert(steps_row(4).0[12] != steps_row(7).0[12]);
        }
        if j == 4 && k == 8 {
            assert(steps_row(4).0.len() != steps_row(8).0.len());
        }
        if j == 4 && k == 9 {
            assert(steps_row(4).0.len() != steps_row(9).0.len());
        }
        if j == 4 && k == 10 {
            assert(steps_row(4).0.len() != steps_row(10).0.len());
        }
        if j == 4 && k == 11 {
            assert(steps_row(4).0.len() != steps_row(11).0.len());
        }
        if j == 4 && k == 12 {
            assert(steps_row(4).0.len() != steps_row(12).0.len());
        }
        if j == 4 && k == 13 {
            assert(steps_row(4).0.len() != steps_row(13).0.len());
        }
        if j == 4 && k == 14 {
            assert(steps_row(4).0[0] != steps_row(14).0[0]);
        }
        if j == 4 && k == 15 {
            assert(steps_row(4).0.len() != steps_row(15).0.len());
        }
        if j == 4 && k == 16 {
            assert(steps_row(4).0.len() != steps_row(16).0.len());
        }
        if j == 5 && k == 0 {
            assert(steps_row(5).0.len() != steps_row(0).0.len());
        }
        if j == 5 && k == 1 {
            assert(steps_row(5).0.len() != steps_row(1).0.len());
        }
        if j == 5 && k == 2 {
            assert(steps_row(5).0.len() != steps_row(2).0.len());
        }
        if j == 5 && k == 3 {
            assert(steps_row(5).0[12] != steps_row(3).0[12]);
        }
        if j == 5 && k == 4 {
            assert(steps_row(5).0.len() != steps_row(4).0.len());
        }
        if j == 5 && k == 6 {
            assert(steps_row(5).0.len() != steps_row(6).0.len());
        }
        if j == 5 && k == 7 {
            assert(steps_row(5).0.len() != steps_row(7).0.len());
        }
        if j == 5 && k == 8 {
            assert(steps_row(5).0.len() != steps_row(8).0.len());
        }
        if j == 5 && k == 9 {
            assert(steps_row(5).0.len() != steps_row(9).0.len());
        }
        if j == 5 && k == 10 {
            assert(steps_row(5).0.len() != steps_row(10).0.len());
        }
        if j == 5 && k == 11 {
            assert(steps_row(5).0.len() != steps_row(11).0.len());
        }
        if j == 5 && k == 12 {
            assert(steps_row(5).0.len() != steps_row(12).0.len());
        }
        if j == 5 && k == 13 {
            assert(steps_row(5).0[1] != steps_row(13).0[1]);
        }
        if j == 5 && k == 14 {
            assert(steps_row(5).0.len() != steps_row(14).0.len());
        }
        if j == 5 && k == 15 {
            assert(steps_row(5).0[0] != steps_row(15).0[0]);
        }
        if j == 5 && k == 16 {
            assert(steps_row(5).0.len() != steps_row(16).0.len());
        }
        if j == 6 && k == 0 {
            assert(steps_row(6).0.len() != steps_row(0).0.len());
        }
        if j == 6 && k == 1 {
            assert(steps_row(6).0.len() != steps_row(1).0.len());
        }
        if j == 6 && k == 2 {
            assert(steps_row(6).0.len() != steps_row(2).0.len());
        }
        if j == 6 && k == 3 {
            assert(steps_row(6).0.len() != steps_row(3).0.len());
        }
        if j == 6 && k == 4 {
            assert(steps_row(6).0.len() != steps_row(4).0.len());
        }
        if j == 6 && k == 5 {
            assert(steps_row(6).0.len() != steps_row(5).0.len());
        }
        if j == 6 && k == 7 {
            assert(steps_row(6).0.len() != steps_row(7).0.len());
        }
        if j == 6 && k == 8 {
            assert(steps_row(6).0.len() != steps_row(8).0.len());
        }
        if j == 6 && k == 9 {
            assert(steps_row(6).0.len() != steps_row(9).0.len());
        }
        if j == 6 && k == 10 {
            assert(steps_row(6).0.len() != steps_row(10).0.len());
        }
        if j == 6 && k == 11 {
            assert(steps_row(6).0.len() != steps_row(11).0.len());
        }
        if j == 6 && k == 12 {
            assert(steps_row(6).0.len() != steps_row(12).0.len());
        }
        if j == 6 && k == 13 {
            assert(steps_row(6).0.len() != steps_row(13).0.len());
        }
        if j == 6 && k == 14 {
            assert(steps_row(6).0.len() != steps_row(14).0.len());
        }
        if j == 6 && k == 15 {
            assert(steps_row(6).0.len() != steps_row(15).0.len());
        }
        if j == 6 && k == 16 {
            assert(steps_row(6).0.len() != steps_row(16).0.len());
        }
        if j == 7 && k == 0 {
            assert(steps_row(7).0.len() != steps_row(0).0.len());
        }
        if j == 7 && k == 1 {
            assert(steps_row(7).0.len() != steps_row(1).0.len());
        }
        if j == 7 && k == 2 {
            assert(steps_row(7).0.len() != steps_row(2).0.len());
        }
        if j == 7 && k == 3 {
            assert(steps_row(7).0.len() != steps_row(3).0.len());
        }
        if j == 7 && k == 4 {
            assert(steps_row(7).0[12] != steps_row(4).0[12]);
        }
        if j == 7 && k == 5 {
            assert(steps_row(7).0.len() != steps_row(5).0.len());
        }
        if j == 7 && k == 6 {
            assert(steps_row(7).0.len() != steps_row(6).0.len());
        }
        if j == 7 && k == 8 {
            assert(steps_row(7).0.len() != steps_row(8).0.len());
        }
        if j == 7 && k == 9 {
            assert(steps_row(7).0.len() != steps_row(9).0.len());
        }
        if j == 7 && k == 10 {
            assert(steps_row(7).0.len() != steps_row(10).0.len());
        }
        if j == 7 && k == 11 {
            assert(steps_row(7).0.len() != steps_row(11).0.len());
        }
        if j == 7 && k == 12 {
            assert(steps_row(7).0.len() != steps_row(12).0.len());
        }
        if j == 7 && k == 13 {
            assert(steps_row(7).0.len() != steps_row(13).0.len());
        }
        if j == 7 && k == 14 {
            assert(steps_row(7).0[0] != steps_row(14).0[0]);
        }
        if j == 7 && k == 15 {
            assert(steps_row(7).0.len() != steps_row(15).0.len());
        }
        if j == 7 && k == 16 {
            assert(steps_row(7).0.len() != steps_row(16).0.len());
        }
        if j == 8 && k == 0 {
            assert(steps_row(8).0.len() != steps_row(0).0.len());
        }
        if j == 8 && k == 1 {
            assert(steps_row(8).0.len() != steps_row(1).0.len());
        }
        if j == 8 && k == 2 {
            assert(steps_row(8).0.len() != steps_row(2).0.len());
        }
        if j == 8 && k == 3 {
            assert(steps_row(8).0.len() != steps_row(3).0.len());
        }
        if j == 8 && k == 4 {
            assert(steps_row(8).0.len() != steps_row(4).0.len());
        }
        if j == 8 && k == 5 {
            assert(steps_row(8).0.len() != steps_row(5).0.len());
        }
        if j == 8 && k == 6 {
            assert(steps_row(8).0.len() != steps_row(6).0.len());
        }
        if j == 8 && k == 7 {
            assert(steps_row(8).0.len() != steps_row(7).0.len());
        }
        if j == 8 && k == 9 {
            assert(steps_row(8).0.len() != steps_row(9).0.len());
        }
        if j == 8 && k == 10 {
            assert(steps_row(8).0.len() != steps_row(10).0.len());
        }
        if j == 8 && k == 11 {
            assert(steps_row(8).0.len() != steps_row(11).0.len());
        }
        if j == 8 && k == 12 {
            assert(steps_row(8).0.len() != steps_row(12).0.len());
        }
        if j == 8 && k == 13 {
            assert(steps_row(8).0.len() != steps_row(13).0.len());
        }
        if j == 8 && k == 14 {
            assert(steps_row(8).0.len() != steps_row(14).0.len());
        }
        if j == 8 && k == 15 {
            assert(steps_row(8).0.len() != steps_row(15).0.len());
        }
        if j == 8 && k == 16 {
            assert(steps_row(8).0.len() != steps_row(16).0.len());
        }
        if j == 9 && k == 0 {
            assert(steps_row(9).0.len() != steps_row(0).0.len());
        }
        if j == 9 && k == 1 {
            assert(steps_row(9).0.len() != steps_row(1).0.len());
        }
        if j == 9 && k == 2 {
            assert(steps_row(9).0.len() != steps_row(2).0.len());
        }
        if j == 9 && k == 3 {
            assert(steps_row(9).0.len() != steps_row(3).0.len());
        }
        if j == 9 && k == 4 {
            assert(steps_row(9).0.len() != steps_row(4).0.len());
        }
        if j == 9 && k == 5 {
            assert(steps_row(9).0.len() != steps_row(5).0.len());
        }
        if j == 9 && k == 6 {
            assert(steps_row(9).0.len() != steps_row(6).0.len());
        }
        if j == 9 && k == 7 {
            assert(steps_row(9).0.len() != steps_row(7).0.len());
        }
        if j == 9 && k == 8 {
            assert(steps_row(9).0.len() != steps_row(8).0.len());
        }
        if j == 9 && k == 10 {
            assert(steps_row(9).0.len() != steps_row(10).0.len());
        }
        if j == 9 && k == 11 {
            assert(steps_row(9).0[15] != steps_row(11).0[15]);
        }
        if j == 9 && k == 12 {
            assert(steps_row(9).0.len() != steps_row(12).0.len());
        }
        if j == 9 && k == 13 {
            assert(steps_row(9).0.len() != steps_row(13).0.len());
        }
        if j == 9 && k == 14 {
            assert(steps_row(9).0.len() != steps_row(14).0.len());
        }
        if j == 9 && k == 15 {
            assert(steps_row(9).0.len() != steps_row(15).0.len());
        }
        if j == 9 && k == 16 {
            assert(steps_row(9).0.len() != steps_row(16).0.len());
        }
        if j == 10 && k == 0 {
            assert(steps_row(10).0.len() != steps_row(0).0.len());
        }
        if j == 10 && k == 1 {
            assert(steps_row(10).0.len() != steps_row(1).0.len());
        }
        if j == 10 && k == 2 {
            assert(steps_row(10).0[1] != steps_row(2).0[1]);
        }
        if j == 10 && k == 3 {
            assert(steps_row(10).0.len() != steps_row(3).0.len());
        }
        if j == 10 && k == 4 {
            assert(steps_row(10).0.len() != steps_row(4).0.len());
        }
        if j == 10 && k == 5 {
            assert(steps_row(10).0.len() != steps_row(5).0.len());
        }
        if j == 10 && k == 6 {
            assert(steps_row(10).0.len() != steps_row(6).0.len());
        }
        if j == 10 && k == 7 {
            assert(steps_row(10).0.len() != steps_row(7).0.len());
        }
        if j == 10 && k == 8 {
            assert(steps_row(10).0.len() != steps_row(8).0.len());
        }
        if j == 10 && k == 9 {
            assert(steps_row(10).0.len() != steps_row(9).0.len());
        }
        if j == 10 && k == 11 {
            assert(steps_row(10).0.len() != steps_row(11).0.len());
        }
        if j == 10 && k == 12 {
            assert(steps_row(10).0[15] != steps_row(12).0[15]);
        }
        if j == 10 && k == 13 {
            assert(steps_row(10).0.len() != steps_row(13).0.len());
        }
        if j == 10 && k == 14 {
            assert(steps_row(10).0.len() != steps_row(14).0.len());
        }
        if j == 10 && k == 15 {
            assert(steps_row(10).0.len() != steps_row(15).0.len());
        }
        if j == 10 && k == 16 {
            assert(steps_row(10).0.len() != steps_row(16).0.len());
        }
        if j == 11 && k == 0 {
            assert(steps_row(11).0.len() != steps_row(0).0.len());
        }
        if j == 11 && k == 1 {
            assert(steps_row(11).0.len() != steps_row(1).0.len());
        }
        if j == 11 && k == 2 {
            assert(steps_row(11).0.len() != steps_row(2).0.len());
        }
        if j == 11 && k == 3 {
            assert(steps_row(11).0.len() != steps_row(3).0.len());
        }
        if j == 11 && k == 4 {
            assert(steps_row(11).0.len() != steps_row(4).0.len());
        }
        if j == 11 && k == 5 {
            assert(steps_row(11).0.len() != steps_row(5).0.len());
        }
        if j == 11 && k == 6 {
            assert(steps_row(11).0.len() != steps_row(6).0.len());
        }
        if j == 11 && k == 7 {
            assert(steps_row(11).0.len() != steps_row(7).0.len());
        }
        if j == 11 && k == 8 {
            assert(steps_row(11).0.len() != steps_row(8).0.len());
        }
        if j == 11 && k == 9 {
            assert(steps_row(11).0[15] != steps_row(9).0[15]);
        }
        if j == 11 && k == 10 {
            assert(steps_row(11).0.len() != steps_row(10).0.len());
        }
        if j == 11 && k == 12 {
            assert(steps_row(11).0.len() != steps_row(12).0.len());
        }
        if j == 11 && k == 13 {
            assert(steps_row(11).0.len() != steps_row(13).0.len());
        }
        if j == 11 && k == 14 {
            assert(steps_row(11).0.len() != steps_row(14).0.len());
        }
        if j == 11 && k == 15 {
            assert(steps_row(11).0.len() != steps_row(15).0.len());
        }
        if j == 11 && k == 16 {
            assert(steps_row(11).0.len() != steps_row(16).0.len());
        }
        if j == 12 && k == 0 {
            assert(steps_row(12).0.len() != steps_row(0).0.len());
        }
        if j == 12 && k == 1 {
            assert(steps_row(12).0.len() != steps_row(1).0.len());
        }
        if j == 12 && k == 2 {
            assert(steps_row(12).0[1] != steps_row(2).0[1]);
        }
        if j == 12 && k == 3 {
            assert(steps_row(12).0.len() != steps_row(3).0.len());
        }
        if j == 12 && k == 4 {
            assert(steps_row(12).0.len() != steps_row(4).0.len());
        }
        if j == 12 && k == 5 {
            assert(steps_row(12).0.len() != steps_row(5).0.len());
        }
        if j == 12 && k == 6 {
            assert(steps_row(12).0.len() != steps_row(6).0.len());
        }
        if j == 12 && k == 7 {
            assert(steps_row(12).0.len() != steps_row(7).0.len());
        }
        if j == 12 && k == 8 {
            assert(steps_row(12).0.len() != steps_row(8).0.len());
        }
        if j == 12 && k == 9 {
            assert(steps_row(12).0.len() != steps_row(9).0.len());
        }
        if j == 12 && k == 10 {
            assert(steps_row(12).0[15] != steps_row(10).0[15]);
        }
        if j == 12 && k == 11 {
            assert(steps_row(12).0.len() != steps_row(11).0.len());
        }
        if j == 12 && k == 13 {
            assert(steps_row(12).0.len() != steps_row(13).0.len());
        }
        if j == 12 && k == 14 {
            assert(steps_row(12).0.len() != steps_row(14).0.len());
        }
        if j == 12 && k == 15 {
            assert(steps_row(12).0.len() != steps_row(15).0.len());
        }
        if j == 12 && k == 16 {
            assert(steps_row(12).0.len() != steps_row(16).0.len());
        }
        if j == 13 && k == 0 {
            assert(steps_row(13).0.len() != steps_row(0).0.len());
        }
        if j == 13 && k == 1 {
            assert(steps_row(13).0.len() != steps_row(1).0.len());
        }
        if j == 13 && k == 2 {
            assert(steps_row(13).0.len() != steps_row(2).0.len());
        }
        if j == 13 && k == 3 {
            assert(steps_row(13).0[1] != steps_row(3).0[1]);
        }
        if j == 13 && k == 4 {
            assert(steps_row(13).0.len() != steps_row(4).0.len());
        }
        if j == 13 && k == 5 {
            assert(steps_row(13).0[1] != steps_row(5).0[1]);
        }
        if j == 13 && k == 6 {
            assert(steps_row(13).0.len() != steps_row(6).0.len());
        }
        if j == 13 && k == 7 {
            assert(steps_row(13).0.len() != steps_row(7).0.len());
        }
        if j == 13 && k == 8 {
            assert(steps_row(13).0.len() != steps_row(8).0.len());
        }
        if j == 13 && k == 9 {
            assert(steps_row(13).0.len() != steps_row(9).0.len());
        }
        if j == 13 && k == 10 {
            assert(steps_row(13).0.len() != steps_row(10).0.len());
        }
        if j == 13 && k == 11 {
            assert(steps_row(13).0.len() != steps_row(11).0.len());
        }
        if j == 13 && k == 12 {
            assert(steps_row(13).0.len() != steps_row(12).0.len());
        }
        if j == 13 && k == 14 {
            assert(steps_row(13).0.len() != steps_row(14).0.len());
        }
        if j == 13 && k == 15 {
            assert(steps_row(13).0[0] != steps_row(15).0[0]);
        }
        if j == 13 && k == 16 {
            assert(steps_row(13).0.len() != steps_row(16).0.len());
        }
        if j == 14 && k == 0 {
            assert(steps_row(14).0.len() != steps_row(0).0.len());
        }
        if j == 14 && k == 1 {
            assert(steps_row(14).0.len() != steps_row(1).0.len());
        }
        if j == 14 && k == 2 {
            assert(steps_row(14).0.len() != steps_row(2).0.len());
        }
        if j == 14 && k == 3 {
            assert(steps_row(14).0.len() != steps_row(3).0.len());
        }
        if j == 14 && k == 4 {
            assert(steps_row(14).0[0] != steps_row(4).0[0]);
        }
        if j == 14 && k == 5 {
            assert(steps_row(14).0.len() != steps_row(5).0.len());
        }
        if j == 14 && k == 6 {
            assert(steps_row(14).0.len() != steps_row(6).0.len());
        }
        if j == 14 && k == 7 {
            assert(steps_row(14).0[0] != steps_row(7).0[0]);
        }
        if j == 14 && k == 8 {
            assert(steps_row(14).0.len() != steps_row(8).0.len());
        }
        if j == 14 && k == 9 {
            assert(steps_row(14).0.len() != steps_row(9).0.len());
        }
        if j == 14 && k == 10 {
            assert(steps_row(14).0.len() != steps_row(10).0.len());
        }
        if j == 14 && k == 11 {
            assert(steps_row(14).0.len() != steps_row(11).0.len());
        }
        if j == 14 && k == 12 {
            assert(steps_row(14).0.len() != steps_row(12).0.len());
        }
        if j == 14 && k == 13 {
            assert(steps_row(14).0.len() != steps_row(13).0.len());
        }
        if j == 14 && k == 15 {
            assert(steps_row(14).0.len() != steps_row(15).0.len());
        }
        if j == 14 && k == 16 {
            assert(steps_row(14).0.len() != steps_row(16).0.len());
        }
        if j == 15 && k == 0 {
            assert(steps_row(15).0.len() != steps_row(0).0.len());
        }
        if j == 15 && k == 1 {
            assert(steps_row(15).0.len() != steps_row(1).0.len());
        }
        if j == 15 && k == 2 {
            assert(steps_row(15).0.len() != steps_row(2).0.len());
        }
        if j == 15 && k == 3 {
            assert(steps_row(15).0[0] != steps_row(3).0[0]);
        }
        if j == 15 && k == 4 {
            assert(steps_row(15).0.len() != steps_row(4).0.len());
        }
        if j == 15 && k == 5 {
            assert(steps_row(15).0[0] != steps_row(5).0[0]);
        }
        if j == 15 && k == 6 {
            assert(steps_row(15).0.len() != steps_row(6).0.len());
        }
        if j == 15 && k == 7 {
            assert(steps_row(15).0.len() != steps_row(7).0.len());
        }
        if j == 15 && k == 8 {
            assert(steps_row(15).0.len() != steps_row(8).0.len());
        }
        if j == 15 && k == 9 {
            assert(steps_row(15).0.len() != steps_row(9).0.len());
        }
        if j == 15 && k == 10 {
            assert(steps_row(15).0.len() != steps_row(10).0.len());
        }
        if j == 15 && k == 11 {
            assert(steps_row(15).0.len() != steps_row(11).0.len());
        }
        if j == 15 && k == 12 {
            assert(steps_row(15).0.len() != steps_row(12).0.len());
        }
        if j == 15 && k == 13 {
            assert(steps_row(15).0[0] != steps_row(13).0[0]);
        }
        if j == 15 && k == 14 {
            assert(steps_row(15).0.len() != steps_row(14).0.len());
        }
        if j == 15 && k == 16 {
            assert(steps_row(15).0.len() != steps_row(16).0.len());
        }
        if j == 16 && k == 0 {
            assert(steps_row(16).0.len() != steps_row(0).0.len());
        }
        if j == 16 && k == 1 {
            assert(steps_row(16).0[7] != steps_row(1).0[7]);
        }
        if j == 16 && k == 2 {
            assert(steps_row(16).0.len() != steps_row(2).0.len());
        }
        if j == 16 && k == 3 {
            assert(steps_row(16).0.len() != steps_row(3).0.len());
        }
        if j == 16 && k == 4 {
            assert(steps_row(16).0.len() != steps_row(4).0.len());
        }
        if j == 16 && k == 5 {
            assert(steps_row(16).0.len() != steps_row(5).0.len());
        }
        if j == 16 && k == 6 {
            assert(steps_row(16).0.len() != steps_row(6).0.len());
        }
        if j == 16 && k == 7 {
            assert(steps_row(16).0.len() != steps_row(7).0.len());
        }
        if j == 16 && k == 8 {
            assert(steps_row(16).0.len() != steps_row(8).0.len());
        }
        if j == 16 && k == 9 {
            assert(steps_row(16).0.len() != steps_row(9).0.len());
        }
        if j == 16 && k == 10 {
            assert(steps_row(16).0.len() != steps_row(10).0.len());
        }
        if j == 16 && k == 11 {
            assert(steps_row(16).0.len() != steps_row(11).0.len());
        }
        if j == 16 && k == 12 {
            assert(steps_row(16).0.len() != steps_row(12).0.len());
        }
        if j == 16 && k == 13 {
            assert(steps_row(16).0.len() != steps_row(13).0.len());
        }
        if j == 16 && k == 14 {
            assert(steps_row(16).0.len() != steps_row(14).0.len());
        }
        if j == 16 && k == 15 {
            assert(steps_row(16).0.len() != steps_row(15).0.len());
        }
    }
}

proof fn lemma_steps_index_row(k: int, from: int)
    requires
        0 <= from <= k < 17,
        forall|j: int, m: int| 0 <= j < 17 && 0 <= m < 17 && j != m ==> steps_row(j).0 != steps_row(m).0,
    ensures
        steps_index_from(steps_row(k).0, from) == Some(k),
    decreases k - from,
{
    if from < k {
        lemma_steps_index_row(k, from + 1);
    }
}

/// The steps shown for a catalog action: in English its own steps, in
/// Chinese one translated step for each of them.
pub proof fn law_translated_steps_match_the_catalog(k: int)
    requires
        0 <= k < 17,
    ensures
        steps_spec(Locale::En, crate::catalog::catalog_row(k).id, crate::catalog::catalog_row(k).steps)
            == crate::catalog::catalog_row(k).steps,
        steps_spec(Locale::ZhCn, crate::catalog::catalog_row(k).id, crate::catalog::catalog_row(k).steps).len()
            == crate::catalog::catalog_row(k).steps.len(),
{
    lemma_steps_rows_distinct();
    lemma_steps_index_row(k, 0);
    assert(crate::catalog::catalog_row(k).id == steps_row(k).0);
}

/// An id outside the step table keeps the steps it is given, in either
/// language.
pub proof fn law_unknown_steps_fall_back(l: Locale, id: Seq<char>, fallback: Seq<Seq<char>>)
    requires
        forall|k: int| 0 <= k < 17 ==> steps_row(k).0 != id,
    ensures
        steps_spec(l, id, fallback) == fallback,
{
    lemma_steps_index_none(id, 0);
}

proof fn lemma_steps_index_none(id: Seq<char>, from: int)
    requires
        0 <= from,
        forall|k: int| 0 <= k < 17 ==> steps_row(k).0 != id,
    ensures
        steps_index_from(id, from) is None,
    decreases 17 - from,
{
    if from < 17 {
        lemma_steps_index_none(id, from + 1);
    }
}

} // verus!
