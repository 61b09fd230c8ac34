use rsetup::actions::ActionError;
use rsetup::i18n::{Locale, LocaleArg};
use rsetup::model::{RiskLevel, ServiceState};
use rsetup::source_plan::SourceError;

#[test]
fn chinese_action_copy_is_keyed_by_stable_id() {
    assert_eq!(
        Locale::ZhCn.action_title("system.reboot", "Reboot device"),
        "重启设备"
    );
}

#[test]
fn chinese_action_availability_preserves_package_name() {
    assert_eq!(
        Locale::ZhCn.action_unavailable_reason("Package openssh-server is not installed."),
        "未安装软件包 openssh-server。"
    );
}

#[test]
fn unknown_copy_falls_back_to_provider_text() {
    assert_eq!(
        Locale::ZhCn.action_title("vendor.custom", "Vendor action"),
        "Vendor action"
    );
}

#[test]
fn language_tags_resolve_chinese_variants() {
    assert_eq!(Locale::from_language_tag("zh_CN.UTF-8"), Locale::ZhCn);
    assert_eq!(Locale::from_language_tag("en_US.UTF-8"), Locale::En);
}

#[test]
fn auto_and_empty_candidates_defer_to_the_next_locale() {
    let locale = ["auto", "", "zh_CN.UTF-8"].into_iter().find_map(Locale::candidate);
    assert_eq!(locale, Some(Locale::ZhCn));
}

#[test]
fn chinese_service_details_preserve_provider_values() {
    assert_eq!(Locale::ZhCn.service_detail("2 interfaces managed"), "已托管 2 个接口");
    assert_eq!(Locale::ZhCn.service_detail("vendor state"), "vendor state");
}

#[test]
fn chinese_action_errors_localize_known_action_titles() {
    assert_eq!(
        Locale::ZhCn.action_error(&ActionError::RootRequired("Update operating system".into())),
        "操作“更新操作系统”需要管理员权限"
    );
}

#[test]
fn english_keeps_the_provider_texts_and_messages() {
    assert_eq!(Locale::En.action_title("system.reboot", "Reboot device"), "Reboot device");
    assert_eq!(
        Locale::En.action_error(&ActionError::RootRequired("Update operating system".into())),
        "Update operating system requires root privileges"
    );
    assert_eq!(
        Locale::En.source_error(&SourceError::UnknownProvider("x".into())),
        "unknown mirror provider: x"
    );
    assert_eq!(Locale::ZhCn.source_error(&SourceError::UnknownProvider("x".into())), "未知镜像：x");
}

#[test]
fn interface_texts_and_names() {
    assert_eq!(Locale::En.text("ready"), "OK");
    assert_eq!(Locale::ZhCn.text("ready"), "就绪");
    assert_eq!(Locale::En.text("no-such-key"), "");
    assert_eq!(Locale::ZhCn.risk(RiskLevel::High), "高风险");
    assert_eq!(Locale::En.service_state(ServiceState::Failed), "FAILED");
    assert_eq!(Locale::ZhCn.service_label("docker.service", "Container runtime"), "容器运行时");
    assert_eq!(Locale::ZhCn.source_warning("dry_run"), "当前为预演模式，不会写入系统文件。");
    assert_eq!(Locale::En.source_warning("custom"), "custom");
    assert_eq!(
        Locale::ZhCn.action_unavailable_reason("Missing required command(s): ip, ss."),
        "缺少必要命令：ip, ss。"
    );
    assert_eq!(
        Locale::ZhCn.action_steps("system.reboot", &["x".to_string()]),
        vec!["写回待处理数据".to_string(), "停止服务".to_string(), "请求系统重启".to_string()]
    );
}

#[test]
fn the_locale_in_use_follows_the_first_setting_that_names_one() {
    let settings = vec!["".to_string(), "AUTO".to_string(), "zh_TW".to_string(), "en".to_string()];
    assert_eq!(Locale::resolve(LocaleArg::Auto, &settings), Locale::ZhCn);
    assert_eq!(Locale::resolve(LocaleArg::En, &settings), Locale::En);
    assert_eq!(Locale::resolve(LocaleArg::Auto, &Vec::new()), Locale::En);
}
