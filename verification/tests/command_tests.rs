use cargo_liner::command::{log_filter, write_plan, LogFilter, LogLevel, WritePlan};

fn both(level: LogLevel) -> LogFilter {
    LogFilter { own: level, others: level }
}

#[test]
fn few_flags_change_the_level_of_the_tool_alone() {
    assert_eq!(log_filter(0, 0), LogFilter { own: LogLevel::Info, others: LogLevel::Error });
    assert_eq!(log_filter(1, 0), LogFilter { own: LogLevel::Debug, others: LogLevel::Error });
    assert_eq!(log_filter(0, 1), LogFilter { own: LogLevel::Warn, others: LogLevel::Error });
    assert_eq!(log_filter(1, 1), LogFilter { own: LogLevel::Debug, others: LogLevel::Error });
}

#[test]
fn repeated_flags_set_one_level_for_all() {
    assert_eq!(log_filter(2, 0), both(LogLevel::Debug));
    assert_eq!(log_filter(3, 0), both(LogLevel::Trace));
    assert_eq!(log_filter(255, 0), both(LogLevel::Trace));
    assert_eq!(log_filter(0, 2), both(LogLevel::Error));
    assert_eq!(log_filter(0, 3), both(LogLevel::Off));
    assert_eq!(log_filter(0, 255), both(LogLevel::Off));
}

#[test]
fn repeated_flags_of_both_kinds_silence_everything() {
    assert_eq!(log_filter(2, 1), both(LogLevel::Off));
    assert_eq!(log_filter(1, 2), both(LogLevel::Off));
    assert_eq!(log_filter(2, 2), both(LogLevel::Off));
    assert_eq!(log_filter(3, 1), both(LogLevel::Off));
    assert_eq!(log_filter(5, 7), both(LogLevel::Off));
}

#[test]
fn an_existing_configuration_is_replaced_only_by_force() {
    assert_eq!(write_plan(false, false), WritePlan::Create);
    assert_eq!(write_plan(true, false), WritePlan::Refuse);
    assert_eq!(write_plan(false, true), WritePlan::Overwrite { replaces: false });
    assert_eq!(write_plan(true, true), WritePlan::Overwrite { replaces: true });
}
