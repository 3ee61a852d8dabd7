//! The logic of the command-line tool: reading its arguments and
//! environment defaults, rendering its reports, and following a growing
//! file.
mod args;
mod env;
mod follow;
mod report;

pub use self::args::{
    arg_views, default_args, parse_args, parse_args_spec, parse_from, usage, usage_text,
    with_usage, Args, ArgsView, is_switch, lemma_follow_spellings_agree, lemma_trailing_option,
    lemma_trailing_switch, takes_value, with_flag, with_value,
};
pub use self::env::{
    apply_env_defaults, env_applied, env_flag, flag_set, lemma_command_line_wins, unit_result,
    EnvVars, EnvView, lemma_levels_from_own_variable, lemma_switches_from_own_variable,
};
pub use self::follow::{
    complete_lines, follow_output, follow_text, has_no_newline, lemma_complete_lines_shape,
    lemma_complete_lines_strip_cr, lemma_follow_agrees_with_summary,
    lemma_follow_prints_canonical_lines, newline_count, partial_rest, plan_poll,
    split_complete_lines, strings_view, strip_cr, PollPlan,
};
pub use self::report::{
    count_line, entry_lines, human_report, human_text, level_group, level_line, matching_lines,
    opt_lines, opt_str_view, optional_line, report_counts, report_header, report_span, count_label,
    lemma_report_count_lines, lemma_report_header_and_span,
};
