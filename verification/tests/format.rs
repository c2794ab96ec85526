use rmux::format::{
    format_expand, month_abbrev, strftime_expand, month_full, strftime_expand_with_timestamp, unix_to_local, weekday_abbrev,
    weekday_full, FormatContext,
};

#[test]
fn simple_variable() {
    let mut ctx = FormatContext::new();
    ctx.set("session_name", "main");
    assert_eq!(format_expand("#{session_name}", &ctx), "main");
}

#[test]
fn multiple_variables() {
    let mut ctx = FormatContext::new();
    ctx.set("session_name", "work");
    ctx.set("window_index", "2");
    assert_eq!(format_expand("[#{session_name}] #{window_index}", &ctx), "[work] 2");
}

#[test]
fn unknown_variable_empty() {
    let ctx = FormatContext::new();
    assert_eq!(format_expand("#{unknown}", &ctx), "");
}

#[test]
fn no_variables() {
    let ctx = FormatContext::new();
    assert_eq!(format_expand("hello world", &ctx), "hello world");
}

#[test]
fn incomplete_format() {
    let ctx = FormatContext::new();
    assert_eq!(format_expand("#{incomplete", &ctx), "#{incomplete");
}

#[test]
fn hash_without_brace() {
    let ctx = FormatContext::new();
    assert_eq!(format_expand("#not_a_var", &ctx), "#not_a_var");
}

#[test]
fn adjacent_variables() {
    let mut ctx = FormatContext::new();
    ctx.set("a", "X");
    ctx.set("b", "Y");
    assert_eq!(format_expand("#{a}#{b}", &ctx), "XY");
}

#[test]
fn empty_variable_name() {
    let ctx = FormatContext::new();
    assert_eq!(format_expand("#{}", &ctx), "");
}

#[test]
fn variable_with_special_chars_in_value() {
    let mut ctx = FormatContext::new();
    ctx.set("var", "value with #{} chars");
    let result = format_expand("#{var}", &ctx);
    assert_eq!(result, "value with #{} chars");
}

#[test]
fn consecutive_hashes() {
    let ctx = FormatContext::new();
    let result = format_expand("##", &ctx);
    assert_eq!(result, "#");
}

#[test]
fn very_long_template() {
    let mut ctx = FormatContext::new();
    ctx.set("x", "X");
    let mut template = String::new();
    for i in 0..200 {
        template.push_str(&format!("item{i}-#{{x}}-"));
    }
    let result = format_expand(&template, &ctx);
    assert!(result.len() > 1000);
    assert!(result.contains("item0-X-"));
    assert!(result.contains("item199-X-"));
}

#[test]
fn many_variables_in_context() {
    let mut ctx = FormatContext::new();
    for i in 0..50 {
        ctx.set(&format!("var{i}"), &format!("val{i}"));
    }
    let result = format_expand("#{var0} #{var25} #{var49}", &ctx);
    assert_eq!(result, "val0 val25 val49");
}

#[test]
fn empty_template() {
    let ctx = FormatContext::new();
    assert_eq!(format_expand("", &ctx), "");
}

#[test]
fn set_overwrites_previous() {
    let mut ctx = FormatContext::new();
    ctx.set("key", "first");
    assert_eq!(ctx.get("key"), Some("first"));
    ctx.set("key", "second");
    assert_eq!(ctx.get("key"), Some("second"));
    assert_eq!(format_expand("#{key}", &ctx), "second");
}

// --- New tests for enhanced format engine ---

#[test]
fn literal_double_hash() {
    let ctx = FormatContext::new();
    assert_eq!(format_expand("a##b", &ctx), "a#b");
    assert_eq!(format_expand("####", &ctx), "##");
}

#[test]
fn short_alias_session() {
    let mut ctx = FormatContext::new();
    ctx.set("session_name", "dev");
    assert_eq!(format_expand("#S", &ctx), "dev");
}

#[test]
fn short_alias_window() {
    let mut ctx = FormatContext::new();
    ctx.set("window_name", "bash");
    ctx.set("window_index", "3");
    assert_eq!(format_expand("#I:#W", &ctx), "3:bash");
}

#[test]
fn short_alias_all() {
    let mut ctx = FormatContext::new();
    ctx.set("pane_id", "%5");
    ctx.set("window_flags", "*");
    ctx.set("host", "myhost.local");
    ctx.set("host_short", "myhost");
    ctx.set("pane_index", "1");
    ctx.set("pane_title", "vim");
    assert_eq!(format_expand("#D", &ctx), "%5");
    assert_eq!(format_expand("#F", &ctx), "*");
    assert_eq!(format_expand("#H", &ctx), "myhost.local");
    assert_eq!(format_expand("#h", &ctx), "myhost");
    assert_eq!(format_expand("#P", &ctx), "1");
    assert_eq!(format_expand("#T", &ctx), "vim");
}

#[test]
fn conditional_true() {
    let mut ctx = FormatContext::new();
    ctx.set("pane_active", "1");
    assert_eq!(format_expand("#{?pane_active,ACTIVE,inactive}", &ctx), "ACTIVE");
}

#[test]
fn conditional_false() {
    let mut ctx = FormatContext::new();
    ctx.set("pane_active", "0");
    assert_eq!(format_expand("#{?pane_active,ACTIVE,inactive}", &ctx), "inactive");
}

#[test]
fn conditional_missing_var() {
    let ctx = FormatContext::new();
    assert_eq!(format_expand("#{?pane_active,yes,no}", &ctx), "no");
}

#[test]
fn conditional_with_nested_vars() {
    let mut ctx = FormatContext::new();
    ctx.set("active", "1");
    ctx.set("session_name", "work");
    assert_eq!(format_expand("#{?active,#{session_name},none}", &ctx), "work");
}

#[test]
fn conditional_no_false_branch() {
    let mut ctx = FormatContext::new();
    ctx.set("active", "1");
    assert_eq!(format_expand("#{?active,YES}", &ctx), "YES");
}

#[test]
fn comparison_equal() {
    let mut ctx = FormatContext::new();
    ctx.set("a", "hello");
    ctx.set("b", "hello");
    assert_eq!(format_expand("#{==:#{a},#{b}}", &ctx), "1");
}

#[test]
fn comparison_not_equal() {
    let mut ctx = FormatContext::new();
    ctx.set("a", "hello");
    ctx.set("b", "world");
    assert_eq!(format_expand("#{==:#{a},#{b}}", &ctx), "0");
    assert_eq!(format_expand("#{!=:#{a},#{b}}", &ctx), "1");
}

#[test]
fn comparison_in_conditional() {
    let mut ctx = FormatContext::new();
    ctx.set("window_name", "vim");
    assert_eq!(format_expand("#{?#{==:#{window_name},vim},EDITOR,other}", &ctx), "EDITOR");
}

#[test]
fn truncation_right() {
    let mut ctx = FormatContext::new();
    ctx.set("pane_title", "very long title here");
    assert_eq!(format_expand("#{=10:#{pane_title}}", &ctx), "very long ");
}

#[test]
fn truncation_left() {
    let mut ctx = FormatContext::new();
    ctx.set("pane_title", "very long title here");
    assert_eq!(format_expand("#{=-10:#{pane_title}}", &ctx), "title here");
}

#[test]
fn truncation_bare_variable() {
    // tmux treats #{=21:pane_title} as variable lookup, not template expansion
    let mut ctx = FormatContext::new();
    ctx.set("pane_title", "my terminal title");
    assert_eq!(format_expand("#{=10:pane_title}", &ctx), "my termina");
}

#[test]
fn truncation_no_op() {
    let mut ctx = FormatContext::new();
    ctx.set("x", "short");
    assert_eq!(format_expand("#{=20:#{x}}", &ctx), "short");
}

#[test]
fn nested_conditional_with_comparison() {
    let mut ctx = FormatContext::new();
    ctx.set("window_index", "0");
    ctx.set("active", "1");
    let tmpl = "#{?#{==:#{window_index},0},first,#{?active,active,other}}";
    assert_eq!(format_expand(tmpl, &ctx), "first");

    ctx.set("window_index", "1");
    assert_eq!(format_expand(tmpl, &ctx), "active");

    ctx.set("active", "0");
    assert_eq!(format_expand(tmpl, &ctx), "other");
}

#[test]
fn status_line_realistic() {
    let mut ctx = FormatContext::new();
    ctx.set("session_name", "dev");
    ctx.set("window_index", "0");
    ctx.set("window_name", "bash");
    ctx.set("window_flags", "*");
    let tmpl = "[#S] #I:#W#F";
    assert_eq!(format_expand(tmpl, &ctx), "[dev] 0:bash*");
}

#[test]
fn literal_format() {
    let ctx = FormatContext::new();
    assert_eq!(format_expand("#{l:hello world}", &ctx), "hello world");
    // Literal should NOT expand variables
    assert_eq!(format_expand("#{l:#{session_name}}", &ctx), "#{session_name}");
}

#[test]
fn double_expansion_e() {
    let mut ctx = FormatContext::new();
    ctx.set("template", "Session: #{session_name}");
    ctx.set("session_name", "work");
    // E: should expand "template" to its value, then expand that as a format string
    assert_eq!(format_expand("#{E:template}", &ctx), "Session: work");
}

#[test]
fn double_expansion_e_plain() {
    let mut ctx = FormatContext::new();
    ctx.set("var", "hello");
    // If the value has no format strings, E: just returns it
    assert_eq!(format_expand("#{E:var}", &ctx), "hello");
}

#[test]
fn double_expansion_e_missing() {
    let ctx = FormatContext::new();
    // Unknown variable: first expansion returns empty, second expansion of empty is empty
    assert_eq!(format_expand("#{E:unknown}", &ctx), "");
}

#[test]
fn substitution_format() {
    let mut ctx = FormatContext::new();
    ctx.set("session_name", "my-session");
    assert_eq!(format_expand("#{s/-/_:#{session_name}}", &ctx), "my_session");
}

#[test]
fn substitution_no_match() {
    let mut ctx = FormatContext::new();
    ctx.set("x", "hello");
    assert_eq!(format_expand("#{s/z/a:#{x}}", &ctx), "hello");
}

#[test]
fn inline_style_passthrough() {
    let ctx = FormatContext::new();
    assert_eq!(format_expand("#[fg=red]text#[default]", &ctx), "#[fg=red]text#[default]");
}

#[test]
fn inline_style_with_variables() {
    let mut ctx = FormatContext::new();
    ctx.set("session_name", "dev");
    assert_eq!(format_expand("#[fg=green]#S#[default]", &ctx), "#[fg=green]dev#[default]");
}

#[test]
fn inline_style_expands_nested_vars() {
    let mut ctx = FormatContext::new();
    ctx.set_user_option("@thm_crust", "#232634");
ctx.set_user_option("@thm_blue", "#8caaee");
    // Catppuccin-style: #{@var} inside #[...]
    assert_eq!(
        format_expand("#[fg=#{@thm_crust},bg=#{@thm_blue}]text", &ctx),
        "#[fg=#232634,bg=#8caaee]text"
    );
}

#[test]
fn inline_style_nested_var_no_closing_brace() {
    let ctx = FormatContext::new();
    // Malformed — no closing }, should degrade gracefully
    let result = format_expand("#[fg=#{bad]rest", &ctx);
    assert!(!result.is_empty());
}

// --- Section 3: new modifier tests ---

#[test]
fn shell_quoting_simple() {
    let mut ctx = FormatContext::new();
    ctx.set("cmd", "echo hello");
    assert_eq!(format_expand("#{q:cmd}", &ctx), "'echo hello'");
}

#[test]
fn shell_quoting_with_single_quotes() {
    let mut ctx = FormatContext::new();
    ctx.set("cmd", "it's a test");
    assert_eq!(format_expand("#{q:cmd}", &ctx), "'it'\\''s a test'");
}

#[test]
fn shell_quoting_empty() {
    let ctx = FormatContext::new();
    assert_eq!(format_expand("#{q:missing}", &ctx), "''");
}

#[test]
fn string_length() {
    let mut ctx = FormatContext::new();
    ctx.set("name", "hello");
    assert_eq!(format_expand("#{n:name}", &ctx), "5");
}

#[test]
fn string_length_empty() {
    let ctx = FormatContext::new();
    assert_eq!(format_expand("#{n:missing}", &ctx), "0");
}

#[test]
fn string_length_unicode() {
    let mut ctx = FormatContext::new();
    ctx.set("text", "café");
    assert_eq!(format_expand("#{n:text}", &ctx), "4");
}

#[test]
fn display_width_ascii() {
    let mut ctx = FormatContext::new();
    ctx.set("text", "hello");
    assert_eq!(format_expand("#{w:text}", &ctx), "5");
}

#[test]
fn display_width_cjk() {
    let mut ctx = FormatContext::new();
    ctx.set("text", "日本語");
    assert_eq!(format_expand("#{w:text}", &ctx), "6");
}

#[test]
fn display_width_mixed() {
    let mut ctx = FormatContext::new();
    ctx.set("text", "hi日本");
    assert_eq!(format_expand("#{w:text}", &ctx), "6");
}

#[test]
fn ascii_code_to_char() {
    let ctx = FormatContext::new();
    assert_eq!(format_expand("#{a:65}", &ctx), "A");
    assert_eq!(format_expand("#{a:97}", &ctx), "a");
    assert_eq!(format_expand("#{a:48}", &ctx), "0");
}

#[test]
fn ascii_code_from_variable() {
    let mut ctx = FormatContext::new();
    ctx.set("code", "72");
    assert_eq!(format_expand("#{a:code}", &ctx), "H");
}

#[test]
fn ascii_code_invalid() {
    let ctx = FormatContext::new();
    assert_eq!(format_expand("#{a:not_a_number}", &ctx), "");
}

#[test]
fn padding_right() {
    let mut ctx = FormatContext::new();
    ctx.set("x", "hi");
    assert_eq!(format_expand("#{p:5:x}", &ctx), "hi   ");
}

#[test]
fn padding_left() {
    let mut ctx = FormatContext::new();
    ctx.set("x", "hi");
    assert_eq!(format_expand("#{p:-5:x}", &ctx), "   hi");
}

#[test]
fn padding_no_op() {
    let mut ctx = FormatContext::new();
    ctx.set("x", "hello");
    assert_eq!(format_expand("#{p:3:x}", &ctx), "hello");
}

#[test]
fn logical_not_true() {
    let mut ctx = FormatContext::new();
    ctx.set("active", "1");
    assert_eq!(format_expand("#{!active}", &ctx), "0");
}

#[test]
fn logical_not_false() {
    let mut ctx = FormatContext::new();
    ctx.set("active", "0");
    assert_eq!(format_expand("#{!active}", &ctx), "1");
}

#[test]
fn logical_not_empty() {
    let ctx = FormatContext::new();
    assert_eq!(format_expand("#{!missing}", &ctx), "1");
}

#[test]
fn logical_or() {
    let mut ctx = FormatContext::new();
    ctx.set("a", "1");
    ctx.set("b", "0");
    assert_eq!(format_expand("#{||:#{a},#{b}}", &ctx), "1");
    ctx.set("a", "0");
    assert_eq!(format_expand("#{||:#{a},#{b}}", &ctx), "0");
}

#[test]
fn logical_and() {
    let mut ctx = FormatContext::new();
    ctx.set("a", "1");
    ctx.set("b", "1");
    assert_eq!(format_expand("#{&&:#{a},#{b}}", &ctx), "1");
    ctx.set("b", "0");
    assert_eq!(format_expand("#{&&:#{a},#{b}}", &ctx), "0");
}

#[test]
fn arithmetic_add() {
    let ctx = FormatContext::new();
    assert_eq!(format_expand("#{e|+:3,4}", &ctx), "7");
}

#[test]
fn arithmetic_subtract() {
    let ctx = FormatContext::new();
    assert_eq!(format_expand("#{e|-:10,3}", &ctx), "7");
}

#[test]
fn arithmetic_multiply() {
    let ctx = FormatContext::new();
    assert_eq!(format_expand("#{e|*:6,7}", &ctx), "42");
}

#[test]
fn arithmetic_divide() {
    let ctx = FormatContext::new();
    assert_eq!(format_expand("#{e|/:10,3}", &ctx), "3");
}

#[test]
fn arithmetic_modulo() {
    let ctx = FormatContext::new();
    assert_eq!(format_expand("#{e|%:10,3}", &ctx), "1");
}

#[test]
fn arithmetic_divide_by_zero() {
    let ctx = FormatContext::new();
    assert_eq!(format_expand("#{e|/:5,0}", &ctx), "0");
    assert_eq!(format_expand("#{e|%:5,0}", &ctx), "0");
}

#[test]
fn arithmetic_with_variables() {
    let mut ctx = FormatContext::new();
    ctx.set("width", "80");
    ctx.set("offset", "10");
    assert_eq!(format_expand("#{e|-:#{width},#{offset}}", &ctx), "70");
}

#[test]
fn match_glob_star() {
    let mut ctx = FormatContext::new();
    ctx.set("name", "my-session");
    assert_eq!(format_expand("#{m:*session,#{name}}", &ctx), "1");
    assert_eq!(format_expand("#{m:*window,#{name}}", &ctx), "0");
}

#[test]
fn match_glob_question() {
    let ctx = FormatContext::new();
    assert_eq!(format_expand("#{m:h?llo,hello}", &ctx), "1");
    assert_eq!(format_expand("#{m:h?llo,hilo}", &ctx), "0");
}

#[test]
fn match_glob_exact() {
    let ctx = FormatContext::new();
    assert_eq!(format_expand("#{m:hello,hello}", &ctx), "1");
    assert_eq!(format_expand("#{m:hello,world}", &ctx), "0");
}

#[test]
fn match_regex() {
    let ctx = FormatContext::new();
    assert_eq!(format_expand("#{m/r:^hello$,hello}", &ctx), "1");
    assert_eq!(format_expand("#{m/r:^hello$,hello world}", &ctx), "0");
    assert_eq!(format_expand("#{m/r:he.*o,hello}", &ctx), "1");
}

#[test]
fn match_regex_dot_star() {
    let ctx = FormatContext::new();
    assert_eq!(format_expand("#{m/r:.*session.*,my-session-1}", &ctx), "1");
}

#[test]
fn not_does_not_interfere_with_ne_comparison() {
    let mut ctx = FormatContext::new();
    ctx.set("a", "hello");
    ctx.set("b", "world");
    assert_eq!(format_expand("#{!=:#{a},#{b}}", &ctx), "1");
    assert_eq!(format_expand("#{!=:#{a},#{a}}", &ctx), "0");
}

#[test]
fn combined_modifiers_in_conditional() {
    let mut ctx = FormatContext::new();
    ctx.set("count", "5");
    ctx.set("limit", "10");
    // Use arithmetic in a conditional
    let tmpl = "#{?#{e|-:#{limit},#{count}},remaining,done}";
    assert_eq!(format_expand(tmpl, &ctx), "remaining");
}

#[test]
fn combined_not_in_conditional() {
    let mut ctx = FormatContext::new();
    ctx.set("zoomed", "0");
    assert_eq!(format_expand("#{?#{!zoomed},normal,ZOOM}", &ctx), "normal");
    ctx.set("zoomed", "1");
    assert_eq!(format_expand("#{?#{!zoomed},normal,ZOOM}", &ctx), "ZOOM");
}

// --- strftime tests ---

#[test]
fn strftime_hm() {
    // 2024-01-15 14:30:00 UTC = 1705329000
    let result = strftime_expand_with_timestamp("test %H:%M done", 1705329000, 0);
    // The exact output depends on local timezone, but format should be NN:NN
    assert!(result.starts_with("test "));
    assert!(result.ends_with(" done"));
    // Should contain a colon-separated time
    let mid = &result[5..result.len() - 5];
    assert!(mid.contains(':'), "expected HH:MM, got: {mid}");
}

#[test]
fn strftime_date_codes() {
    // Use a known timestamp and verify structure
    let result = strftime_expand_with_timestamp("%d-%b-%y", 1705329000, 0);
    // Should be like "15-Jan-24" (in UTC) or similar in local time
    let parts: Vec<&str> = result.split('-').collect();
    assert_eq!(parts.len(), 3, "expected dd-Mon-yy, got: {result}");
    assert_eq!(parts[0].len(), 2, "day should be 2 chars: {result}");
    assert_eq!(parts[1].len(), 3, "month should be 3 chars: {result}");
    assert_eq!(parts[2].len(), 2, "year should be 2 chars: {result}");
}

#[test]
fn strftime_no_codes() {
    assert_eq!(strftime_expand_with_timestamp("no codes here", 0, 0), "no codes here");
}

#[test]
fn strftime_literal_percent() {
    assert_eq!(strftime_expand_with_timestamp("100%%", 0, 0), "100%");
}

#[test]
fn strftime_full_status_right() {
    // Simulate the default status-right after format_expand has run
    let input = "\"some_title\" %H:%M %d-%b-%y";
    let result = strftime_expand_with_timestamp(input, 1705329000, 0);
    assert!(result.starts_with("\"some_title\" "));
    assert!(!result.contains("%H"));
    assert!(!result.contains("%M"));
    assert!(!result.contains("%d"));
    assert!(!result.contains("%b"));
    assert!(!result.contains("%y"));
}

#[test]
fn strftime_compound_codes() {
    let result = strftime_expand_with_timestamp("%R %F", 1705329000, 0);
    // %R = HH:MM, %F = YYYY-MM-DD
    assert!(result.contains(':'), "%%R should produce HH:MM");
    assert!(result.contains('-'), "%%F should produce YYYY-MM-DD");
}

#[test]
fn strftime_weekday_and_month_names() {
    let result = strftime_expand_with_timestamp("%a %A %b %B", 1705329000, 0);
    // Should contain day/month names, no % codes left
    assert!(!result.contains('%'));
    // Should have 4 space-separated tokens
    let parts: Vec<&str> = result.split_whitespace().collect();
    assert_eq!(parts.len(), 4, "expected 4 tokens, got: {result}");
}

// --- unix_to_local tests ---

/// Helper: compute unix_to_local in UTC (offset=0) for known-answer tests.
/// We use TZ=UTC timestamps so results are deterministic regardless of machine TZ.
fn unix_to_utc(timestamp: i64) -> (i32, u32, u32, u32, u32, u32, u32, u32) {
    // unix_to_local applies local offset. To test the civil algorithm in isolation,
    // use a timestamp where we know the local offset and compensate.
    // Simpler: just verify properties via strftime_expand_with_timestamp
    // and test the algorithm via known dates.
    unix_to_local(timestamp, 0)
}

#[test]
fn unix_to_local_components_in_range() {
    // Use current-ish timestamp
    let (year, month, day, hour, minute, second, weekday, yday) = unix_to_utc(1705329000);
    assert!((2020..=2030).contains(&year), "year={year}");
    assert!((1..=12).contains(&month), "month={month}");
    assert!((1..=31).contains(&day), "day={day}");
    assert!(hour <= 23, "hour={hour}");
    assert!(minute <= 59, "minute={minute}");
    assert!(second <= 59, "second={second}");
    assert!(weekday <= 6, "weekday={weekday}");
    assert!((1..=366).contains(&yday), "yday={yday}");
}

#[test]
fn unix_to_local_epoch() {
    let (year, _month, _day, _hour, _minute, second, _weekday, _yday) = unix_to_utc(0);
    // Epoch is 1970-01-01 00:00:00 UTC. Local time varies by TZ.
    assert!((1969..=1970).contains(&year), "year={year}");
    assert_eq!(second, 0);
}

#[test]
fn month_name_helpers() {
    assert_eq!(month_abbrev(1), "Jan");
    assert_eq!(month_abbrev(6), "Jun");
    assert_eq!(month_abbrev(12), "Dec");
    assert_eq!(month_abbrev(0), "???");
    assert_eq!(month_abbrev(13), "???");

    assert_eq!(month_full(1), "January");
    assert_eq!(month_full(7), "July");
    assert_eq!(month_full(12), "December");
    assert_eq!(month_full(0), "???");
}

#[test]
fn weekday_name_helpers() {
    assert_eq!(weekday_abbrev(0), "Sun");
    assert_eq!(weekday_abbrev(4), "Thu");
    assert_eq!(weekday_abbrev(6), "Sat");
    assert_eq!(weekday_abbrev(7), "???");

    assert_eq!(weekday_full(0), "Sunday");
    assert_eq!(weekday_full(3), "Wednesday");
    assert_eq!(weekday_full(6), "Saturday");
    assert_eq!(weekday_full(7), "???");
}

#[test]
fn strftime_ampm() {
    // Test %p and %P for AM/PM
    let midnight = strftime_expand_with_timestamp("%p %P", 0, 0);
    // In UTC, 0 = midnight = AM. In local TZ it varies.
    assert!(!midnight.contains('%'));
    assert!(midnight.contains("AM") || midnight.contains("PM"));
    assert!(midnight.contains("am") || midnight.contains("pm"));
}

#[test]
fn strftime_12hour() {
    // %I = zero-padded 12-hour, %l = space-padded 12-hour
    let result = strftime_expand_with_timestamp("%I %l", 1705329000, 0);
    assert!(!result.contains('%'));
    let parts: Vec<&str> = result.split_whitespace().collect();
    assert_eq!(parts.len(), 2, "expected 2 tokens, got: {result}");
    // Both should be parseable as numbers 1-12
    for p in parts {
        let n: u32 = p.parse().unwrap_or(0);
        assert!((1..=12).contains(&n), "12-hour value out of range: {p}");
    }
}

#[test]
fn strftime_newline_tab() {
    assert_eq!(strftime_expand_with_timestamp("%n%t", 0, 0), "\n\t");
}

#[test]
fn strftime_r_format() {
    // %r = 12-hour time with AM/PM (e.g., "02:30:00 PM")
    let result = strftime_expand_with_timestamp("%r", 1705329000, 0);
    assert!(
        result.contains("AM") || result.contains("PM"),
        "%%r should include AM/PM: {result}"
    );
    // Should have two colons (HH:MM:SS)
    assert_eq!(result.matches(':').count(), 2, "%%r should have HH:MM:SS: {result}");
}

#[test]
fn strftime_full_time_t() {
    // %T = HH:MM:SS
    let result = strftime_expand_with_timestamp("%T", 1705329000, 0);
    assert_eq!(result.matches(':').count(), 2, "%%T should be HH:MM:SS: {result}");
    assert_eq!(result.len(), 8, "%%T should be 8 chars: {result}");
}

#[test]
fn strftime_j_day_of_year() {
    let result = strftime_expand_with_timestamp("%j", 1705329000, 0);
    let n: u32 = result.parse().unwrap_or(0);
    assert!((1..=366).contains(&n), "%%j should be day of year: {result}");
    assert_eq!(result.len(), 3, "%%j should be zero-padded to 3 chars: {result}");
}

#[test]
fn strftime_date_format_d() {
    // %D = MM/DD/YY
    let result = strftime_expand_with_timestamp("%D", 1705329000, 0);
    let parts: Vec<&str> = result.split('/').collect();
    assert_eq!(parts.len(), 3, "%%D should be MM/DD/YY: {result}");
}

#[test]
fn strftime_unknown_code_passthrough() {
    // Unknown codes like %Q should pass through as %Q
    let result = strftime_expand_with_timestamp("%Q", 0, 0);
    assert_eq!(result, "%Q");
}

#[test]
fn strftime_trailing_percent() {
    // A lone % at the end should pass through
    let result = strftime_expand_with_timestamp("end%", 0, 0);
    assert_eq!(result, "end%");
}

// --- @user_option lookup tests ---

#[test]
fn user_option_simple_lookup() {
    let mut ctx = FormatContext::new();
    ctx.set_user_option("@thm_bg", "#1e1e2e");
    assert_eq!(format_expand("#{@thm_bg}", &ctx), "#1e1e2e");
}

#[test]
fn user_option_missing_returns_empty() {
    let mut ctx = FormatContext::new();
    // no user options
    assert_eq!(format_expand("#{@unknown}", &ctx), "");
}

#[test]
fn user_option_in_conditional() {
    let mut ctx = FormatContext::new();
    ctx.set_user_option("@catppuccin_flavor", "mocha");
    let result = format_expand("#{?#{==:#{@catppuccin_flavor},mocha},dark,light}", &ctx);
    assert_eq!(result, "dark");
}

#[test]
fn user_option_in_double_expansion() {
    let mut ctx = FormatContext::new();
    ctx.set("session_name", "work");
    ctx.set_user_option("@catppuccin_status_session", "S: #{session_name}");
    // E: should first resolve @catppuccin_status_session, then expand the result
    let result = format_expand("#{E:@catppuccin_status_session}", &ctx);
    assert_eq!(result, "S: work");
}

#[test]
fn user_option_in_truncation() {
    let mut ctx = FormatContext::new();
    ctx.set_user_option("@long_value", "abcdefghij");
    assert_eq!(format_expand("#{=5:@long_value}", &ctx), "abcde");
}

#[test]
fn user_option_precedence_over_vars() {
    // If both a context var and an option lookup exist, context var wins
    let mut ctx = FormatContext::new();
    ctx.set("@foo", "from_context");
    ctx.set_user_option("@foo", "from_options");
    // Context var should take precedence
    assert_eq!(format_expand("#{@foo}", &ctx), "from_context");
}

#[test]
fn user_option_without_callback() {
    // No option_lookup set — @-prefixed vars just return empty
    let ctx = FormatContext::new();
    assert_eq!(format_expand("#{@anything}", &ctx), "");
}

#[test]
fn user_option_nested_in_comparison() {
    let mut ctx = FormatContext::new();
    ctx.set_user_option("@version", "3.4");
    assert_eq!(format_expand("#{>=:#{@version},3.4}", &ctx), "1");
    assert_eq!(format_expand("#{>=:#{@version},3.5}", &ctx), "0");
}

#[test]
fn user_option_in_substitution() {
    let mut ctx = FormatContext::new();
    ctx.set_user_option("@name", "hello-world");
    assert_eq!(format_expand("#{s/-/_:#{@name}}", &ctx), "hello_world");
}

// --- dirname / basename modifier tests ---

#[test]
fn dirname_simple() {
    let mut ctx = FormatContext::new();
    ctx.set("current_file", "/home/user/.config/tmux/plugins/catppuccin/catppuccin.conf");
    assert_eq!(
        format_expand("#{d:current_file}", &ctx),
        "/home/user/.config/tmux/plugins/catppuccin"
    );
}

#[test]
fn dirname_root() {
    let mut ctx = FormatContext::new();
    ctx.set("path", "/file.txt");
    assert_eq!(format_expand("#{d:path}", &ctx), "/");
}

#[test]
fn dirname_no_parent() {
    let mut ctx = FormatContext::new();
    ctx.set("path", "file.txt");
    assert_eq!(format_expand("#{d:path}", &ctx), "");
}

#[test]
fn dirname_empty_var() {
    let ctx = FormatContext::new();
    assert_eq!(format_expand("#{d:nonexistent}", &ctx), "");
}

#[test]
fn basename_simple() {
    let mut ctx = FormatContext::new();
    ctx.set("current_file", "/home/user/.config/tmux/catppuccin.conf");
    assert_eq!(format_expand("#{b:current_file}", &ctx), "catppuccin.conf");
}

#[test]
fn basename_no_dir() {
    let mut ctx = FormatContext::new();
    ctx.set("path", "file.txt");
    assert_eq!(format_expand("#{b:path}", &ctx), "file.txt");
}

#[test]
fn dirname_in_source_f_pattern() {
    // Catppuccin pattern: source -F "#{d:current_file}/themes/mocha.conf"
    let mut ctx = FormatContext::new();
    ctx.set("current_file", "/opt/plugins/catppuccin/catppuccin_tmux.conf");
    assert_eq!(
        format_expand("#{d:current_file}/themes/mocha.conf", &ctx),
        "/opt/plugins/catppuccin/themes/mocha.conf"
    );
}

#[test]
fn dirname_nested_expansion() {
    // #{d:current_file} inside a larger format string
    let mut ctx = FormatContext::new();
    ctx.set("current_file", "/a/b/c.conf");
    ctx.set("flavor", "mocha");
    assert_eq!(format_expand("#{d:current_file}/#{flavor}.conf", &ctx), "/a/b/mocha.conf");
}

#[test]
fn arithmetic_min_divided_by_minus_one_is_refused() {
    let ctx = FormatContext::new();
    assert!(rmux::format::try_format_expand("#{e|/:-9223372036854775808,-1}", &ctx).is_none());
    assert_eq!(format_expand("#{e|/:-9223372036854775808,1}", &ctx), "-9223372036854775808");
}

#[test]
fn arithmetic_unknown_operator_falls_back_to_lookup() {
    let mut ctx = FormatContext::new();
    ctx.set("e|^:1,2", "looked up");
    assert_eq!(format_expand("#{e|^:1,2}", &ctx), "looked up");
}

#[test]
fn arithmetic_wraps() {
    let ctx = FormatContext::new();
    assert_eq!(format_expand("#{e|+:9223372036854775807,1}", &ctx), "-9223372036854775808");
    assert_eq!(format_expand("#{e|%:-7,2}", &ctx), "-1");
    assert_eq!(format_expand("#{e|/:-7,2}", &ctx), "-3");
}

#[test]
fn regex_search_into_multibyte_text_is_refused() {
    let ctx = FormatContext::new();
    assert!(rmux::format::try_format_expand("#{m/r:z$,aébc}", &ctx).is_none());
    assert_eq!(format_expand("#{m/r:a.,aébc}", &ctx), "1");
}

#[test]
fn substitution_with_empty_pattern_interleaves() {
    let ctx = FormatContext::new();
    assert_eq!(format_expand("#{s//-:ab}", &ctx), "-a-b-");
}

#[test]
fn truncation_of_negative_width_keeps_tail() {
    let mut ctx = FormatContext::new();
    ctx.set("v", "abcdef");
    assert_eq!(format_expand("#{=-2:v}", &ctx), "ef");
    assert_eq!(format_expand("#{=+3:v}", &ctx), "abc");
}

#[test]
fn strftime_known_utc_values() {
    // 2024-01-15 14:30:00 UTC, a Monday
    let r = strftime_expand_with_timestamp("%Y-%m-%d %H:%M:%S %a %j %e %k %l %p", 1705329000, 0);
    assert_eq!(r, "2024-01-15 14:30:00 Mon 015 15 14  2 PM");
    // One hour ahead of UTC
    assert_eq!(strftime_expand_with_timestamp("%H", 1705329000, 3600), "15");
    // Before the epoch
    assert_eq!(strftime_expand_with_timestamp("%F %T", -1, 0), "1969-12-31 23:59:59");
}

#[test]
fn unix_to_local_leap_day() {
    // 2024-02-29 12:00:00 UTC
    let (year, month, day, _, _, _, _, yday) = unix_to_local(1709208000, 0);
    assert_eq!((year, month, day, yday), (2024, 2, 29, 60));
}

#[test]
fn list_vars_sorted_by_name() {
    let mut ctx = FormatContext::new();
    ctx.set("b", "2");
    ctx.set("a", "1");
    ctx.set("c", "3");
    ctx.set("a", "one");
    assert_eq!(ctx.list_vars(), vec![("a", "one"), ("b", "2"), ("c", "3")]);
}

#[test]
fn strftime_expand_now_fills_codes() {
    let out = strftime_expand("%Y-%m-%d %H:%M", 0).unwrap();
    assert_eq!(out.len(), 16);
    assert!(!out.contains('%'));
    assert_eq!(strftime_expand("plain", 3600).unwrap(), "plain");
}
