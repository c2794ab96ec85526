use rmux::config::{parse_config_lines, parse_config_with_context, tokenize_command, ConfigContext};


#[test]
fn empty_and_comments() {
    let input = "\n# comment\n  \n  # another\n";
    assert_eq!(parse_config_lines(input), Vec::<Vec<String>>::new());
}

#[test]
fn simple_command() {
    let input = "set-option -g history-limit 5000\n";
    let cmds = parse_config_lines(input);
    assert_eq!(cmds.len(), 1);
    assert_eq!(cmds[0], vec!["set-option", "-g", "history-limit", "5000"]);
}

#[test]
fn quoted_strings() {
    let input = r#"set-option -g status-left "[#S] ""#;
    let cmds = parse_config_lines(input);
    assert_eq!(cmds.len(), 1);
    assert_eq!(cmds[0], vec!["set-option", "-g", "status-left", "[#S] "]);
}

#[test]
fn single_quoted() {
    let input = "bind-key -T prefix '\"' split-window\n";
    let cmds = parse_config_lines(input);
    assert_eq!(cmds.len(), 1);
    assert_eq!(cmds[0], vec!["bind-key", "-T", "prefix", "\"", "split-window"]);
}

#[test]
fn semicolon_separator() {
    let input = "set -g mouse on ; set -g status on\n";
    let cmds = parse_config_lines(input);
    assert_eq!(cmds.len(), 2);
    assert_eq!(cmds[0], vec!["set", "-g", "mouse", "on"]);
    assert_eq!(cmds[1], vec!["set", "-g", "status", "on"]);
}

#[test]
fn inline_comment() {
    let input = "set -g mouse on # enable mouse\n";
    let cmds = parse_config_lines(input);
    assert_eq!(cmds.len(), 1);
    assert_eq!(cmds[0], vec!["set", "-g", "mouse", "on"]);
}

#[test]
fn multiple_lines() {
    let input = "new-session -d -s main\nbind c new-window\n# done\n";
    let cmds = parse_config_lines(input);
    assert_eq!(cmds.len(), 2);
}

#[test]
fn backslash_escaping() {
    // Backslash followed by special characters in double quotes
    let input = r#"set -g foo "a\"b\\c""#;
    let cmds = parse_config_lines(input);
    assert_eq!(cmds.len(), 1);
    assert_eq!(cmds[0], vec!["set", "-g", "foo", "a\"b\\c"]);
}

#[test]
fn newline_escape_in_double_quotes() {
    let input = r#"set -g foo "line1\nline2""#;
    let cmds = parse_config_lines(input);
    assert_eq!(cmds.len(), 1);
    assert_eq!(cmds[0], vec!["set", "-g", "foo", "line1\nline2"]);
}

#[test]
fn tab_escape_in_double_quotes() {
    let input = r#"set -g foo "col1\tcol2""#;
    let cmds = parse_config_lines(input);
    assert_eq!(cmds.len(), 1);
    assert_eq!(cmds[0], vec!["set", "-g", "foo", "col1\tcol2"]);
}

#[test]
fn empty_quoted_string() {
    // Empty quoted strings are preserved as empty string arguments (tmux compat).
    let input = r#"set -g foo """#;
    let cmds = parse_config_lines(input);
    assert_eq!(cmds.len(), 1);
    assert_eq!(cmds[0], vec!["set", "-g", "foo", ""]);
}

#[test]
fn consecutive_semicolons() {
    // ";;" should produce two empty segments, both skipped
    let input = ";;";
    let cmds = parse_config_lines(input);
    assert_eq!(cmds.len(), 0);
}

#[test]
fn whitespace_only_line() {
    let input = "   \t  \n  \t\t  \n";
    let cmds = parse_config_lines(input);
    assert_eq!(cmds.len(), 0);
}

#[test]
fn trailing_semicolon() {
    let input = "set -g foo; ";
    let cmds = parse_config_lines(input);
    assert_eq!(cmds.len(), 1);
    assert_eq!(cmds[0], vec!["set", "-g", "foo"]);
}

#[test]
fn mixed_quotes() {
    let input = r#"set -g foo "hello" 'world' "it's""#;
    let cmds = parse_config_lines(input);
    assert_eq!(cmds.len(), 1);
    assert_eq!(cmds[0], vec!["set", "-g", "foo", "hello", "world", "it's"]);
}

#[test]
fn escaped_semicolon_not_split() {
    // \; in tmux means "next command bound to same key", not a command separator
    let input = r#"bind r source-file foo \; display "Reloaded!""#;
    let cmds = parse_config_lines(input);
    assert_eq!(cmds.len(), 1);
    assert_eq!(cmds[0], vec!["bind", "r", "source-file", "foo", ";", "display", "Reloaded!"]);
}

#[test]
fn empty_single_quoted_string() {
    let input = "set -g foo ''";
    let cmds = parse_config_lines(input);
    assert_eq!(cmds.len(), 1);
    assert_eq!(cmds[0], vec!["set", "-g", "foo", ""]);
}

// --- Line continuation tests ---

#[test]
fn line_continuation_basic() {
    let input = "set -g status-right \\\n\"hello world\"";
    let cmds = parse_config_lines(input);
    assert_eq!(cmds.len(), 1);
    assert_eq!(cmds[0], vec!["set", "-g", "status-right", "hello world"]);
}

#[test]
fn line_continuation_multiple() {
    let input = "set -g \\\nstatus-right \\\n\"hello\"";
    let cmds = parse_config_lines(input);
    assert_eq!(cmds.len(), 1);
    assert_eq!(cmds[0], vec!["set", "-g", "status-right", "hello"]);
}

#[test]
fn line_continuation_trailing_at_eof() {
    let input = "set -g foo\\";
    let cmds = parse_config_lines(input);
    assert_eq!(cmds.len(), 1);
    // Trailing backslash at EOF is just consumed
    assert_eq!(cmds[0], vec!["set", "-g", "foo"]);
}

#[test]
fn double_backslash_not_continuation() {
    // \\\\ at end of line is an escaped backslash, not line continuation
    let input = "set -g foo bar\\\\";
    let cmds = parse_config_lines(input);
    assert_eq!(cmds.len(), 1);
    // The \\\\ in the raw string is \\, which tokenize_command handles
}

// --- %if / %elif / %else / %endif tests ---

#[test]
fn if_true_includes_body() {
    let input = "%if 1\nset -g foo bar\n%endif\n";
    let mut ctx = ConfigContext::new();
    ctx.set_format_expand(std::string::ToString::to_string);
    let cmds = parse_config_with_context(input, &mut ctx);
    assert_eq!(cmds.len(), 1);
    assert_eq!(cmds[0], vec!["set", "-g", "foo", "bar"]);
}

#[test]
fn if_false_skips_body() {
    let input = "%if 0\nset -g foo bar\n%endif\n";
    let mut ctx = ConfigContext::new();
    ctx.set_format_expand(std::string::ToString::to_string);
    let cmds = parse_config_with_context(input, &mut ctx);
    assert!(cmds.is_empty());
}

#[test]
fn if_false_else_includes() {
    let input = "%if 0\nset -g foo bar\n%else\nset -g baz qux\n%endif\n";
    let mut ctx = ConfigContext::new();
    ctx.set_format_expand(std::string::ToString::to_string);
    let cmds = parse_config_with_context(input, &mut ctx);
    assert_eq!(cmds.len(), 1);
    assert_eq!(cmds[0], vec!["set", "-g", "baz", "qux"]);
}

#[test]
fn if_true_else_skips() {
    let input = "%if 1\nset -g foo bar\n%else\nset -g baz qux\n%endif\n";
    let mut ctx = ConfigContext::new();
    ctx.set_format_expand(std::string::ToString::to_string);
    let cmds = parse_config_with_context(input, &mut ctx);
    assert_eq!(cmds.len(), 1);
    assert_eq!(cmds[0], vec!["set", "-g", "foo", "bar"]);
}

#[test]
fn elif_chain() {
    let input = "\
%if 0
set -g a 1
%elif 0
set -g b 2
%elif 1
set -g c 3
%else
set -g d 4
%endif
";
    let mut ctx = ConfigContext::new();
    ctx.set_format_expand(std::string::ToString::to_string);
    let cmds = parse_config_with_context(input, &mut ctx);
    assert_eq!(cmds.len(), 1);
    assert_eq!(cmds[0], vec!["set", "-g", "c", "3"]);
}

#[test]
fn elif_first_match_wins() {
    let input = "\
%if 0
set -g a 1
%elif 1
set -g b 2
%elif 1
set -g c 3
%endif
";
    let mut ctx = ConfigContext::new();
    ctx.set_format_expand(std::string::ToString::to_string);
    let cmds = parse_config_with_context(input, &mut ctx);
    assert_eq!(cmds.len(), 1);
    assert_eq!(cmds[0], vec!["set", "-g", "b", "2"]);
}

#[test]
fn nested_if() {
    let input = "\
%if 1
%if 1
set -g inner yes
%endif
set -g outer yes
%endif
";
    let mut ctx = ConfigContext::new();
    ctx.set_format_expand(std::string::ToString::to_string);
    let cmds = parse_config_with_context(input, &mut ctx);
    assert_eq!(cmds.len(), 2);
    assert_eq!(cmds[0], vec!["set", "-g", "inner", "yes"]);
    assert_eq!(cmds[1], vec!["set", "-g", "outer", "yes"]);
}

#[test]
fn nested_if_outer_false() {
    let input = "\
%if 0
%if 1
set -g inner yes
%endif
set -g outer yes
%endif
";
    let mut ctx = ConfigContext::new();
    ctx.set_format_expand(std::string::ToString::to_string);
    let cmds = parse_config_with_context(input, &mut ctx);
    assert!(cmds.is_empty());
}

#[test]
fn if_with_format_expansion() {
    // Simulate #{==:mocha,mocha} -> "1"
    let input = "%if \"#{==:mocha,mocha}\"\nset -g flavor mocha\n%endif\n";
    let mut ctx = ConfigContext::new();
    ctx.set_format_expand(|s| {
        if s == "#{==:mocha,mocha}" { "1".to_string() } else { s.to_string() }
    });
    let cmds = parse_config_with_context(input, &mut ctx);
    assert_eq!(cmds.len(), 1);
    assert_eq!(cmds[0], vec!["set", "-g", "flavor", "mocha"]);
}

#[test]
fn if_with_format_expansion_false() {
    // Simulate #{==:mocha,latte} -> ""
    let input = "%if \"#{==:mocha,latte}\"\nset -g flavor wrong\n%endif\n";
    let mut ctx = ConfigContext::new();
    ctx.set_format_expand(
        |s| {
            if s == "#{==:mocha,latte}" { String::new() } else { s.to_string() }
        },
    );
    let cmds = parse_config_with_context(input, &mut ctx);
    assert!(cmds.is_empty());
}

#[test]
fn if_without_format_expander() {
    // Without a format expander, non-empty expressions are true
    let input = "%if anything\nset -g foo bar\n%endif\n";
    let cmds = parse_config_lines(input);
    assert_eq!(cmds.len(), 1);
}

// --- %hidden tests ---

#[test]
fn hidden_basic() {
    let input = "%hidden MODULE_NAME=\"session\"\nset -g @name ${MODULE_NAME}";
    let mut ctx = ConfigContext::new();
    let cmds = parse_config_with_context(input, &mut ctx);
    assert_eq!(cmds.len(), 1);
    assert_eq!(cmds[0], vec!["set", "-g", "@name", "session"]);
    assert_eq!(ctx.hidden_vars.get("MODULE_NAME").unwrap(), "session");
}

#[test]
fn hidden_single_quoted() {
    // ${VAR} expands before tokenization, so spaces in values cause word splitting
    // (matching tmux). To preserve spaces, the config must quote the expansion.
    let input = "%hidden FOO='bar baz'\nset -g key \"${FOO}\"";
    let mut ctx = ConfigContext::new();
    let cmds = parse_config_with_context(input, &mut ctx);
    assert_eq!(cmds.len(), 1);
    assert_eq!(cmds[0], vec!["set", "-g", "key", "bar baz"]);
}

#[test]
fn hidden_unquoted() {
    let input = "%hidden COLOR=blue\nset -g @color ${COLOR}";
    let mut ctx = ConfigContext::new();
    let cmds = parse_config_with_context(input, &mut ctx);
    assert_eq!(cmds.len(), 1);
    assert_eq!(cmds[0], vec!["set", "-g", "@color", "blue"]);
}

#[test]
fn hidden_inside_false_if_not_set() {
    // ${FOO} expands to empty string since %hidden was inside false block.
    // Without quotes around ${FOO}, empty expansion disappears entirely.
    let input = "%if 0\n%hidden FOO=\"bar\"\n%endif\nset -g @v \"${FOO}\"";
    let mut ctx = ConfigContext::new();
    ctx.set_format_expand(std::string::ToString::to_string);
    let cmds = parse_config_with_context(input, &mut ctx);
    assert_eq!(cmds.len(), 1);
    assert_eq!(cmds[0], vec!["set", "-g", "@v", ""]);
}

#[test]
fn hidden_inside_true_if_set() {
    let input = "%if 1\n%hidden FOO=\"bar\"\n%endif\nset -g @v ${FOO}";
    let mut ctx = ConfigContext::new();
    ctx.set_format_expand(std::string::ToString::to_string);
    let cmds = parse_config_with_context(input, &mut ctx);
    assert_eq!(cmds.len(), 1);
    assert_eq!(cmds[0], vec!["set", "-g", "@v", "bar"]);
}

// --- ${VAR} interpolation tests ---

#[test]
fn var_interpolation_in_option_name() {
    // Catppuccin pattern: @catppuccin_${MODULE_NAME}_color
    let input = "%hidden MODULE_NAME=\"session\"\nset -g @catppuccin_${MODULE_NAME}_color blue";
    let mut ctx = ConfigContext::new();
    let cmds = parse_config_with_context(input, &mut ctx);
    assert_eq!(cmds.len(), 1);
    assert_eq!(cmds[0], vec!["set", "-g", "@catppuccin_session_color", "blue"]);
}

#[test]
fn var_interpolation_in_value() {
    let input = "%hidden PREFIX=\"hello\"\nset -g foo \"${PREFIX} world\"";
    let mut ctx = ConfigContext::new();
    let cmds = parse_config_with_context(input, &mut ctx);
    assert_eq!(cmds.len(), 1);
    assert_eq!(cmds[0], vec!["set", "-g", "foo", "hello world"]);
}

#[test]
fn var_interpolation_multiple() {
    let input = "%hidden A=\"x\"\n%hidden B=\"y\"\nset -g foo ${A}-${B}";
    let mut ctx = ConfigContext::new();
    let cmds = parse_config_with_context(input, &mut ctx);
    assert_eq!(cmds.len(), 1);
    assert_eq!(cmds[0], vec!["set", "-g", "foo", "x-y"]);
}

#[test]
fn var_interpolation_undefined_expands_empty() {
    // Without quotes, empty expansion disappears. With quotes, preserved as empty arg.
    let input = "set -g foo \"${UNDEFINED_VAR_12345}\"";
    let mut ctx = ConfigContext::new();
    let cmds = parse_config_with_context(input, &mut ctx);
    assert_eq!(cmds.len(), 1);
    assert_eq!(cmds[0], vec!["set", "-g", "foo", ""]);
}

#[test]
fn var_interpolation_env_fallback() {
    // Falls back to the context's environment table
    let input = "set -g foo ${RMUX_TEST_VAR_P1}";
    let mut ctx = ConfigContext::new();
    ctx.env_vars.insert("RMUX_TEST_VAR_P1".to_string(), "from_env".to_string());
    let cmds = parse_config_with_context(input, &mut ctx);
    assert_eq!(cmds.len(), 1);
    assert_eq!(cmds[0], vec!["set", "-g", "foo", "from_env"]);
}

#[test]
fn var_interpolation_hidden_takes_precedence() {
    let input = "%hidden RMUX_TEST_VAR_P1B=\"from_hidden\"\nset -g foo ${RMUX_TEST_VAR_P1B}";
    let mut ctx = ConfigContext::new();
    ctx.env_vars.insert("RMUX_TEST_VAR_P1B".to_string(), "from_env".to_string());
    let cmds = parse_config_with_context(input, &mut ctx);
    assert_eq!(cmds.len(), 1);
    assert_eq!(cmds[0], vec!["set", "-g", "foo", "from_hidden"]);
}

#[test]
fn var_in_hidden_value() {
    // ${VAR} inside a %hidden value should also expand
    let input = "%hidden A=\"hello\"\n%hidden B=\"${A} world\"\nset -g foo \"${B}\"";
    let mut ctx = ConfigContext::new();
    let cmds = parse_config_with_context(input, &mut ctx);
    assert_eq!(cmds.len(), 1);
    assert_eq!(cmds[0], vec!["set", "-g", "foo", "hello world"]);
}

// --- Catppuccin-style integration tests ---

#[test]
fn catppuccin_module_pattern() {
    // Simulates catppuccin's status module pattern
    let input = "\
%hidden MODULE_NAME=\"session\"
%hidden COLOR=\"blue\"
set -ogq @catppuccin_${MODULE_NAME}_color \"${COLOR}\"
set -ogq @catppuccin_${MODULE_NAME}_text \" #{${MODULE_NAME}_name}\"
";
    let mut ctx = ConfigContext::new();
    let cmds = parse_config_with_context(input, &mut ctx);
    assert_eq!(cmds.len(), 2);
    assert_eq!(cmds[0], vec!["set", "-ogq", "@catppuccin_session_color", "blue"]);
    assert_eq!(cmds[1], vec!["set", "-ogq", "@catppuccin_session_text", " #{session_name}"]);
}

#[test]
fn catppuccin_conditional_pattern() {
    // Simulates catppuccin's %if for feature detection
    let input = "\
%if \"#{>=:#{version},3.4}\"
set -g option_a on
%else
set -g option_a off
%endif
";
    let mut ctx = ConfigContext::new();
    ctx.set_format_expand(|s| {
        // Simulate: version is 3.6, so #{>=:3.6,3.4} is "1"
        if s.contains("#{>=:") { "1".to_string() } else { s.to_string() }
    });
    let cmds = parse_config_with_context(input, &mut ctx);
    assert_eq!(cmds.len(), 1);
    assert_eq!(cmds[0], vec!["set", "-g", "option_a", "on"]);
}

#[test]
fn catppuccin_full_chain() {
    // Simulates the full catppuccin pattern with conditionals + hidden + var expansion
    let input = "\
%hidden MODULE_NAME=\"session\"
%if 1
set -ogq @catppuccin_${MODULE_NAME}_icon \"icon\"
%hidden MODULE_ICON=\"icon\"
%else
%hidden MODULE_ICON=\"default\"
%endif
set -ogq @catppuccin_${MODULE_NAME}_final_icon \"${MODULE_ICON}\"
";
    let mut ctx = ConfigContext::new();
    ctx.set_format_expand(std::string::ToString::to_string);
    let cmds = parse_config_with_context(input, &mut ctx);
    assert_eq!(cmds.len(), 2);
    assert_eq!(cmds[0], vec!["set", "-ogq", "@catppuccin_session_icon", "icon"]);
    assert_eq!(cmds[1], vec!["set", "-ogq", "@catppuccin_session_final_icon", "icon"]);
}

// --- Line continuation combined with other features ---

#[test]
fn line_continuation_with_var_expansion() {
    let input = "%hidden X=\"hello\"\nset -g foo \\\n${X}";
    let mut ctx = ConfigContext::new();
    let cmds = parse_config_with_context(input, &mut ctx);
    assert_eq!(cmds.len(), 1);
    assert_eq!(cmds[0], vec!["set", "-g", "foo", "hello"]);
}

#[test]
fn tokenize_plain_backslash_takes_next_char() {
    assert_eq!(tokenize_command("a\\ b c"), vec!["a b", "c"]);
}

#[test]
fn tokenize_single_quotes_keep_backslashes() {
    assert_eq!(tokenize_command("'a\\nb' x"), vec!["a\\nb", "x"]);
}

#[test]
fn tokenize_unknown_escape_in_double_quotes_keeps_backslash() {
    assert_eq!(tokenize_command("\"a\\qb\""), vec!["a\\qb"]);
}

#[test]
fn crlf_lines_are_split() {
    let cmds = parse_config_lines("set a 1\r\nset b 2\r\n");
    assert_eq!(cmds, vec![vec!["set", "a", "1"], vec!["set", "b", "2"]]);
}

#[test]
fn unclosed_var_reference_stays_literal() {
    let cmds = parse_config_lines("set foo ${BAR");
    assert_eq!(cmds, vec![vec!["set", "foo", "${BAR"]]);
}

#[test]
fn empty_var_reference_keeps_dollar_brace() {
    let cmds = parse_config_lines("set foo a${}b");
    assert_eq!(cmds, vec![vec!["set", "foo", "a${b"]]);
}

#[test]
fn hidden_without_equals_is_ignored() {
    let mut ctx = ConfigContext::new();
    let cmds = parse_config_with_context("%hidden NOVALUE\nset x ${NOVALUE}", &mut ctx);
    assert_eq!(cmds, vec![vec!["set", "x"]]);
    assert!(ctx.hidden_vars.get("NOVALUE").is_none());
}

#[test]
fn stray_endif_and_else_are_ignored() {
    let cmds = parse_config_lines("%endif\n%else\nset a b\n");
    assert_eq!(cmds, vec![vec!["set", "a", "b"]]);
}

#[test]
fn elif_not_evaluated_after_taken_branch() {
    let mut ctx = ConfigContext::new();
    ctx.set_format_expand(|s| if s == "yes" { "1".to_string() } else { panic!("evaluated {s}") });
    let cmds = parse_config_with_context("%if yes\nset a 1\n%elif other\nset b 2\n%endif\n", &mut ctx);
    assert_eq!(cmds, vec![vec!["set", "a", "1"]]);
}

#[test]
fn many_comment_lines_yield_nothing() {
    let input: String = (0..7).map(|i| format!("# comment {i}\n")).collect();
    assert!(parse_config_lines(&input).is_empty());
}

#[test]
fn two_simple_words_are_one_command() {
    assert_eq!(parse_config_lines("abc xyz"), vec![vec!["abc".to_string(), "xyz".to_string()]]);
}

#[test]
fn if_block_balances_for_each_condition() {
    for (cond, expected) in [("0", 0), ("1", 1), ("true", 1), ("false", 1)] {
        let mut ctx = ConfigContext::new();
        ctx.set_format_expand(std::string::ToString::to_string);
        let input = format!("%if {cond}\nset -g foo bar\n%endif\n");
        assert_eq!(parse_config_with_context(&input, &mut ctx).len(), expected, "condition {cond}");
    }
}

#[test]
fn hidden_value_is_interpolated() {
    let mut ctx = ConfigContext::new();
    let cmds = parse_config_with_context("%hidden MY_VAR=\"value\"\nset -g key ${MY_VAR}", &mut ctx);
    assert_eq!(cmds, vec![vec!["set".to_string(), "-g".to_string(), "key".to_string(), "value".to_string()]]);
    assert_eq!(ctx.hidden_vars.get("MY_VAR").unwrap(), "value");
}
